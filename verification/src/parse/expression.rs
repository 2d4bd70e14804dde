//! Expression trees and their evaluation against a dictionary.

use crate::chem_data::dictionary::{
    BadTypeError, BadTypeErrorView, DataType, Dictionary, UndefinedIdentifierError, Value,
    ValueView,
};
use crate::chem_data::elements::{Element, ElementView};
use crate::chem_data::formulas::MolecularFormula;
use crate::helper::coeff_vec::{coeff_of, lemma_index_of, with_coeff, Num};
use vstd::prelude::*;

pub mod laws;
pub mod model;
pub mod parser;
pub mod sentences;

verus! {

/// An operator that stands between two operands.
#[derive(Debug, Clone, Copy, PartialEq, Eq, Structural)]
pub enum InfixOperator {
    FunctionCall,
    Plus,
    Minus,
    Mul,
    Div,
    Pow,
}

/// A name that stands for a value.
#[derive(Debug, PartialEq)]
pub struct Identifier {
    pub name: String,
}

/// A string written out between double quotes.
#[derive(Debug, PartialEq)]
pub struct StringLiteral {
    pub content: String,
}

/// A whole number written out in digits.
#[derive(Debug, PartialEq)]
pub struct IntegerLiteral {
    pub value: u32,
}

/// A real number written out in digits.
#[derive(Debug, PartialEq)]
pub struct RealLiteral {
    pub value: String,
}

/// Expressions between parentheses, separated by commas.
#[derive(Debug, PartialEq)]
pub struct TupleExpr {
    pub values: Vec<Expression>,
}

/// A named block between braces with a syntax of its own.
#[derive(Debug, PartialEq)]
pub struct SpecialSyntaxExpr {
    pub syntax_name: Identifier,
    pub inner_expr: Box<Expression>,
}

/// Operands with an operator between each two neighbours.
#[derive(Debug, PartialEq)]
pub struct InfixOperationsExpr {
    pub operands: Vec<Expression>,
    pub operators: Vec<InfixOperator>,
}

/// Element symbols and subscripts in a row, and possibly a charge: its sign
/// (`true` is positive) and its magnitude.
#[derive(Debug, PartialEq)]
pub struct MolecularFormulaExpr {
    pub symbols_and_subscripts: Vec<Expression>,
    pub charge: Option<(bool, Box<Expression>)>,
}

/// Subformulas and subscripts in a row, and possibly a charge.
#[derive(Debug, PartialEq)]
pub struct CondensedFormulaExpr {
    pub subformulas_and_subscripts: Vec<Expression>,
    pub charge: Option<(bool, Box<Expression>)>,
}

/// A finished expression tree.
#[derive(Debug, PartialEq)]
pub enum Expression {
    Identifier(Identifier),
    StringLiteral(StringLiteral),
    IntegerLiteral(IntegerLiteral),
    RealLiteral(RealLiteral),
    Tuple(TupleExpr),
    SpecialSyntax(SpecialSyntaxExpr),
    InfixOperations(InfixOperationsExpr),
    MolecularFormula(MolecularFormulaExpr),
    CondensedFormula(CondensedFormulaExpr),
}

/// An expression tree as a mathematical value.
pub enum ExprView {
    Identifier(Seq<char>),
    StringLiteral(Seq<char>),
    IntegerLiteral(u32),
    RealLiteral(Seq<char>),
    Tuple(Seq<ExprView>),
    SpecialSyntax(Seq<char>, Box<ExprView>),
    InfixOperations(Seq<ExprView>, Seq<InfixOperator>),
    MolecularFormula(Seq<ExprView>, Option<(bool, Box<ExprView>)>),
    CondensedFormula(Seq<ExprView>, Option<(bool, Box<ExprView>)>),
}

/// The view of an expression.
pub open spec fn expr_view(e: Expression) -> ExprView
    decreases e,
{
    match e {
        Expression::Identifier(identifier) => ExprView::Identifier(identifier.name@),
        Expression::StringLiteral(literal) => ExprView::StringLiteral(literal.content@),
        Expression::IntegerLiteral(literal) => ExprView::IntegerLiteral(literal.value),
        Expression::RealLiteral(literal) => ExprView::RealLiteral(literal.value@),
        Expression::Tuple(tuple) => ExprView::Tuple(exprs_view(tuple.values@)),
        Expression::SpecialSyntax(special) => ExprView::SpecialSyntax(
            special.syntax_name.name@,
            Box::new(expr_view(*special.inner_expr)),
        ),
        Expression::InfixOperations(infix) => ExprView::InfixOperations(
            exprs_view(infix.operands@),
            infix.operators@,
        ),
        Expression::MolecularFormula(formula) => ExprView::MolecularFormula(
            exprs_view(formula.symbols_and_subscripts@),
            match formula.charge {
                Some((sign, magnitude)) => Some((sign, Box::new(expr_view(*magnitude)))),
                None => None,
            },
        ),
        Expression::CondensedFormula(formula) => ExprView::CondensedFormula(
            exprs_view(formula.subformulas_and_subscripts@),
            match formula.charge {
                Some((sign, magnitude)) => Some((sign, Box::new(expr_view(*magnitude)))),
                None => None,
            },
        ),
    }
}

/// The views of a row of expressions.
pub open spec fn exprs_view(es: Seq<Expression>) -> Seq<ExprView>
    decreases es,
{
    Seq::new(
        es.len(),
        |i: int|
            if 0 <= i < es.len() {
                expr_view(es[i])
            } else {
                ExprView::Tuple(Seq::empty())
            },
    )
}

/// The invariant of an expression tree: every chain of operations in it
/// has one operand more than it has operators.
pub open spec fn well_formed(e: ExprView) -> bool
    decreases e,
{
    match e {
        ExprView::Tuple(values) => all_well_formed(values),
        ExprView::SpecialSyntax(_, inner) => well_formed(*inner),
        ExprView::InfixOperations(operands, operators) => {
            &&& operands.len() == operators.len() + 1
            &&& all_well_formed(operands)
        },
        ExprView::MolecularFormula(parts, charge) => {
            &&& all_well_formed(parts)
            &&& match charge {
                Some((_, magnitude)) => well_formed(*magnitude),
                None => true,
            }
        },
        ExprView::CondensedFormula(parts, charge) => {
            &&& all_well_formed(parts)
            &&& match charge {
                Some((_, magnitude)) => well_formed(*magnitude),
                None => true,
            }
        },
        _ => true,
    }
}

/// Every expression of the row is well formed.
pub open spec fn all_well_formed(es: Seq<ExprView>) -> bool
    decreases es,
{
    forall|i: int| 0 <= i < es.len() ==> well_formed(#[trigger] es[i])
}

/// A row is well formed exactly when each of its expressions is.
pub proof fn lemma_all_well_formed(es: Seq<ExprView>)
    ensures
        all_well_formed(es) <==> forall|i: int| 0 <= i < es.len() ==> well_formed(#[trigger] es[i]),
{
}

impl View for Expression {
    type V = ExprView;

    open spec fn view(&self) -> ExprView {
        expr_view(*self)
    }
}

/// What can go wrong when an expression is evaluated.
#[derive(Debug, PartialEq)]
pub enum EvaluationError<'a> {
    UndefinedIdentifier(UndefinedIdentifierError),
    BadType(BadTypeError<'a>),
    /// The expression is of a sort whose evaluation is not defined, or a
    /// subscript total is beyond what a formula can hold.
    Unsupported,
}

/// An evaluation error as a mathematical value.
pub enum EvalErrorView {
    UndefinedIdentifier(Seq<char>),
    BadType(BadTypeErrorView),
    Unsupported,
}

impl<'a> View for EvaluationError<'a> {
    type V = EvalErrorView;

    open spec fn view(&self) -> EvalErrorView {
        match self {
            EvaluationError::UndefinedIdentifier(error) => EvalErrorView::UndefinedIdentifier(
                error@,
            ),
            EvaluationError::BadType(error) => EvalErrorView::BadType(error@),
            EvaluationError::Unsupported => EvalErrorView::Unsupported,
        }
    }
}

impl<'a> From<UndefinedIdentifierError> for EvaluationError<'a> {
    fn from(value: UndefinedIdentifierError) -> (r: Self) {
        EvaluationError::UndefinedIdentifier(value)
    }
}

impl<'a> vstd::std_specs::convert::FromSpecImpl<UndefinedIdentifierError> for EvaluationError<'a> {
    open spec fn obeys_from_spec() -> bool {
        true
    }

    open spec fn from_spec(value: UndefinedIdentifierError) -> Self {
        EvaluationError::UndefinedIdentifier(value)
    }
}

impl<'a> From<BadTypeError<'a>> for EvaluationError<'a> {
    fn from(value: BadTypeError<'a>) -> (r: Self) {
        EvaluationError::BadType(value)
    }
}

impl<'a> vstd::std_specs::convert::FromSpecImpl<BadTypeError<'a>> for EvaluationError<'a> {
    open spec fn obeys_from_spec() -> bool {
        true
    }

    open spec fn from_spec(value: BadTypeError<'a>) -> Self {
        EvaluationError::BadType(value)
    }
}

/// The outcome of an evaluation as a mathematical value.
pub open spec fn outcome_view(r: Result<Value<'_>, EvaluationError<'_>>) -> Result<
    ValueView,
    EvalErrorView,
> {
    match r {
        Ok(value) => Ok(value@),
        Err(error) => Err(error@),
    }
}

/// The views of a row of values.
pub open spec fn values_view(values: Seq<Value<'_>>) -> Seq<ValueView> {
    values.map_values(|value: Value<'_>| value@)
}

/// What `e` evaluates to in the dictionary `dict`.
///
/// A name gives what it stands for. A string or integer literal gives its
/// value. A molecular formula without a charge gives the formula that its
/// parts spell out. Everything else is unsupported.
pub open spec fn eval(e: ExprView, dict: Map<Seq<char>, ValueView>) -> Result<
    ValueView,
    EvalErrorView,
>
    decreases e,
{
    match e {
        ExprView::Identifier(name) => if dict.contains_key(name) {
            Ok(dict[name])
        } else {
            Err(EvalErrorView::UndefinedIdentifier(name))
        },
        ExprView::StringLiteral(content) => Ok(ValueView::String(content)),
        ExprView::IntegerLiteral(value) => Ok(ValueView::Integer(value)),
        ExprView::MolecularFormula(parts, charge) => match eval_all(parts, dict) {
            Err(error) => Err(error),
            Ok(values) => match formula_of(values, Seq::empty()) {
                Err(error) => Err(error),
                Ok(formula) => if charge is Some {
                    Err(EvalErrorView::Unsupported)
                } else {
                    Ok(ValueView::MolecularFormula(formula))
                },
            },
        },
        _ => Err(EvalErrorView::Unsupported),
    }
}

/// What the expressions of `parts` evaluate to, from left to right; the
/// first one that fails decides.
pub open spec fn eval_all(parts: Seq<ExprView>, dict: Map<Seq<char>, ValueView>) -> Result<
    Seq<ValueView>,
    EvalErrorView,
>
    decreases parts,
{
    if parts.len() == 0 {
        Ok(Seq::empty())
    } else {
        match eval_all(parts.drop_last(), dict) {
            Err(error) => Err(error),
            Ok(values) => match eval(parts.last(), dict) {
                Err(error) => Err(error),
                Ok(value) => Ok(values.push(value)),
            },
        }
    }
}

/// Whether an element at the front of `values` is followed by a subscript.
pub open spec fn has_subscript(values: Seq<ValueView>) -> bool {
    values.len() >= 2 && values[1] is Integer
}

/// The formula that `values` spell out, added to `formula`.
///
/// An element counts once, or as often as the integer right after it says.
/// An element that occurs again adds to what it has. A value that stands
/// where an element is due is a type error. A subscript total beyond the
/// largest coefficient is unsupported.
pub open spec fn formula_of(values: Seq<ValueView>, formula: Seq<(ElementView, Num)>) -> Result<
    Seq<(ElementView, Num)>,
    EvalErrorView,
>
    decreases values.len(),
{
    if values.len() == 0 {
        Ok(formula)
    } else {
        match values[0] {
            ValueView::ElementRef(element) => {
                let subscript: int = if has_subscript(values) {
                    values[1]->Integer_0 as int
                } else {
                    1
                };
                let total = coeff_of(formula, element) + subscript;
                if total > i32::MAX {
                    Err(EvalErrorView::Unsupported)
                } else {
                    formula_of(
                        values.skip(
                            if has_subscript(values) {
                                2
                            } else {
                                1
                            },
                        ),
                        with_coeff(formula, element, total as Num),
                    )
                }
            },
            other => Err(
                EvalErrorView::BadType(
                    BadTypeErrorView { expected_type: DataType::ElementRef, found_value: other },
                ),
            ),
        }
    }
}

impl Identifier {
    /// What the name stands for in `dict`.
    pub fn evaluate<'a>(self, dict: &Dictionary<'a>) -> (r: Result<
        Value<'a>,
        EvaluationError<'a>,
    >)
        ensures
            outcome_view(r) == eval(ExprView::Identifier(self.name@), dict@),
    {
        match dict.get_value(self.name.as_str()) {
            Ok(value) => Ok(value.clone()),
            Err(error) => Err(EvaluationError::from(error)),
        }
    }
}

impl StringLiteral {
    /// The content of the literal as a string value.
    pub fn evaluate<'a>(self, _dict: &Dictionary<'a>) -> (r: Result<
        Value<'a>,
        EvaluationError<'a>,
    >)
        ensures
            outcome_view(r) == eval(ExprView::StringLiteral(self.content@), _dict@),
    {
        Ok(Value::String(self.content))
    }
}

impl IntegerLiteral {
    /// The number of the literal as an integer value.
    pub fn evaluate<'a>(self, _dict: &Dictionary<'a>) -> (r: Result<
        Value<'a>,
        EvaluationError<'a>,
    >)
        ensures
            outcome_view(r) == eval(ExprView::IntegerLiteral(self.value), _dict@),
    {
        Ok(Value::Integer(self.value))
    }
}

impl RealLiteral {
    /// Real arithmetic is not defined: the evaluation fails.
    pub fn evaluate<'a>(self, _dict: &Dictionary<'a>) -> (r: Result<
        Value<'a>,
        EvaluationError<'a>,
    >)
        ensures
            outcome_view(r) == eval(ExprView::RealLiteral(self.value@), _dict@),
            r == Err::<Value<'a>, EvaluationError<'a>>(EvaluationError::Unsupported),
    {
        Err(EvaluationError::Unsupported)
    }
}

impl TupleExpr {
    /// The value of a tuple is not defined: the evaluation fails.
    pub fn evaluate<'a>(self, _dict: &Dictionary<'a>) -> (r: Result<
        Value<'a>,
        EvaluationError<'a>,
    >)
        ensures
            outcome_view(r) == eval(expr_view(Expression::Tuple(self)), _dict@),
            r == Err::<Value<'a>, EvaluationError<'a>>(EvaluationError::Unsupported),
    {
        Err(EvaluationError::Unsupported)
    }
}

impl SpecialSyntaxExpr {
    /// The value of a special syntax block is not defined: the evaluation
    /// fails.
    pub fn evaluate<'a>(self, _dict: &Dictionary<'a>) -> (r: Result<
        Value<'a>,
        EvaluationError<'a>,
    >)
        ensures
            outcome_view(r) == eval(expr_view(Expression::SpecialSyntax(self)), _dict@),
            r == Err::<Value<'a>, EvaluationError<'a>>(EvaluationError::Unsupported),
    {
        Err(EvaluationError::Unsupported)
    }
}

impl InfixOperationsExpr {
    /// Arithmetic on operands is not defined: the evaluation fails.
    pub fn evaluate<'a>(self, _dict: &Dictionary<'a>) -> (r: Result<
        Value<'a>,
        EvaluationError<'a>,
    >)
        ensures
            outcome_view(r) == eval(expr_view(Expression::InfixOperations(self)), _dict@),
            r == Err::<Value<'a>, EvaluationError<'a>>(EvaluationError::Unsupported),
    {
        Err(EvaluationError::Unsupported)
    }
}

impl CondensedFormulaExpr {
    /// The value of a condensed formula is not defined: the evaluation
    /// fails.
    pub fn evaluate<'a>(self, _dict: &Dictionary<'a>) -> (r: Result<
        Value<'a>,
        EvaluationError<'a>,
    >)
        ensures
            outcome_view(r) == eval(expr_view(Expression::CondensedFormula(self)), _dict@),
            r == Err::<Value<'a>, EvaluationError<'a>>(EvaluationError::Unsupported),
    {
        Err(EvaluationError::Unsupported)
    }
}

/// Reads the formula that `values` spell out: each element with the integer
/// after it as its subscript, or 1 where none follows, the subscripts of an
/// element that occurs again added up.
pub fn formula_from_values<'a>(values: Vec<Value<'a>>) -> (r: Result<
    MolecularFormula<'a>,
    EvaluationError<'a>,
>)
    ensures
        match r {
            Ok(formula) => formula.wf() && formula_of(values_view(values@), Seq::empty()) == Ok::<
                Seq<(ElementView, Num)>,
                EvalErrorView,
            >(formula@),
            Err(error) => formula_of(values_view(values@), Seq::empty()) == Err::<
                Seq<(ElementView, Num)>,
                EvalErrorView,
            >(error@),
        },
{
    let mut result = MolecularFormula::new();
    let mut i: usize = 0;
    let ghost all = values_view(values@);
    assert(all.skip(0) =~= all);
    while i < values.len()
        invariant
            i <= values@.len(),
            all == values_view(values@),
            result.wf(),
            formula_of(all, Seq::empty()) == formula_of(all.skip(i as int), result@),
        decreases values@.len() - i,
    {
        let ghost rest = all.skip(i as int);
        assert(rest[0] == values@[i as int]@);
        let element: &'a Element = match &values[i] {
            Value::ElementRef(element) => *element,
            other => {
                return Err(
                    EvaluationError::from(
                        BadTypeError {
                            expected_type: DataType::ElementRef,
                            found_value: other.clone(),
                        },
                    ),
                );
            },
        };
        let (subscript, used): (u32, usize) = if i + 1 < values.len() {
            assert(rest[1] == values@[i + 1]@);
            match &values[i + 1] {
                Value::Integer(integer) => (*integer, 2),
                _ => (1, 1),
            }
        } else {
            (1, 1)
        };
        let current = result.get_subscr(element);
        proof {
            lemma_index_of(result@, element@);
        }
        if subscript > 0x7fff_ffff - current {
            return Err(EvaluationError::Unsupported);
        }
        result.set_subscr(element, current + subscript);
        assert(rest.skip(used as int) =~= all.skip(i + used));
        i = i + used;
    }
    Ok(result)
}

impl MolecularFormulaExpr {
    /// The formula that the parts spell out, once each part is evaluated.
    /// A formula with a charge is unsupported.
    pub fn evaluate<'a>(self, dict: &Dictionary<'a>) -> (r: Result<
        Value<'a>,
        EvaluationError<'a>,
    >)
        ensures
            outcome_view(r) == eval(expr_view(Expression::MolecularFormula(self)), dict@),
        decreases self,
    {
        let has_charge = self.charge.is_some();
        let ghost parts = exprs_view(self.symbols_and_subscripts@);
        let mut values: Vec<Value<'a>> = Vec::new();
        assert(parts.take(0) =~= Seq::<ExprView>::empty());
        assert(values_view(values@) =~= Seq::<ValueView>::empty());
        for expr in iter: self.symbols_and_subscripts.into_iter()
            invariant
                iter.seq() == self.symbols_and_subscripts@,
                parts == exprs_view(self.symbols_and_subscripts@),
                eval_all(parts.take(iter.index() as int), dict@) == Ok::<
                    Seq<ValueView>,
                    EvalErrorView,
                >(values_view(values@)),
        {
            let ghost k = iter.index() as int;
            assert(parts.take(k + 1).drop_last() =~= parts.take(k));
            assert(parts.take(k + 1).last() == expr@);
            match expr.evaluate(dict) {
                Ok(value) => {
                    let ghost before = values@;
                    values.push(value);
                    assert(values_view(values@) =~= values_view(before).push(value@));
                },
                Err(error) => {
                    proof {
                        lemma_eval_all_fails(parts, k + 1, dict@);
                    }
                    return Err(error);
                },
            }
        }
        assert(parts.take(parts.len() as int) =~= parts);
        match formula_from_values(values) {
            Ok(formula) => if has_charge {
                Err(EvaluationError::Unsupported)
            } else {
                Ok(Value::MolecularFormula(formula))
            },
            Err(error) => Err(error),
        }
    }
}

/// Where a front part of a row fails, the whole row fails in the same way.
pub proof fn lemma_eval_all_fails(parts: Seq<ExprView>, n: int, dict: Map<Seq<char>, ValueView>)
    requires
        0 <= n <= parts.len(),
        eval_all(parts.take(n), dict) is Err,
    ensures
        eval_all(parts, dict) == eval_all(parts.take(n), dict),
    decreases parts.len() - n,
{
    if n < parts.len() {
        assert(parts.take(n + 1).drop_last() =~= parts.take(n));
        lemma_eval_all_fails(parts, n + 1, dict);
    } else {
        assert(parts.take(n) =~= parts);
    }
}

impl Expression {
    /// Evaluates the expression against `dict`.
    pub fn evaluate<'a>(self, dict: &Dictionary<'a>) -> (r: Result<
        Value<'a>,
        EvaluationError<'a>,
    >)
        ensures
            outcome_view(r) == eval(self@, dict@),
        decreases self,
    {
        match self {
            Expression::Identifier(identifier) => identifier.evaluate(dict),
            Expression::StringLiteral(literal) => literal.evaluate(dict),
            Expression::IntegerLiteral(literal) => literal.evaluate(dict),
            Expression::RealLiteral(literal) => literal.evaluate(dict),
            Expression::Tuple(tuple) => tuple.evaluate(dict),
            Expression::SpecialSyntax(special) => special.evaluate(dict),
            Expression::InfixOperations(infix) => infix.evaluate(dict),
            Expression::MolecularFormula(formula) => formula.evaluate(dict),
            Expression::CondensedFormula(formula) => formula.evaluate(dict),
        }
    }
}

/// Undefined identifier: a name that the dictionary does not hold fails
/// with that very name.
pub proof fn lemma_undefined_identifier(name: Seq<char>, dict: Map<Seq<char>, ValueView>)
    requires
        !dict.contains_key(name),
    ensures
        eval(ExprView::Identifier(name), dict) == Err::<ValueView, EvalErrorView>(
            EvalErrorView::UndefinedIdentifier(name),
        ),
{
}

/// Subscript defaulting: an element with no integer after it counts once.
pub proof fn lemma_subscript_defaults_to_one(element: ElementView)
    ensures
        formula_of(seq![ValueView::ElementRef(element)], Seq::empty()) == Ok::<
            Seq<(ElementView, Num)>,
            EvalErrorView,
        >(seq![(element, 1 as Num)]),
{
    let values = seq![ValueView::ElementRef(element)];
    let start = Seq::<(ElementView, Num)>::empty();
    assert(values.skip(1) =~= Seq::<ValueView>::empty());
    assert(coeff_of(start, element) == 0);
    assert(with_coeff(start, element, 1) =~= seq![(element, 1 as Num)]);
    reveal_with_fuel(formula_of, 2);
}

/// An element followed by an integer counts as often as the integer says.
pub proof fn lemma_subscript_given(element: ElementView, subscript: u32)
    requires
        0 < subscript <= i32::MAX,
    ensures
        formula_of(
            seq![ValueView::ElementRef(element), ValueView::Integer(subscript)],
            Seq::empty(),
        ) == Ok::<Seq<(ElementView, Num)>, EvalErrorView>(seq![(element, subscript as Num)]),
{
    let values = seq![ValueView::ElementRef(element), ValueView::Integer(subscript)];
    let start = Seq::<(ElementView, Num)>::empty();
    assert(values.skip(2) =~= Seq::<ValueView>::empty());
    assert(coeff_of(start, element) == 0);
    assert(with_coeff(start, element, subscript as Num) =~= seq![(element, subscript as Num)]);
    reveal_with_fuel(formula_of, 2);
}

/// Summation: an element that occurs again adds to what it has. Once bare
/// and once with a subscript, it counts one more than the subscript.
pub proof fn lemma_subscripts_add_up(element: ElementView, subscript: u32)
    requires
        subscript < i32::MAX,
    ensures
        formula_of(
            seq![
                ValueView::ElementRef(element),
                ValueView::ElementRef(element),
                ValueView::Integer(subscript),
            ],
            Seq::empty(),
        ) == Ok::<Seq<(ElementView, Num)>, EvalErrorView>(
            seq![(element, (1 + subscript) as Num)],
        ),
{
    let values = seq![
        ValueView::ElementRef(element),
        ValueView::ElementRef(element),
        ValueView::Integer(subscript),
    ];
    let rest = seq![ValueView::ElementRef(element), ValueView::Integer(subscript)];
    let start = Seq::<(ElementView, Num)>::empty();
    let once = seq![(element, 1 as Num)];
    assert(values.skip(1) =~= rest);
    assert(rest.skip(2) =~= Seq::<ValueView>::empty());
    assert(coeff_of(start, element) == 0);
    assert(with_coeff(start, element, 1) =~= once);
    assert(once.drop_first() =~= start);
    assert(coeff_of(once, element) == 1);
    assert(with_coeff(once, element, (1 + subscript) as Num) =~= seq![
        (element, (1 + subscript) as Num),
    ]);
    assert(formula_of(rest, once) == Ok::<Seq<(ElementView, Num)>, EvalErrorView>(
        seq![(element, (1 + subscript) as Num)],
    )) by {
        reveal_with_fuel(formula_of, 2);
    }
}

} // verus!
