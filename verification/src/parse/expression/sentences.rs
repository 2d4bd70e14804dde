//! What rows of tokens come to: the edge cases, and chains, tuples and
//! formulas of any length.

use crate::chem_data::dictionary::ValueView;
use crate::chem_data::elements::ElementView;
use crate::helper::coeff_vec::Num;
use crate::helper::text::decimal_u32;
use crate::parse::expression::laws::{lemma_finished_row, lemma_new_expression, lemma_step};
use crate::parse::expression::model::{
    builder_wf, fed, finished, finished_row, is_closed, lemma_row_wf, new_expression,
    operator_of, parsed, row_wf, step, step_active, step_last, step_symbol_or_subscript,
    wrapper_finished, wrapper_step, BuilderView, RowStep, Step, WrapperStep, WrapperView,
};
use crate::parse::expression::parser::ParseErrorView;
use crate::parse::expression::{
    eval, eval_all, lemma_subscript_defaults_to_one, lemma_subscript_given,
    lemma_subscripts_add_up, EvalErrorView, ExprView, InfixOperator,
};
use crate::parse::tokens::TokenView;
use vstd::prelude::*;

verus! {

/// Empty input: with no token at all there is no expression.
pub proof fn lemma_no_tokens()
    ensures
        parsed(Seq::empty()) == Err::<ExprView, ParseErrorView>(ParseErrorView::NoTokens),
{
}

/// Blank space alone opens no expression either.
pub proof fn lemma_only_whitespace()
    ensures
        parsed(seq![TokenView::Whitespace]) == Err::<ExprView, ParseErrorView>(
            ParseErrorView::NoTokens,
        ),
{
    let tokens = seq![TokenView::Whitespace];
    assert(tokens.drop_first() =~= Seq::empty());
    reveal_with_fuel(fed, 2);
}

/// Unclosed tuple: a tuple whose closing parenthesis was not read cannot
/// be finished, whatever it holds.
pub proof fn lemma_unclosed_tuple(values: Seq<BuilderView>, has_active_expr: bool)
    ensures
        finished(BuilderView::Tuple { values, has_active_expr, closed: false }) is Err,
        finished_row(values) is Ok ==> finished(
            BuilderView::Tuple { values, has_active_expr, closed: false },
        ) == Err::<ExprView, ParseErrorView>(ParseErrorView::ExpectedTokens),
{
}

/// An opening parenthesis and one identifier are no tuple of one.
pub proof fn lemma_unclosed_tuple_of_one(name: Seq<char>)
    ensures
        parsed(seq![TokenView::LParen, TokenView::Identifier(name)]) == Err::<
            ExprView,
            ParseErrorView,
        >(ParseErrorView::ExpectedTokens),
{
    reveal_with_fuel(step, 3);
    reveal_with_fuel(step_active, 3);
    reveal_with_fuel(step_last, 3);
    let t0 = TokenView::LParen;
    let t1 = TokenView::Identifier(name);
    let tokens = seq![t0, t1];
    let w0 = WrapperView { inner: None, closed: false };
    let b1 = BuilderView::Tuple { values: Seq::empty(), has_active_expr: false, closed: false };
    let w1 = WrapperView { inner: Some(b1), closed: false };
    let values = Seq::<BuilderView>::empty().push(BuilderView::Identifier(name));
    let b2 = BuilderView::Tuple { values, has_active_expr: true, closed: false };
    let w2 = WrapperView { inner: Some(b2), closed: false };
    assert(wrapper_step(w0, t0) == WrapperStep::Accepted(w1));
    assert(step(b1, t1) == Step::Accepted(b2));
    assert(wrapper_step(w1, t1) == WrapperStep::Accepted(w2));
    assert(tokens.drop_first() =~= seq![t1]);
    assert(tokens.drop_first().drop_first() =~= Seq::empty());
    assert(fed(w2, Seq::empty()) == wrapper_finished(w2));
    assert(fed(w1, seq![t1]) == fed(w2, Seq::empty())) by {
        assert(seq![t1].drop_first() =~= Seq::empty());
    }
    assert(fed(w0, tokens) == fed(w1, seq![t1]));
    assert(values.drop_last() =~= Seq::empty());
    assert(finished_row(values) is Ok) by {
        reveal_with_fuel(finished_row, 2);
    }
}

/// A chain that awaits an operand opens it with the token that comes,
/// unless that is blank space.
pub proof fn lemma_chain_takes_operand(
    operands: Seq<BuilderView>,
    operators: Seq<InfixOperator>,
    t: TokenView,
)
    requires
        operands.len() == operators.len(),
        !(t is Whitespace),
        new_expression(t) is Ok,
    ensures
        step(BuilderView::InfixOperations { operands, operators, closed: false }, t)
            == Step::Accepted(
            BuilderView::InfixOperations {
                operands: operands.push(new_expression(t)->Ok_0),
                operators,
                closed: false,
            },
        ),
{
    reveal_with_fuel(step, 2);
    reveal_with_fuel(step_active, 2);
}

/// A chain whose last operand is complete takes an operator and awaits the
/// next operand.
pub proof fn lemma_chain_takes_operator(
    operands: Seq<BuilderView>,
    operators: Seq<InfixOperator>,
    t: TokenView,
)
    requires
        operands.len() == operators.len() + 1,
        builder_wf(operands.last()),
        is_closed(operands.last()),
        operator_of(t) is Some,
    ensures
        step(BuilderView::InfixOperations { operands, operators, closed: false }, t)
            == Step::Accepted(
            BuilderView::InfixOperations {
                operands,
                operators: operators.push(operator_of(t)->Some_0),
                closed: false,
            },
        ),
{
    lemma_step(operands.last(), t);
    assert(operands.drop_last().push(operands.last()) =~= operands);
    assert(step(operands.last(), t) == Step::Rejected(operands.last(), t));
    assert(step_last(operands, t) == RowStep::Rejected(operands, t));
    assert(step_active(operands, true, t) == RowStep::Rejected(operands, t));
    assert(!(t is Whitespace));
}

/// Left-associative arity: three identifiers joined by two plus signs are
/// one chain of three operands and two operators, in the order of the
/// text.
pub proof fn lemma_chain_of_three(a: Seq<char>, b: Seq<char>, c: Seq<char>)
    ensures
        parsed(
            seq![
                TokenView::Identifier(a),
                TokenView::PlusSign,
                TokenView::Identifier(b),
                TokenView::PlusSign,
                TokenView::Identifier(c),
            ],
        ) == Ok::<ExprView, ParseErrorView>(
            ExprView::InfixOperations(
                seq![ExprView::Identifier(a), ExprView::Identifier(b), ExprView::Identifier(c)],
                seq![InfixOperator::Plus, InfixOperator::Plus],
            ),
        ),
{
    let plus = TokenView::PlusSign;
    let (ta, tb, tc) = (TokenView::Identifier(a), TokenView::Identifier(b), TokenView::Identifier(c));
    let (ba, bb, bc) = (
        BuilderView::Identifier(a),
        BuilderView::Identifier(b),
        BuilderView::Identifier(c),
    );
    let tokens = seq![ta, plus, tb, plus, tc];
    let s1 = seq![plus, tb, plus, tc];
    let s2 = seq![tb, plus, tc];
    let s3 = seq![plus, tc];
    let s4 = seq![tc];
    let s5 = Seq::<TokenView>::empty();
    let one = seq![InfixOperator::Plus];
    let two = seq![InfixOperator::Plus, InfixOperator::Plus];
    let w0 = WrapperView { inner: None, closed: false };
    let w1 = WrapperView { inner: Some(ba), closed: false };
    let c2 = BuilderView::InfixOperations { operands: seq![ba], operators: one, closed: false };
    let w2 = WrapperView { inner: Some(c2), closed: false };
    let c3 = BuilderView::InfixOperations { operands: seq![ba, bb], operators: one, closed: false };
    let w3 = WrapperView { inner: Some(c3), closed: false };
    let c4 = BuilderView::InfixOperations { operands: seq![ba, bb], operators: two, closed: false };
    let w4 = WrapperView { inner: Some(c4), closed: false };
    let c5 = BuilderView::InfixOperations {
        operands: seq![ba, bb, bc],
        operators: two,
        closed: false,
    };
    let w5 = WrapperView { inner: Some(c5), closed: false };
    assert(wrapper_step(w0, ta) == WrapperStep::Accepted(w1));
    assert(wrapper_step(w1, plus) == WrapperStep::Accepted(w2));
    assert(step(c2, tb) == Step::Accepted(c3)) by {
        lemma_chain_takes_operand(seq![ba], one, tb);
        assert(seq![ba].push(bb) =~= seq![ba, bb]);
    }
    assert(step(c3, plus) == Step::Accepted(c4)) by {
        lemma_chain_takes_operator(seq![ba, bb], one, plus);
        assert(one.push(InfixOperator::Plus) =~= two);
    }
    assert(step(c4, tc) == Step::Accepted(c5)) by {
        lemma_chain_takes_operand(seq![ba, bb], two, tc);
        assert(seq![ba, bb].push(bc) =~= seq![ba, bb, bc]);
    }
    assert(fed(w0, tokens) == fed(w5, s5)) by {
        assert(tokens.drop_first() =~= s1);
        assert(s1.drop_first() =~= s2);
        assert(s2.drop_first() =~= s3);
        assert(s3.drop_first() =~= s4);
        assert(s4.drop_first() =~= s5);
        assert(fed(w4, s4) == fed(w5, s5));
        assert(fed(w3, s3) == fed(w4, s4));
        assert(fed(w2, s2) == fed(w3, s3));
        assert(fed(w1, s1) == fed(w2, s2));
        assert(fed(w0, tokens) == fed(w1, s1));
    }
    assert(finished(c5) == Ok::<ExprView, ParseErrorView>(
        ExprView::InfixOperations(
            seq![ExprView::Identifier(a), ExprView::Identifier(b), ExprView::Identifier(c)],
            two,
        ),
    )) by {
        let row = seq![ba, bb, bc];
        lemma_finished_row(row);
        assert(row.drop_last() =~= seq![ba, bb]);
        assert(seq![ba, bb].drop_last() =~= seq![ba]);
        assert(seq![ba].drop_last() =~= Seq::<BuilderView>::empty());
        reveal_with_fuel(finished_row, 4);
        let exprs = finished_row(row)->Ok_0;
        assert(finished(row[0]) == Ok::<ExprView, ParseErrorView>(exprs[0]));
        assert(finished(row[1]) == Ok::<ExprView, ParseErrorView>(exprs[1]));
        assert(finished(row[2]) == Ok::<ExprView, ParseErrorView>(exprs[2]));
        assert(exprs =~= seq![
            ExprView::Identifier(a),
            ExprView::Identifier(b),
            ExprView::Identifier(c),
        ]);
    }
}

/// A first token that opens no expression is unexpected, whatever comes
/// after it: an operator at the start, for one.
pub proof fn lemma_leading_token_must_open(t: TokenView, rest: Seq<TokenView>)
    requires
        !(t is Whitespace),
        new_expression(t) is Err,
    ensures
        parsed(seq![t] + rest) == Err::<ExprView, ParseErrorView>(
            ParseErrorView::UnexpectedToken(t),
        ),
{
    lemma_new_expression(t);
    let tokens = seq![t] + rest;
    assert(tokens[0] == t);
}

/// Two complete expressions side by side are no expression: after a
/// builder that is closed, a token that is neither blank space, nor an
/// operator, nor a bang is unexpected, whatever comes after it.
pub proof fn lemma_adjacent_expressions(
    first: BuilderView,
    t: TokenView,
    rest: Seq<TokenView>,
)
    requires
        builder_wf(first),
        is_closed(first),
        !(t is Whitespace),
        !(t is Bang),
        operator_of(t) is None,
    ensures
        fed(WrapperView { inner: Some(first), closed: false }, seq![t] + rest) == Err::<
            ExprView,
            ParseErrorView,
        >(ParseErrorView::UnexpectedToken(t)),
{
    lemma_step(first, t);
    let tokens = seq![t] + rest;
    assert(tokens[0] == t);
}

/// A token that is an expression by itself: an identifier, a string or real
/// literal, or the numeral of an unsigned 32-bit integer.
pub open spec fn is_atom(t: TokenView) -> bool {
    match t {
        TokenView::Identifier(_) => true,
        TokenView::StringLiteral(_) => true,
        TokenView::Real(_) => true,
        TokenView::Integer(digits) => decimal_u32(digits) is Some,
        _ => false,
    }
}

/// The builder that an atom opens.
pub open spec fn atom_builder(t: TokenView) -> BuilderView {
    new_expression(t)->Ok_0
}

/// The expression that an atom is.
pub open spec fn atom_expr(t: TokenView) -> ExprView {
    finished(atom_builder(t))->Ok_0
}

/// The expressions that the atoms of a row are.
pub open spec fn atom_exprs(atoms: Seq<TokenView>) -> Seq<ExprView> {
    atoms.map_values(|t: TokenView| atom_expr(t))
}

/// The operators that the signs of a row stand for.
pub open spec fn sign_operators(signs: Seq<TokenView>) -> Seq<InfixOperator> {
    signs.map_values(|t: TokenView| operator_of(t)->Some_0)
}

/// Every token of the row is an atom.
pub open spec fn all_atoms(atoms: Seq<TokenView>) -> bool {
    forall|i: int| 0 <= i < atoms.len() ==> is_atom(#[trigger] atoms[i])
}

/// Every token of the row stands for an operator.
pub open spec fn all_signs(signs: Seq<TokenView>) -> bool {
    forall|i: int| 0 <= i < signs.len() ==> operator_of(#[trigger] signs[i]) is Some
}

/// Signs and atoms in turn, a sign first: `s0 a0 s1 a1 ...`.
pub open spec fn signs_and_atoms(signs: Seq<TokenView>, atoms: Seq<TokenView>) -> Seq<TokenView>
    decreases signs.len(),
{
    if signs.len() == 0 || atoms.len() == 0 {
        Seq::empty()
    } else {
        seq![signs[0], atoms[0]] + signs_and_atoms(signs.drop_first(), atoms.drop_first())
    }
}

/// An atom opens a builder that is complete at once.
pub proof fn lemma_atom(t: TokenView)
    requires
        is_atom(t),
    ensures
        new_expression(t) is Ok,
        builder_wf(atom_builder(t)),
        is_closed(atom_builder(t)),
        finished(atom_builder(t)) is Ok,
        !(t is Whitespace),
        operator_of(t) is None,
{
}

/// A chain that has started goes on as long as signs and atoms come in
/// turn: each sign adds an operator and each atom an operand, in the order
/// of the tokens.
pub proof fn lemma_chain_goes_on(
    operands: Seq<BuilderView>,
    operators: Seq<InfixOperator>,
    signs: Seq<TokenView>,
    atoms: Seq<TokenView>,
)
    requires
        operands.len() == operators.len() + 1,
        row_wf(operands),
        is_closed(operands.last()),
        finished_row(operands) is Ok,
        signs.len() == atoms.len(),
        all_signs(signs),
        all_atoms(atoms),
    ensures
        fed(
            WrapperView {
                inner: Some(BuilderView::InfixOperations { operands, operators, closed: false }),
                closed: false,
            },
            signs_and_atoms(signs, atoms),
        ) == Ok::<ExprView, ParseErrorView>(
            ExprView::InfixOperations(
                finished_row(operands)->Ok_0 + atom_exprs(atoms),
                operators + sign_operators(signs),
            ),
        ),
    decreases signs.len(),
{
    let chain = BuilderView::InfixOperations { operands, operators, closed: false };
    let w = WrapperView { inner: Some(chain), closed: false };
    let built = finished_row(operands)->Ok_0;
    lemma_row_wf(operands);
    if signs.len() == 0 {
        assert(built + atom_exprs(atoms) =~= built);
        assert(operators + sign_operators(signs) =~= operators);
    } else {
        let sign = signs[0];
        let atom = atoms[0];
        let operator = operator_of(sign)->Some_0;
        let opened = atom_builder(atom);
        let tokens = signs_and_atoms(signs, atoms);
        let rest = signs_and_atoms(signs.drop_first(), atoms.drop_first());
        lemma_atom(atom);
        let operators1 = operators.push(operator);
        let chain1 = BuilderView::InfixOperations { operands, operators: operators1, closed: false };
        let w1 = WrapperView { inner: Some(chain1), closed: false };
        let operands2 = operands.push(opened);
        let chain2 = BuilderView::InfixOperations {
            operands: operands2,
            operators: operators1,
            closed: false,
        };
        let w2 = WrapperView { inner: Some(chain2), closed: false };
        assert(step(chain, sign) == Step::Accepted(chain1)) by {
            lemma_chain_takes_operator(operands, operators, sign);
        }
        assert(step(chain1, atom) == Step::Accepted(chain2)) by {
            lemma_chain_takes_operand(operands, operators1, atom);
        }
        assert(tokens[0] == sign);
        assert(tokens.drop_first() =~= seq![atom] + rest);
        assert((seq![atom] + rest)[0] == atom);
        assert((seq![atom] + rest).drop_first() =~= rest);
        assert(fed(w, tokens) == fed(w1, seq![atom] + rest));
        assert(fed(w1, seq![atom] + rest) == fed(w2, rest));
        assert(row_wf(operands2)) by {
            lemma_row_wf(operands2);
        }
        assert(operands2.drop_last() =~= operands);
        assert(finished_row(operands2) == Ok::<Seq<ExprView>, ParseErrorView>(
            built.push(atom_expr(atom)),
        ));
        lemma_chain_goes_on(operands2, operators1, signs.drop_first(), atoms.drop_first());
        assert(built.push(atom_expr(atom)) + atom_exprs(atoms.drop_first()) =~= built
            + atom_exprs(atoms));
        assert(operators1 + sign_operators(signs.drop_first()) =~= operators + sign_operators(
            signs,
        ));
    }
}

/// Chains of any length: atoms with one sign between each two of them are
/// one chain of operations, with the atoms as its operands and the signs as
/// its operators, each in the order of the text.
pub proof fn lemma_chain_of_atoms(atoms: Seq<TokenView>, signs: Seq<TokenView>)
    requires
        signs.len() >= 1,
        atoms.len() == signs.len() + 1,
        all_atoms(atoms),
        all_signs(signs),
    ensures
        parsed(seq![atoms[0]] + signs_and_atoms(signs, atoms.drop_first())) == Ok::<
            ExprView,
            ParseErrorView,
        >(ExprView::InfixOperations(atom_exprs(atoms), sign_operators(signs))),
{
    let first = atoms[0];
    let sign = signs[0];
    let second = atoms[1];
    let later_atoms = atoms.drop_first().drop_first();
    let later_signs = signs.drop_first();
    let rest = signs_and_atoms(later_signs, later_atoms);
    let tail = signs_and_atoms(signs, atoms.drop_first());
    let tokens = seq![first] + tail;
    lemma_atom(first);
    lemma_atom(second);
    let b0 = atom_builder(first);
    let b1 = atom_builder(second);
    let operator = operator_of(sign)->Some_0;
    let w0 = WrapperView { inner: None, closed: false };
    let w1 = WrapperView { inner: Some(b0), closed: false };
    let chain2 = BuilderView::InfixOperations {
        operands: seq![b0],
        operators: seq![operator],
        closed: false,
    };
    let w2 = WrapperView { inner: Some(chain2), closed: false };
    let operands = seq![b0, b1];
    let chain3 = BuilderView::InfixOperations { operands, operators: seq![operator], closed: false };
    let w3 = WrapperView { inner: Some(chain3), closed: false };
    assert(atoms.drop_first()[0] == second);
    assert(tail =~= seq![sign, second] + rest);
    assert(tokens[0] == first);
    assert(tokens.drop_first() =~= tail);
    assert(tail[0] == sign);
    assert(tail.drop_first() =~= seq![second] + rest);
    assert((seq![second] + rest)[0] == second);
    assert((seq![second] + rest).drop_first() =~= rest);
    assert(wrapper_step(w0, first) == WrapperStep::Accepted(w1));
    assert(wrapper_step(w1, sign) == WrapperStep::Accepted(w2)) by {
        lemma_step(b0, sign);
    }
    assert(step(chain2, second) == Step::Accepted(chain3)) by {
        lemma_chain_takes_operand(seq![b0], seq![operator], second);
        assert(seq![b0].push(b1) =~= operands);
    }
    assert(fed(w0, tokens) == fed(w1, tail));
    assert(fed(w1, tail) == fed(w2, seq![second] + rest));
    assert(fed(w2, seq![second] + rest) == fed(w3, rest));
    assert(row_wf(operands)) by {
        lemma_row_wf(operands);
    }
    assert(finished_row(operands) == Ok::<Seq<ExprView>, ParseErrorView>(
        seq![atom_expr(first), atom_expr(second)],
    )) by {
        assert(operands.drop_last() =~= seq![b0]);
        assert(seq![b0].drop_last() =~= Seq::<BuilderView>::empty());
        reveal_with_fuel(finished_row, 3);
        assert(Seq::<ExprView>::empty().push(atom_expr(first)).push(atom_expr(second)) =~= seq![
            atom_expr(first),
            atom_expr(second),
        ]);
    }
    assert(all_atoms(later_atoms)) by {
        assert forall|i: int| 0 <= i < later_atoms.len() implies is_atom(
            #[trigger] later_atoms[i],
        ) by {
            assert(later_atoms[i] == atoms[i + 2]);
        }
    }
    assert(all_signs(later_signs)) by {
        assert forall|i: int| 0 <= i < later_signs.len() implies operator_of(
            #[trigger] later_signs[i],
        ) is Some by {
            assert(later_signs[i] == signs[i + 1]);
        }
    }
    lemma_chain_goes_on(operands, seq![operator], later_signs, later_atoms);
    assert(seq![atom_expr(first), atom_expr(second)] + atom_exprs(later_atoms) =~= atom_exprs(
        atoms,
    ));
    assert(seq![operator] + sign_operators(later_signs) =~= sign_operators(signs));
}

/// A formula without a charge takes an atom as its next symbol or
/// subscript.
pub proof fn lemma_formula_takes_atom(parts: Seq<BuilderView>, t: TokenView)
    requires
        row_wf(parts),
        parts.len() > 0 ==> is_closed(parts.last()),
        is_atom(t),
    ensures
        step(BuilderView::MolecularFormula { parts, charge: None, closed: false }, t)
            == Step::Accepted(
            BuilderView::MolecularFormula {
                parts: parts.push(atom_builder(t)),
                charge: None,
                closed: false,
            },
        ),
{
    lemma_atom(t);
    lemma_row_wf(parts);
    if parts.len() > 0 {
        lemma_step(parts.last(), t);
        assert(parts.drop_last().push(parts.last()) =~= parts);
        assert(step_last(parts, t) == RowStep::Rejected(parts, t));
    } else {
        assert(step_last(parts, t) == RowStep::Rejected(parts, t));
    }
    assert(step_symbol_or_subscript(parts, t) == RowStep::Accepted(parts.push(atom_builder(t))));
}

/// A formula that has started goes on as long as atoms come: each is one
/// more symbol or subscript.
pub proof fn lemma_formula_goes_on(parts: Seq<BuilderView>, atoms: Seq<TokenView>)
    requires
        row_wf(parts),
        parts.len() > 0 ==> is_closed(parts.last()),
        finished_row(parts) is Ok,
        all_atoms(atoms),
    ensures
        fed(
            WrapperView {
                inner: Some(BuilderView::MolecularFormula { parts, charge: None, closed: false }),
                closed: false,
            },
            atoms,
        ) == Ok::<ExprView, ParseErrorView>(
            ExprView::MolecularFormula(finished_row(parts)->Ok_0 + atom_exprs(atoms), None),
        ),
    decreases atoms.len(),
{
    let formula = BuilderView::MolecularFormula { parts, charge: None, closed: false };
    let w = WrapperView { inner: Some(formula), closed: false };
    let built = finished_row(parts)->Ok_0;
    if atoms.len() == 0 {
        assert(built + atom_exprs(atoms) =~= built);
    } else {
        let atom = atoms[0];
        let opened = atom_builder(atom);
        let parts1 = parts.push(opened);
        let formula1 = BuilderView::MolecularFormula { parts: parts1, charge: None, closed: false };
        let w1 = WrapperView { inner: Some(formula1), closed: false };
        lemma_atom(atom);
        lemma_formula_takes_atom(parts, atom);
        assert(fed(w, atoms) == fed(w1, atoms.drop_first()));
        assert(row_wf(parts1)) by {
            lemma_row_wf(parts);
            lemma_row_wf(parts1);
        }
        assert(parts1.drop_last() =~= parts);
        assert(finished_row(parts1) == Ok::<Seq<ExprView>, ParseErrorView>(
            built.push(atom_expr(atom)),
        ));
        lemma_formula_goes_on(parts1, atoms.drop_first());
        assert(built.push(atom_expr(atom)) + atom_exprs(atoms.drop_first()) =~= built
            + atom_exprs(atoms));
    }
}

/// Formulas of any length: the formula mark followed by atoms is a
/// molecular formula without a charge, with the atoms as its symbols and
/// subscripts in the order of the text.
pub proof fn lemma_formula_of_atoms(atoms: Seq<TokenView>)
    requires
        all_atoms(atoms),
    ensures
        parsed(seq![TokenView::Cash] + atoms) == Ok::<ExprView, ParseErrorView>(
            ExprView::MolecularFormula(atom_exprs(atoms), None),
        ),
{
    let tokens = seq![TokenView::Cash] + atoms;
    let parts = Seq::<BuilderView>::empty();
    let w0 = WrapperView { inner: None, closed: false };
    let formula = BuilderView::MolecularFormula { parts, charge: None, closed: false };
    let w1 = WrapperView { inner: Some(formula), closed: false };
    assert(tokens[0] == TokenView::Cash);
    assert(tokens.drop_first() =~= atoms);
    assert(wrapper_step(w0, TokenView::Cash) == WrapperStep::Accepted(w1));
    assert(fed(w0, tokens) == fed(w1, atoms));
    lemma_row_wf(parts);
    lemma_formula_goes_on(parts, atoms);
    assert(finished_row(parts)->Ok_0 + atom_exprs(atoms) =~= atom_exprs(atoms));
}

/// Subscript defaulting, from the text on: the formula mark and the name of
/// an element are a formula that holds the element once.
pub proof fn lemma_formula_of_bare_element(
    name: Seq<char>,
    element: ElementView,
    dict: Map<Seq<char>, ValueView>,
)
    requires
        dict.contains_key(name),
        dict[name] == ValueView::ElementRef(element),
    ensures
        parsed(seq![TokenView::Cash, TokenView::Identifier(name)]) matches Ok(expr) && eval(
            expr,
            dict,
        ) == Ok::<ValueView, EvalErrorView>(
            ValueView::MolecularFormula(seq![(element, 1 as Num)]),
        ),
{
    let atoms = seq![TokenView::Identifier(name)];
    let parts = seq![ExprView::Identifier(name)];
    lemma_formula_of_atoms(atoms);
    assert(seq![TokenView::Cash] + atoms =~= seq![TokenView::Cash, TokenView::Identifier(name)]);
    assert(atom_exprs(atoms) =~= parts);
    assert(eval_all(parts, dict) == Ok::<Seq<ValueView>, EvalErrorView>(
        seq![ValueView::ElementRef(element)],
    )) by {
        assert(parts.drop_last() =~= Seq::<ExprView>::empty());
        reveal_with_fuel(eval_all, 2);
        assert(Seq::<ValueView>::empty().push(ValueView::ElementRef(element)) =~= seq![
            ValueView::ElementRef(element),
        ]);
    }
    lemma_subscript_defaults_to_one(element);
}

/// From the text on: the formula mark, the name of an element and a numeral
/// are a formula that holds the element as often as the numeral says.
pub proof fn lemma_formula_of_element_with_subscript(
    name: Seq<char>,
    digits: Seq<char>,
    element: ElementView,
    dict: Map<Seq<char>, ValueView>,
)
    requires
        dict.contains_key(name),
        dict[name] == ValueView::ElementRef(element),
        decimal_u32(digits) matches Some(subscript) && 0 < subscript <= i32::MAX,
    ensures
        parsed(
            seq![TokenView::Cash, TokenView::Identifier(name), TokenView::Integer(digits)],
        ) matches Ok(expr) && eval(expr, dict) == Ok::<ValueView, EvalErrorView>(
            ValueView::MolecularFormula(seq![(element, decimal_u32(digits)->Some_0 as Num)]),
        ),
{
    let subscript = decimal_u32(digits)->Some_0;
    let atoms = seq![TokenView::Identifier(name), TokenView::Integer(digits)];
    let parts = seq![ExprView::Identifier(name), ExprView::IntegerLiteral(subscript)];
    lemma_formula_of_atoms(atoms);
    assert(seq![TokenView::Cash] + atoms =~= seq![
        TokenView::Cash,
        TokenView::Identifier(name),
        TokenView::Integer(digits),
    ]);
    assert(atom_exprs(atoms) =~= parts);
    assert(eval_all(parts, dict) == Ok::<Seq<ValueView>, EvalErrorView>(
        seq![ValueView::ElementRef(element), ValueView::Integer(subscript)],
    )) by {
        assert(parts.drop_last() =~= seq![ExprView::Identifier(name)]);
        assert(seq![ExprView::Identifier(name)].drop_last() =~= Seq::<ExprView>::empty());
        reveal_with_fuel(eval_all, 3);
        assert(Seq::<ValueView>::empty().push(ValueView::ElementRef(element)).push(
            ValueView::Integer(subscript),
        ) =~= seq![ValueView::ElementRef(element), ValueView::Integer(subscript)]);
    }
    lemma_subscript_given(element, subscript);
}

/// Summation, from the text on: where the name of an element comes twice,
/// once bare and once with a numeral, the formula holds the element once
/// more than the numeral says.
pub proof fn lemma_formula_of_repeated_element(
    name: Seq<char>,
    digits: Seq<char>,
    element: ElementView,
    dict: Map<Seq<char>, ValueView>,
)
    requires
        dict.contains_key(name),
        dict[name] == ValueView::ElementRef(element),
        decimal_u32(digits) matches Some(subscript) && subscript < i32::MAX,
    ensures
        parsed(
            seq![
                TokenView::Cash,
                TokenView::Identifier(name),
                TokenView::Identifier(name),
                TokenView::Integer(digits),
            ],
        ) matches Ok(expr) && eval(expr, dict) == Ok::<ValueView, EvalErrorView>(
            ValueView::MolecularFormula(
                seq![(element, (1 + decimal_u32(digits)->Some_0) as Num)],
            ),
        ),
{
    let subscript = decimal_u32(digits)->Some_0;
    let atoms = seq![
        TokenView::Identifier(name),
        TokenView::Identifier(name),
        TokenView::Integer(digits),
    ];
    let parts = seq![
        ExprView::Identifier(name),
        ExprView::Identifier(name),
        ExprView::IntegerLiteral(subscript),
    ];
    let two = seq![ExprView::Identifier(name), ExprView::Identifier(name)];
    lemma_formula_of_atoms(atoms);
    assert(seq![TokenView::Cash] + atoms =~= seq![
        TokenView::Cash,
        TokenView::Identifier(name),
        TokenView::Identifier(name),
        TokenView::Integer(digits),
    ]);
    assert(atom_exprs(atoms) =~= parts);
    assert(eval_all(parts, dict) == Ok::<Seq<ValueView>, EvalErrorView>(
        seq![
            ValueView::ElementRef(element),
            ValueView::ElementRef(element),
            ValueView::Integer(subscript),
        ],
    )) by {
        assert(parts.drop_last() =~= two);
        assert(two.drop_last() =~= seq![ExprView::Identifier(name)]);
        assert(seq![ExprView::Identifier(name)].drop_last() =~= Seq::<ExprView>::empty());
        reveal_with_fuel(eval_all, 4);
        assert(Seq::<ValueView>::empty().push(ValueView::ElementRef(element)).push(
            ValueView::ElementRef(element),
        ).push(ValueView::Integer(subscript)) =~= seq![
            ValueView::ElementRef(element),
            ValueView::ElementRef(element),
            ValueView::Integer(subscript),
        ]);
    }
    lemma_subscripts_add_up(element, subscript);
}

/// Atoms with a comma in front of each: `, a0 , a1 ...`.
pub open spec fn commas_and_atoms(atoms: Seq<TokenView>) -> Seq<TokenView>
    decreases atoms.len(),
{
    if atoms.len() == 0 {
        Seq::empty()
    } else {
        seq![TokenView::Comma, atoms[0]] + commas_and_atoms(atoms.drop_first())
    }
}

/// A tuple whose last value is complete goes on as long as commas and atoms
/// come in turn, and closes with the closing parenthesis.
pub proof fn lemma_tuple_goes_on(values: Seq<BuilderView>, atoms: Seq<TokenView>)
    requires
        values.len() > 0,
        row_wf(values),
        is_closed(values.last()),
        finished_row(values) is Ok,
        all_atoms(atoms),
    ensures
        fed(
            WrapperView {
                inner: Some(BuilderView::Tuple { values, has_active_expr: true, closed: false }),
                closed: false,
            },
            commas_and_atoms(atoms) + seq![TokenView::RParen],
        ) == Ok::<ExprView, ParseErrorView>(
            ExprView::Tuple(finished_row(values)->Ok_0 + atom_exprs(atoms)),
        ),
    decreases atoms.len(),
{
    let tuple = BuilderView::Tuple { values, has_active_expr: true, closed: false };
    let w = WrapperView { inner: Some(tuple), closed: false };
    let built = finished_row(values)->Ok_0;
    let tokens = commas_and_atoms(atoms) + seq![TokenView::RParen];
    lemma_row_wf(values);
    assert(values.drop_last().push(values.last()) =~= values);
    if atoms.len() == 0 {
        let closed = BuilderView::Tuple { values, has_active_expr: true, closed: true };
        let w1 = WrapperView { inner: Some(closed), closed: false };
        assert(tokens =~= seq![TokenView::RParen]);
        assert(tokens.drop_first() =~= Seq::<TokenView>::empty());
        assert(step(tuple, TokenView::RParen) == Step::Accepted(closed)) by {
            lemma_step(values.last(), TokenView::RParen);
            assert(step_last(values, TokenView::RParen) == RowStep::Rejected(
                values,
                TokenView::RParen,
            ));
            assert(step_active(values, true, TokenView::RParen) == RowStep::Rejected(
                values,
                TokenView::RParen,
            ));
        }
        assert(fed(w, tokens) == fed(w1, Seq::<TokenView>::empty()));
        assert(built + atom_exprs(atoms) =~= built);
    } else {
        let atom = atoms[0];
        let opened = atom_builder(atom);
        let rest = commas_and_atoms(atoms.drop_first()) + seq![TokenView::RParen];
        let waiting = BuilderView::Tuple { values, has_active_expr: false, closed: false };
        let w1 = WrapperView { inner: Some(waiting), closed: false };
        let values2 = values.push(opened);
        let tuple2 = BuilderView::Tuple { values: values2, has_active_expr: true, closed: false };
        let w2 = WrapperView { inner: Some(tuple2), closed: false };
        lemma_atom(atom);
        assert(tokens =~= seq![TokenView::Comma, atom] + rest);
        assert(tokens[0] == TokenView::Comma);
        assert(tokens.drop_first() =~= seq![atom] + rest);
        assert((seq![atom] + rest)[0] == atom);
        assert((seq![atom] + rest).drop_first() =~= rest);
        assert(step(tuple, TokenView::Comma) == Step::Accepted(waiting)) by {
            lemma_step(values.last(), TokenView::Comma);
            assert(step_last(values, TokenView::Comma) == RowStep::Rejected(
                values,
                TokenView::Comma,
            ));
            assert(step_active(values, true, TokenView::Comma) == RowStep::Rejected(
                values,
                TokenView::Comma,
            ));
        }
        assert(step(waiting, atom) == Step::Accepted(tuple2)) by {
            assert(step_active(values, false, atom) == RowStep::Accepted(values2));
        }
        assert(fed(w, tokens) == fed(w1, seq![atom] + rest));
        assert(fed(w1, seq![atom] + rest) == fed(w2, rest));
        assert(row_wf(values2)) by {
            lemma_row_wf(values2);
        }
        assert(values2.drop_last() =~= values);
        assert(finished_row(values2) == Ok::<Seq<ExprView>, ParseErrorView>(
            built.push(atom_expr(atom)),
        ));
        lemma_tuple_goes_on(values2, atoms.drop_first());
        assert(built.push(atom_expr(atom)) + atom_exprs(atoms.drop_first()) =~= built
            + atom_exprs(atoms));
    }
}

/// Tuples of any length: atoms between parentheses, with one comma between
/// each two of them, are the tuple of those atoms in the order of the
/// text.
pub proof fn lemma_tuple_of_atoms(atoms: Seq<TokenView>)
    requires
        atoms.len() >= 1,
        all_atoms(atoms),
    ensures
        parsed(
            seq![TokenView::LParen, atoms[0]] + commas_and_atoms(atoms.drop_first())
                + seq![TokenView::RParen],
        ) == Ok::<ExprView, ParseErrorView>(ExprView::Tuple(atom_exprs(atoms))),
{
    let first = atoms[0];
    let later = atoms.drop_first();
    let rest = commas_and_atoms(later) + seq![TokenView::RParen];
    let tokens = seq![TokenView::LParen, first] + commas_and_atoms(later) + seq![
        TokenView::RParen,
    ];
    let opened = atom_builder(first);
    let empty = BuilderView::Tuple { values: Seq::empty(), has_active_expr: false, closed: false };
    let values = Seq::<BuilderView>::empty().push(opened);
    let tuple = BuilderView::Tuple { values, has_active_expr: true, closed: false };
    let w0 = WrapperView { inner: None, closed: false };
    let w1 = WrapperView { inner: Some(empty), closed: false };
    let w2 = WrapperView { inner: Some(tuple), closed: false };
    lemma_atom(first);
    assert(tokens =~= seq![TokenView::LParen] + (seq![first] + rest));
    assert(tokens[0] == TokenView::LParen);
    assert(tokens.drop_first() =~= seq![first] + rest);
    assert((seq![first] + rest)[0] == first);
    assert((seq![first] + rest).drop_first() =~= rest);
    assert(wrapper_step(w0, TokenView::LParen) == WrapperStep::Accepted(w1));
    assert(step(empty, first) == Step::Accepted(tuple)) by {
        assert(step_active(Seq::<BuilderView>::empty(), false, first) == RowStep::Accepted(
            values,
        ));
    }
    assert(fed(w0, tokens) == fed(w1, seq![first] + rest));
    assert(fed(w1, seq![first] + rest) == fed(w2, rest));
    assert(row_wf(values)) by {
        lemma_row_wf(values);
    }
    assert(values.drop_last() =~= Seq::<BuilderView>::empty());
    assert(finished_row(values) == Ok::<Seq<ExprView>, ParseErrorView>(
        Seq::<ExprView>::empty().push(atom_expr(first)),
    )) by {
        reveal_with_fuel(finished_row, 2);
    }
    assert(all_atoms(later)) by {
        assert forall|i: int| 0 <= i < later.len() implies is_atom(#[trigger] later[i]) by {
            assert(later[i] == atoms[i + 1]);
        }
    }
    lemma_tuple_goes_on(values, later);
    assert(Seq::<ExprView>::empty().push(atom_expr(first)) + atom_exprs(later) =~= atom_exprs(
        atoms,
    ));
}

} // verus!
