//! Building expression trees token by token.
//!
//! A builder takes one token at a time. It accepts the token, or rejects it
//! and is closed from then on, or fails. A rejected token goes to the
//! builder one level up, which may take it for itself, or turn the builder
//! that rejected it into the first operand of a chain of operations.

use crate::helper::peek_iter::{CharSource, Source};
use crate::helper::text::parse_u32;
use crate::parse::expression::laws::{
    lemma_finished_row_fails, lemma_finished_well_formed, lemma_new_expression, lemma_step,
    lemma_wrapper_step,
};
use crate::parse::expression::model::{
    builder_wf, fed, finished, finished_row, is_closed, lemma_row_wf, new_expression,
    operator_of, parse_time_identifier, parsed, special_syntax_builder, step, step_active,
    step_last, step_symbol_or_subscript, wrap, wrapper_finished, wrapper_step, wrapper_wf,
    BuilderView, RowStep, Step, Wrap, WrapperStep, WrapperView,
};
use crate::parse::expression::{
    exprs_view, well_formed, ExprView, Expression, Identifier, InfixOperationsExpr,
    InfixOperator, IntegerLiteral, MolecularFormulaExpr, RealLiteral, SpecialSyntaxExpr,
    StringLiteral, TupleExpr,
};
use crate::parse::tokens::{tokens_of, Token, TokenView, Tokens};
use vstd::prelude::*;

verus! {

/// Why a text is not an expression.
#[derive(Debug, PartialEq)]
pub enum ParseError {
    /// There was nothing to build an expression from.
    NoTokens,
    /// The token cannot stand where it does.
    UnexpectedToken(Token),
    /// The text ended before the expression was complete.
    ExpectedTokens,
    /// The text uses a syntax that has no builder.
    UnsupportedSyntax,
}

/// A parse error as a mathematical value.
pub enum ParseErrorView {
    NoTokens,
    UnexpectedToken(TokenView),
    ExpectedTokens,
    UnsupportedSyntax,
}

impl View for ParseError {
    type V = ParseErrorView;

    open spec fn view(&self) -> ParseErrorView {
        match self {
            ParseError::NoTokens => ParseErrorView::NoTokens,
            ParseError::UnexpectedToken(token) => ParseErrorView::UnexpectedToken(token@),
            ParseError::ExpectedTokens => ParseErrorView::ExpectedTokens,
            ParseError::UnsupportedSyntax => ParseErrorView::UnsupportedSyntax,
        }
    }
}

/// The builders: one for each sort of expression.
pub enum ExpressionBuilder {
    Identifier(IdentifierExprBuilder),
    StringLiteral(StringLiteralExprBuilder),
    IntegerLiteral(IntegerLiteralExprBuilder),
    RealLiteral(RealLiteralExprBuilder),
    Tuple(TupleExprBuilder),
    SpecialSyntax(SpecialSyntaxExprBuilder),
    InfixOperations(InfixOperationsExprBuilder),
    MolecularFormula(MolecularFormulaExprBuilder),
    CondensedFormula(CondensedFormulaExprBuilder),
}

/// Builds the single expression that a text stands for.
pub struct WrapperExprBuilder {
    maybe_inner_expr: Option<ExpressionBuilder>,
    closed: bool,
}

/// An expression that is an identifier and nothing else, such as
/// `identifier`.
pub struct IdentifierExprBuilder {
    identifier: String,
}

/// An expression that is a string literal and nothing else.
pub struct StringLiteralExprBuilder {
    content: String,
}

/// An expression that is an integer literal and nothing else, such as `32`.
pub struct IntegerLiteralExprBuilder {
    value: u32,
}

/// An expression that is a real literal and nothing else, such as `1.23e4`.
pub struct RealLiteralExprBuilder {
    value: String,
}

/// A tuple of expressions as far as it has been read: `(`, `(a`, `(a,`,
/// `(a, b`, `(a, b)`.
pub struct TupleExprBuilder {
    values: Vec<ExpressionBuilder>,
    has_active_expr: bool,
    closed: bool,
}

/// A special syntax block as far as it has been read: its name, whether its
/// braces were seen, and the builder for what stands between them.
pub struct SpecialSyntaxExprBuilder {
    syntax_name: String,
    // .0 is if the left one was seen, .1 is if the right one was seen
    seen_curlies: (bool, bool),
    inner_expr: Box<ExpressionBuilder>,
}

/// A chain of operations as far as it has been read. After an operator the
/// next operand is awaited; otherwise the last operand is still open.
pub struct InfixOperationsExprBuilder {
    operands: Vec<ExpressionBuilder>,
    operators: Vec<InfixOperator>,
    closed: bool,
}

/// A molecular formula as far as it has been read.
pub struct MolecularFormulaExprBuilder {
    symbols_and_subscripts: Vec<ExpressionBuilder>,
    // true is positive, false is negative; no magnitude yet means that the
    // sign was the last thing read
    charge: Option<(bool, Option<Box<ExpressionBuilder>>)>,
    is_closed: bool,
}

/// A condensed formula. Nothing of it can be read yet.
pub struct CondensedFormulaExprBuilder {
    subformulas_and_subscripts: Vec<ExpressionBuilder>,
    charge: Option<(bool, Option<Box<ExpressionBuilder>>)>,
}

/// The state of a builder.
pub closed spec fn builder_view(b: ExpressionBuilder) -> BuilderView
    decreases b,
{
    match b {
        ExpressionBuilder::Identifier(builder) => BuilderView::Identifier(builder.identifier@),
        ExpressionBuilder::StringLiteral(builder) => BuilderView::StringLiteral(builder.content@),
        ExpressionBuilder::IntegerLiteral(builder) => BuilderView::IntegerLiteral(builder.value),
        ExpressionBuilder::RealLiteral(builder) => BuilderView::RealLiteral(builder.value@),
        ExpressionBuilder::Tuple(builder) => BuilderView::Tuple {
            values: builders_view(builder.values@),
            has_active_expr: builder.has_active_expr,
            closed: builder.closed,
        },
        ExpressionBuilder::SpecialSyntax(builder) => BuilderView::SpecialSyntax {
            syntax_name: builder.syntax_name@,
            seen_left: builder.seen_curlies.0,
            seen_right: builder.seen_curlies.1,
            inner: Box::new(builder_view(*builder.inner_expr)),
        },
        ExpressionBuilder::InfixOperations(builder) => BuilderView::InfixOperations {
            operands: builders_view(builder.operands@),
            operators: builder.operators@,
            closed: builder.closed,
        },
        ExpressionBuilder::MolecularFormula(builder) => BuilderView::MolecularFormula {
            parts: builders_view(builder.symbols_and_subscripts@),
            charge: match builder.charge {
                Some((sign, Some(magnitude))) => Some(
                    (sign, Some(Box::new(builder_view(*magnitude)))),
                ),
                Some((sign, None)) => Some((sign, None)),
                None => None,
            },
            closed: builder.is_closed,
        },
        ExpressionBuilder::CondensedFormula(_) => BuilderView::CondensedFormula,
    }
}

/// The states of a row of builders.
pub closed spec fn builders_view(row: Seq<ExpressionBuilder>) -> Seq<BuilderView>
    decreases row,
{
    Seq::new(
        row.len(),
        |i: int|
            if 0 <= i < row.len() {
                builder_view(row[i])
            } else {
                BuilderView::CondensedFormula
            },
    )
}

impl View for ExpressionBuilder {
    type V = BuilderView;

    closed spec fn view(&self) -> BuilderView {
        builder_view(*self)
    }
}

/// Whether `r` and the state `after` are what `expected` says.
pub open spec fn step_result(
    expected: Step,
    after: BuilderView,
    r: Result<Option<Token>, ParseError>,
) -> bool {
    match expected {
        Step::Accepted(next) => r matches Ok(None) && after == next,
        Step::Rejected(next, rejected) => {
            &&& r matches Ok(Some(token))
            &&& token@ == rejected
            &&& after == next
        },
        Step::Failed(failure) => r matches Err(error) && error@ == failure,
    }
}

/// What holds of every step of a builder, whatever it was given: after a
/// step that did not fail the builder is well formed; a token that is
/// handed back is the very token that was offered, and the builder is
/// closed from then on; a closed builder hands the token back and stays
/// as it is.
pub open spec fn step_laws(
    before: BuilderView,
    token: Token,
    after: BuilderView,
    r: Result<Option<Token>, ParseError>,
) -> bool {
    &&& r is Ok ==> builder_wf(after)
    &&& r matches Ok(Some(rejected)) ==> rejected == token && is_closed(after)
    &&& is_closed(before) ==> r == Ok::<Option<Token>, ParseError>(Some(token)) && after == before
}

/// Whether `r` and the row `after` are what `expected` says.
pub open spec fn row_step_result(
    expected: RowStep,
    after: Seq<BuilderView>,
    r: Result<Option<Token>, ParseError>,
) -> bool {
    match expected {
        RowStep::Accepted(row) => r matches Ok(None) && after == row,
        RowStep::Rejected(row, rejected) => {
            &&& r matches Ok(Some(token))
            &&& token@ == rejected
            &&& after == row
        },
        RowStep::Failed(failure) => r matches Err(error) && error@ == failure,
    }
}

/// Whether `r` is what `expected` says.
pub open spec fn finish_result(
    expected: Result<ExprView, ParseErrorView>,
    r: Result<Expression, ParseError>,
) -> bool {
    match expected {
        Ok(expr) => r matches Ok(built) && built@ == expr,
        Err(failure) => r matches Err(error) && error@ == failure,
    }
}

/// The states of a row are the states of its builders, one by one.
proof fn lemma_builders_view(row: Seq<ExpressionBuilder>)
    ensures
        builders_view(row).len() == row.len(),
        forall|i: int| 0 <= i < row.len() ==> #[trigger] builders_view(row)[i] == builder_view(row[i]),
{
}

/// A builder added at the end of a row adds its state at the end.
proof fn lemma_builders_view_push(row: Seq<ExpressionBuilder>, b: ExpressionBuilder)
    ensures
        builders_view(row.push(b)) == builders_view(row).push(builder_view(b)),
{
    assert(builders_view(row.push(b)) =~= builders_view(row).push(builder_view(b)));
}

/// A row whose last builder changed differs in its last state only.
proof fn lemma_builders_view_replace_last(
    row: Seq<ExpressionBuilder>,
    after: Seq<ExpressionBuilder>,
)
    requires
        row.len() > 0,
        after.len() == row.len(),
        forall|i: int| 0 <= i < row.len() - 1 ==> after[i] == row[i],
    ensures
        builders_view(after) == builders_view(row).drop_last().push(builder_view(after.last())),
{
    assert(builders_view(after) =~= builders_view(row).drop_last().push(
        builder_view(after.last()),
    ));
}

/// A row without its last builder is without its last state.
proof fn lemma_builders_view_drop_last(row: Seq<ExpressionBuilder>)
    requires
        row.len() > 0,
    ensures
        builders_view(row.drop_last()) == builders_view(row).drop_last(),
        builders_view(row).last() == builder_view(row.last()),
{
    assert(builders_view(row.drop_last()) =~= builders_view(row).drop_last());
}

impl InfixOperator {
    /// The operator that `value` stands for, or `value` back where it
    /// stands for none.
    pub fn try_from(value: Token) -> (r: Result<InfixOperator, Token>)
        ensures
            match operator_of(value@) {
                Some(operator) => r == Ok::<InfixOperator, Token>(operator),
                None => r == Err::<InfixOperator, Token>(value),
            },
    {
        match value {
            Token::Dot => Ok(InfixOperator::FunctionCall),
            Token::PlusSign => Ok(InfixOperator::Plus),
            Token::MinusSign => Ok(InfixOperator::Minus),
            Token::MulSign => Ok(InfixOperator::Mul),
            Token::DivSign => Ok(InfixOperator::Div),
            Token::PowSign => Ok(InfixOperator::Pow),
            unmatched => Err(unmatched),
        }
    }
}

/// Opens the builder that `first_token` starts.
pub fn create_new_expression(first_token: Token) -> (r: Result<ExpressionBuilder, ParseError>)
    ensures
        match new_expression(first_token@) {
            Ok(opened) => r matches Ok(builder) && builder@ == opened && builder.wf(),
            Err(failure) => r == Err::<ExpressionBuilder, ParseError>(
                ParseError::UnexpectedToken(first_token),
            ) && failure == ParseErrorView::UnexpectedToken(first_token@),
        },
{
    proof {
        lemma_new_expression(first_token@);
    }
    match first_token {
        Token::Identifier(name) => Ok(
            ExpressionBuilder::Identifier(IdentifierExprBuilder::new(name)),
        ),
        Token::StringLiteral(content) => Ok(
            ExpressionBuilder::StringLiteral(StringLiteralExprBuilder::new(content)),
        ),
        Token::Integer(digits) => match parse_u32(digits.as_str()) {
            Some(value) => Ok(
                ExpressionBuilder::IntegerLiteral(IntegerLiteralExprBuilder::new(value)),
            ),
            None => Err(ParseError::UnexpectedToken(Token::Integer(digits))),
        },
        Token::Real(digits) => Ok(
            ExpressionBuilder::RealLiteral(RealLiteralExprBuilder::new(digits)),
        ),
        Token::LParen => {
            let builder = ExpressionBuilder::Tuple(TupleExprBuilder::new());
            assert(builder@.arrow_Tuple_values() =~= Seq::empty());
            Ok(builder)
        },
        Token::Cash => {
            let builder = ExpressionBuilder::MolecularFormula(MolecularFormulaExprBuilder::new());
            assert(builder@.arrow_MolecularFormula_parts() =~= Seq::empty());
            Ok(builder)
        },
        Token::CashCash => Ok(
            ExpressionBuilder::CondensedFormula(CondensedFormulaExprBuilder::new()),
        ),
        other => Err(ParseError::UnexpectedToken(other)),
    }
}

/// The builder for the inside of a special syntax block of the given name.
/// No special syntax is defined, so there is none.
pub fn lookup_special_syntax_builder(syntax_name: &str) -> (r: Option<ExpressionBuilder>)
    ensures
        match special_syntax_builder(syntax_name@) {
            Some(inner) => r matches Some(builder) && builder@ == inner && builder.wf(),
            None => r is None,
        },
{
    None
}

/// Tries to build on `expr`, which rejected `maybe_operator`.
pub fn wrap_in_infix(expr: ExpressionBuilder, maybe_operator: Token) -> (r: Result<
    (ExpressionBuilder, Option<Token>),
    ParseError,
>)
    ensures
        match wrap(expr@, maybe_operator@) {
            Wrap::Wrapped(wrapped) => {
                &&& r matches Ok((builder, None))
                &&& builder@ == wrapped
                &&& expr.wf() ==> builder.wf()
            },
            Wrap::Unwrapped(same, rejected) => {
                &&& r matches Ok((builder, Some(token)))
                &&& builder == expr
                &&& builder@ == same
                &&& token == maybe_operator
                &&& token@ == rejected
            },
            Wrap::Failed(failure) => r matches Err(error) && error@ == failure,
        },
{
    match InfixOperator::try_from(maybe_operator) {
        Ok(operator) => {
            Ok((ExpressionBuilder::InfixOperations(InfixOperationsExprBuilder::new(expr, operator)), None))
        },
        Err(Token::Bang) => {
            let special = match expr.parsing_time_identifier() {
                Some(syntax_name) => Some(SpecialSyntaxExprBuilder::new(syntax_name)),
                None => None,
            };
            match special {
                Some(Some(builder)) => Ok((ExpressionBuilder::SpecialSyntax(builder), None)),
                Some(None) => Err(ParseError::UnsupportedSyntax),
                None => Ok((expr, Some(Token::Bang))),
            }
        },
        Err(rejected) => Ok((expr, Some(rejected))),
    }
}

/// Gives `token` to the last builder of `row`.
fn add_token_to_last(row: &mut Vec<ExpressionBuilder>, token: Token) -> (r: Result<
    Option<Token>,
    ParseError,
>)
    requires
        old(row)@.len() > 0,
        builder_wf(old(row)@.last()@),
    ensures
        row_step_result(
            step_last(builders_view(old(row)@), token@),
            builders_view(final(row)@),
            r,
        ),
        final(row)@.len() == old(row)@.len(),
        r matches Ok(Some(rejected)) ==> rejected == token,
    decreases *old(row), 0nat,
{
    let last = row.len() - 1;
    proof {
        lemma_builders_view_drop_last(row@);
    }
    let r = row[last].add_token(token);
    proof {
        lemma_builders_view_replace_last(old(row)@, row@);
    }
    r
}

/// Finishes every builder of the row, from left to right.
fn finish_all(builders: Vec<ExpressionBuilder>) -> (r: Result<Vec<Expression>, ParseError>)
    ensures
        match finished_row(builders_view(builders@)) {
            Ok(exprs) => r matches Ok(built) && exprs_view(built@) == exprs,
            Err(failure) => r matches Err(error) && error@ == failure,
        },
    decreases builders,
{
    let ghost row = builders_view(builders@);
    let mut built: Vec<Expression> = Vec::new();
    assert(row.take(0) =~= Seq::<BuilderView>::empty());
    assert(exprs_view(built@) =~= Seq::<ExprView>::empty());
    for builder in iter: builders.into_iter()
        invariant
            iter.seq() == builders@,
            row == builders_view(builders@),
            finished_row(row.take(iter.index() as int)) == Ok::<Seq<ExprView>, ParseErrorView>(
                exprs_view(built@),
            ),
    {
        let ghost k = iter.index() as int;
        proof {
            lemma_builders_view(builders@);
            assert(row.take(k + 1).drop_last() =~= row.take(k));
            assert(row.take(k + 1).last() == builder@);
        }
        match builder.finish() {
            Ok(expr) => {
                let ghost before = built@;
                built.push(expr);
                assert(exprs_view(built@) =~= exprs_view(before).push(expr@));
            },
            Err(error) => {
                proof {
                    lemma_finished_row_fails(row, k + 1);
                }
                return Err(error);
            },
        }
    }
    assert(row.take(row.len() as int) =~= row);
    Ok(built)
}

impl ExpressionBuilder {
    /// The invariant of a builder that has not failed.
    pub open spec fn wf(&self) -> bool {
        builder_wf(self@)
    }

    /// Offers `token` to the builder. The token is taken (`Ok(None)`), or
    /// handed back unchanged by a builder that is closed from then on, or
    /// the builder fails and is of no more use.
    pub fn add_token(&mut self, token: Token) -> (r: Result<Option<Token>, ParseError>)
        requires
            old(self).wf(),
        ensures
            step_result(step(old(self)@, token@), final(self)@, r),
            step_laws(old(self)@, token, final(self)@, r),
        decreases *old(self), 0nat,
    {
        proof {
            lemma_step(old(self)@, token@);
        }
        match self {
            ExpressionBuilder::Identifier(builder) => builder.add_token(token),
            ExpressionBuilder::StringLiteral(builder) => builder.add_token(token),
            ExpressionBuilder::IntegerLiteral(builder) => builder.add_token(token),
            ExpressionBuilder::RealLiteral(builder) => builder.add_token(token),
            ExpressionBuilder::Tuple(builder) => builder.add_token(token),
            ExpressionBuilder::SpecialSyntax(builder) => builder.add_token(token),
            ExpressionBuilder::InfixOperations(builder) => builder.add_token(token),
            ExpressionBuilder::MolecularFormula(builder) => builder.add_token(token),
            ExpressionBuilder::CondensedFormula(builder) => builder.add_token(token),
        }
    }

    /// The expression that was built, where it is complete.
    pub fn finish(self) -> (r: Result<Expression, ParseError>)
        ensures
            finish_result(finished(self@), r),
            r matches Ok(expr) ==> well_formed(expr@),
        decreases self,
    {
        proof {
            lemma_finished_well_formed(self@);
        }
        match self {
            ExpressionBuilder::Identifier(builder) => builder.finish(),
            ExpressionBuilder::StringLiteral(builder) => builder.finish(),
            ExpressionBuilder::IntegerLiteral(builder) => builder.finish(),
            ExpressionBuilder::RealLiteral(builder) => builder.finish(),
            ExpressionBuilder::Tuple(builder) => builder.finish(),
            ExpressionBuilder::SpecialSyntax(builder) => builder.finish(),
            ExpressionBuilder::InfixOperations(builder) => builder.finish(),
            ExpressionBuilder::MolecularFormula(builder) => builder.finish(),
            ExpressionBuilder::CondensedFormula(builder) => builder.finish(),
        }
    }

    /// The name that the builder can give before it is finished: that of a
    /// bare identifier.
    pub fn parsing_time_identifier(&self) -> (r: Option<&str>)
        ensures
            match parse_time_identifier(self@) {
                Some(name) => r matches Some(given) && given@ == name,
                None => r is None,
            },
    {
        match self {
            ExpressionBuilder::Identifier(builder) => Some(builder.parsing_time_identifier()),
            _ => None,
        }
    }
}

impl View for IdentifierExprBuilder {
    type V = BuilderView;

    closed spec fn view(&self) -> BuilderView {
        BuilderView::Identifier(self.identifier@)
    }
}

impl IdentifierExprBuilder {
    /// A builder for the identifier `identifier`.
    pub fn new(identifier: String) -> (r: Self)
        ensures
            r@ == BuilderView::Identifier(identifier@),
            builder_wf(r@),
    {
        Self { identifier }
    }

    /// An identifier is complete as it is: every token is handed back.
    pub fn add_token(&mut self, token: Token) -> (r: Result<Option<Token>, ParseError>)
        ensures
            r == Ok::<Option<Token>, ParseError>(Some(token)),
            *final(self) == *old(self),
            step_result(step(old(self)@, token@), final(self)@, r),
            step_laws(old(self)@, token, final(self)@, r),
    {
        Ok(Some(token))
    }

    /// The identifier as an expression.
    pub fn finish(self) -> (r: Result<Expression, ParseError>)
        ensures
            finish_result(finished(self@), r),
    {
        Ok(Expression::Identifier(Identifier { name: self.identifier }))
    }

    /// The name of the identifier.
    pub fn parsing_time_identifier(&self) -> (r: &str)
        ensures
            parse_time_identifier(self@) == Some(r@),
    {
        self.identifier.as_str()
    }
}

impl View for StringLiteralExprBuilder {
    type V = BuilderView;

    closed spec fn view(&self) -> BuilderView {
        BuilderView::StringLiteral(self.content@)
    }
}

impl StringLiteralExprBuilder {
    /// A builder for the string literal with the content `content`.
    pub fn new(content: String) -> (r: Self)
        ensures
            r@ == BuilderView::StringLiteral(content@),
            builder_wf(r@),
    {
        Self { content }
    }

    /// A string literal is complete as it is: every token is handed back.
    pub fn add_token(&mut self, token: Token) -> (r: Result<Option<Token>, ParseError>)
        ensures
            r == Ok::<Option<Token>, ParseError>(Some(token)),
            *final(self) == *old(self),
            step_result(step(old(self)@, token@), final(self)@, r),
            step_laws(old(self)@, token, final(self)@, r),
    {
        Ok(Some(token))
    }

    /// The literal as an expression.
    pub fn finish(self) -> (r: Result<Expression, ParseError>)
        ensures
            finish_result(finished(self@), r),
    {
        Ok(Expression::StringLiteral(StringLiteral { content: self.content }))
    }
}

impl View for IntegerLiteralExprBuilder {
    type V = BuilderView;

    closed spec fn view(&self) -> BuilderView {
        BuilderView::IntegerLiteral(self.value)
    }
}

impl IntegerLiteralExprBuilder {
    /// A builder for the integer literal of `value`.
    pub fn new(value: u32) -> (r: Self)
        ensures
            r@ == BuilderView::IntegerLiteral(value),
            builder_wf(r@),
    {
        Self { value }
    }

    /// An integer literal is complete as it is: every token is handed back.
    pub fn add_token(&mut self, token: Token) -> (r: Result<Option<Token>, ParseError>)
        ensures
            r == Ok::<Option<Token>, ParseError>(Some(token)),
            *final(self) == *old(self),
            step_result(step(old(self)@, token@), final(self)@, r),
            step_laws(old(self)@, token, final(self)@, r),
    {
        Ok(Some(token))
    }

    /// The literal as an expression.
    pub fn finish(self) -> (r: Result<Expression, ParseError>)
        ensures
            finish_result(finished(self@), r),
    {
        Ok(Expression::IntegerLiteral(IntegerLiteral { value: self.value }))
    }
}

impl View for RealLiteralExprBuilder {
    type V = BuilderView;

    closed spec fn view(&self) -> BuilderView {
        BuilderView::RealLiteral(self.value@)
    }
}

impl RealLiteralExprBuilder {
    /// A builder for the real literal that `value` spells.
    pub fn new(value: String) -> (r: Self)
        ensures
            r@ == BuilderView::RealLiteral(value@),
            builder_wf(r@),
    {
        Self { value }
    }

    /// A real literal is complete as it is: every token is handed back.
    pub fn add_token(&mut self, token: Token) -> (r: Result<Option<Token>, ParseError>)
        ensures
            r == Ok::<Option<Token>, ParseError>(Some(token)),
            *final(self) == *old(self),
            step_result(step(old(self)@, token@), final(self)@, r),
            step_laws(old(self)@, token, final(self)@, r),
    {
        Ok(Some(token))
    }

    /// The literal as an expression.
    pub fn finish(self) -> (r: Result<Expression, ParseError>)
        ensures
            finish_result(finished(self@), r),
    {
        Ok(Expression::RealLiteral(RealLiteral { value: self.value }))
    }
}

impl View for TupleExprBuilder {
    type V = BuilderView;

    closed spec fn view(&self) -> BuilderView {
        builder_view(ExpressionBuilder::Tuple(*self))
    }
}

impl TupleExprBuilder {
    /// A tuple of which the opening parenthesis has been read.
    pub fn new() -> (r: Self)
        ensures
            r@ == (BuilderView::Tuple {
                values: Seq::empty(),
                has_active_expr: false,
                closed: false,
            }),
            builder_wf(r@),
    {
        let r = Self { values: Vec::new(), has_active_expr: false, closed: false };
        assert(builders_view(r.values@) =~= Seq::empty());
        proof {
            lemma_row_wf(Seq::empty());
        }
        r
    }

    /// Gives the token to the active expression, or where there is none,
    /// opens one with it; blank space opens nothing.
    fn add_to_active_expr(&mut self, token: Token) -> (r: Result<Option<Token>, ParseError>)
        requires
            builder_wf(old(self)@),
            !old(self).closed,
        ensures
            row_step_result(
                step_active(
                    builders_view(old(self).values@),
                    old(self).has_active_expr,
                    token@,
                ),
                builders_view(final(self).values@),
                r,
            ),
            final(self).closed == old(self).closed,
            r is Ok ==> final(self).has_active_expr == (old(self).has_active_expr
                || final(self).values@.len() > old(self).values@.len()),
            r matches Ok(Some(rejected)) ==> rejected == token,
        decreases *old(self), 0nat,
    {
        proof {
            lemma_builders_view(self.values@);
        }
        if self.has_active_expr {
            proof {
                lemma_row_wf(builders_view(self.values@));
            }
            assert(builder_wf(builders_view(self.values@)[self.values@.len() - 1]));
            add_token_to_last(&mut self.values, token)
        } else {
            if !matches!(token, Token::Whitespace) {
                match create_new_expression(token) {
                    Ok(opened) => {
                        proof {
                            lemma_builders_view_push(self.values@, opened);
                        }
                        self.values.push(opened);
                        self.has_active_expr = true;
                    },
                    Err(error) => {
                        return Err(error);
                    },
                }
            }
            Ok(None)
        }
    }

    /// Offers `token` to the tuple. An open tuple takes every token or
    /// fails; a closed one hands every token back.
    pub fn add_token(&mut self, token: Token) -> (r: Result<Option<Token>, ParseError>)
        requires
            builder_wf(old(self)@),
        ensures
            step_result(step(old(self)@, token@), final(self)@, r),
            step_laws(old(self)@, token, final(self)@, r),
        decreases *old(self), 1nat,
    {
        proof {
            lemma_step(old(self)@, token@);
        }
        if self.closed {
            return Ok(Some(token));
        }
        let rejected = match self.add_to_active_expr(token) {
            Ok(None) => {
                return Ok(None);
            },
            Ok(Some(rejected)) => rejected,
            Err(error) => {
                return Err(error);
            },
        };
        match rejected {
            Token::Whitespace => Ok(None),
            Token::RParen => {
                self.closed = true;
                Ok(None)
            },
            Token::Comma => {
                self.has_active_expr = false;
                Ok(None)
            },
            rejected => {
                // the active expression rejected the token: try to build on it
                let ghost row = self.values@;
                proof {
                    lemma_builders_view(row);
                }
                match self.values.pop() {
                    Some(active) => {
                        proof {
                            lemma_builders_view_drop_last(row);
                        }
                        match wrap_in_infix(active, rejected) {
                            Ok((expr, maybe_rejected)) => {
                                proof {
                                    lemma_builders_view_push(self.values@, expr);
                                }
                                self.values.push(expr);
                                match maybe_rejected {
                                    Some(bad_token) => Err(ParseError::UnexpectedToken(bad_token)),
                                    None => Ok(None),
                                }
                            },
                            Err(error) => Err(error),
                        }
                    },
                    None => Err(ParseError::UnexpectedToken(rejected)),
                }
            },
        }
    }

    /// The tuple of the finished values. A tuple that was not closed has
    /// none.
    pub fn finish(self) -> (r: Result<Expression, ParseError>)
        ensures
            finish_result(finished(self@), r),
        decreases self,
    {
        let closed = self.closed;
        let values = match finish_all(self.values) {
            Ok(values) => values,
            Err(error) => {
                return Err(error);
            },
        };
        if !closed {
            return Err(ParseError::ExpectedTokens);
        }
        Ok(Expression::Tuple(TupleExpr { values }))
    }
}

impl View for SpecialSyntaxExprBuilder {
    type V = BuilderView;

    closed spec fn view(&self) -> BuilderView {
        builder_view(ExpressionBuilder::SpecialSyntax(*self))
    }
}

impl SpecialSyntaxExprBuilder {
    /// The builder for a block of the syntax `syntax_name`, where that
    /// syntax is defined.
    pub fn new(syntax_name: &str) -> (r: Option<Self>)
        ensures
            match special_syntax_builder(syntax_name@) {
                Some(inner) => r matches Some(builder) && builder@ == (BuilderView::SpecialSyntax {
                    syntax_name: syntax_name@,
                    seen_left: false,
                    seen_right: false,
                    inner: Box::new(inner),
                }) && builder_wf(builder@),
                None => r is None,
            },
    {
        match lookup_special_syntax_builder(syntax_name) {
            Some(inner) => Some(
                Self {
                    syntax_name: syntax_name.to_owned(),
                    seen_curlies: (false, false),
                    inner_expr: Box::new(inner),
                },
            ),
            None => None,
        }
    }

    /// Offers `token` to the block: the opening brace first, then what the
    /// inner builder takes, then the closing brace.
    pub fn add_token(&mut self, token: Token) -> (r: Result<Option<Token>, ParseError>)
        requires
            builder_wf(old(self)@),
        ensures
            step_result(step(old(self)@, token@), final(self)@, r),
            step_laws(old(self)@, token, final(self)@, r),
        decreases *old(self), 1nat,
    {
        proof {
            lemma_step(old(self)@, token@);
        }
        if self.seen_curlies.1 {
            return Ok(Some(token));
        }
        if !self.seen_curlies.0 {
            return match token {
                Token::LCurly => {
                    self.seen_curlies.0 = true;
                    Ok(None)
                },
                Token::Whitespace => Ok(None),
                token => Err(ParseError::UnexpectedToken(token)),
            };
        }
        match self.inner_expr.add_token(token) {
            Err(error) => Err(error),
            Ok(None) => Ok(None),
            Ok(Some(Token::Whitespace)) => Ok(None),
            Ok(Some(Token::RCurly)) => {
                self.seen_curlies.1 = true;
                Ok(None)
            },
            // no attempt is made to build on the inner expression
            Ok(Some(rejected)) => Err(ParseError::UnexpectedToken(rejected)),
        }
    }

    /// The block with its finished inside. A block whose braces were not
    /// both seen has none.
    pub fn finish(self) -> (r: Result<Expression, ParseError>)
        ensures
            finish_result(finished(self@), r),
        decreases self,
    {
        if !(self.seen_curlies.0 && self.seen_curlies.1) {
            return Err(ParseError::ExpectedTokens);
        }
        let inner = *self.inner_expr;
        match inner.finish() {
            Ok(expr) => Ok(
                Expression::SpecialSyntax(
                    SpecialSyntaxExpr {
                        syntax_name: Identifier { name: self.syntax_name },
                        inner_expr: Box::new(expr),
                    },
                ),
            ),
            Err(error) => Err(error),
        }
    }
}

impl View for InfixOperationsExprBuilder {
    type V = BuilderView;

    closed spec fn view(&self) -> BuilderView {
        builder_view(ExpressionBuilder::InfixOperations(*self))
    }
}

impl InfixOperationsExprBuilder {
    /// A chain that starts with `first_operand` and `first_operator`.
    pub fn new(first_operand: ExpressionBuilder, first_operator: InfixOperator) -> (r: Self)
        ensures
            r@ == (BuilderView::InfixOperations {
                operands: seq![first_operand@],
                operators: seq![first_operator],
                closed: false,
            }),
            first_operand.wf() ==> builder_wf(r@),
    {
        proof {
            lemma_row_wf(seq![first_operand@]);
        }
        let r = Self {
            operands: vec![first_operand],
            operators: vec![first_operator],
            closed: false,
        };
        assert(builders_view(r.operands@) =~= seq![first_operand@]);
        assert(r.operators@ =~= seq![first_operator]);
        r
    }

    /// Gives the token to the last operand where that one is still open;
    /// after an operator, opens the next operand with it, unless it is
    /// blank space.
    fn add_to_current_active_expr(&mut self, token: Token) -> (r: Result<
        Option<Token>,
        ParseError,
    >)
        requires
            builder_wf(old(self)@),
            !old(self).closed,
        ensures
            row_step_result(
                step_active(
                    builders_view(old(self).operands@),
                    old(self).operands@.len() == old(self).operators@.len() + 1,
                    token@,
                ),
                builders_view(final(self).operands@),
                r,
            ),
            final(self).closed == old(self).closed,
            final(self).operators == old(self).operators,
            r matches Ok(Some(rejected)) ==> rejected == token,
        decreases *old(self), 0nat,
    {
        proof {
            lemma_builders_view(self.operands@);
        }
        if self.operands.len() == self.operators.len() {
            // the last item added was an operator
            if !matches!(token, Token::Whitespace) {
                match create_new_expression(token) {
                    Ok(opened) => {
                        proof {
                            lemma_builders_view_push(self.operands@, opened);
                        }
                        self.operands.push(opened);
                    },
                    Err(error) => {
                        return Err(error);
                    },
                }
            }
            Ok(None)
        } else {
            // there is still an active operand
            proof {
                lemma_row_wf(builders_view(self.operands@));
            }
            assert(builder_wf(builders_view(self.operands@)[self.operands@.len() - 1]));
            add_token_to_last(&mut self.operands, token)
        }
    }

    /// Offers `token` to the chain. An operator that the last operand hands
    /// back extends the chain; any other token that it hands back closes
    /// the chain and is handed back in turn.
    pub fn add_token(&mut self, token: Token) -> (r: Result<Option<Token>, ParseError>)
        requires
            builder_wf(old(self)@),
        ensures
            step_result(step(old(self)@, token@), final(self)@, r),
            step_laws(old(self)@, token, final(self)@, r),
        decreases *old(self), 1nat,
    {
        proof {
            lemma_step(old(self)@, token@);
        }
        if self.closed {
            return Ok(Some(token));
        }
        match self.add_to_current_active_expr(token) {
            Err(error) => Err(error),
            Ok(None) => Ok(None),
            Ok(Some(Token::Whitespace)) => Ok(None),
            Ok(Some(rejected)) => match InfixOperator::try_from(rejected) {
                Ok(operator) => {
                    self.operators.push(operator);
                    Ok(None)
                },
                Err(bad_token) => {
                    // every operand is complete, so the chain is: hand the
                    // token back and close
                    self.closed = true;
                    Ok(Some(bad_token))
                },
            },
        }
    }

    /// The chain of the finished operands. A chain that ends in an operator
    /// has none.
    pub fn finish(self) -> (r: Result<Expression, ParseError>)
        ensures
            finish_result(finished(self@), r),
        decreases self,
    {
        proof {
            lemma_builders_view(self.operands@);
        }
        if self.operators.len() >= self.operands.len() || self.operands.len()
            - self.operators.len() != 1 {
            return Err(ParseError::ExpectedTokens);
        }
        let operators = self.operators;
        match finish_all(self.operands) {
            Ok(operands) => Ok(
                Expression::InfixOperations(InfixOperationsExpr { operands, operators }),
            ),
            Err(error) => Err(error),
        }
    }
}

impl View for MolecularFormulaExprBuilder {
    type V = BuilderView;

    closed spec fn view(&self) -> BuilderView {
        builder_view(ExpressionBuilder::MolecularFormula(*self))
    }
}

impl MolecularFormulaExprBuilder {
    /// A formula of which the opening mark has been read.
    pub fn new() -> (r: Self)
        ensures
            r@ == (BuilderView::MolecularFormula { parts: Seq::empty(), charge: None, closed: false }),
            builder_wf(r@),
    {
        let r = Self { symbols_and_subscripts: Vec::new(), charge: None, is_closed: false };
        assert(builders_view(r.symbols_and_subscripts@) =~= Seq::empty());
        proof {
            lemma_row_wf(Seq::empty());
        }
        r
    }

    /// Gives the token to the last symbol or subscript; where that one
    /// hands it back, opens the next one with it; where it opens none,
    /// hands it back.
    fn add_to_symbol_or_subscr(&mut self, token: Token) -> (r: Result<Option<Token>, ParseError>)
        requires
            builder_wf(old(self)@),
            old(self).charge is None,
        ensures
            row_step_result(
                step_symbol_or_subscript(
                    builders_view(old(self).symbols_and_subscripts@),
                    token@,
                ),
                builders_view(final(self).symbols_and_subscripts@),
                r,
            ),
            final(self).charge == old(self).charge,
            final(self).is_closed == old(self).is_closed,
            r matches Ok(Some(rejected)) ==> rejected == token,
        decreases *old(self), 0nat,
    {
        let mut token = token;
        proof {
            lemma_builders_view(self.symbols_and_subscripts@);
        }
        // Attempt to add it to the last symbol or subscript
        if self.symbols_and_subscripts.len() > 0 {
            proof {
                lemma_row_wf(builders_view(self.symbols_and_subscripts@));
            }
            assert(builder_wf(
                builders_view(self.symbols_and_subscripts@)[self.symbols_and_subscripts@.len() - 1],
            ));
            match add_token_to_last(&mut self.symbols_and_subscripts, token) {
                Ok(None) => {
                    return Ok(None);
                },
                Ok(Some(rejected)) => {
                    token = rejected;
                },
                Err(error) => {
                    return Err(error);
                },
            }
        } else {
            assert(builders_view(self.symbols_and_subscripts@) =~= Seq::empty());
        }
        // Either there was none or the last one rejected: try to open
        // another with the token
        if !matches!(token, Token::Whitespace) {
            match create_new_expression(token) {
                Ok(opened) => {
                    proof {
                        lemma_builders_view_push(self.symbols_and_subscripts@, opened);
                    }
                    self.symbols_and_subscripts.push(opened);
                    return Ok(None);
                },
                Err(ParseError::UnexpectedToken(rejected)) => {
                    token = rejected;
                },
                Err(error) => {
                    return Err(error);
                },
            }
        }
        Ok(Some(token))
    }

    /// Offers `token` to the formula: to its symbols and subscripts until a
    /// sign is read, then to the magnitude of the charge.
    pub fn add_token(&mut self, token: Token) -> (r: Result<Option<Token>, ParseError>)
        requires
            builder_wf(old(self)@),
        ensures
            step_result(step(old(self)@, token@), final(self)@, r),
            step_laws(old(self)@, token, final(self)@, r),
        decreases *old(self), 1nat,
    {
        proof {
            lemma_step(old(self)@, token@);
        }
        if self.is_closed {
            return Ok(Some(token));
        }
        if self.charge.is_none() {
            // no sign encountered yet
            match self.add_to_symbol_or_subscr(token) {
                Err(error) => Err(error),
                Ok(None) => Ok(None),
                Ok(Some(Token::PlusSign)) => {
                    self.charge = Some((true, None));
                    Ok(None)
                },
                Ok(Some(Token::MinusSign)) => {
                    self.charge = Some((false, None));
                    Ok(None)
                },
                Ok(Some(rejected)) => {
                    // every part is complete, so the formula is: hand the
                    // token back and close
                    self.is_closed = true;
                    Ok(Some(rejected))
                },
            }
        } else {
            match &mut self.charge {
                Some((_, magnitude)) => match magnitude {
                    None => {
                        // a sign was read and the magnitude is due at once:
                        // not even blank space may come between
                        match create_new_expression(token) {
                            Ok(opened) => {
                                *magnitude = Some(Box::new(opened));
                                Ok(None)
                            },
                            Err(error) => Err(error),
                        }
                    },
                    Some(magnitude) => {
                        // the formula takes what the magnitude takes and
                        // hands back what it hands back
                        match magnitude.add_token(token) {
                            Ok(Some(rejected)) => {
                                self.is_closed = true;
                                Ok(Some(rejected))
                            },
                            other => other,
                        }
                    },
                },
                None => Ok(Some(token)),
            }
        }
    }

    /// The formula of the finished parts. A formula that ends in a sign has
    /// none.
    pub fn finish(self) -> (r: Result<Expression, ParseError>)
        ensures
            finish_result(finished(self@), r),
        decreases self,
    {
        let charge = self.charge;
        let symbols_and_subscripts = match finish_all(self.symbols_and_subscripts) {
            Ok(parts) => parts,
            Err(error) => {
                return Err(error);
            },
        };
        let charge = match charge {
            None => None,
            Some((_, None)) => {
                return Err(ParseError::ExpectedTokens);
            },
            Some((sign, Some(magnitude))) => {
                let magnitude = *magnitude;
                match magnitude.finish() {
                    Ok(expr) => Some((sign, Box::new(expr))),
                    Err(error) => {
                        return Err(error);
                    },
                }
            },
        };
        Ok(Expression::MolecularFormula(MolecularFormulaExpr { symbols_and_subscripts, charge }))
    }
}

impl View for CondensedFormulaExprBuilder {
    type V = BuilderView;

    closed spec fn view(&self) -> BuilderView {
        BuilderView::CondensedFormula
    }
}

impl CondensedFormulaExprBuilder {
    /// A condensed formula just opened: no subformula, subscript or charge.
    pub fn new() -> (r: Self)
        ensures
            r@ == BuilderView::CondensedFormula,
            builder_wf(r@),
            r.parts() == Seq::<BuilderView>::empty(),
            r.charge_read() == None::<(bool, Option<BuilderView>)>,
    {
        let r = Self { subformulas_and_subscripts: Vec::new(), charge: None };
        assert(r.parts() =~= Seq::<BuilderView>::empty());
        r
    }

    /// The states of the subformulas and subscripts that the formula holds,
    /// in their order.
    pub closed spec fn parts(&self) -> Seq<BuilderView> {
        builders_view(self.subformulas_and_subscripts@)
    }

    /// The charge that the formula holds: its sign (`true` is positive),
    /// and the state of its magnitude once that has been opened.
    pub closed spec fn charge_read(&self) -> Option<(bool, Option<BuilderView>)> {
        match self.charge {
            Some((sign, Some(magnitude))) => Some((sign, Some(builder_view(*magnitude)))),
            Some((sign, None)) => Some((sign, None)),
            None => None,
        }
    }

    /// Condensed formulas have no syntax yet: every token fails.
    pub fn add_token(&mut self, token: Token) -> (r: Result<Option<Token>, ParseError>)
        ensures
            r == Err::<Option<Token>, ParseError>(ParseError::UnsupportedSyntax),
            step_result(step(old(self)@, token@), final(self)@, r),
            step_laws(old(self)@, token, final(self)@, r),
    {
        Err(ParseError::UnsupportedSyntax)
    }

    /// Condensed formulas have no syntax yet: there is nothing to finish.
    pub fn finish(self) -> (r: Result<Expression, ParseError>)
        ensures
            r == Err::<Expression, ParseError>(ParseError::UnsupportedSyntax),
            finish_result(finished(self@), r),
    {
        Err(ParseError::UnsupportedSyntax)
    }
}

impl View for WrapperExprBuilder {
    type V = WrapperView;

    closed spec fn view(&self) -> WrapperView {
        WrapperView {
            inner: match self.maybe_inner_expr {
                Some(inner) => Some(inner@),
                None => None,
            },
            closed: self.closed,
        }
    }
}

/// Whether `r` and the state `after` are what `expected` says.
pub open spec fn wrapper_step_result(
    expected: WrapperStep,
    after: WrapperView,
    r: Result<Option<Token>, ParseError>,
) -> bool {
    match expected {
        WrapperStep::Accepted(next) => r matches Ok(None) && after == next,
        WrapperStep::Rejected(next, rejected) => {
            &&& r matches Ok(Some(token))
            &&& token@ == rejected
            &&& after == next
        },
        WrapperStep::Failed(failure) => r matches Err(error) && error@ == failure,
    }
}

/// What holds of every step of the builder at the top, whatever it was
/// given: after a step that did not fail the builder is well formed; a
/// token that is handed back is the very token that was offered, and the
/// builder is closed from then on; a closed builder hands the token back
/// and stays as it is.
pub open spec fn wrapper_step_laws(
    before: WrapperView,
    token: Token,
    after: WrapperView,
    r: Result<Option<Token>, ParseError>,
) -> bool {
    &&& r is Ok ==> wrapper_wf(after)
    &&& r matches Ok(Some(rejected)) ==> rejected == token && after.closed
    &&& before.closed ==> r == Ok::<Option<Token>, ParseError>(Some(token)) && after == before
}

impl WrapperExprBuilder {
    /// The invariant of a builder that has not failed.
    pub open spec fn wf(&self) -> bool {
        wrapper_wf(self@)
    }

    /// A builder that has not been given a token yet.
    pub fn new() -> (r: Self)
        ensures
            r.wf(),
            r@ == (WrapperView { inner: None, closed: false }),
    {
        Self { maybe_inner_expr: None, closed: false }
    }

    /// Offers `token` to the expression. The first token that is not blank
    /// space opens it. A token that it hands back is built on where that
    /// is possible, and handed back otherwise.
    pub fn add_token(&mut self, token: Token) -> (r: Result<Option<Token>, ParseError>)
        requires
            old(self).wf(),
        ensures
            wrapper_step_result(wrapper_step(old(self)@, token@), final(self)@, r),
            wrapper_step_laws(old(self)@, token, final(self)@, r),
    {
        proof {
            lemma_wrapper_step(old(self)@, token@);
        }
        if self.closed {
            return Ok(Some(token));
        }
        match self.maybe_inner_expr.take() {
            None => {
                if !matches!(token, Token::Whitespace) {
                    match create_new_expression(token) {
                        Ok(opened) => {
                            self.maybe_inner_expr = Some(opened);
                        },
                        Err(error) => {
                            return Err(error);
                        },
                    }
                }
                Ok(None)
            },
            Some(expr) => {
                let mut expr = expr;
                match expr.add_token(token) {
                    Err(error) => Err(error),
                    Ok(None) => {
                        self.maybe_inner_expr = Some(expr);
                        Ok(None)
                    },
                    Ok(Some(Token::Whitespace)) => {
                        self.maybe_inner_expr = Some(expr);
                        Ok(None)
                    },
                    Ok(Some(rejected)) => match wrap_in_infix(expr, rejected) {
                        Ok((expr, maybe_rejected)) => {
                            self.maybe_inner_expr = Some(expr);
                            match maybe_rejected {
                                Some(bad_token) => {
                                    // the expression is complete: hand the
                                    // token back and close
                                    self.closed = true;
                                    Ok(Some(bad_token))
                                },
                                None => Ok(None),
                            }
                        },
                        Err(error) => Err(error),
                    },
                }
            },
        }
    }

    /// The expression that was built. Where no token opened one, there is
    /// none.
    pub fn finish(self) -> (r: Result<Expression, ParseError>)
        ensures
            finish_result(wrapper_finished(self@), r),
            r matches Ok(expr) ==> well_formed(expr@),
    {
        match self.maybe_inner_expr {
            None => Err(ParseError::NoTokens),
            Some(inner) => inner.finish(),
        }
    }
}

/// Builds the expression that the tokens stand for.
pub fn parse_tokens<S: Source<Item = char>>(token_iter: Tokens<S>) -> (r: Result<
    Expression,
    ParseError,
>)
    requires
        token_iter.wf(),
    ensures
        finish_result(parsed(tokens_of(token_iter@)), r),
        r matches Ok(expr) ==> well_formed(expr@),
{
    let mut tokens = token_iter;
    let ghost all = tokens_of(token_iter@);
    let mut result = WrapperExprBuilder::new();
    loop
        invariant
            tokens.wf(),
            result.wf(),
            all == tokens_of(token_iter@),
            parsed(all) == fed(result@, tokens_of(tokens@)),
        ensures
            tokens_of(tokens@).len() == 0,
        decreases tokens_of(tokens@).len(),
    {
        let ghost before = tokens.remaining();
        let ghost state = result@;
        match tokens.next() {
            Some(token) => {
                proof {
                    lemma_wrapper_step(state, token@);
                    assert(before[0] == token@);
                    assert(tokens.remaining() == before.drop_first());
                }
                match result.add_token(token) {
                    Ok(None) => {},
                    Ok(Some(rejected)) => {
                        return Err(ParseError::UnexpectedToken(rejected));
                    },
                    Err(error) => {
                        return Err(error);
                    },
                }
            },
            None => {
                break ;
            },
        }
    }
    result.finish()
}

/// Builds the expression that the text stands for.
pub fn parse_str(string: &str) -> (r: Result<Expression, ParseError>)
    ensures
        finish_result(parsed(tokens_of(string@)), r),
        r matches Ok(expr) ==> well_formed(expr@),
{
    parse_tokens(Tokens::new(CharSource::new(string)))
}

} // verus!
