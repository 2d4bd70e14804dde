//! The builders as a state machine over mathematical values: what each
//! builder does with a token, what it has built when it is finished, and
//! what a whole row of tokens comes to.

use crate::helper::text::decimal_u32;
use crate::parse::expression::parser::ParseErrorView;
use crate::parse::expression::{ExprView, InfixOperator};
use crate::parse::tokens::TokenView;
use vstd::prelude::*;

verus! {

/// The state of a builder as a mathematical value.
pub enum BuilderView {
    Identifier(Seq<char>),
    StringLiteral(Seq<char>),
    IntegerLiteral(u32),
    RealLiteral(Seq<char>),
    Tuple { values: Seq<BuilderView>, has_active_expr: bool, closed: bool },
    SpecialSyntax { syntax_name: Seq<char>, seen_left: bool, seen_right: bool, inner: Box<BuilderView> },
    InfixOperations { operands: Seq<BuilderView>, operators: Seq<InfixOperator>, closed: bool },
    MolecularFormula {
        parts: Seq<BuilderView>,
        charge: Option<(bool, Option<Box<BuilderView>>)>,
        closed: bool,
    },
    CondensedFormula,
}

/// The state of the builder at the top as a mathematical value.
pub struct WrapperView {
    pub inner: Option<BuilderView>,
    pub closed: bool,
}

/// What a builder does with a token.
pub enum Step {
    /// The token became part of the expression; the builder goes on in the
    /// given state.
    Accepted(BuilderView),
    /// The builder, now in the given state, has no use for the token and
    /// hands it back.
    Rejected(BuilderView, TokenView),
    /// The token cannot be taken and the expression cannot end here.
    Failed(ParseErrorView),
}

/// What the last builder of a row does with a token, with the row as it is
/// afterwards.
pub enum RowStep {
    Accepted(Seq<BuilderView>),
    Rejected(Seq<BuilderView>, TokenView),
    Failed(ParseErrorView),
}

/// What comes of the attempt to build on a builder that rejected a token.
pub enum Wrap {
    /// The token was taken: the builder is now part of the given one.
    Wrapped(BuilderView),
    /// The builder and the token, as they were.
    Unwrapped(BuilderView, TokenView),
    /// The token asks for a syntax that has no builder.
    Failed(ParseErrorView),
}

/// What the builder at the top does with a token.
pub enum WrapperStep {
    Accepted(WrapperView),
    Rejected(WrapperView, TokenView),
    Failed(ParseErrorView),
}

/// The operator that a token stands for.
pub open spec fn operator_of(t: TokenView) -> Option<InfixOperator> {
    match t {
        TokenView::Dot => Some(InfixOperator::FunctionCall),
        TokenView::PlusSign => Some(InfixOperator::Plus),
        TokenView::MinusSign => Some(InfixOperator::Minus),
        TokenView::MulSign => Some(InfixOperator::Mul),
        TokenView::DivSign => Some(InfixOperator::Div),
        TokenView::PowSign => Some(InfixOperator::Pow),
        _ => None,
    }
}

/// The builder that a token opens. A token that opens none, or an integer
/// that is no numeral of an unsigned 32-bit number, is unexpected.
pub open spec fn new_expression(t: TokenView) -> Result<BuilderView, ParseErrorView> {
    match t {
        TokenView::Identifier(name) => Ok(BuilderView::Identifier(name)),
        TokenView::StringLiteral(content) => Ok(BuilderView::StringLiteral(content)),
        TokenView::Integer(digits) => match decimal_u32(digits) {
            Some(value) => Ok(BuilderView::IntegerLiteral(value)),
            None => Err(ParseErrorView::UnexpectedToken(t)),
        },
        TokenView::Real(digits) => Ok(BuilderView::RealLiteral(digits)),
        TokenView::LParen => Ok(
            BuilderView::Tuple { values: Seq::empty(), has_active_expr: false, closed: false },
        ),
        TokenView::Cash => Ok(
            BuilderView::MolecularFormula { parts: Seq::empty(), charge: None, closed: false },
        ),
        TokenView::CashCash => Ok(BuilderView::CondensedFormula),
        _ => Err(ParseErrorView::UnexpectedToken(t)),
    }
}

/// The name that a builder can give while it is being built: that of a
/// bare identifier.
pub open spec fn parse_time_identifier(b: BuilderView) -> Option<Seq<char>> {
    match b {
        BuilderView::Identifier(name) => Some(name),
        _ => None,
    }
}

/// The builder for the inside of a special syntax block of the given name.
/// No special syntax is defined.
pub open spec fn special_syntax_builder(name: Seq<char>) -> Option<BuilderView> {
    None
}

/// The attempt to build on `b`, which rejected `t`. An operator makes `b`
/// the first operand of a chain. A bang after a bare identifier opens a
/// special syntax block of that name. Anything else leaves both as they
/// are.
pub open spec fn wrap(b: BuilderView, t: TokenView) -> Wrap {
    match operator_of(t) {
        Some(operator) => Wrap::Wrapped(
            BuilderView::InfixOperations {
                operands: seq![b],
                operators: seq![operator],
                closed: false,
            },
        ),
        None => if t is Bang {
            match parse_time_identifier(b) {
                Some(name) => match special_syntax_builder(name) {
                    Some(inner) => Wrap::Wrapped(
                        BuilderView::SpecialSyntax {
                            syntax_name: name,
                            seen_left: false,
                            seen_right: false,
                            inner: Box::new(inner),
                        },
                    ),
                    None => Wrap::Failed(ParseErrorView::UnsupportedSyntax),
                },
                None => Wrap::Unwrapped(b, t),
            }
        } else {
            Wrap::Unwrapped(b, t)
        },
    }
}

/// Whether the builder has closed: it has rejected a token, or was complete
/// from the start.
pub open spec fn is_closed(b: BuilderView) -> bool {
    match b {
        BuilderView::Identifier(_) => true,
        BuilderView::StringLiteral(_) => true,
        BuilderView::IntegerLiteral(_) => true,
        BuilderView::RealLiteral(_) => true,
        BuilderView::Tuple { closed, .. } => closed,
        BuilderView::SpecialSyntax { seen_right, .. } => seen_right,
        BuilderView::InfixOperations { closed, .. } => closed,
        BuilderView::MolecularFormula { closed, .. } => closed,
        BuilderView::CondensedFormula => false,
    }
}

/// The invariant of a builder that has not failed.
pub open spec fn builder_wf(b: BuilderView) -> bool
    decreases b,
{
    match b {
        BuilderView::Tuple { values, has_active_expr, closed } => {
            &&& has_active_expr ==> values.len() > 0
            &&& row_wf(values)
        },
        BuilderView::SpecialSyntax { syntax_name, seen_left, seen_right, inner } => {
            &&& seen_right ==> seen_left
            &&& builder_wf(*inner)
        },
        BuilderView::InfixOperations { operands, operators, closed } => {
            &&& operators.len() >= 1
            &&& operands.len() == operators.len() || operands.len() == operators.len() + 1
            &&& closed ==> operands.len() == operators.len() + 1
            &&& row_wf(operands)
        },
        BuilderView::MolecularFormula { parts, charge, closed } => {
            &&& row_wf(parts)
            &&& match charge {
                Some((_, Some(magnitude))) => builder_wf(*magnitude),
                _ => true,
            }
        },
        _ => true,
    }
}

/// Every builder of the row is well formed.
pub open spec fn row_wf(row: Seq<BuilderView>) -> bool
    decreases row,
{
    forall|i: int| 0 <= i < row.len() ==> builder_wf(#[trigger] row[i])
}

/// A row is well formed exactly when each of its builders is.
pub proof fn lemma_row_wf(row: Seq<BuilderView>)
    ensures
        row_wf(row) <==> forall|i: int| 0 <= i < row.len() ==> builder_wf(#[trigger] row[i]),
{
}

/// What the builder in state `b` does with the token `t`.
pub open spec fn step(b: BuilderView, t: TokenView) -> Step
    decreases b, 1nat,
{
    match b {
        BuilderView::Tuple { values, has_active_expr, closed } => {
            if closed {
                Step::Rejected(b, t)
            } else {
                match step_active(values, has_active_expr, t) {
                    RowStep::Accepted(row) => Step::Accepted(
                        BuilderView::Tuple {
                            values: row,
                            has_active_expr: has_active_expr || row.len() > values.len(),
                            closed,
                        },
                    ),
                    RowStep::Failed(error) => Step::Failed(error),
                    RowStep::Rejected(row, rejected) => match rejected {
                        TokenView::Whitespace => Step::Accepted(
                            BuilderView::Tuple { values: row, has_active_expr, closed },
                        ),
                        TokenView::RParen => Step::Accepted(
                            BuilderView::Tuple { values: row, has_active_expr, closed: true },
                        ),
                        TokenView::Comma => Step::Accepted(
                            BuilderView::Tuple { values: row, has_active_expr: false, closed },
                        ),
                        _ => match wrap(row.last(), rejected) {
                            Wrap::Wrapped(wrapped) => Step::Accepted(
                                BuilderView::Tuple {
                                    values: row.drop_last().push(wrapped),
                                    has_active_expr,
                                    closed,
                                },
                            ),
                            Wrap::Unwrapped(_, token) => Step::Failed(
                                ParseErrorView::UnexpectedToken(token),
                            ),
                            Wrap::Failed(error) => Step::Failed(error),
                        },
                    },
                }
            }
        },
        BuilderView::SpecialSyntax { syntax_name, seen_left, seen_right, inner } => {
            if seen_right {
                Step::Rejected(b, t)
            } else if !seen_left {
                match t {
                    TokenView::LCurly => Step::Accepted(
                        BuilderView::SpecialSyntax {
                            syntax_name,
                            seen_left: true,
                            seen_right,
                            inner,
                        },
                    ),
                    TokenView::Whitespace => Step::Accepted(b),
                    _ => Step::Failed(ParseErrorView::UnexpectedToken(t)),
                }
            } else {
                match step(*inner, t) {
                    Step::Accepted(next) => Step::Accepted(
                        BuilderView::SpecialSyntax {
                            syntax_name,
                            seen_left,
                            seen_right,
                            inner: Box::new(next),
                        },
                    ),
                    Step::Failed(error) => Step::Failed(error),
                    Step::Rejected(next, rejected) => match rejected {
                        TokenView::Whitespace => Step::Accepted(
                            BuilderView::SpecialSyntax {
                                syntax_name,
                                seen_left,
                                seen_right,
                                inner: Box::new(next),
                            },
                        ),
                        TokenView::RCurly => Step::Accepted(
                            BuilderView::SpecialSyntax {
                                syntax_name,
                                seen_left,
                                seen_right: true,
                                inner: Box::new(next),
                            },
                        ),
                        _ => Step::Failed(ParseErrorView::UnexpectedToken(rejected)),
                    },
                }
            }
        },
        BuilderView::InfixOperations { operands, operators, closed } => {
            if closed {
                Step::Rejected(b, t)
            } else {
                match step_active(operands, operands.len() == operators.len() + 1, t) {
                    RowStep::Accepted(row) => Step::Accepted(
                        BuilderView::InfixOperations { operands: row, operators, closed },
                    ),
                    RowStep::Failed(error) => Step::Failed(error),
                    RowStep::Rejected(row, rejected) => if rejected is Whitespace {
                        Step::Accepted(
                            BuilderView::InfixOperations { operands: row, operators, closed },
                        )
                    } else {
                        match operator_of(rejected) {
                            Some(operator) => Step::Accepted(
                                BuilderView::InfixOperations {
                                    operands: row,
                                    operators: operators.push(operator),
                                    closed,
                                },
                            ),
                            None => Step::Rejected(
                                BuilderView::InfixOperations {
                                    operands: row,
                                    operators,
                                    closed: true,
                                },
                                rejected,
                            ),
                        }
                    },
                }
            }
        },
        BuilderView::MolecularFormula { parts, charge, closed } => {
            if closed {
                Step::Rejected(b, t)
            } else {
                match charge {
                    None => match step_symbol_or_subscript(parts, t) {
                        RowStep::Accepted(row) => Step::Accepted(
                            BuilderView::MolecularFormula { parts: row, charge, closed },
                        ),
                        RowStep::Failed(error) => Step::Failed(error),
                        RowStep::Rejected(row, rejected) => match rejected {
                            TokenView::PlusSign => Step::Accepted(
                                BuilderView::MolecularFormula {
                                    parts: row,
                                    charge: Some((true, None)),
                                    closed,
                                },
                            ),
                            TokenView::MinusSign => Step::Accepted(
                                BuilderView::MolecularFormula {
                                    parts: row,
                                    charge: Some((false, None)),
                                    closed,
                                },
                            ),
                            _ => Step::Rejected(
                                BuilderView::MolecularFormula { parts: row, charge, closed: true },
                                rejected,
                            ),
                        },
                    },
                    Some((sign, None)) => match new_expression(t) {
                        Ok(opened) => Step::Accepted(
                            BuilderView::MolecularFormula {
                                parts,
                                charge: Some((sign, Some(Box::new(opened)))),
                                closed,
                            },
                        ),
                        Err(error) => Step::Failed(error),
                    },
                    Some((sign, Some(magnitude))) => match step(*magnitude, t) {
                        Step::Accepted(next) => Step::Accepted(
                            BuilderView::MolecularFormula {
                                parts,
                                charge: Some((sign, Some(Box::new(next)))),
                                closed,
                            },
                        ),
                        Step::Failed(error) => Step::Failed(error),
                        Step::Rejected(next, rejected) => Step::Rejected(
                            BuilderView::MolecularFormula {
                                parts,
                                charge: Some((sign, Some(Box::new(next)))),
                                closed: true,
                            },
                            rejected,
                        ),
                    },
                }
            }
        },
        BuilderView::CondensedFormula => Step::Failed(ParseErrorView::UnsupportedSyntax),
        _ => Step::Rejected(b, t),
    }
}

/// What the last builder of a non-empty row does with `t`.
pub open spec fn step_last(row: Seq<BuilderView>, t: TokenView) -> RowStep
    decreases row, 0nat,
{
    if row.len() == 0 {
        RowStep::Rejected(row, t)
    } else {
        match step(row.last(), t) {
            Step::Accepted(next) => RowStep::Accepted(row.drop_last().push(next)),
            Step::Rejected(next, rejected) => RowStep::Rejected(
                row.drop_last().push(next),
                rejected,
            ),
            Step::Failed(error) => RowStep::Failed(error),
        }
    }
}

/// What a row does with `t`: its last builder gets the token where that
/// one is still active; otherwise blank space is passed over and any other
/// token opens a new builder at the end of the row.
pub open spec fn step_active(row: Seq<BuilderView>, has_active: bool, t: TokenView) -> RowStep
    decreases row, 1nat,
{
    if has_active {
        step_last(row, t)
    } else if t is Whitespace {
        RowStep::Accepted(row)
    } else {
        match new_expression(t) {
            Ok(opened) => RowStep::Accepted(row.push(opened)),
            Err(error) => RowStep::Failed(error),
        }
    }
}

/// What the symbols and subscripts of a formula do with `t`: the last one
/// takes it, or it opens a new one, or it is handed back.
pub open spec fn step_symbol_or_subscript(parts: Seq<BuilderView>, t: TokenView) -> RowStep
    decreases parts, 1nat,
{
    match step_last(parts, t) {
        RowStep::Accepted(row) => RowStep::Accepted(row),
        RowStep::Failed(error) => RowStep::Failed(error),
        RowStep::Rejected(row, rejected) => if rejected is Whitespace {
            RowStep::Rejected(row, rejected)
        } else {
            match new_expression(rejected) {
                Ok(opened) => RowStep::Accepted(row.push(opened)),
                Err(_) => RowStep::Rejected(row, rejected),
            }
        },
    }
}

/// What the builder at the top does with `t`.
pub open spec fn wrapper_step(w: WrapperView, t: TokenView) -> WrapperStep {
    if w.closed {
        WrapperStep::Rejected(w, t)
    } else {
        match w.inner {
            None => if t is Whitespace {
                WrapperStep::Accepted(w)
            } else {
                match new_expression(t) {
                    Ok(opened) => WrapperStep::Accepted(
                        WrapperView { inner: Some(opened), closed: false },
                    ),
                    Err(error) => WrapperStep::Failed(error),
                }
            },
            Some(inner) => match step(inner, t) {
                Step::Accepted(next) => WrapperStep::Accepted(
                    WrapperView { inner: Some(next), closed: false },
                ),
                Step::Failed(error) => WrapperStep::Failed(error),
                Step::Rejected(next, rejected) => if rejected is Whitespace {
                    WrapperStep::Accepted(WrapperView { inner: Some(next), closed: false })
                } else {
                    match wrap(next, rejected) {
                        Wrap::Wrapped(wrapped) => WrapperStep::Accepted(
                            WrapperView { inner: Some(wrapped), closed: false },
                        ),
                        Wrap::Unwrapped(same, token) => WrapperStep::Rejected(
                            WrapperView { inner: Some(same), closed: true },
                            token,
                        ),
                        Wrap::Failed(error) => WrapperStep::Failed(error),
                    }
                },
            },
        }
    }
}

/// The expression that the builder has built, or why there is none yet.
pub open spec fn finished(b: BuilderView) -> Result<ExprView, ParseErrorView>
    decreases b, 1nat,
{
    match b {
        BuilderView::Identifier(name) => Ok(ExprView::Identifier(name)),
        BuilderView::StringLiteral(content) => Ok(ExprView::StringLiteral(content)),
        BuilderView::IntegerLiteral(value) => Ok(ExprView::IntegerLiteral(value)),
        BuilderView::RealLiteral(digits) => Ok(ExprView::RealLiteral(digits)),
        BuilderView::Tuple { values, has_active_expr, closed } => match finished_row(values) {
            Err(error) => Err(error),
            Ok(exprs) => if closed {
                Ok(ExprView::Tuple(exprs))
            } else {
                Err(ParseErrorView::ExpectedTokens)
            },
        },
        BuilderView::SpecialSyntax { syntax_name, seen_left, seen_right, inner } => {
            if !(seen_left && seen_right) {
                Err(ParseErrorView::ExpectedTokens)
            } else {
                match finished(*inner) {
                    Err(error) => Err(error),
                    Ok(expr) => Ok(ExprView::SpecialSyntax(syntax_name, Box::new(expr))),
                }
            }
        },
        BuilderView::InfixOperations { operands, operators, closed } => {
            if operands.len() != operators.len() + 1 {
                Err(ParseErrorView::ExpectedTokens)
            } else {
                match finished_row(operands) {
                    Err(error) => Err(error),
                    Ok(exprs) => Ok(ExprView::InfixOperations(exprs, operators)),
                }
            }
        },
        BuilderView::MolecularFormula { parts, charge, closed } => match finished_row(parts) {
            Err(error) => Err(error),
            Ok(exprs) => match charge {
                None => Ok(ExprView::MolecularFormula(exprs, None)),
                Some((sign, None)) => Err(ParseErrorView::ExpectedTokens),
                Some((sign, Some(magnitude))) => match finished(*magnitude) {
                    Err(error) => Err(error),
                    Ok(expr) => Ok(
                        ExprView::MolecularFormula(exprs, Some((sign, Box::new(expr)))),
                    ),
                },
            },
        },
        BuilderView::CondensedFormula => Err(ParseErrorView::UnsupportedSyntax),
    }
}

/// The expressions that the builders of a row have built, from left to
/// right; the first builder that has none decides.
pub open spec fn finished_row(row: Seq<BuilderView>) -> Result<Seq<ExprView>, ParseErrorView>
    decreases row, 0nat,
{
    if row.len() == 0 {
        Ok(Seq::empty())
    } else {
        match finished_row(row.drop_last()) {
            Err(error) => Err(error),
            Ok(exprs) => match finished(row.last()) {
                Err(error) => Err(error),
                Ok(expr) => Ok(exprs.push(expr)),
            },
        }
    }
}

/// The expression that the builder at the top has built.
pub open spec fn wrapper_finished(w: WrapperView) -> Result<ExprView, ParseErrorView> {
    match w.inner {
        None => Err(ParseErrorView::NoTokens),
        Some(inner) => finished(inner),
    }
}

/// What comes of giving the tokens to the builder at the top, one after the
/// other, and finishing after the last. A token that the builder rejects is
/// unexpected.
pub open spec fn fed(w: WrapperView, tokens: Seq<TokenView>) -> Result<ExprView, ParseErrorView>
    decreases tokens.len(),
{
    if tokens.len() == 0 {
        wrapper_finished(w)
    } else {
        match wrapper_step(w, tokens[0]) {
            WrapperStep::Accepted(next) => fed(next, tokens.drop_first()),
            WrapperStep::Rejected(_, rejected) => Err(ParseErrorView::UnexpectedToken(rejected)),
            WrapperStep::Failed(error) => Err(error),
        }
    }
}

/// The expression that a row of tokens stands for.
pub open spec fn parsed(tokens: Seq<TokenView>) -> Result<ExprView, ParseErrorView> {
    fed(WrapperView { inner: None, closed: false }, tokens)
}

/// The invariant of the builder at the top.
pub open spec fn wrapper_wf(w: WrapperView) -> bool {
    match w.inner {
        Some(inner) => builder_wf(inner),
        None => true,
    }
}

} // verus!
