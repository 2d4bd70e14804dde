//! What holds of the builders whatever tokens they are given.

use crate::parse::expression::model::{
    builder_wf, fed, finished, finished_row, is_closed, lemma_row_wf, new_expression, parsed,
    row_wf, step, step_active, step_last, step_symbol_or_subscript, wrap, wrapper_finished,
    wrapper_step, wrapper_wf, BuilderView, RowStep, Step, Wrap, WrapperStep, WrapperView,
};
use crate::parse::expression::parser::ParseErrorView;
use crate::parse::expression::{
    all_well_formed, lemma_all_well_formed, well_formed, ExprView, InfixOperator,
};
use crate::parse::tokens::TokenView;
use vstd::prelude::*;

verus! {

/// Where a front part of a row cannot be finished, the whole row fails in
/// the same way.
pub proof fn lemma_finished_row_fails(row: Seq<BuilderView>, n: int)
    requires
        0 <= n <= row.len(),
        finished_row(row.take(n)) is Err,
    ensures
        finished_row(row) == finished_row(row.take(n)),
    decreases row.len() - n,
{
    if n < row.len() {
        assert(row.take(n + 1).drop_last() =~= row.take(n));
        lemma_finished_row_fails(row, n + 1);
    } else {
        assert(row.take(n) =~= row);
    }
}

/// A builder that a token opens is well formed.
pub proof fn lemma_new_expression(t: TokenView)
    ensures
        match new_expression(t) {
            Ok(opened) => builder_wf(opened),
            Err(failure) => failure == ParseErrorView::UnexpectedToken(t),
        },
{
    match new_expression(t) {
        Ok(opened) => {
            match opened {
                BuilderView::Tuple { values, .. } => {
                    lemma_row_wf(values);
                },
                BuilderView::MolecularFormula { parts, .. } => {
                    lemma_row_wf(parts);
                },
                _ => {},
            }
        },
        Err(_) => {},
    }
}

/// Building on a well-formed builder gives a well-formed builder, and a
/// token that cannot be built on comes back with the builder, both
/// unchanged.
pub proof fn lemma_wrap(b: BuilderView, t: TokenView)
    requires
        builder_wf(b),
    ensures
        match wrap(b, t) {
            Wrap::Wrapped(wrapped) => builder_wf(wrapped),
            Wrap::Unwrapped(same, token) => same == b && token == t,
            Wrap::Failed(_) => true,
        },
{
    match wrap(b, t) {
        Wrap::Wrapped(wrapped) => {
            match wrapped {
                BuilderView::InfixOperations { operands, .. } => {
                    lemma_row_wf(operands);
                },
                _ => {},
            }
        },
        _ => {},
    }
}

/// What holds of every step of a well-formed builder: it stays well
/// formed; a token that it hands back is the one it was given, and the
/// builder is closed afterwards; and a closed builder hands every token
/// back and stays as it is.
pub proof fn lemma_step(b: BuilderView, t: TokenView)
    requires
        builder_wf(b),
    ensures
        match step(b, t) {
            Step::Accepted(next) => builder_wf(next),
            Step::Rejected(next, rejected) => builder_wf(next) && is_closed(next) && rejected == t,
            Step::Failed(_) => true,
        },
        is_closed(b) ==> step(b, t) == Step::Rejected(b, t),
    decreases b, 2nat,
{
    match b {
        BuilderView::Tuple { values, has_active_expr, closed } => {
            if !closed {
                lemma_step_active(values, has_active_expr, t);
                match step_active(values, has_active_expr, t) {
                    RowStep::Rejected(row, rejected) => {
                        lemma_row_wf(row);
                        match rejected {
                            TokenView::Whitespace => {},
                            TokenView::RParen => {},
                            TokenView::Comma => {},
                            _ => {
                                lemma_wrap(row.last(), rejected);
                                match wrap(row.last(), rejected) {
                                    Wrap::Wrapped(wrapped) => {
                                        lemma_row_wf(row.drop_last().push(wrapped));
                                    },
                                    _ => {},
                                }
                            },
                        }
                    },
                    _ => {},
                }
            }
        },
        BuilderView::SpecialSyntax { syntax_name, seen_left, seen_right, inner } => {
            if !seen_right && seen_left {
                lemma_step(*inner, t);
            }
        },
        BuilderView::InfixOperations { operands, operators, closed } => {
            if !closed {
                lemma_step_active(operands, operands.len() == operators.len() + 1, t);
            }
        },
        BuilderView::MolecularFormula { parts, charge, closed } => {
            if !closed {
                match charge {
                    None => {
                        lemma_step_symbol_or_subscript(parts, t);
                    },
                    Some((sign, None)) => {
                        lemma_new_expression(t);
                    },
                    Some((sign, Some(magnitude))) => {
                        lemma_step(*magnitude, t);
                    },
                }
            }
        },
        _ => {},
    }
}

/// What holds of every step of the last builder of a well-formed row.
pub proof fn lemma_step_last(row: Seq<BuilderView>, t: TokenView)
    requires
        row_wf(row),
    ensures
        match step_last(row, t) {
            RowStep::Accepted(next) => row_wf(next) && next.len() == row.len(),
            RowStep::Rejected(next, rejected) => {
                &&& row_wf(next)
                &&& next.len() == row.len()
                &&& rejected == t
                &&& next.len() > 0 ==> is_closed(next.last())
            },
            RowStep::Failed(_) => true,
        },
    decreases row, 0nat,
{
    lemma_row_wf(row);
    if row.len() > 0 {
        lemma_step(row.last(), t);
        match step(row.last(), t) {
            Step::Accepted(next) => {
                lemma_row_wf(row.drop_last().push(next));
            },
            Step::Rejected(next, _) => {
                lemma_row_wf(row.drop_last().push(next));
            },
            _ => {},
        }
    }
}

/// What holds of every step of a well-formed row.
pub proof fn lemma_step_active(row: Seq<BuilderView>, has_active: bool, t: TokenView)
    requires
        row_wf(row),
        has_active ==> row.len() > 0,
    ensures
        match step_active(row, has_active, t) {
            RowStep::Accepted(next) => {
                &&& row_wf(next)
                &&& next.len() == if has_active || t is Whitespace {
                    row.len()
                } else {
                    row.len() + 1
                }
            },
            RowStep::Rejected(next, rejected) => {
                &&& has_active
                &&& row_wf(next)
                &&& next.len() == row.len()
                &&& rejected == t
                &&& is_closed(next.last())
            },
            RowStep::Failed(_) => true,
        },
    decreases row, 1nat,
{
    if has_active {
        lemma_step_last(row, t);
    } else if !(t is Whitespace) {
        lemma_new_expression(t);
        lemma_row_wf(row);
        match new_expression(t) {
            Ok(opened) => {
                lemma_row_wf(row.push(opened));
            },
            _ => {},
        }
    }
}

/// What holds of every step of the symbols and subscripts of a formula.
pub proof fn lemma_step_symbol_or_subscript(parts: Seq<BuilderView>, t: TokenView)
    requires
        row_wf(parts),
    ensures
        match step_symbol_or_subscript(parts, t) {
            RowStep::Accepted(next) => row_wf(next),
            RowStep::Rejected(next, rejected) => row_wf(next) && rejected == t,
            RowStep::Failed(_) => true,
        },
    decreases parts, 1nat,
{
    lemma_step_last(parts, t);
    match step_last(parts, t) {
        RowStep::Rejected(row, rejected) => {
            if !(rejected is Whitespace) {
                lemma_new_expression(rejected);
                lemma_row_wf(row);
                match new_expression(rejected) {
                    Ok(opened) => {
                        lemma_row_wf(row.push(opened));
                    },
                    _ => {},
                }
            }
        },
        _ => {},
    }
}

/// What holds of every step of the builder at the top: it stays well
/// formed; a token that it hands back is the one it was given, and the
/// builder is closed afterwards; and once closed it hands every token back
/// and stays as it is.
pub proof fn lemma_wrapper_step(w: WrapperView, t: TokenView)
    requires
        wrapper_wf(w),
    ensures
        match wrapper_step(w, t) {
            WrapperStep::Accepted(next) => wrapper_wf(next),
            WrapperStep::Rejected(next, rejected) => wrapper_wf(next) && next.closed && rejected == t,
            WrapperStep::Failed(_) => true,
        },
        w.closed ==> wrapper_step(w, t) == WrapperStep::Rejected(w, t),
{
    if !w.closed {
        match w.inner {
            None => {
                lemma_new_expression(t);
            },
            Some(inner) => {
                lemma_step(inner, t);
                match step(inner, t) {
                    Step::Rejected(next, rejected) => {
                        lemma_wrap(next, rejected);
                    },
                    _ => {},
                }
            },
        }
    }
}

/// Sticky closure: a builder that has handed a token back hands every later
/// token back as well, unchanged, and stays as it is.
pub proof fn lemma_sticky_closure(b: BuilderView, first: TokenView, later: TokenView)
    requires
        builder_wf(b),
        step(b, first) is Rejected,
    ensures
        step(b, first)->Rejected_1 == first,
        step(step(b, first)->Rejected_0, later) == Step::Rejected(
            step(b, first)->Rejected_0,
            later,
        ),
{
    lemma_step(b, first);
    lemma_step(step(b, first)->Rejected_0, later);
}

/// Sticky closure at the top: once the builder at the top has handed a
/// token back, it hands every later token back as well, unchanged, and
/// stays as it is.
pub proof fn lemma_wrapper_sticky_closure(w: WrapperView, first: TokenView, later: TokenView)
    requires
        wrapper_wf(w),
        wrapper_step(w, first) is Rejected,
    ensures
        wrapper_step(w, first)->Rejected_1 == first,
        wrapper_step(wrapper_step(w, first)->Rejected_0, later) == WrapperStep::Rejected(
            wrapper_step(w, first)->Rejected_0,
            later,
        ),
{
    lemma_wrapper_step(w, first);
    lemma_wrapper_step(wrapper_step(w, first)->Rejected_0, later);
}

/// The expressions of a finished row: one for each builder, each the one
/// that its builder has built.
pub proof fn lemma_finished_row(row: Seq<BuilderView>)
    ensures
        finished_row(row) matches Ok(exprs) ==> {
            &&& exprs.len() == row.len()
            &&& forall|i: int|
                0 <= i < row.len() ==> finished(#[trigger] row[i]) == Ok::<
                    ExprView,
                    ParseErrorView,
                >(exprs[i])
        },
    decreases row.len(),
{
    if row.len() > 0 {
        lemma_finished_row(row.drop_last());
        match finished_row(row) {
            Ok(exprs) => {
                let front = finished_row(row.drop_last())->Ok_0;
                assert forall|i: int| 0 <= i < row.len() implies finished(#[trigger] row[i])
                    == Ok::<ExprView, ParseErrorView>(exprs[i]) by {
                    if i < row.len() - 1 {
                        assert(row[i] == row.drop_last()[i]);
                        assert(exprs[i] == front[i]);
                    }
                }
            },
            Err(_) => {},
        }
    }
}

/// Arity: a finished chain of operations has one operand more than it has
/// operators, and the operators are those of the builder in their order.
pub proof fn lemma_finished_chain(
    operands: Seq<BuilderView>,
    operators: Seq<InfixOperator>,
    closed: bool,
)
    ensures
        finished(BuilderView::InfixOperations { operands, operators, closed }) matches Ok(
            expr,
        ) ==> {
            &&& expr matches ExprView::InfixOperations(built, signs)
            &&& built.len() == signs.len() + 1
            &&& built.len() == operands.len()
            &&& signs == operators
        },
{
    lemma_finished_row(operands);
}

/// What a builder has built is a well-formed expression: every chain in it
/// has one operand more than it has operators.
pub proof fn lemma_finished_well_formed(b: BuilderView)
    ensures
        finished(b) matches Ok(expr) ==> well_formed(expr),
    decreases b, 1nat,
{
    match b {
        BuilderView::Tuple { values, .. } => {
            lemma_finished_row_well_formed(values);
        },
        BuilderView::SpecialSyntax { inner, .. } => {
            lemma_finished_well_formed(*inner);
        },
        BuilderView::InfixOperations { operands, .. } => {
            lemma_finished_row_well_formed(operands);
            lemma_finished_row(operands);
        },
        BuilderView::MolecularFormula { parts, charge, .. } => {
            lemma_finished_row_well_formed(parts);
            match charge {
                Some((_, Some(magnitude))) => {
                    lemma_finished_well_formed(*magnitude);
                },
                _ => {},
            }
        },
        _ => {},
    }
}

/// What the builders of a row have built are well-formed expressions.
pub proof fn lemma_finished_row_well_formed(row: Seq<BuilderView>)
    ensures
        finished_row(row) matches Ok(exprs) ==> all_well_formed(exprs),
    decreases row, 0nat,
{
    match finished_row(row) {
        Ok(exprs) => {
            lemma_finished_row(row);
            lemma_all_well_formed(exprs);
            assert forall|i: int| 0 <= i < exprs.len() implies well_formed(#[trigger] exprs[i]) by {
                lemma_finished_well_formed(row[i]);
            }
        },
        Err(_) => {},
    }
}

/// What a row of tokens stands for is a well-formed expression.
pub proof fn lemma_parsed_well_formed(tokens: Seq<TokenView>)
    ensures
        parsed(tokens) matches Ok(expr) ==> well_formed(expr),
{
    lemma_fed_well_formed(WrapperView { inner: None, closed: false }, tokens);
}

/// What comes of feeding tokens to the builder at the top is a well-formed
/// expression.
pub proof fn lemma_fed_well_formed(w: WrapperView, tokens: Seq<TokenView>)
    ensures
        fed(w, tokens) matches Ok(expr) ==> well_formed(expr),
    decreases tokens.len(),
{
    if tokens.len() == 0 {
        match w.inner {
            Some(inner) => {
                lemma_finished_well_formed(inner);
            },
            None => {},
        }
    } else {
        match wrapper_step(w, tokens[0]) {
            WrapperStep::Accepted(next) => {
                lemma_fed_well_formed(next, tokens.drop_first());
            },
            _ => {},
        }
    }
}

/// A builder fails only when it is in the middle of something: a builder
/// that fails on a token for any reason but a syntax without a builder
/// could not have been finished as it was.
pub proof fn lemma_failure_means_incomplete(b: BuilderView, t: TokenView)
    requires
        builder_wf(b),
        step(b, t) matches Step::Failed(failure) && failure != ParseErrorView::UnsupportedSyntax,
    ensures
        finished(b) is Err,
    decreases b, 1nat,
{
    reveal_with_fuel(step, 2);
    reveal_with_fuel(step_active, 2);
    reveal_with_fuel(step_symbol_or_subscript, 2);
    match b {
        BuilderView::Tuple { values, has_active_expr, closed } => {
            assert(!closed);
        },
        BuilderView::SpecialSyntax { syntax_name, seen_left, seen_right, inner } => {
            assert(!seen_right);
        },
        BuilderView::InfixOperations { operands, operators, closed } => {
            assert(!closed);
            if operands.len() == operators.len() + 1 {
                assert(step_active(operands, true, t) == step_last(operands, t));
                lemma_row_failure_means_incomplete(operands, t);
            }
        },
        BuilderView::MolecularFormula { parts, charge, closed } => {
            match charge {
                None => {
                    lemma_step_last(parts, t);
                    match step_last(parts, t) {
                        RowStep::Failed(_) => {
                            lemma_row_failure_means_incomplete(parts, t);
                        },
                        _ => {},
                    }
                },
                Some((sign, None)) => {},
                Some((sign, Some(magnitude))) => {
                    lemma_failure_means_incomplete(*magnitude, t);
                },
            }
        },
        _ => {},
    }
}

/// A row whose last builder fails for any reason but a syntax without a
/// builder could not have been finished as it was.
pub proof fn lemma_row_failure_means_incomplete(row: Seq<BuilderView>, t: TokenView)
    requires
        row_wf(row),
        step_last(row, t) matches RowStep::Failed(failure) && failure
            != ParseErrorView::UnsupportedSyntax,
    ensures
        finished_row(row) is Err,
    decreases row, 0nat,
{
    lemma_row_wf(row);
    lemma_failure_means_incomplete(row.last(), t);
}

/// At the top a failure means the same: the builder at the top fails on a
/// token for a reason other than a syntax without a builder only when it
/// could not have been finished as it was.
pub proof fn lemma_wrapper_failure_means_incomplete(w: WrapperView, t: TokenView)
    requires
        wrapper_wf(w),
        wrapper_step(w, t) matches WrapperStep::Failed(failure) && failure
            != ParseErrorView::UnsupportedSyntax,
    ensures
        wrapper_finished(w) is Err,
{
    match w.inner {
        Some(inner) => {
            lemma_step(inner, t);
            match step(inner, t) {
                Step::Failed(_) => {
                    lemma_failure_means_incomplete(inner, t);
                },
                Step::Rejected(next, rejected) => {
                    lemma_wrap(next, rejected);
                },
                _ => {},
            }
        },
        None => {},
    }
}

} // verus!
