//! The arithmetic-expression grammar: a fully parenthesized prefix form
//! `( op operand operand... )` over signed base-10 integers, assembled from
//! the combinators, with the expression rule referring to itself through a
//! forward-reference handle.

use vstd::prelude::*;

use crate::chars::PredModel;
use crate::engine::ParseResult;
use crate::errors::ExprError;
use crate::evaluator::eval;
use crate::evaluator::eval_s;
use crate::matcher::Matcher;
use crate::matcher::MatcherModel;
use crate::matcher::Parser;
use crate::matcher::ch;
use crate::matcher::discard;
use crate::matcher::drop_all_but_last;
use crate::matcher::flat_string;
use crate::matcher::lemma_matcher_models;
use crate::matcher::matcher_models;
use crate::matcher::one_of;
use crate::matcher::optional;
use crate::matcher::regex;
use crate::matcher::repeat1;
use crate::semantics::Outcome;
use crate::semantics::apply_s;

verus! {

/// The model of the mandatory-whitespace rule: one or more whitespace
/// characters, excluded from the tree.
pub open spec fn ws_m() -> MatcherModel {
    MatcherModel::Discard(
        Box::new(
            MatcherModel::Repeat1(
                Box::new(MatcherModel::Satisfy(PredModel::Pattern("[\\s]"@))),
            ),
        ),
    )
}

/// The model of the optional-whitespace rule.
pub open spec fn opt_ws_m() -> MatcherModel {
    MatcherModel::Optional(Box::new(ws_m()))
}

/// The model of a run of digits collapsed into one literal.
pub open spec fn digits_m() -> MatcherModel {
    MatcherModel::FlatString(
        Box::new(MatcherModel::Repeat1(Box::new(MatcherModel::Satisfy(PredModel::Digit)))),
    )
}

/// The model of an integer literal: digits, or a minus sign fused with the
/// digits that follow it.
pub open spec fn number_m() -> MatcherModel {
    MatcherModel::OneOf(
        seq![
            MatcherModel::FlatString(
                Box::new(
                    MatcherModel::Sequence(
                        seq![MatcherModel::Satisfy(PredModel::Exact('-')), digits_m()],
                    ),
                ),
            ),
            digits_m(),
        ],
    )
}

/// The model of an operator character.
pub open spec fn operator_m() -> MatcherModel {
    MatcherModel::Satisfy(PredModel::Pattern("[+/*-]"@))
}

/// The model of "optional whitespace, then the operator, keeping only the
/// operator".
pub open spec fn op_part_m() -> MatcherModel {
    MatcherModel::DropAllButLast(
        Box::new(MatcherModel::Sequence(seq![opt_ws_m(), operator_m()])),
    )
}

/// The model of "optional whitespace, then the closing parenthesis,
/// keeping only the parenthesis".
pub open spec fn close_m() -> MatcherModel {
    MatcherModel::DropAllButLast(
        Box::new(
            MatcherModel::Sequence(
                seq![opt_ws_m(), MatcherModel::Satisfy(PredModel::Exact(')'))],
            ),
        ),
    )
}

/// The model of the zero-operand form `( op )`.
pub open spec fn zero_op_m() -> MatcherModel {
    MatcherModel::Sequence(
        seq![MatcherModel::Satisfy(PredModel::Exact('(')), op_part_m(), close_m()],
    )
}

/// The model of the operand list: one or more of "whitespace, then an
/// expression, keeping only the expression".
pub open spec fn args_m() -> MatcherModel {
    MatcherModel::Repeat1(
        Box::new(
            MatcherModel::DropAllButLast(
                Box::new(MatcherModel::Sequence(seq![ws_m(), MatcherModel::Delegate])),
            ),
        ),
    )
}

/// The model of the operand form `( op operand operand... )`.
pub open spec fn args_op_m() -> MatcherModel {
    MatcherModel::Sequence(
        seq![MatcherModel::Satisfy(PredModel::Exact('(')), op_part_m(), args_m(), close_m()],
    )
}

/// The model of the expression rule: a number, the zero-operand form, or
/// the operand form — tried in that order.
pub open spec fn expr_m() -> MatcherModel {
    MatcherModel::OneOf(seq![number_m(), zero_op_m(), args_op_m()])
}

fn build_ws() -> (m: Matcher)
    ensures
        m.deep_view() == ws_m(),
{
    discard(repeat1(regex("[\\s]")))
}

fn build_digits() -> (m: Matcher)
    ensures
        m.deep_view() == digits_m(),
{
    flat_string(repeat1(crate::matcher::digit()))
}

fn build_number() -> (m: Matcher)
    ensures
        m.deep_view() == number_m(),
{
    let inner = vec![ch('-'), build_digits()];
    proof {
        lemma_matcher_models(inner@);
        assert(matcher_models(inner@) =~= seq![
            MatcherModel::Satisfy(PredModel::Exact('-')),
            digits_m(),
        ]);
    }
    let neg = flat_string(crate::matcher::seq(inner));
    let branches = vec![neg, build_digits()];
    proof {
        lemma_matcher_models(branches@);
        assert(matcher_models(branches@) =~= number_m()->OneOf_0);
    }
    one_of(branches)
}

fn build_op_part() -> (m: Matcher)
    ensures
        m.deep_view() == op_part_m(),
{
    let inner = vec![optional(build_ws()), regex("[+/*-]")];
    proof {
        lemma_matcher_models(inner@);
        assert(matcher_models(inner@) =~= seq![opt_ws_m(), operator_m()]);
    }
    drop_all_but_last(crate::matcher::seq(inner))
}

fn build_close() -> (m: Matcher)
    ensures
        m.deep_view() == close_m(),
{
    let inner = vec![optional(build_ws()), ch(')')];
    proof {
        lemma_matcher_models(inner@);
        assert(matcher_models(inner@) =~= seq![
            opt_ws_m(),
            MatcherModel::Satisfy(PredModel::Exact(')')),
        ]);
    }
    drop_all_but_last(crate::matcher::seq(inner))
}

fn build_zero_op() -> (m: Matcher)
    ensures
        m.deep_view() == zero_op_m(),
{
    let parts = vec![ch('('), build_op_part(), build_close()];
    proof {
        lemma_matcher_models(parts@);
        assert(matcher_models(parts@) =~= zero_op_m()->Sequence_0);
    }
    crate::matcher::seq(parts)
}

fn build_args(handle: &Parser) -> (m: Matcher)
    ensures
        m.deep_view() == args_m(),
{
    let step = vec![build_ws(), handle.make()];
    proof {
        lemma_matcher_models(step@);
        assert(matcher_models(step@) =~= seq![ws_m(), MatcherModel::Delegate]);
    }
    repeat1(drop_all_but_last(crate::matcher::seq(step)))
}

fn build_args_op(handle: &Parser) -> (m: Matcher)
    ensures
        m.deep_view() == args_op_m(),
{
    let parts = vec![ch('('), build_op_part(), build_args(handle), build_close()];
    proof {
        lemma_matcher_models(parts@);
        assert(matcher_models(parts@) =~= args_op_m()->Sequence_0);
    }
    crate::matcher::seq(parts)
}

/// Assemble the arithmetic-expression grammar: a forward-reference handle
/// bound to the expression rule, whose operand positions delegate back to
/// the handle itself.
pub fn arithmetic_grammar() -> (p: Parser)
    ensures
        p.bound_model() == Some(expr_m()),
{
    let mut p = Parser::new();
    let branches = vec![build_number(), build_zero_op(), build_args_op(&p)];
    proof {
        lemma_matcher_models(branches@);
        assert(matcher_models(branches@) =~= expr_m()->OneOf_0);
    }
    let expr = one_of(branches);
    p.update(expr);
    p
}

/// What evaluating one line means: parse it as an expression with the fuel
/// the engine is given — one more than the line's length — and reduce the
/// matched tree; a parse failure or an evaluation failure is reported as
/// such. Text left unconsumed after a matched expression is ignored.
pub open spec fn eval_line_s(input: Seq<char>) -> Result<i64, ExprError> {
    match apply_s(MatcherModel::Delegate, Some(expr_m()), input, 0, (input.len() + 1) as nat) {
        Outcome::Match(v, _) => match eval_s(v) {
            Ok(n) => Ok(n),
            Err(e) => Err(ExprError::Eval(e)),
        },
        Outcome::Fail(e) => Err(ExprError::Parse(e)),
    }
}

/// Parse one line as an arithmetic expression and evaluate it.
pub fn eval_line(input: &str) -> (r: Result<i64, ExprError>)
    requires
        input@.len() < usize::MAX,
    ensures
        r == eval_line_s(input@),
{
    let p = arithmetic_grammar();
    let m = p.make();
    let res = p.parse(&m, input);
    match res {
        ParseResult::Value(v, _) => match eval(&v) {
            Ok(n) => Ok(n),
            Err(e) => Err(ExprError::Eval(e)),
        },
        ParseResult::Error(e) => Err(ExprError::Parse(e)),
    }
}

} // verus!
