//! The engine's general laws, proved once and for all against the semantic
//! model: primitive failure consumes nothing, repetition never fails,
//! optionality always succeeds, sequencing is all-or-nothing, choice is
//! ordered, and a delegating matcher behaves as its bound definition.

use vstd::prelude::*;

use crate::chars::PredModel;
use crate::chars::pred_holds;
use crate::errors::ParseError;
use crate::matcher::MatcherModel;
use crate::semantics::Outcome;
use crate::semantics::apply_s;
use crate::semantics::repeat_s;
use crate::semantics::seq_s;
use crate::value::Val;

verus! {

/// When the character at the matching position does not satisfy the
/// predicate, `satisfy` fails, naming that character; a failure carries no
/// remainder at all, so the caller's input stands exactly as it was.
pub proof fn lemma_satisfy_rejects(
    p: PredModel,
    env: Option<MatcherModel>,
    input: Seq<char>,
    pos: int,
    fuel: nat,
)
    requires
        0 <= pos < input.len(),
        !pred_holds(p, input[pos]),
    ensures
        apply_s(MatcherModel::Satisfy(p), env, input, pos, fuel) == Outcome::Fail(
            ParseError::UnexpectedCharacter(input[pos]),
        ),
{
}

/// At the end of the input, `satisfy` fails with its distinct
/// end-of-input error, whatever the predicate.
pub proof fn lemma_satisfy_end(
    p: PredModel,
    env: Option<MatcherModel>,
    input: Seq<char>,
    fuel: nat,
)
    ensures
        apply_s(MatcherModel::Satisfy(p), env, input, input.len() as int, fuel) == Outcome::Fail(
            ParseError::UnexpectedEnd,
        ),
{
}

/// Repetition never fails, for any matcher and any input: an inner failure
/// only ends the collection.
pub proof fn lemma_repeat_never_fails(
    m: MatcherModel,
    env: Option<MatcherModel>,
    input: Seq<char>,
    pos: int,
    fuel: nat,
)
    ensures
        apply_s(MatcherModel::Repeat(Box::new(m)), env, input, pos, fuel) is Match,
{
}

/// The one-or-more quantifier fails exactly when plain repetition would
/// have matched nothing — and then with its dedicated error; on any other
/// outcome the two agree.
pub proof fn lemma_repeat1_fails_iff_repeat_absent(
    m: MatcherModel,
    env: Option<MatcherModel>,
    input: Seq<char>,
    pos: int,
    fuel: nat,
)
    ensures
        (apply_s(MatcherModel::Repeat1(Box::new(m)), env, input, pos, fuel) is Fail) <==> (apply_s(
            MatcherModel::Repeat(Box::new(m)),
            env,
            input,
            pos,
            fuel,
        ) == Outcome::Match(Val::Empty, pos)),
        apply_s(MatcherModel::Repeat1(Box::new(m)), env, input, pos, fuel) is Fail ==> apply_s(
            MatcherModel::Repeat1(Box::new(m)),
            env,
            input,
            pos,
            fuel,
        ) == Outcome::Fail(ParseError::ExpectedAtLeastOne),
        !(apply_s(MatcherModel::Repeat1(Box::new(m)), env, input, pos, fuel) is Fail) ==> apply_s(
            MatcherModel::Repeat1(Box::new(m)),
            env,
            input,
            pos,
            fuel,
        ) == apply_s(MatcherModel::Repeat(Box::new(m)), env, input, pos, fuel),
{
    let r = repeat_s(m, env, input, pos, fuel);
    if r.0.len() == 0 {
    } else {
    }
}

/// Optionality always succeeds; when the inner matcher fails, the result is
/// the empty value with the remainder exactly the original input.
pub proof fn lemma_optional_total(
    m: MatcherModel,
    env: Option<MatcherModel>,
    input: Seq<char>,
    pos: int,
    fuel: nat,
)
    ensures
        apply_s(MatcherModel::Optional(Box::new(m)), env, input, pos, fuel) is Match,
        apply_s(m, env, input, pos, fuel) is Fail ==> apply_s(
            MatcherModel::Optional(Box::new(m)),
            env,
            input,
            pos,
            fuel,
        ) == Outcome::Match(Val::Empty, pos),
{
}

/// A three-step sequence is all-or-nothing. On success its value is the
/// list of the three values the steps match one after the other, each
/// starting where the previous one stopped — the sequence consumes
/// precisely the concatenation of what its steps consume, in order. On a
/// failing step the whole sequence fails with that step's error, and no
/// value from the earlier steps is returned.
pub proof fn lemma_seq3_decomposes(
    a: MatcherModel,
    b: MatcherModel,
    c: MatcherModel,
    env: Option<MatcherModel>,
    input: Seq<char>,
    pos: int,
    fuel: nat,
)
    ensures
        apply_s(MatcherModel::Sequence(seq![a, b, c]), env, input, pos, fuel) matches
            Outcome::Match(v, p) ==> (apply_s(a, env, input, pos, fuel) matches Outcome::Match(
            va,
            p1,
        ) && apply_s(b, env, input, p1, fuel) matches Outcome::Match(vb, p2) && apply_s(
            c,
            env,
            input,
            p2,
            fuel,
        ) matches Outcome::Match(vc, p3) && p3 == p && v == Val::List(seq![va, vb, vc])),
        apply_s(a, env, input, pos, fuel) matches Outcome::Fail(e) ==> apply_s(
            MatcherModel::Sequence(seq![a, b, c]),
            env,
            input,
            pos,
            fuel,
        ) == Outcome::Fail(e),
        apply_s(a, env, input, pos, fuel) matches Outcome::Match(va, p1) ==> (apply_s(
            b,
            env,
            input,
            p1,
            fuel,
        ) matches Outcome::Fail(e) ==> apply_s(
            MatcherModel::Sequence(seq![a, b, c]),
            env,
            input,
            pos,
            fuel,
        ) == Outcome::Fail(e)),
        apply_s(a, env, input, pos, fuel) matches Outcome::Match(va, p1) ==> (apply_s(
            b,
            env,
            input,
            p1,
            fuel,
        ) matches Outcome::Match(vb, p2) ==> (apply_s(c, env, input, p2, fuel) matches
            Outcome::Fail(e) ==> apply_s(MatcherModel::Sequence(seq![a, b, c]), env, input, pos, fuel)
            == Outcome::Fail(e))),
{
    let ms = seq![a, b, c];
    assert(ms.len() == 3);
    assert(ms[0] == a);
    assert(ms[1] == b);
    assert(ms[2] == c);
    let s0 = seq_s(ms, env, input, pos, fuel, 0);
    assert(apply_s(MatcherModel::Sequence(ms), env, input, pos, fuel) == (match s0 {
        Ok(r) => Outcome::Match(Val::List(r.0), r.1),
        Err(e) => Outcome::Fail(e),
    }));
    match apply_s(a, env, input, pos, fuel) {
        Outcome::Fail(e) => {
            assert(s0 == Err::<(Seq<Val>, int), ParseError>(e));
        },
        Outcome::Match(va, p1) => {
            let s1 = seq_s(ms, env, input, p1, fuel, 1);
            match apply_s(b, env, input, p1, fuel) {
                Outcome::Fail(e) => {
                    assert(s1 == Err::<(Seq<Val>, int), ParseError>(e));
                    assert(s0 == Err::<(Seq<Val>, int), ParseError>(e));
                },
                Outcome::Match(vb, p2) => {
                    let s2 = seq_s(ms, env, input, p2, fuel, 2);
                    match apply_s(c, env, input, p2, fuel) {
                        Outcome::Fail(e) => {
                            assert(s2 == Err::<(Seq<Val>, int), ParseError>(e));
                            assert(s0 == Err::<(Seq<Val>, int), ParseError>(e));
                        },
                        Outcome::Match(vc, p3) => {
                            let s3 = seq_s(ms, env, input, p3, fuel, 3);
                            assert(s3 == Ok::<(Seq<Val>, int), ParseError>((Seq::empty(), p3)));
                            assert(s2 == Ok::<(Seq<Val>, int), ParseError>(
                                (seq![vc] + Seq::<Val>::empty(), p3),
                            ));
                            assert(s0 == Ok::<(Seq<Val>, int), ParseError>(
                                (seq![va] + (seq![vb] + (seq![vc] + Seq::<Val>::empty())), p3),
                            ));
                            assert(seq![va] + (seq![vb] + (seq![vc] + Seq::<Val>::empty()))
                                =~= seq![va, vb, vc]);
                        },
                    }
                },
            }
        },
    }
}

/// When the first of two alternatives matches, the choice returns that
/// result verbatim: listed order is the tie-break.
pub proof fn lemma_one_of_first_wins(
    a: MatcherModel,
    b: MatcherModel,
    env: Option<MatcherModel>,
    input: Seq<char>,
    pos: int,
    fuel: nat,
)
    requires
        apply_s(a, env, input, pos, fuel) is Match,
    ensures
        apply_s(MatcherModel::OneOf(seq![a, b]), env, input, pos, fuel) == apply_s(
            a,
            env,
            input,
            pos,
            fuel,
        ),
{
    reveal_with_fuel(apply_s, 2);
    reveal_with_fuel(crate::semantics::one_of_s, 3);
    let ms = seq![a, b];
    assert(ms[0] == a);
}

/// With fuel to spend, a delegating matcher behaves exactly as the
/// definition bound to its handle, run with one expansion fewer.
pub proof fn lemma_delegate_behaves_as_bound(
    d: MatcherModel,
    input: Seq<char>,
    pos: int,
    fuel: nat,
)
    requires
        fuel >= 1,
    ensures
        apply_s(MatcherModel::Delegate, Some(d), input, pos, fuel) == apply_s(
            d,
            Some(d),
            input,
            pos,
            (fuel - 1) as nat,
        ),
{
}

/// A handle bound to a primitive matcher is indistinguishable from that
/// matcher invoked directly, whatever fuel or environment either runs
/// with: a primitive looks at one character only.
pub proof fn lemma_delegate_to_satisfy(
    p: PredModel,
    env: Option<MatcherModel>,
    input: Seq<char>,
    pos: int,
    fuel: nat,
    fuel2: nat,
)
    requires
        fuel >= 1,
    ensures
        apply_s(MatcherModel::Delegate, Some(MatcherModel::Satisfy(p)), input, pos, fuel)
            == apply_s(MatcherModel::Satisfy(p), env, input, pos, fuel2),
{
    reveal_with_fuel(apply_s, 2);
}

/// An unbound handle's delegating matcher fails with its distinguishable
/// error, whatever the input.
pub proof fn lemma_delegate_unbound(input: Seq<char>, pos: int, fuel: nat)
    ensures
        apply_s(MatcherModel::Delegate, None, input, pos, fuel) == Outcome::Fail(
            ParseError::GrammarNotYetDefined,
        ),
{
}

/// A sequence's value has exactly one child per component matcher.
pub proof fn lemma_seq_s_length(
    ms: Seq<MatcherModel>,
    env: Option<MatcherModel>,
    input: Seq<char>,
    pos: int,
    fuel: nat,
    k: int,
)
    requires
        0 <= k <= ms.len(),
    ensures
        seq_s(ms, env, input, pos, fuel, k) matches Ok(r) ==> r.0.len() == ms.len() - k,
    decreases ms.len() - k,
{
    if k < ms.len() {
        match apply_s(ms[k], env, input, pos, fuel) {
            Outcome::Fail(e) => {},
            Outcome::Match(v, p) => {
                lemma_seq_s_length(ms, env, input, p, fuel, k + 1);
            },
        }
    }
}

/// On success, a sequence of `n` matchers produces a list of exactly `n`
/// values, in matching order.
pub proof fn lemma_sequence_value_length(
    ms: Seq<MatcherModel>,
    env: Option<MatcherModel>,
    input: Seq<char>,
    pos: int,
    fuel: nat,
)
    ensures
        apply_s(MatcherModel::Sequence(ms), env, input, pos, fuel) matches Outcome::Match(v, p)
            ==> (v matches Val::List(vs) && vs.len() == ms.len()),
{
    lemma_seq_s_length(ms, env, input, pos, fuel, 0);
}

/// Evaluation depends on the tree alone: two trees with the same model
/// evaluate to the identical result. Together with `eval`'s contract —
/// its result equals `eval_s` of its argument's model — re-evaluating the
/// same parsed tree always yields the same integer or the same error.
pub proof fn lemma_eval_depends_on_tree_alone(a: &crate::value::ParseValue, b: &crate::value::ParseValue)
    requires
        a.deep_view() == b.deep_view(),
    ensures
        crate::evaluator::eval_s(a.deep_view()) == crate::evaluator::eval_s(b.deep_view()),
{
}

} // verus!
