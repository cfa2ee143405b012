//! What applying a matcher to an input means: a recursive interpreter over
//! matcher models, stated as spec functions. The executable engine is proved
//! to return exactly what these functions say.
//!
//! Matching is a pure function of (matcher, grammar definition, input,
//! position, fuel). The fuel bounds only nested expansions of the
//! forward-reference handle; every other construct is structural. A grammar
//! whose recursion consumes input — the only kind matching can finish on —
//! never exhausts a fuel of one more than the input's length.

use vstd::prelude::*;

use crate::chars::pred_holds;
use crate::errors::ParseError;
use crate::matcher::MatcherModel;
use crate::value::Val;

verus! {

/// The model of a match outcome: a matched value and the position of the
/// unconsumed remainder, or a failure. A failure carries no position — the
/// input stands as it was.
pub enum Outcome {
    Match(Val, int),
    Fail(ParseError),
}

/// Whether every value of a list is a literal.
pub open spec fn all_strings(vs: Seq<Val>) -> bool {
    forall|i: int| 0 <= i < vs.len() ==> vs[i] is Str
}

/// The characters of a list of literals, concatenated in order.
pub open spec fn flatten_strings(vs: Seq<Val>) -> Seq<char>
    decreases vs.len(),
{
    if vs.len() == 0 {
        Seq::empty()
    } else {
        flatten_strings(vs.subrange(0, vs.len() - 1)) + (match vs[vs.len() - 1] {
            Val::Str(s) => s,
            _ => Seq::empty(),
        })
    }
}

/// The part of the repetition measure that shrinks as the position advances.
pub open spec fn rep_measure(input: Seq<char>, pos: int) -> int {
    if 0 <= pos <= input.len() {
        1 + input.len() - pos
    } else {
        1
    }
}

/// The outcome of applying matcher `m` at position `pos` of `input`, where
/// `env` is the definition bound to the grammar's forward-reference handle
/// and `fuel` bounds nested expansions of that handle.
pub open spec fn apply_s(
    m: MatcherModel,
    env: Option<MatcherModel>,
    input: Seq<char>,
    pos: int,
    fuel: nat,
) -> Outcome
    decreases fuel, m, 0int,
{
    match m {
        MatcherModel::Succeed => Outcome::Match(Val::Empty, pos),
        MatcherModel::Satisfy(p) => {
            if !(0 <= pos < input.len()) {
                Outcome::Fail(ParseError::UnexpectedEnd)
            } else if pred_holds(p, input[pos]) {
                Outcome::Match(Val::Str(seq![input[pos]]), pos + 1)
            } else {
                Outcome::Fail(ParseError::UnexpectedCharacter(input[pos]))
            }
        },
        MatcherModel::Optional(b) => {
            match apply_s(*b, env, input, pos, fuel) {
                Outcome::Fail(_) => Outcome::Match(Val::Empty, pos),
                r => r,
            }
        },
        MatcherModel::Repeat(b) => {
            let r = repeat_s(*b, env, input, pos, fuel);
            if r.0.len() == 0 {
                Outcome::Match(Val::Empty, pos)
            } else {
                Outcome::Match(Val::List(r.0), r.1)
            }
        },
        MatcherModel::Repeat1(b) => {
            let r = repeat_s(*b, env, input, pos, fuel);
            if r.0.len() == 0 {
                Outcome::Fail(ParseError::ExpectedAtLeastOne)
            } else {
                Outcome::Match(Val::List(r.0), r.1)
            }
        },
        MatcherModel::OneOf(ms) => one_of_s(ms, env, input, pos, fuel, 0),
        MatcherModel::Sequence(ms) => {
            match seq_s(ms, env, input, pos, fuel, 0) {
                Ok(r) => Outcome::Match(Val::List(r.0), r.1),
                Err(e) => Outcome::Fail(e),
            }
        },
        MatcherModel::FlatString(b) => {
            match apply_s(*b, env, input, pos, fuel) {
                Outcome::Match(Val::List(vs), p) => {
                    if all_strings(vs) {
                        Outcome::Match(Val::Str(flatten_strings(vs)), p)
                    } else {
                        Outcome::Fail(ParseError::MalformedMatch)
                    }
                },
                r => r,
            }
        },
        MatcherModel::Discard(b) => {
            match apply_s(*b, env, input, pos, fuel) {
                Outcome::Match(_, p) => Outcome::Match(Val::Empty, p),
                r => r,
            }
        },
        MatcherModel::DropAllButLast(b) => {
            match apply_s(*b, env, input, pos, fuel) {
                Outcome::Match(Val::List(vs), p) => {
                    if vs.len() > 0 {
                        Outcome::Match(vs[vs.len() - 1], p)
                    } else {
                        Outcome::Fail(ParseError::MalformedMatch)
                    }
                },
                Outcome::Match(_, p) => Outcome::Fail(ParseError::MalformedMatch),
                r => r,
            }
        },
        MatcherModel::Delegate => {
            match env {
                None => Outcome::Fail(ParseError::GrammarNotYetDefined),
                Some(d) => {
                    if fuel == 0 {
                        Outcome::Fail(ParseError::RecursionLimit)
                    } else {
                        apply_s(d, env, input, pos, (fuel - 1) as nat)
                    }
                },
            }
        },
    }
}

/// The values collected by repeatedly applying `m` from `pos` on, and the
/// position after the last successful application. Collection stops at the
/// first failure — which is swallowed — or when an application consumes
/// nothing, so that repetition always comes to an end.
pub open spec fn repeat_s(
    m: MatcherModel,
    env: Option<MatcherModel>,
    input: Seq<char>,
    pos: int,
    fuel: nat,
) -> (Seq<Val>, int)
    decreases fuel, m, rep_measure(input, pos),
{
    match apply_s(m, env, input, pos, fuel) {
        Outcome::Fail(_) => (Seq::empty(), pos),
        Outcome::Match(v, p) => {
            if 0 <= pos < p <= input.len() {
                let rest = repeat_s(m, env, input, p, fuel);
                (seq![v] + rest.0, rest.1)
            } else {
                (seq![v], p)
            }
        },
    }
}

/// The outcome of the choice among `ms[k..]`: the first alternative that
/// matches, tried in listed order against the same position, or exhaustion.
pub open spec fn one_of_s(
    ms: Seq<MatcherModel>,
    env: Option<MatcherModel>,
    input: Seq<char>,
    pos: int,
    fuel: nat,
    k: int,
) -> Outcome
    decreases fuel, ms, ms.len() - k,
{
    if !(0 <= k < ms.len()) {
        Outcome::Fail(ParseError::AlternativesExhausted)
    } else {
        match apply_s(ms[k], env, input, pos, fuel) {
            Outcome::Match(v, p) => Outcome::Match(v, p),
            Outcome::Fail(_) => one_of_s(ms, env, input, pos, fuel, k + 1),
        }
    }
}

/// The outcome of the sequence `ms[k..]` from `pos`: the values matched in
/// order and the final position, or the first failure — in which case no
/// partial list is produced.
pub open spec fn seq_s(
    ms: Seq<MatcherModel>,
    env: Option<MatcherModel>,
    input: Seq<char>,
    pos: int,
    fuel: nat,
    k: int,
) -> Result<(Seq<Val>, int), ParseError>
    decreases fuel, ms, ms.len() - k,
{
    if !(0 <= k < ms.len()) {
        Ok((Seq::empty(), pos))
    } else {
        match apply_s(ms[k], env, input, pos, fuel) {
            Outcome::Fail(e) => Err(e),
            Outcome::Match(v, p) => {
                match seq_s(ms, env, input, p, fuel, k + 1) {
                    Ok(r) => Ok((seq![v] + r.0, r.1)),
                    Err(e) => Err(e),
                }
            },
        }
    }
}

/// A successful match never moves the position backwards, and the remainder
/// is always a suffix of the input: the position stays within bounds.
pub proof fn lemma_apply_s_bounds(
    m: MatcherModel,
    env: Option<MatcherModel>,
    input: Seq<char>,
    pos: int,
    fuel: nat,
)
    requires
        0 <= pos <= input.len(),
    ensures
        apply_s(m, env, input, pos, fuel) matches Outcome::Match(v, p) ==> pos <= p
            <= input.len(),
    decreases fuel, m, 0int,
{
    match m {
        MatcherModel::Succeed => {},
        MatcherModel::Satisfy(p) => {},
        MatcherModel::Optional(b) => {
            lemma_apply_s_bounds(*b, env, input, pos, fuel);
        },
        MatcherModel::Repeat(b) => {
            lemma_repeat_s_bounds(*b, env, input, pos, fuel);
        },
        MatcherModel::Repeat1(b) => {
            lemma_repeat_s_bounds(*b, env, input, pos, fuel);
        },
        MatcherModel::OneOf(ms) => {
            lemma_one_of_s_bounds(ms, env, input, pos, fuel, 0);
        },
        MatcherModel::Sequence(ms) => {
            lemma_seq_s_bounds(ms, env, input, pos, fuel, 0);
        },
        MatcherModel::FlatString(b) => {
            lemma_apply_s_bounds(*b, env, input, pos, fuel);
        },
        MatcherModel::Discard(b) => {
            lemma_apply_s_bounds(*b, env, input, pos, fuel);
        },
        MatcherModel::DropAllButLast(b) => {
            lemma_apply_s_bounds(*b, env, input, pos, fuel);
        },
        MatcherModel::Delegate => {
            match env {
                None => {},
                Some(d) => {
                    if fuel > 0 {
                        lemma_apply_s_bounds(d, env, input, pos, (fuel - 1) as nat);
                    }
                },
            }
        },
    }
}

/// Repetition never moves the position backwards or out of bounds.
pub proof fn lemma_repeat_s_bounds(
    m: MatcherModel,
    env: Option<MatcherModel>,
    input: Seq<char>,
    pos: int,
    fuel: nat,
)
    requires
        0 <= pos <= input.len(),
    ensures
        pos <= repeat_s(m, env, input, pos, fuel).1 <= input.len(),
    decreases fuel, m, rep_measure(input, pos),
{
    lemma_apply_s_bounds(m, env, input, pos, fuel);
    match apply_s(m, env, input, pos, fuel) {
        Outcome::Fail(_) => {},
        Outcome::Match(v, p) => {
            if 0 <= pos < p <= input.len() {
                lemma_repeat_s_bounds(m, env, input, p, fuel);
            }
        },
    }
}

/// Choice never moves the position backwards or out of bounds.
pub proof fn lemma_one_of_s_bounds(
    ms: Seq<MatcherModel>,
    env: Option<MatcherModel>,
    input: Seq<char>,
    pos: int,
    fuel: nat,
    k: int,
)
    requires
        0 <= pos <= input.len(),
    ensures
        one_of_s(ms, env, input, pos, fuel, k) matches Outcome::Match(v, p) ==> pos <= p
            <= input.len(),
    decreases fuel, ms, ms.len() - k,
{
    if 0 <= k < ms.len() {
        lemma_apply_s_bounds(ms[k], env, input, pos, fuel);
        match apply_s(ms[k], env, input, pos, fuel) {
            Outcome::Match(v, p) => {},
            Outcome::Fail(_) => {
                lemma_one_of_s_bounds(ms, env, input, pos, fuel, k + 1);
            },
        }
    }
}

/// A sequence never moves the position backwards or out of bounds.
pub proof fn lemma_seq_s_bounds(
    ms: Seq<MatcherModel>,
    env: Option<MatcherModel>,
    input: Seq<char>,
    pos: int,
    fuel: nat,
    k: int,
)
    requires
        0 <= pos <= input.len(),
    ensures
        seq_s(ms, env, input, pos, fuel, k) matches Ok(r) ==> pos <= r.1 <= input.len(),
    decreases fuel, ms, ms.len() - k,
{
    if 0 <= k < ms.len() {
        lemma_apply_s_bounds(ms[k], env, input, pos, fuel);
        match apply_s(ms[k], env, input, pos, fuel) {
            Outcome::Fail(_) => {},
            Outcome::Match(v, p) => {
                lemma_seq_s_bounds(ms, env, input, p, fuel, k + 1);
            },
        }
    }
}

} // verus!
