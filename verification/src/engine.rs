//! The executable matching engine: one recursive interpreter over matcher
//! values, proved to return exactly the outcome the semantic model assigns.

use vstd::prelude::*;
use vstd::string::StrSliceExecFns;
use vstd::string::StringExecFns;

use crate::errors::ParseError;
use crate::matcher::Matcher;
use crate::matcher::MatcherModel;
use crate::matcher::Parser;
use crate::matcher::lemma_matcher_models;
use crate::matcher::matcher_models;
use crate::semantics::Outcome;
use crate::semantics::all_strings;
use crate::semantics::apply_s;
use crate::semantics::flatten_strings;
use crate::semantics::lemma_apply_s_bounds;
use crate::semantics::one_of_s;
use crate::semantics::repeat_s;
use crate::semantics::seq_s;
use crate::value::ParseValue;
use crate::value::Val;
use crate::value::deep_view_list;
use crate::value::lemma_deep_view_list;

verus! {

/// The result of applying a matcher to an input position: a matched value
/// together with the position where the unconsumed remainder starts, or a
/// failure. On failure nothing was consumed — the input is untouched.
#[derive(Debug)]
pub enum ParseResult {
    Value(ParseValue, usize),
    Error(ParseError),
}

impl ParseResult {
    /// The model of this result.
    pub open spec fn model(&self) -> Outcome {
        match self {
            ParseResult::Value(v, p) => Outcome::Match(v.deep_view(), *p as int),
            ParseResult::Error(e) => Outcome::Fail(*e),
        }
    }

    /// Whether the match succeeded.
    pub fn is_value(&self) -> (r: bool)
        ensures
            r == (self is Value),
    {
        match *self {
            ParseResult::Value(_, _) => true,
            _ => false,
        }
    }

    /// Whether the match succeeded with the empty value.
    pub fn is_empty(&self) -> (r: bool)
        ensures
            r == (self matches ParseResult::Value(v, _) && v is Empty),
    {
        match *self {
            ParseResult::Value(ParseValue::Empty, _) => true,
            _ => false,
        }
    }

    /// Whether the match failed.
    pub fn is_error(&self) -> (r: bool)
        ensures
            r == (self is Error),
    {
        match *self {
            ParseResult::Error(_) => true,
            _ => false,
        }
    }
}

/// The model of the definition a matching run delegates to.
pub open spec fn env_model(env: Option<&Matcher>) -> Option<MatcherModel> {
    match env {
        Some(m) => Some(m.deep_view()),
        None => None,
    }
}

/// Concatenating a list's models one step further.
proof fn lemma_flatten_step(s: Seq<Val>, i: int)
    requires
        0 <= i < s.len(),
    ensures
        flatten_strings(s.subrange(0, i + 1)) == flatten_strings(s.subrange(0, i)) + (match s[i] {
            Val::Str(cs) => cs,
            _ => Seq::empty(),
        }),
{
    let t = s.subrange(0, i + 1);
    assert(t.subrange(0, t.len() - 1) =~= s.subrange(0, i));
    assert(t[t.len() - 1] == s[i]);
}

/// Apply matcher `m` to `input` at character position `pos`. `env` is the
/// definition bound to the grammar's forward-reference handle, looked up by
/// every `Delegate` node; `fuel` bounds nested expansions of that handle.
#[verifier::loop_isolation(false)]
pub fn apply(m: &Matcher, env: Option<&Matcher>, input: &str, pos: usize, fuel: usize) -> (r:
    ParseResult)
    requires
        pos <= input@.len(),
    ensures
        r.model() == apply_s(m.deep_view(), env_model(env), input@, pos as int, fuel as nat),
    decreases fuel, *m, 0int,
{
    let ghost envm = env_model(env);
    match m {
        Matcher::Succeed => ParseResult::Value(ParseValue::Empty, pos),
        Matcher::Satisfy(p) => {
            let n = input.unicode_len();
            if pos >= n {
                ParseResult::Error(ParseError::UnexpectedEnd)
            } else {
                let c = input.get_char(pos);
                if p.check(c) {
                    let s = input.substring_char(pos, pos + 1).to_owned();
                    proof {
                        assert(s@ =~= seq![input@[pos as int]]);
                    }
                    ParseResult::Value(ParseValue::String(s), pos + 1)
                } else {
                    ParseResult::Error(ParseError::UnexpectedCharacter(c))
                }
            }
        },
        Matcher::Optional(b) => {
            let r = apply(&**b, env, input, pos, fuel);
            match r {
                ParseResult::Error(_) => ParseResult::Value(ParseValue::Empty, pos),
                ok => ok,
            }
        },
        Matcher::Repeat(b) => {
            let (vs, p) = run_repeat(&**b, env, input, pos, fuel);
            proof {
                lemma_deep_view_list(vs@);
            }
            if vs.len() == 0 {
                ParseResult::Value(ParseValue::Empty, pos)
            } else {
                ParseResult::Value(ParseValue::List(vs), p)
            }
        },
        Matcher::Repeat1(b) => {
            let (vs, p) = run_repeat(&**b, env, input, pos, fuel);
            proof {
                lemma_deep_view_list(vs@);
            }
            if vs.len() == 0 {
                ParseResult::Error(ParseError::ExpectedAtLeastOne)
            } else {
                ParseResult::Value(ParseValue::List(vs), p)
            }
        },
        Matcher::OneOf(ms) => {
            proof {
                lemma_matcher_models(ms@);
            }
            let ghost msm = matcher_models(ms@);
            let n = ms.len();
            let mut i: usize = 0;
            loop
                invariant
                    0 <= i <= n,
                    n == ms@.len(),
                    msm == matcher_models(ms@),
                    msm.len() == n,
                    forall|j: int| 0 <= j < n ==> msm[j] == ms@[j].deep_view(),
                    pos <= input@.len(),
                    one_of_s(msm, envm, input@, pos as int, fuel as nat, 0) == one_of_s(
                        msm,
                        envm,
                        input@,
                        pos as int,
                        fuel as nat,
                        i as int,
                    ),
                    envm == env_model(env),
                decreases n - i,
            {
                if i == n {
                    assert(one_of_s(msm, envm, input@, pos as int, fuel as nat, i as int)
                        == Outcome::Fail(ParseError::AlternativesExhausted));
                    return ParseResult::Error(ParseError::AlternativesExhausted);
                }
                proof {
                    assert(decreases_to!(ms@ => ms@[i as int]));
                    assert(decreases_to!(*ms => ms@));
                    assert(decreases_to!(*m => m->OneOf_0));
                    assert(decreases_to!(*m => ms@[i as int]));
                }
                let r = apply(&ms[i], env, input, pos, fuel);
                match r {
                    ParseResult::Value(v, p) => {
                        return ParseResult::Value(v, p);
                    },
                    ParseResult::Error(_) => {
                        i = i + 1;
                    },
                }
            }
        },
        Matcher::Sequence(ms) => {
            proof {
                lemma_matcher_models(ms@);
            }
            let ghost msm = matcher_models(ms@);
            let n = ms.len();
            let mut i: usize = 0;
            let mut cur: usize = pos;
            let mut acc: Vec<ParseValue> = Vec::new();
            loop
                invariant
                    0 <= i <= n,
                    n == ms@.len(),
                    msm == matcher_models(ms@),
                    msm.len() == n,
                    forall|j: int| 0 <= j < n ==> msm[j] == ms@[j].deep_view(),
                    pos <= cur <= input@.len(),
                    seq_s(msm, envm, input@, pos as int, fuel as nat, 0) == (match seq_s(
                        msm,
                        envm,
                        input@,
                        cur as int,
                        fuel as nat,
                        i as int,
                    ) {
                        Ok(r) => Ok::<(Seq<Val>, int), ParseError>(
                            (deep_view_list(acc@) + r.0, r.1),
                        ),
                        Err(e) => Err::<(Seq<Val>, int), ParseError>(e),
                    }),
                    envm == env_model(env),
                decreases n - i,
            {
                if i == n {
                    proof {
                        lemma_deep_view_list(acc@);
                        assert(deep_view_list(acc@) + Seq::<Val>::empty() =~= deep_view_list(
                            acc@,
                        ));
                    }
                    return ParseResult::Value(ParseValue::List(acc), cur);
                }
                proof {
                    assert(decreases_to!(ms@ => ms@[i as int]));
                    assert(decreases_to!(*ms => ms@));
                    assert(decreases_to!(*m => m->Sequence_0));
                    assert(decreases_to!(*m => ms@[i as int]));
                }
                let r = apply(&ms[i], env, input, cur, fuel);
                proof {
                    lemma_apply_s_bounds(msm[i as int], envm, input@, cur as int, fuel as nat);
                }
                match r {
                    ParseResult::Value(v, p) => {
                        let ghost old_acc = acc@;
                        let ghost old_cur = cur as int;
                        acc.push(v);
                        cur = p;
                        i = i + 1;
                        proof {
                            lemma_deep_view_list(old_acc);
                            lemma_deep_view_list(acc@);
                            assert(acc@ == old_acc.push(v));
                            assert(deep_view_list(acc@) =~= deep_view_list(old_acc).push(
                                v.deep_view(),
                            ));
                            assert forall|rest: Seq<Val>|
                                deep_view_list(old_acc) + (seq![v.deep_view()] + rest)
                                    =~= deep_view_list(acc@) + rest by {}
                        }
                    },
                    ParseResult::Error(e) => {
                        return ParseResult::Error(e);
                    },
                }
            }
        },
        Matcher::FlatString(b) => {
            let r = apply(&**b, env, input, pos, fuel);
            match r {
                ParseResult::Value(ParseValue::List(vs), p) => {
                    proof {
                        lemma_deep_view_list(vs@);
                    }
                    let ghost vsm = deep_view_list(vs@);
                    let n = vs.len();
                    let mut out = String::new();
                    let mut i: usize = 0;
                    loop
                        invariant
                            0 <= i <= n,
                            n == vs@.len(),
                            vsm == deep_view_list(vs@),
                            vsm.len() == n,
                            forall|j: int| 0 <= j < n ==> vsm[j] == vs@[j].deep_view(),
                            all_strings(vsm.subrange(0, i as int)),
                            out@ == flatten_strings(vsm.subrange(0, i as int)),
                        decreases n - i,
                    {
                        if i == n {
                            proof {
                                assert(vsm.subrange(0, n as int) =~= vsm);
                            }
                            return ParseResult::Value(ParseValue::String(out), p);
                        }
                        match &vs[i] {
                            ParseValue::String(s) => {
                                proof {
                                    lemma_flatten_step(vsm, i as int);
                                    assert(vsm.subrange(0, i + 1).subrange(0, i as int)
                                        =~= vsm.subrange(0, i as int));
                                }
                                out.append(s.as_str());
                                i = i + 1;
                            },
                            _ => {
                                assert(!(vsm[i as int] is Str));
                                return ParseResult::Error(ParseError::MalformedMatch);
                            },
                        }
                    }
                },
                other => other,
            }
        },
        Matcher::Discard(b) => {
            let r = apply(&**b, env, input, pos, fuel);
            match r {
                ParseResult::Value(_, p) => ParseResult::Value(ParseValue::Empty, p),
                e => e,
            }
        },
        Matcher::DropAllButLast(b) => {
            let r = apply(&**b, env, input, pos, fuel);
            match r {
                ParseResult::Value(ParseValue::List(vs), p) => {
                    proof {
                        lemma_deep_view_list(vs@);
                    }
                    if vs.len() > 0 {
                        let mut vs = vs;
                        let last = vs.pop();
                        match last {
                            Some(v) => ParseResult::Value(v, p),
                            None => vstd::pervasive::unreached(),
                        }
                    } else {
                        ParseResult::Error(ParseError::MalformedMatch)
                    }
                },
                ParseResult::Value(_, p) => ParseResult::Error(ParseError::MalformedMatch),
                e => e,
            }
        },
        Matcher::Delegate => {
            match env {
                None => ParseResult::Error(ParseError::GrammarNotYetDefined),
                Some(d) => {
                    if fuel == 0 {
                        ParseResult::Error(ParseError::RecursionLimit)
                    } else {
                        apply(d, env, input, pos, fuel - 1)
                    }
                },
            }
        },
    }
}

/// The collection loop behind `Repeat` and `Repeat1`: apply `child` as often
/// as it succeeds and makes progress, collecting the matched values.
#[verifier::loop_isolation(false)]
fn run_repeat(child: &Matcher, env: Option<&Matcher>, input: &str, pos: usize, fuel: usize) -> (r:
    (Vec<ParseValue>, usize))
    requires
        pos <= input@.len(),
    ensures
        (deep_view_list(r.0@), r.1 as int) == repeat_s(
            child.deep_view(),
            env_model(env),
            input@,
            pos as int,
            fuel as nat,
        ),
        pos <= r.1 <= input@.len(),
    decreases fuel, *child, 1int,
{
    let ghost cm = child.deep_view();
    let ghost envm = env_model(env);
    let mut cur: usize = pos;
    let mut acc: Vec<ParseValue> = Vec::new();
    loop
        invariant
            pos <= cur <= input@.len(),
            cm == child.deep_view(),
            envm == env_model(env),
            repeat_s(cm, envm, input@, pos as int, fuel as nat) == {
                let rest = repeat_s(cm, envm, input@, cur as int, fuel as nat);
                (deep_view_list(acc@) + rest.0, rest.1)
            },
        decreases input@.len() - cur,
    {
        let r = apply(child, env, input, cur, fuel);
        proof {
            lemma_apply_s_bounds(cm, envm, input@, cur as int, fuel as nat);
        }
        match r {
            ParseResult::Error(_) => {
                proof {
                    lemma_deep_view_list(acc@);
                    assert(deep_view_list(acc@) + Seq::<Val>::empty() =~= deep_view_list(acc@));
                }
                return (acc, cur);
            },
            ParseResult::Value(v, p) => {
                let ghost old_acc = acc@;
                let ghost old_cur = cur as int;
                if p > cur {
                    acc.push(v);
                    cur = p;
                    proof {
                        lemma_deep_view_list(old_acc);
                        lemma_deep_view_list(acc@);
                        assert(deep_view_list(acc@) =~= deep_view_list(old_acc).push(
                            v.deep_view(),
                        ));
                        let rest = repeat_s(cm, envm, input@, cur as int, fuel as nat);
                        assert(deep_view_list(old_acc) + (seq![v.deep_view()] + rest.0)
                            =~= deep_view_list(acc@) + rest.0);
                    }
                } else {
                    acc.push(v);
                    proof {
                        lemma_deep_view_list(old_acc);
                        lemma_deep_view_list(acc@);
                        assert(deep_view_list(acc@) =~= deep_view_list(old_acc).push(
                            v.deep_view(),
                        ));
                        assert(deep_view_list(old_acc) + seq![v.deep_view()] =~= deep_view_list(
                            acc@,
                        ));
                    }
                    return (acc, p);
                }
            },
        }
    }
}

impl Matcher {
    /// Apply this matcher to the start of `input` with no grammar
    /// definition bound: any `Delegate` inside it fails as not yet defined.
    /// The fuel handed to the engine is one more than the input's length.
    pub fn parse(&self, input: &str) -> (r: ParseResult)
        requires
            input@.len() < usize::MAX,
        ensures
            r.model() == apply_s(
                self.deep_view(),
                None,
                input@,
                0,
                (input@.len() + 1) as nat,
            ),
    {
        let n = input.unicode_len();
        apply(self, None, input, 0, n + 1)
    }
}

impl Parser {
    /// Apply `m` to the start of `input`, delegating to this handle's
    /// currently bound definition. The fuel handed to the engine is one more
    /// than the input's length.
    pub fn parse(&self, m: &Matcher, input: &str) -> (r: ParseResult)
        requires
            input@.len() < usize::MAX,
        ensures
            r.model() == apply_s(
                m.deep_view(),
                self.bound_model(),
                input@,
                0,
                (input@.len() + 1) as nat,
            ),
    {
        let n = input.unicode_len();
        apply(m, self.definition(), input, 0, n + 1)
    }
}

} // verus!
