//! The shape of matched data: the value payload a successful match produces,
//! and its mathematical model.

use vstd::prelude::*;

verus! {

/// The payload of a successful match: a run of matched text, an ordered list
/// of child values (in matching order), or an explicit "matched nothing"
/// marker (distinct from failure).
#[derive(Debug)]
pub enum ParseValue {
    String(String),
    List(Vec<ParseValue>),
    Empty,
}

/// The mathematical model of a `ParseValue`: text as a sequence of
/// characters, lists as sequences of child models.
pub enum Val {
    Str(Seq<char>),
    List(Seq<Val>),
    Empty,
}

impl DeepView for ParseValue {
    type V = Val;

    open spec fn deep_view(&self) -> Val
        decreases self,
    {
        match self {
            ParseValue::String(s) => Val::Str(s@),
            ParseValue::List(vs) => Val::List(deep_view_list(vs@)),
            ParseValue::Empty => Val::Empty,
        }
    }
}

/// The models of the values of a list, in order.
pub open spec fn deep_view_list(s: Seq<ParseValue>) -> Seq<Val>
    decreases s,
{
    if s.len() == 0 {
        Seq::empty()
    } else {
        deep_view_list(s.subrange(0, s.len() - 1)).push(s[s.len() - 1].deep_view())
    }
}

/// A list's model has one entry per value, each the value's own model.
pub proof fn lemma_deep_view_list(s: Seq<ParseValue>)
    ensures
        deep_view_list(s).len() == s.len(),
        forall|i: int| 0 <= i < s.len() ==> deep_view_list(s)[i] == s[i].deep_view(),
    decreases s,
{
    if s.len() > 0 {
        let t = s.subrange(0, s.len() - 1);
        lemma_deep_view_list(t);
        assert(deep_view_list(s) == deep_view_list(t).push(s[s.len() - 1].deep_view()));
        assert forall|i: int| 0 <= i < s.len() implies deep_view_list(s)[i] == s[i].deep_view() by {
            if i < s.len() - 1 {
                assert(t[i] == s[i]);
                assert(deep_view_list(s)[i] == deep_view_list(t)[i]);
            }
        }
    }
}

impl ParseValue {
    /// The matched text of a literal value.
    pub fn string(&self) -> (r: &str)
        requires
            self is String,
        ensures
            self.deep_view() == Val::Str(r@),
    {
        match self {
            ParseValue::String(s) => s.as_str(),
            _ => vstd::pervasive::unreached(),
        }
    }
}

} // verus!

