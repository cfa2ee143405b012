//! Matchers as values: the closed set of combinator shapes a grammar is
//! assembled from, the constructors that build them, and the
//! forward-reference handle for self-referential grammars.

use vstd::prelude::*;

use crate::chars::CharPred;
use crate::chars::PredModel;

verus! {

/// A matcher: a recipe for consuming a prefix of an input string. Primitive
/// matchers consume one character; combinators compose other matchers.
/// `Delegate` stands for "whatever definition the grammar's
/// forward-reference handle holds when matching runs".
#[derive(Debug)]
pub enum Matcher {
    /// Match nothing, successfully.
    Succeed,
    /// Consume one character for which the predicate holds.
    Satisfy(CharPred),
    /// Recover the inner matcher's failure into an empty success.
    Optional(Box<Matcher>),
    /// Apply the inner matcher as often as it succeeds; never fail.
    Repeat(Box<Matcher>),
    /// Like `Repeat`, but fail on zero successful applications.
    Repeat1(Box<Matcher>),
    /// Try each alternative in order on the same input; first success wins.
    OneOf(Vec<Matcher>),
    /// Apply each matcher in order, threading the remainder; all-or-nothing.
    Sequence(Vec<Matcher>),
    /// Concatenate a matched list of literals into one literal.
    FlatString(Box<Matcher>),
    /// Keep the inner matcher's outcome but replace its value with nothing.
    Discard(Box<Matcher>),
    /// Keep only the final child of a matched list.
    DropAllButLast(Box<Matcher>),
    /// Look up and apply the forward-reference handle's definition.
    Delegate,
}

/// The mathematical model of a matcher: lists as sequences, patterns as
/// character sequences.
pub enum MatcherModel {
    Succeed,
    Satisfy(PredModel),
    Optional(Box<MatcherModel>),
    Repeat(Box<MatcherModel>),
    Repeat1(Box<MatcherModel>),
    OneOf(Seq<MatcherModel>),
    Sequence(Seq<MatcherModel>),
    FlatString(Box<MatcherModel>),
    Discard(Box<MatcherModel>),
    DropAllButLast(Box<MatcherModel>),
    Delegate,
}

impl DeepView for Matcher {
    type V = MatcherModel;

    open spec fn deep_view(&self) -> MatcherModel
        decreases self,
    {
        match self {
            Matcher::Succeed => MatcherModel::Succeed,
            Matcher::Satisfy(p) => MatcherModel::Satisfy(p.deep_view()),
            Matcher::Optional(b) => MatcherModel::Optional(Box::new((**b).deep_view())),
            Matcher::Repeat(b) => MatcherModel::Repeat(Box::new((**b).deep_view())),
            Matcher::Repeat1(b) => MatcherModel::Repeat1(Box::new((**b).deep_view())),
            Matcher::OneOf(ms) => MatcherModel::OneOf(matcher_models(ms@)),
            Matcher::Sequence(ms) => MatcherModel::Sequence(matcher_models(ms@)),
            Matcher::FlatString(b) => MatcherModel::FlatString(Box::new((**b).deep_view())),
            Matcher::Discard(b) => MatcherModel::Discard(Box::new((**b).deep_view())),
            Matcher::DropAllButLast(b) => MatcherModel::DropAllButLast(Box::new((**b).deep_view())),
            Matcher::Delegate => MatcherModel::Delegate,
        }
    }
}

/// The models of the matchers of a list, in order.
pub open spec fn matcher_models(s: Seq<Matcher>) -> Seq<MatcherModel>
    decreases s,
{
    if s.len() == 0 {
        Seq::empty()
    } else {
        matcher_models(s.subrange(0, s.len() - 1)).push(s[s.len() - 1].deep_view())
    }
}

/// A list's model has one entry per matcher, each the matcher's own model.
pub proof fn lemma_matcher_models(s: Seq<Matcher>)
    ensures
        matcher_models(s).len() == s.len(),
        forall|i: int| 0 <= i < s.len() ==> matcher_models(s)[i] == s[i].deep_view(),
    decreases s,
{
    if s.len() > 0 {
        let t = s.subrange(0, s.len() - 1);
        lemma_matcher_models(t);
        assert(matcher_models(s) == matcher_models(t).push(s[s.len() - 1].deep_view()));
        assert forall|i: int| 0 <= i < s.len() implies matcher_models(s)[i] == s[i].deep_view() by {
            if i < s.len() - 1 {
                assert(t[i] == s[i]);
                assert(matcher_models(s)[i] == matcher_models(t)[i]);
            }
        }
    }
}

/// A matcher that consumes nothing and succeeds with an empty value.
pub fn succeed() -> (m: Matcher)
    ensures
        m == Matcher::Succeed,
        m.deep_view() == MatcherModel::Succeed,
{
    Matcher::Succeed
}

/// A matcher that consumes exactly one character if the predicate holds for
/// it, and otherwise fails without consuming anything.
pub fn satisfy(predicate: CharPred) -> (m: Matcher)
    ensures
        m == Matcher::Satisfy(predicate),
        m.deep_view() == MatcherModel::Satisfy(predicate.deep_view()),
{
    Matcher::Satisfy(predicate)
}

/// A matcher for one exact character.
pub fn ch(c: char) -> (m: Matcher)
    ensures
        m == Matcher::Satisfy(CharPred::Exact(c)),
        m.deep_view() == MatcherModel::Satisfy(PredModel::Exact(c)),
{
    satisfy(CharPred::Exact(c))
}

/// A matcher for one character matching a regular-expression pattern.
pub fn regex(pattern: &str) -> (m: Matcher)
    ensures
        m.deep_view() == MatcherModel::Satisfy(PredModel::Pattern(pattern@)),
{
    satisfy(CharPred::Pattern(pattern.to_owned()))
}

/// A matcher for one base-10 digit.
pub fn digit() -> (m: Matcher)
    ensures
        m == Matcher::Satisfy(CharPred::Digit),
        m.deep_view() == MatcherModel::Satisfy(PredModel::Digit),
{
    satisfy(CharPred::Digit)
}

/// A matcher for one alphanumeric character.
pub fn alphanumeric() -> (m: Matcher)
    ensures
        m == Matcher::Satisfy(CharPred::Alphanumeric),
        m.deep_view() == MatcherModel::Satisfy(PredModel::Alphanumeric),
{
    satisfy(CharPred::Alphanumeric)
}

/// A matcher for one alphabetic character.
pub fn alphabetic() -> (m: Matcher)
    ensures
        m == Matcher::Satisfy(CharPred::Alphabetic),
        m.deep_view() == MatcherModel::Satisfy(PredModel::Alphabetic),
{
    satisfy(CharPred::Alphabetic)
}

/// A matcher that applies `parser` and recovers its failure into a success
/// with an empty value and the input unconsumed.
pub fn optional(parser: Matcher) -> (m: Matcher)
    ensures
        m == Matcher::Optional(Box::new(parser)),
        m.deep_view() == MatcherModel::Optional(Box::new(parser.deep_view())),
{
    Matcher::Optional(Box::new(parser))
}

/// A matcher that applies `parser` as often as it succeeds, collecting the
/// matched values; it never fails.
pub fn repeat(parser: Matcher) -> (m: Matcher)
    ensures
        m == Matcher::Repeat(Box::new(parser)),
        m.deep_view() == MatcherModel::Repeat(Box::new(parser.deep_view())),
{
    Matcher::Repeat(Box::new(parser))
}

/// Like `repeat`, but fails when `parser` does not succeed at least once.
pub fn repeat1(parser: Matcher) -> (m: Matcher)
    ensures
        m == Matcher::Repeat1(Box::new(parser)),
        m.deep_view() == MatcherModel::Repeat1(Box::new(parser.deep_view())),
{
    Matcher::Repeat1(Box::new(parser))
}

/// A matcher that tries each alternative in listed order against the same
/// input and returns the first success verbatim.
pub fn one_of(parsers: Vec<Matcher>) -> (m: Matcher)
    ensures
        m == Matcher::OneOf(parsers),
        m.deep_view() == MatcherModel::OneOf(matcher_models(parsers@)),
{
    Matcher::OneOf(parsers)
}

/// A matcher that applies the given matchers in listed order, threading the
/// remainder of each into the next; it fails as soon as one of them fails.
pub fn seq(parsers: Vec<Matcher>) -> (m: Matcher)
    ensures
        m == Matcher::Sequence(parsers),
        m.deep_view() == MatcherModel::Sequence(matcher_models(parsers@)),
{
    Matcher::Sequence(parsers)
}

/// A matcher that requires `parser` to produce a list of literals and
/// replaces it with one literal made of their concatenated text.
pub fn flat_string(parser: Matcher) -> (m: Matcher)
    ensures
        m == Matcher::FlatString(Box::new(parser)),
        m.deep_view() == MatcherModel::FlatString(Box::new(parser.deep_view())),
{
    Matcher::FlatString(Box::new(parser))
}

/// A matcher that preserves `parser`'s outcome and remainder but replaces a
/// successful value with the empty value.
pub fn discard(parser: Matcher) -> (m: Matcher)
    ensures
        m == Matcher::Discard(Box::new(parser)),
        m.deep_view() == MatcherModel::Discard(Box::new(parser.deep_view())),
{
    Matcher::Discard(Box::new(parser))
}

/// A matcher that requires `parser` to produce a non-empty list and keeps
/// only the list's final child.
pub fn drop_all_but_last(parser: Matcher) -> (m: Matcher)
    ensures
        m == Matcher::DropAllButLast(Box::new(parser)),
        m.deep_view() == MatcherModel::DropAllButLast(Box::new(parser.deep_view())),
{
    Matcher::DropAllButLast(Box::new(parser))
}

/// The forward-reference handle: a place for a matcher definition that will
/// be supplied later. Delegating matchers made from it look the definition
/// up each time they run, so a grammar may refer to itself before its full
/// definition exists. Bind once, before parsing begins.
pub struct Parser {
    definition: Option<Box<Matcher>>,
}

impl Parser {
    /// The model of the currently bound definition, if any.
    pub closed spec fn bound_model(&self) -> Option<MatcherModel> {
        match self.definition {
            Some(b) => Some(b.deep_view()),
            None => None,
        }
    }

    /// A fresh, unbound handle: its delegating matchers fail with a
    /// distinguishable error until a definition is installed.
    pub fn new() -> (p: Parser)
        ensures
            p.bound_model() is None,
    {
        Parser { definition: None }
    }

    /// Install (or replace) the handle's definition.
    pub fn update(&mut self, parser: Matcher)
        ensures
            final(self).bound_model() == Some(parser.deep_view()),
    {
        self.definition = Some(Box::new(parser));
    }

    /// A delegating matcher: each time it runs, it looks up and applies
    /// whatever definition the handle holds at that moment. Matchers made
    /// before and after binding behave alike.
    pub fn make(&self) -> (m: Matcher)
        ensures
            m == Matcher::Delegate,
            m.deep_view() == MatcherModel::Delegate,
    {
        Matcher::Delegate
    }

    /// Borrow the bound definition.
    pub fn definition(&self) -> (d: Option<&Matcher>)
        ensures
            match d {
                Some(m) => self.bound_model() == Some(m.deep_view()),
                None => self.bound_model() is None,
            },
    {
        match &self.definition {
            Some(b) => Some(&**b),
            None => None,
        }
    }
}

} // verus!
