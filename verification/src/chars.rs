//! Single-character predicates: the classes a primitive matcher can test a
//! character against, and what each class means.

use vstd::prelude::*;

verus! {

/// Whether the character has the Unicode `Alphabetic` property, as
/// `char::is_alphabetic` decides it.
pub uninterp spec fn char_alphabetic(c: char) -> bool;

/// Whether the character is alphanumeric, as `char::is_alphanumeric`
/// decides it.
pub uninterp spec fn char_alphanumeric(c: char) -> bool;

/// The verdict of matching the one-character string made of `c` against a
/// regular-expression pattern: `None` when the pattern is not a valid
/// regular expression, otherwise `Some` of whether it matches.
pub uninterp spec fn pattern_verdict(pattern: Seq<char>, c: char) -> Option<bool>;

/// Relies on `char::is_alphabetic`: whether the character has the Unicode
/// `Alphabetic` property, a function of the character alone.
pub assume_specification[ char::is_alphabetic ](c: char) -> (r: bool)
    ensures
        r == char_alphabetic(c),
;

/// Relies on `char::is_alphanumeric`: whether the character is alphanumeric,
/// a function of the character alone.
pub assume_specification[ char::is_alphanumeric ](c: char) -> (r: bool)
    ensures
        r == char_alphanumeric(c),
;

/// Relies on `regex::Regex::new` and `regex::Regex::is_match`: compiling a
/// pattern fails exactly when it is not a valid regular expression, and
/// matching the one-character string made of `c` against the compiled
/// pattern is a function of the pattern and the character alone.
#[verifier::external_body]
fn regex_char_verdict(pattern: &str, c: char) -> (r: Option<bool>)
    ensures
        r == pattern_verdict(pattern@, c),
{
    match regex::Regex::new(pattern) {
        Ok(re) => Some(re.is_match(String::from(c).as_str())),
        Err(_) => None,
    }
}

/// Whether the character is a base-10 digit.
pub open spec fn char_digit(c: char) -> bool {
    c as u32 >= 48 && c as u32 <= 57
}

/// The numeric value of a base-10 digit character.
pub open spec fn digit_value(c: char) -> int {
    c as u32 - 48
}

/// A single-character predicate, as a value: the classes out of which
/// primitive matchers are built. All of them are specializations of one
/// mechanism — consume one character if the predicate holds for it.
#[derive(Debug)]
pub enum CharPred {
    /// Holds for every character.
    Always,
    /// Holds exactly for the given character.
    Exact(char),
    /// Holds for the base-10 digits.
    Digit,
    /// Holds for alphabetic characters.
    Alphabetic,
    /// Holds for alphanumeric characters.
    Alphanumeric,
    /// Holds for characters matching a regular-expression pattern.
    Pattern(String),
}

/// The mathematical model of a predicate: patterns as character sequences.
pub enum PredModel {
    Always,
    Exact(char),
    Digit,
    Alphabetic,
    Alphanumeric,
    Pattern(Seq<char>),
}

impl DeepView for CharPred {
    type V = PredModel;

    open spec fn deep_view(&self) -> PredModel {
        match self {
            CharPred::Always => PredModel::Always,
            CharPred::Exact(c) => PredModel::Exact(*c),
            CharPred::Digit => PredModel::Digit,
            CharPred::Alphabetic => PredModel::Alphabetic,
            CharPred::Alphanumeric => PredModel::Alphanumeric,
            CharPred::Pattern(p) => PredModel::Pattern(p@),
        }
    }
}

/// What it means for a predicate to hold for a character.
pub open spec fn pred_holds(p: PredModel, c: char) -> bool {
    match p {
        PredModel::Always => true,
        PredModel::Exact(d) => c == d,
        PredModel::Digit => char_digit(c),
        PredModel::Alphabetic => char_alphabetic(c),
        PredModel::Alphanumeric => char_alphanumeric(c),
        PredModel::Pattern(pat) => pattern_verdict(pat, c) == Some(true),
    }
}

impl CharPred {
    /// Decide the predicate for one character.
    pub fn check(&self, c: char) -> (b: bool)
        ensures
            b == pred_holds(self.deep_view(), c),
    {
        match self {
            CharPred::Always => true,
            CharPred::Exact(d) => c == *d,
            CharPred::Digit => c as u32 >= 48 && c as u32 <= 57,
            CharPred::Alphabetic => c.is_alphabetic(),
            CharPred::Alphanumeric => c.is_alphanumeric(),
            CharPred::Pattern(pat) => {
                match regex_char_verdict(pat.as_str(), c) {
                    Some(true) => true,
                    _ => false,
                }
            },
        }
    }
}

} // verus!
