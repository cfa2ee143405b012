//! A parser-combinator engine for one-line texts, together with an evaluator
//! for fully parenthesized prefix arithmetic expressions parsed by it.
//!
//! Matchers are ordinary values: a grammar is assembled from primitive
//! character matchers and combinators (sequence, choice, repetition,
//! optionality, value transforms), and then interpreted over an input string.
//! A forward-reference handle lets a grammar refer to itself before its full
//! definition exists. What applying a matcher returns is stated once, as a
//! semantic model in `semantics`, and the executable engine in `engine` is
//! proved to return exactly that; the engine's general laws are proved in
//! `laws`.

pub mod chars;
pub mod engine;
pub mod errors;
pub mod evaluator;
pub mod grammar;
pub mod laws;
pub mod matcher;
pub mod number;
pub mod semantics;
pub mod value;

pub use chars::CharPred;
pub use chars::PredModel;
pub use engine::ParseResult;
pub use engine::apply;
pub use errors::EvalError;
pub use errors::ExprError;
pub use errors::ParseError;
pub use evaluator::eval;
pub use evaluator::eval_s;
pub use grammar::arithmetic_grammar;
pub use grammar::eval_line;
pub use grammar::eval_line_s;
pub use grammar::expr_m;
pub use matcher::Matcher;
pub use matcher::MatcherModel;
pub use matcher::Parser;
pub use matcher::alphabetic;
pub use matcher::alphanumeric;
pub use matcher::ch;
pub use matcher::digit;
pub use matcher::discard;
pub use matcher::drop_all_but_last;
pub use matcher::flat_string;
pub use matcher::one_of;
pub use matcher::optional;
pub use matcher::regex;
pub use matcher::repeat;
pub use matcher::repeat1;
pub use matcher::satisfy;
pub use matcher::succeed;
pub use semantics::Outcome;
pub use semantics::apply_s;
pub use value::ParseValue;
pub use value::Val;
