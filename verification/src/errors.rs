//! The error taxonomy: matcher-level failures and evaluator-level failures.

use vstd::prelude::*;

verus! {

/// Why an attempted match failed. A failure never carries partial state:
/// the caller's input is left exactly as it was.
#[derive(Debug, Clone, Copy, PartialEq, Eq, Structural)]
pub enum ParseError {
    /// A primitive matcher met the end of the input.
    UnexpectedEnd,
    /// A primitive matcher met a character its predicate rejects.
    UnexpectedCharacter(char),
    /// Every branch of a choice failed.
    AlternativesExhausted,
    /// A one-or-more quantifier saw zero matches.
    ExpectedAtLeastOne,
    /// A forward-reference handle was invoked before being bound.
    GrammarNotYetDefined,
    /// The engine's bound on nested forward-reference expansions ran out.
    RecursionLimit,
    /// A value transform met a value whose shape breaks its contract.
    MalformedMatch,
}

impl ParseError {
    /// A human-readable description of the failure.
    pub fn message(&self) -> (r: &'static str)
        ensures
            self is UnexpectedEnd ==> r@ == "unexpected end of input"@,
            self is UnexpectedCharacter ==> r@ == "satisfy not satisfied"@,
            self is AlternativesExhausted ==> r@ == "expected at least one or() value"@,
            self is ExpectedAtLeastOne ==> r@ == "expected at least one value"@,
            self is GrammarNotYetDefined ==> r@ == "uninitialized parser"@,
            self is RecursionLimit ==> r@ == "recursion limit reached"@,
            self is MalformedMatch ==> r@ == "unexpected value shape"@,
    {
        match self {
            ParseError::UnexpectedEnd => "unexpected end of input",
            ParseError::UnexpectedCharacter(_) => "satisfy not satisfied",
            ParseError::AlternativesExhausted => "expected at least one or() value",
            ParseError::ExpectedAtLeastOne => "expected at least one value",
            ParseError::GrammarNotYetDefined => "uninitialized parser",
            ParseError::RecursionLimit => "recursion limit reached",
            ParseError::MalformedMatch => "unexpected value shape",
        }
    }
}

/// Why evaluating a matched tree failed. Evaluation is deterministic: the
/// same tree always yields the same integer or the same error.
#[derive(Debug, Clone, Copy, PartialEq, Eq, Structural)]
pub enum EvalError {
    /// A literal leaf is not a well-formed base-10 signed integer that fits
    /// the result type.
    InvalidNumber,
    /// A division met a zero divisor.
    DivisionByZero,
    /// An operator outside `+ - * /`.
    UnknownOperator,
    /// An operator was given no operands although it has no identity
    /// element, or the tree does not have the operator-form shape.
    ArityError,
    /// An intermediate result does not fit the result type.
    Overflow,
}

/// A failure of end-to-end evaluation of one line: either the line did not
/// parse as an expression, or the matched tree did not evaluate.
#[derive(Debug, Clone, Copy, PartialEq, Eq, Structural)]
pub enum ExprError {
    /// The line did not parse.
    Parse(ParseError),
    /// The matched tree did not evaluate.
    Eval(EvalError),
}

} // verus!
