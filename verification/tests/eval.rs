use lispish::EvalError;
use lispish::ExprError;
use lispish::ParseError;
use lispish::ParseResult;
use lispish::ParseValue;
use lispish::Parser;
use lispish::eval;
use lispish::eval_line;

#[test]
fn negative_numbers() {
    assert_eq!(Ok(-11), eval(&ParseValue::String("-11".to_string())));
    assert_eq!(Ok(-1), eval(&ParseValue::String("-1".to_string())));
    assert_eq!(Ok(0), eval(&ParseValue::String("-0".to_string())));
}

#[test]
fn sum_empty() {
    assert_eq!(
        Ok(0),
        eval(&ParseValue::List(vec![
            ParseValue::String("(".to_string()),
            ParseValue::String("+".to_string()),
            ParseValue::String(")".to_string()),
        ]))
    );
}

#[test]
fn mul_empty() {
    assert_eq!(
        Ok(1),
        eval(&ParseValue::List(vec![
            ParseValue::String("(".to_string()),
            ParseValue::String("*".to_string()),
            ParseValue::String(")".to_string()),
        ]))
    );
}

#[test]
fn eval_line_arithmetic() {
    assert_eq!(Ok(3), eval_line("(+ 1 2)"));
    assert_eq!(Ok(0), eval_line("(+ )"));
    assert_eq!(Ok(1), eval_line("(* )"));
    assert_eq!(Ok(2), eval_line("(- 5 2 1)"));
    assert_eq!(Ok(5), eval_line("(/ 10 2)"));
    assert_eq!(Ok(-11), eval_line("-11"));
    assert_eq!(Ok(7), eval_line("(+ 1 (* 2 3))"));
}

#[test]
fn eval_line_division_by_zero() {
    assert_eq!(Err(ExprError::Eval(EvalError::DivisionByZero)), eval_line("(/ 5 0)"));
}

#[test]
fn eval_line_arity_error() {
    assert_eq!(Err(ExprError::Eval(EvalError::ArityError)), eval_line("(- )"));
    assert_eq!(Err(ExprError::Eval(EvalError::ArityError)), eval_line("(/ )"));
}

#[test]
fn eval_line_parse_failure() {
    assert!(matches!(eval_line(")("), Err(ExprError::Parse(_))));
    assert!(matches!(eval_line(""), Err(ExprError::Parse(_))));
}

#[test]
fn eval_unknown_operator() {
    assert_eq!(
        Err(EvalError::UnknownOperator),
        eval(&ParseValue::List(vec![
            ParseValue::String("(".to_string()),
            ParseValue::String("%".to_string()),
            ParseValue::String(")".to_string()),
        ]))
    );
}

#[test]
fn eval_invalid_number() {
    assert_eq!(Err(EvalError::InvalidNumber), eval(&ParseValue::String("12x".to_string())));
    assert_eq!(Err(EvalError::InvalidNumber), eval(&ParseValue::String("-".to_string())));
    assert_eq!(Err(EvalError::InvalidNumber), eval(&ParseValue::String("".to_string())));
}

#[test]
fn eval_number_bounds() {
    assert_eq!(Ok(i64::MIN), eval_line("-9223372036854775808"));
    assert_eq!(Ok(i64::MAX), eval_line("9223372036854775807"));
    assert_eq!(
        Err(ExprError::Eval(EvalError::InvalidNumber)),
        eval_line("9223372036854775808")
    );
}

#[test]
fn eval_overflow() {
    assert_eq!(
        Err(ExprError::Eval(EvalError::Overflow)),
        eval_line("(* 9223372036854775807 2)")
    );
    assert_eq!(
        Err(ExprError::Eval(EvalError::Overflow)),
        eval_line("(+ 9223372036854775807 1)")
    );
    assert_eq!(
        Err(ExprError::Eval(EvalError::Overflow)),
        eval_line("(/ -9223372036854775808 -1)")
    );
}

#[test]
fn eval_truncating_division() {
    assert_eq!(Ok(-3), eval_line("(/ -7 2)"));
    assert_eq!(Ok(-3), eval_line("(/ 7 -2)"));
    assert_eq!(Ok(3), eval_line("(/ -7 -2)"));
}

#[test]
fn eval_twice_same_tree() {
    let grammar = lispish::arithmetic_grammar();
    let parser = grammar.make();
    if let ParseResult::Value(tree, _) = grammar.parse(&parser, "(+ 1 (* 2 3))") {
        let first = eval(&tree);
        let second = eval(&tree);
        assert_eq!(first, second);
        assert_eq!(Ok(7), first);
    } else {
        panic!("expression did not parse");
    }
}

#[test]
fn delegate_bound_to_digit_matches_digit() {
    let mut handle = Parser::new();
    let delegating = handle.make();
    handle.update(lispish::digit());
    assert!(handle.parse(&delegating, "1").is_value());
    assert!(handle.parse(&delegating, "a").is_error());
    assert!(lispish::digit().parse("1").is_value());
    assert!(lispish::digit().parse("a").is_error());
}

#[test]
fn unbound_delegate_reports_undefined_grammar() {
    let handle = Parser::new();
    let delegating = handle.make();
    assert!(matches!(
        handle.parse(&delegating, "1"),
        ParseResult::Error(ParseError::GrammarNotYetDefined)
    ));
}

#[test]
fn self_delegating_grammar_hits_recursion_limit() {
    let mut handle = Parser::new();
    let delegating = handle.make();
    handle.update(handle.make());
    assert!(matches!(
        handle.parse(&delegating, "123"),
        ParseResult::Error(ParseError::RecursionLimit)
    ));
}

#[test]
fn alphabetic_class() {
    assert!(lispish::alphabetic().parse("a").is_value());
    assert!(lispish::alphabetic().parse("1").is_error());
}

#[test]
fn alphanumeric_class() {
    assert!(lispish::alphanumeric().parse("a").is_value());
    assert!(lispish::alphanumeric().parse("1").is_value());
    assert!(lispish::alphanumeric().parse(" ").is_error());
}

#[test]
fn satisfy_failure_reports_character() {
    assert!(matches!(
        lispish::digit().parse("a1"),
        ParseResult::Error(ParseError::UnexpectedCharacter('a'))
    ));
    assert!(matches!(
        lispish::digit().parse(""),
        ParseResult::Error(ParseError::UnexpectedEnd)
    ));
}

#[test]
fn one_of_exhaustion() {
    let f = lispish::one_of(vec![lispish::digit(), lispish::alphabetic()]);
    assert!(matches!(
        f.parse("@"),
        ParseResult::Error(ParseError::AlternativesExhausted)
    ));
}

#[test]
fn repeat1_reports_expected_at_least_one() {
    assert!(matches!(
        lispish::repeat1(lispish::digit()).parse("abc"),
        ParseResult::Error(ParseError::ExpectedAtLeastOne)
    ));
}

#[test]
fn discard_keeps_remainder_only() {
    let f = lispish::discard(lispish::digit());
    if let ParseResult::Value(v, pos) = f.parse("1abc") {
        assert!(matches!(v, ParseValue::Empty));
        assert_eq!(&"1abc"[pos..], "abc");
    } else {
        panic!();
    }
}

#[test]
fn drop_all_but_last_keeps_final_child() {
    let f = lispish::drop_all_but_last(lispish::matcher::seq(vec![
        lispish::digit(),
        lispish::alphabetic(),
    ]));
    if let ParseResult::Value(ParseValue::String(s), pos) = f.parse("1a2") {
        assert_eq!(s, "a");
        assert_eq!(&"1a2"[pos..], "2");
    } else {
        panic!();
    }
}

#[test]
fn drop_all_but_last_rejects_non_list() {
    assert!(matches!(
        lispish::drop_all_but_last(lispish::digit()).parse("1"),
        ParseResult::Error(ParseError::MalformedMatch)
    ));
}

#[test]
fn flat_string_rejects_non_literal_child() {
    let f = lispish::flat_string(lispish::matcher::seq(vec![
        lispish::digit(),
        lispish::succeed(),
    ]));
    assert!(matches!(
        f.parse("1"),
        ParseResult::Error(ParseError::MalformedMatch)
    ));
}

#[test]
fn whitespace_is_flexible_around_operator() {
    assert_eq!(Ok(3), eval_line("( +  1   2 )"));
    assert_eq!(Ok(3), eval_line("(+ 1 2 )"));
}

#[test]
fn trailing_text_is_ignored() {
    assert_eq!(Ok(3), eval_line("(+ 1 2) trailing"));
}

#[test]
fn error_messages_name_the_failure() {
    assert_eq!("uninitialized parser", ParseError::GrammarNotYetDefined.message());
    assert_eq!("expected at least one value", ParseError::ExpectedAtLeastOne.message());
}

#[test]
fn one_of_order_is_the_tie_break() {
    let f = lispish::one_of(vec![lispish::digit(), lispish::alphanumeric()]);
    let direct = lispish::digit().parse("5");
    let chosen = f.parse("5");
    if let (
        ParseResult::Value(ParseValue::String(a), p1),
        ParseResult::Value(ParseValue::String(b), p2),
    ) = (&direct, &chosen)
    {
        assert_eq!(a, b);
        assert_eq!(p1, p2);
    } else {
        panic!();
    }
}

#[test]
fn optional_failure_leaves_input_unconsumed() {
    let f = lispish::optional(lispish::digit());
    if let ParseResult::Value(v, pos) = f.parse("abc") {
        assert!(matches!(v, ParseValue::Empty));
        assert_eq!(&"abc"[pos..], "abc");
    } else {
        panic!();
    }
}

#[test]
fn repeat_of_zero_consumption_matcher_terminates() {
    let f = lispish::repeat(lispish::succeed());
    if let ParseResult::Value(ParseValue::List(list), pos) = f.parse("abc") {
        assert_eq!(list.len(), 1);
        assert!(matches!(list[0], ParseValue::Empty));
        assert_eq!(&"abc"[pos..], "abc");
    } else {
        panic!();
    }
}
