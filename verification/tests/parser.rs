use lispish::CharPred;
use lispish::ParseResult;
use lispish::ParseValue;
use lispish::Parser;

#[test]
fn succeed() {
    assert!(lispish::succeed().parse("123").is_empty());
}

#[test]
fn satisfy() {
    let f = lispish::satisfy(CharPred::Always);

    if let ParseResult::Value(ParseValue::String(str), pos) = f.parse("abc") {
        assert_eq!(str, "a");
        assert_eq!(&"abc"[pos..], "bc");
    } else {
        panic!("fail");
    }
}

#[test]
fn satisfy_no_input() {
    let f = lispish::satisfy(CharPred::Always);
    assert!(f.parse("").is_error());
}

#[test]
fn ch() {
    let f = lispish::ch('{');
    if let ParseResult::Value(ParseValue::String(str), pos) = f.parse("{abc") {
        assert_eq!(str, "{");
        assert_eq!(&"{abc"[pos..], "abc");
    } else {
        panic!("fail");
    }
}

#[test]
fn digit() {
    assert!(lispish::digit().parse("1").is_value());
    assert!(lispish::digit().parse("A").is_error());
}

#[test]
fn regex() {
    assert!(lispish::regex("[a-z]").parse("123").is_error());
    assert!(lispish::regex("[a-z]").parse("a23").is_value());
    assert!(lispish::regex("[\\s]").parse("\t").is_value());
}

#[test]
fn repeat() {
    let f = lispish::repeat(lispish::digit());
    let result = f.parse("12345abc");

    if let ParseResult::Value(ParseValue::List(list), pos) = result {
        assert_eq!(&"12345abc"[pos..], "abc");
        assert_eq!(
            list.iter().map(|x| x.string().to_string()).collect::<Vec<String>>(),
            vec!["1", "2", "3", "4", "5"]
        );
    } else {
        panic!();
    }
}

#[test]
fn repeat_empty() {
    let f = lispish::repeat(lispish::digit());
    assert!(f.parse("abc").is_empty());
}

#[test]
fn repeat1() {
    let f = lispish::repeat1(lispish::digit());
    let result = f.parse("12345abc");

    if let ParseResult::Value(ParseValue::List(list), pos) = result {
        assert_eq!(&"12345abc"[pos..], "abc");
        assert_eq!(
            list.iter().map(|x| x.string().to_string()).collect::<Vec<String>>(),
            vec!["1", "2", "3", "4", "5"]
        );
    } else {
        panic!();
    }
}

#[test]
fn repeat1_errors_when_empty() {
    let f = lispish::repeat1(lispish::digit());
    assert!(f.parse("abc").is_error());
}

#[test]
fn one_of_test() {
    let f = lispish::one_of(vec![lispish::digit(), lispish::alphabetic()]);
    assert!(f.parse("123").is_value());
    assert!(f.parse("abc").is_value());
    assert!(f.parse(" abc").is_error());
    assert!(f.parse("@").is_error());
}

#[test]
fn seq() {
    let f = lispish::matcher::seq(vec![
        lispish::digit(),
        lispish::alphabetic(),
        lispish::digit(),
    ]);
    let result = f.parse("1f2abc");

    if let ParseResult::Value(ParseValue::List(list), pos) = result {
        assert_eq!(&"1f2abc"[pos..], "abc");
        assert_eq!(
            list.iter().map(|x| x.string().to_string()).collect::<Vec<String>>(),
            vec!["1", "f", "2"]
        );
    } else {
        panic!();
    }

    assert!(f.parse("abc").is_error());
}

#[test]
fn seq_returns_error_if_one_parser_empty() {
    let f = lispish::matcher::seq(vec![
        lispish::digit(),
        lispish::alphabetic(),
        lispish::digit(),
    ]);
    assert!(f.parse("abc").is_error());
    assert!(f.parse("").is_error());
}

#[test]
fn boxed_parser() {
    let mut expr = Parser::new();

    let parser = expr.make();
    assert!(expr.parse(&parser, "abc").is_error());

    expr.update(lispish::digit());
    assert!(expr.parse(&parser, "123").is_value());
    assert!(expr.parse(&parser, "abc").is_error());
}

#[test]
fn flat_string() {
    let f = lispish::flat_string(lispish::repeat(lispish::regex("[a-z]")));
    let result = f.parse("foobar123");

    if let ParseResult::Value(ParseValue::String(s), pos) = result {
        assert_eq!(s, "foobar");
        assert_eq!(&"foobar123"[pos..], "123");
    } else {
        panic!();
    }
}

#[test]
fn optional() {
    let f = lispish::matcher::seq(vec![
        lispish::digit(),
        lispish::optional(lispish::digit()),
    ]);
    assert!(f.parse("12").is_value());
    assert!(f.parse("1").is_value());
}
