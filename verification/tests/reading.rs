//! Tokenization and type-directed reading.

use tokenkit::error::Error;
use tokenkit::reader::{parse_usize, Shape, Value};
use tokenkit::tokens::TokenSource;

#[test]
fn tokens_in_order() {
    let mut src = TokenSource::from_text("  alpha\tbeta\n gamma ");
    assert_eq!(src.next_token().unwrap(), "alpha");
    assert_eq!(src.next_token().unwrap(), "beta");
    assert_eq!(src.next_token().unwrap(), "gamma");
    assert_eq!(src.next_token(), Err(Error::TokenExhausted));
}

#[test]
fn tokens_of_empty_and_blank_input() {
    let mut src = TokenSource::from_text("");
    assert_eq!(src.next_token(), Err(Error::TokenExhausted));
    let mut src = TokenSource::from_text(" \t\n");
    assert_eq!(src.next_token(), Err(Error::TokenExhausted));
}

#[test]
fn parse_usize_values() {
    assert_eq!(parse_usize("0"), Ok(0));
    assert_eq!(parse_usize("42"), Ok(42));
    assert_eq!(parse_usize("18446744073709551615"), Ok(usize::MAX));
}

#[test]
fn parse_usize_failures() {
    assert_eq!(parse_usize(""), Err(Error::ParseFailure));
    assert_eq!(parse_usize("12a"), Err(Error::ParseFailure));
    assert_eq!(parse_usize("-3"), Err(Error::ParseFailure));
    assert_eq!(parse_usize("99999999999999999999999999"), Err(Error::ParseFailure));
}

#[test]
fn read_single_usize() {
    let mut src = TokenSource::from_text("5");
    assert_eq!(src.read_value(&Shape::Usize).unwrap(), Value::Usize(5));
    assert_eq!(src.read_value(&Shape::Usize), Err(Error::TokenExhausted));
}

#[test]
fn one_based_one_is_zero() {
    let mut src = TokenSource::from_text("1");
    assert_eq!(src.read_value(&Shape::Usize1).unwrap(), Value::Usize(0));
}

#[test]
fn one_based_zero_is_a_failure() {
    let mut src = TokenSource::from_text("0");
    assert_eq!(src.read_value(&Shape::Usize1), Err(Error::ParseFailure));
}

#[test]
fn chars_explode_a_token() {
    let mut src = TokenSource::from_text("  hi  ");
    assert_eq!(src.read_value(&Shape::Chars).unwrap(), Value::Chars(vec!['h', 'i']));
}

#[test]
fn tuple_of_usize_usize1_chars() {
    let mut src = TokenSource::from_text("5 1 hi");
    let shape = Shape::Tuple(vec![Shape::Usize, Shape::Usize1, Shape::Chars]);
    let v = src.read_value(&shape).unwrap();
    assert_eq!(
        v,
        Value::Tuple(vec![Value::Usize(5), Value::Usize(0), Value::Chars(vec!['h', 'i'])])
    );
}

#[test]
fn exactly_the_needed_tokens_are_consumed() {
    let mut src = TokenSource::from_text("5 1 hi 7");
    let shape = Shape::Tuple(vec![Shape::Usize, Shape::Usize1, Shape::Chars]);
    src.read_value(&shape).unwrap();
    assert_eq!(src.next_token().unwrap(), "7");
    assert_eq!(src.next_token(), Err(Error::TokenExhausted));
}

#[test]
fn array_reads_in_order() {
    let mut src = TokenSource::from_text("3 1 4 1 5");
    let shape = Shape::Array(Box::new(Shape::Usize), 5);
    let v = src.read_value(&shape).unwrap();
    assert_eq!(
        v,
        Value::Array(vec![
            Value::Usize(3),
            Value::Usize(1),
            Value::Usize(4),
            Value::Usize(1),
            Value::Usize(5),
        ])
    );
}

#[test]
fn array_of_zero_length_consumes_nothing() {
    let mut src = TokenSource::from_text("9");
    let shape = Shape::Array(Box::new(Shape::Usize), 0);
    assert_eq!(src.read_value(&shape).unwrap(), Value::Array(Vec::new()));
    assert_eq!(src.next_token().unwrap(), "9");
}

#[test]
fn nested_shapes() {
    let mut src = TokenSource::from_text("1 2 3 4 5 6");
    let pair = Shape::Tuple(vec![Shape::Usize, Shape::Usize]);
    let shape = Shape::Array(Box::new(pair), 3);
    let v = src.read_value(&shape).unwrap();
    assert_eq!(
        v,
        Value::Array(vec![
            Value::Tuple(vec![Value::Usize(1), Value::Usize(2)]),
            Value::Tuple(vec![Value::Usize(3), Value::Usize(4)]),
            Value::Tuple(vec![Value::Usize(5), Value::Usize(6)]),
        ])
    );
}

#[test]
fn failed_read_is_all_or_nothing() {
    let mut src = TokenSource::from_text("5 x 7");
    let shape = Shape::Tuple(vec![Shape::Usize, Shape::Usize, Shape::Usize]);
    assert_eq!(src.read_value(&shape), Err(Error::ParseFailure));
    assert_eq!(src.read_value(&Shape::Usize).unwrap(), Value::Usize(5));
}

#[test]
fn missing_tokens_exhaust_the_source() {
    let mut src = TokenSource::from_text("5 6");
    let shape = Shape::Tuple(vec![Shape::Usize, Shape::Usize, Shape::Usize]);
    assert_eq!(src.read_value(&shape), Err(Error::TokenExhausted));
    assert_eq!(src.read_value(&Shape::Usize).unwrap(), Value::Usize(5));
}
