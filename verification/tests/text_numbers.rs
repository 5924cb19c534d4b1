use cucumber::args::{convert_args, parse_boolean, parse_integer};
use cucumber::text::{chars_of, decimal_string, parse_numeral, same_text};
use cucumber::{ConversionError, ParamKind, StepArg};

#[test]
fn decimal_of_zero_is_one_digit() {
    assert_eq!(decimal_string(0), "0");
}

#[test]
fn decimal_of_numbers() {
    assert_eq!(decimal_string(7), "7");
    assert_eq!(decimal_string(10), "10");
    assert_eq!(decimal_string(9078), "9078");
    assert_eq!(decimal_string(u64::MAX), "18446744073709551615");
}

#[test]
fn numeral_is_read_back() {
    for n in [0u64, 1, 9, 10, 99, 100, 12345, u64::MAX - 1, u64::MAX] {
        assert_eq!(parse_numeral(&decimal_string(n)), Some(n));
    }
}

#[test]
fn numeral_has_no_leading_zero() {
    assert_eq!(parse_numeral("0"), Some(0));
    assert_eq!(parse_numeral("00"), None);
    assert_eq!(parse_numeral("007"), None);
}

#[test]
fn numeral_is_digits_only() {
    assert_eq!(parse_numeral(""), None);
    assert_eq!(parse_numeral("-1"), None);
    assert_eq!(parse_numeral("+1"), None);
    assert_eq!(parse_numeral("1 "), None);
    assert_eq!(parse_numeral("12a"), None);
    assert_eq!(parse_numeral("bogus"), None);
    assert_eq!(parse_numeral("٣"), None);
}

#[test]
fn numeral_must_fit() {
    assert_eq!(parse_numeral("18446744073709551615"), Some(u64::MAX));
    assert_eq!(parse_numeral("18446744073709551616"), None);
    assert_eq!(parse_numeral("99999999999999999999999"), None);
}

#[test]
fn chars_and_strings() {
    let chars = chars_of("héllo");
    assert_eq!(chars, vec!['h', 'é', 'l', 'l', 'o']);
    assert!(same_text("abc", "abc"));
    assert!(!same_text("abc", "abd"));
    assert!(!same_text("abc", "ab"));
}

#[test]
fn integers_are_read() {
    assert_eq!(parse_integer("5"), Some(5));
    assert_eq!(parse_integer("-5"), Some(-5));
    assert_eq!(parse_integer("+5"), Some(5));
    assert_eq!(parse_integer("007"), Some(7));
    assert_eq!(parse_integer("-0"), Some(0));
    assert_eq!(parse_integer("9223372036854775807"), Some(i64::MAX));
    assert_eq!(parse_integer("-9223372036854775808"), Some(i64::MIN));
}

#[test]
fn integers_are_not_coerced() {
    assert_eq!(parse_integer(""), None);
    assert_eq!(parse_integer("-"), None);
    assert_eq!(parse_integer("+"), None);
    assert_eq!(parse_integer("5.0"), None);
    assert_eq!(parse_integer(" 5"), None);
    assert_eq!(parse_integer("five"), None);
    assert_eq!(parse_integer("--5"), None);
    assert_eq!(parse_integer("9223372036854775808"), None);
    assert_eq!(parse_integer("-9223372036854775809"), None);
    assert_eq!(parse_integer("99999999999999999999999999"), None);
}

#[test]
fn booleans_are_read() {
    assert_eq!(parse_boolean("true"), Some(true));
    assert_eq!(parse_boolean("false"), Some(false));
    assert_eq!(parse_boolean("True"), None);
    assert_eq!(parse_boolean("1"), None);
    assert_eq!(parse_boolean(""), None);
}

#[test]
fn arguments_convert_to_their_kinds() {
    let kinds = vec![ParamKind::Integer, ParamKind::Text, ParamKind::Boolean];
    let args = vec!["-12".to_string(), "red".to_string(), "true".to_string()];
    assert_eq!(
        convert_args(&kinds, &args),
        Ok(vec![StepArg::Integer(-12), StepArg::Text("red".to_string()), StepArg::Boolean(true)])
    );
    assert_eq!(convert_args(&vec![], &vec![]), Ok(vec![]));
}

#[test]
fn wrong_number_of_arguments() {
    let kinds = vec![ParamKind::Integer];
    assert_eq!(
        convert_args(&kinds, &vec![]),
        Err(ConversionError::WrongCount { expected: 1, given: 0 })
    );
    assert_eq!(
        convert_args(&kinds, &vec!["1".to_string(), "2".to_string()]),
        Err(ConversionError::WrongCount { expected: 1, given: 2 })
    );
}

#[test]
fn first_argument_that_does_not_convert() {
    let kinds = vec![ParamKind::Text, ParamKind::Integer, ParamKind::Boolean];
    let args = vec!["x".to_string(), "y".to_string(), "z".to_string()];
    assert_eq!(
        convert_args(&kinds, &args),
        Err(ConversionError::Invalid { index: 1, kind: ParamKind::Integer })
    );
    let args = vec!["x".to_string(), "3".to_string(), "z".to_string()];
    assert_eq!(
        convert_args(&kinds, &args),
        Err(ConversionError::Invalid { index: 2, kind: ParamKind::Boolean })
    );
}
