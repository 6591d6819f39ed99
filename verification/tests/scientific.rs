use vizr::error::DecodeError;
use vizr::scientific::{parse_i32, parse_scientific, Scientific};

#[test]
fn parse_plain_decimal() {
    let sc = parse_scientific("123.456").unwrap();
    assert_eq!(sc.mantissa, "123.456");
    assert_eq!(sc.exponent, 0);
}

#[test]
fn parse_negative_plain() {
    let sc = parse_scientific("-0.5").unwrap();
    assert_eq!(sc.mantissa, "-0.5");
    assert_eq!(sc.exponent, 0);
}

#[test]
fn parse_exponential_lower_marker() {
    let sc = parse_scientific("1.23e10").unwrap();
    assert_eq!(sc.mantissa, "1.23");
    assert_eq!(sc.exponent, 10);
}

#[test]
fn parse_exponential_upper_marker_negative() {
    let sc = parse_scientific("-4.5E-7").unwrap();
    assert_eq!(sc.mantissa, "-4.5");
    assert_eq!(sc.exponent, -7);
}

#[test]
fn parse_huge_exponent_in_range() {
    let sc = parse_scientific("9.999e60").unwrap();
    assert_eq!(sc.mantissa, "9.999");
    assert_eq!(sc.exponent, 60);
}

#[test]
fn parse_leading_dot_and_trailing_dot() {
    assert_eq!(parse_scientific(".5").unwrap().mantissa, ".5");
    assert_eq!(parse_scientific("5.").unwrap().mantissa, "5.");
}

#[test]
fn parse_rejects_non_numeric() {
    match parse_scientific("abc") {
        Err(DecodeError::Parse { text }) => assert_eq!(text, "abc"),
        other => panic!("expected parse error, got {:?}", other),
    }
}

#[test]
fn parse_rejects_empty() {
    assert!(parse_scientific("").is_err());
}

#[test]
fn parse_rejects_double_dot() {
    assert!(parse_scientific("1.2.3").is_err());
}

#[test]
fn parse_rejects_special_float_spellings() {
    // the wire format admits only plain decimal numerals
    assert!(parse_scientific("inf").is_err());
    assert!(parse_scientific("NaN").is_err());
}

#[test]
fn parse_rejects_exponent_overflow() {
    match parse_scientific("1.2e99999999999") {
        Err(DecodeError::Parse { text }) => assert_eq!(text, "99999999999"),
        other => panic!("expected parse error, got {:?}", other),
    }
}

#[test]
fn parse_reports_bad_mantissa_part() {
    match parse_scientific("xye5") {
        Err(DecodeError::Parse { text }) => assert_eq!(text, "xy"),
        other => panic!("expected parse error, got {:?}", other),
    }
}

#[test]
fn parse_empty_mantissa_before_marker_fails() {
    assert!(parse_scientific("e5").is_err());
}

#[test]
fn parse_i32_basics() {
    assert_eq!(parse_i32("0"), Some(0));
    assert_eq!(parse_i32("+5"), Some(5));
    assert_eq!(parse_i32("-17"), Some(-17));
    assert_eq!(parse_i32("007"), Some(7));
}

#[test]
fn parse_i32_range_edges() {
    assert_eq!(parse_i32("2147483647"), Some(i32::MAX));
    assert_eq!(parse_i32("-2147483648"), Some(i32::MIN));
    assert_eq!(parse_i32("2147483648"), None);
    assert_eq!(parse_i32("-2147483649"), None);
    assert_eq!(parse_i32("000000000000000000042"), Some(42));
}

#[test]
fn parse_i32_rejects_junk() {
    assert_eq!(parse_i32(""), None);
    assert_eq!(parse_i32("-"), None);
    assert_eq!(parse_i32("1.5"), None);
    assert_eq!(parse_i32("12a"), None);
}

#[test]
fn zero_value_round_trip() {
    let z = Scientific::zero();
    assert_eq!(z.mantissa, "0");
    assert_eq!(z.exponent, 0);
    let d = Scientific::default();
    assert_eq!(z, d);
}
