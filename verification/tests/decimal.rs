use actias::decimal::{decimal_of_i64, decimal_of_u64, is_number, parse_i64};

#[test]
fn decimal_writes_digits_without_padding() {
    assert_eq!(decimal_of_u64(0), "0");
    assert_eq!(decimal_of_u64(7), "7");
    assert_eq!(decimal_of_u64(10), "10");
    assert_eq!(decimal_of_u64(4096), "4096");
    assert_eq!(decimal_of_u64(u64::MAX), "18446744073709551615");
}

#[test]
fn decimal_writes_a_minus_sign_for_negative_numbers() {
    assert_eq!(decimal_of_i64(-1), "-1");
    assert_eq!(decimal_of_i64(-120), "-120");
    assert_eq!(decimal_of_i64(i64::MIN), "-9223372036854775808");
    assert_eq!(decimal_of_i64(i64::MAX), "9223372036854775807");
    assert_eq!(decimal_of_i64(0), "0");
}

#[test]
fn parse_reads_signed_digits() {
    assert_eq!(parse_i64("0"), Some(0));
    assert_eq!(parse_i64("42"), Some(42));
    assert_eq!(parse_i64("+42"), Some(42));
    assert_eq!(parse_i64("-42"), Some(-42));
    assert_eq!(parse_i64("007"), Some(7));
    assert_eq!(parse_i64("-0"), Some(0));
}

#[test]
fn parse_reads_the_ends_of_the_range() {
    assert_eq!(parse_i64("9223372036854775807"), Some(i64::MAX));
    assert_eq!(parse_i64("-9223372036854775808"), Some(i64::MIN));
    assert_eq!(parse_i64("9223372036854775808"), None);
    assert_eq!(parse_i64("-9223372036854775809"), None);
    assert_eq!(parse_i64("99999999999999999999999"), None);
    assert_eq!(parse_i64("00000000000000000000000001"), Some(1));
}

#[test]
fn parse_refuses_what_is_no_number() {
    assert_eq!(parse_i64(""), None);
    assert_eq!(parse_i64("-"), None);
    assert_eq!(parse_i64("+"), None);
    assert_eq!(parse_i64("12a"), None);
    assert_eq!(parse_i64(" 12"), None);
    assert_eq!(parse_i64("1.5"), None);
    assert_eq!(parse_i64("--1"), None);
    assert_eq!(parse_i64("\u{0663}"), None);
}

#[test]
fn parse_gives_back_what_was_written() {
    let samples: Vec<i64> = vec![0, 1, -1, 9, 10, -10, 123456789, i64::MAX, i64::MIN, -4096];
    for value in samples {
        assert_eq!(parse_i64(&decimal_of_i64(value)), Some(value));
    }
}

#[test]
fn numbers_are_told_from_other_text() {
    for text in ["0", "1.5", "-0.25", "+3", "1.", ".5", "1e10", "1E-3", "2.5e+7", "inf", "-INF",
        "Infinity", "NaN", "+nan", "007.100"]
    {
        assert!(is_number(text), "{} is a number", text);
    }
    for text in ["", "+", "-", ".", "e5", "1e", "1e+", "1.5.2", "1 ", " 1", "0x10", "1_000",
        "in", "infinit", "nane", "--1", "1e5.0", "one", "\u{0661}"]
    {
        assert!(!is_number(text), "{} is no number", text);
    }
}

#[test]
fn a_number_is_what_a_float_is_read_from() {
    let samples = ["0", "1.5", "-0.25", "+3", "1.", ".5", "1e10", "1E-3", "2.5e+7", "inf", "-INF",
        "Infinity", "NaN", "+nan", "", "+", ".", "e5", "1e", "1e+", "1.5.2", "1 ", "0x10",
        "1_000", "in", "infinit", "--1", "1e5.0", "one", "-.e1", "-.5e1", "+.", "1e-", "INFINITY",
        "nAn", "-", "1e0001", "000", "1..", "..1", "9999999999999999999999999999",
        "1e99999999999", "-inf ", "i", "+-1"];
    for text in samples {
        assert_eq!(is_number(text), text.parse::<f64>().is_ok(), "on {:?}", text);
    }
}

#[test]
fn whole_numbers_and_written_floats_are_numbers() {
    for value in [0i64, -1, 42, i64::MIN, i64::MAX] {
        assert!(is_number(&decimal_of_i64(value)));
    }
    for value in [0.5f64, -1.25, 1e300, 1e-300, f64::MAX, f64::MIN_POSITIVE, f64::INFINITY,
        f64::NEG_INFINITY, f64::NAN, 3.0]
    {
        assert!(is_number(&value.to_string()), "{} is a number", value);
    }
}
