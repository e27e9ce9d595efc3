use user_service::number::{decimal, parse_id};

#[test]
fn parse_id_reads_plain_digits() {
    assert_eq!(parse_id("0"), Some(0));
    assert_eq!(parse_id("42"), Some(42));
    assert_eq!(parse_id("007"), Some(7));
    assert_eq!(parse_id("2147483647"), Some(2147483647));
    assert_eq!(parse_id("0000000000002147483647"), Some(2147483647));
}

#[test]
fn parse_id_reads_a_sign() {
    assert_eq!(parse_id("+5"), Some(5));
    assert_eq!(parse_id("-5"), Some(-5));
    assert_eq!(parse_id("-0"), Some(0));
    assert_eq!(parse_id("-2147483648"), Some(-2147483648));
}

#[test]
fn parse_id_refuses_what_does_not_fit() {
    assert_eq!(parse_id("2147483648"), None);
    assert_eq!(parse_id("+2147483648"), None);
    assert_eq!(parse_id("-2147483649"), None);
    assert_eq!(parse_id("99999999999999999999999999"), None);
    assert_eq!(parse_id("-99999999999999999999999999"), None);
}

#[test]
fn parse_id_refuses_what_is_no_number() {
    assert_eq!(parse_id(""), None);
    assert_eq!(parse_id("+"), None);
    assert_eq!(parse_id("-"), None);
    assert_eq!(parse_id("abc"), None);
    assert_eq!(parse_id("12a"), None);
    assert_eq!(parse_id("a12"), None);
    assert_eq!(parse_id("--1"), None);
    assert_eq!(parse_id("+-1"), None);
    assert_eq!(parse_id("1-"), None);
    assert_eq!(parse_id(" 1"), None);
    assert_eq!(parse_id("1 "), None);
    assert_eq!(parse_id("1.0"), None);
    assert_eq!(parse_id("0x10"), None);
    assert_eq!(parse_id("\u{661}"), None);
    assert_eq!(parse_id("99999999999999999999999999x"), None);
}

#[test]
fn parse_id_agrees_with_std() {
    let texts = [
        "", "0", "-0", "+0", "1", "-1", "+1", "10", "2147483647", "2147483648", "-2147483648",
        "-2147483649", "+", "-", "1_000", "12e3", "١٢", "000", "-000", "4294967296",
    ];
    for text in texts {
        assert_eq!(parse_id(text), text.parse::<i32>().ok());
    }
}

#[test]
fn decimal_writes_digits() {
    assert_eq!(decimal(0), "0");
    assert_eq!(decimal(7), "7");
    assert_eq!(decimal(10), "10");
    assert_eq!(decimal(42), "42");
    assert_eq!(decimal(1000), "1000");
    assert_eq!(decimal(2147483647), "2147483647");
}

#[test]
fn decimal_writes_a_minus_for_negatives() {
    assert_eq!(decimal(-1), "-1");
    assert_eq!(decimal(-90), "-90");
    assert_eq!(decimal(-2147483648), "-2147483648");
}

#[test]
fn decimal_is_read_back_by_parse_id() {
    for n in [0, 1, -1, 9, 10, 11, 99, 100, 12345, -12345, i32::MAX, i32::MIN] {
        assert_eq!(parse_id(&decimal(n)), Some(n));
        assert_eq!(decimal(n), n.to_string());
    }
}
