use kalandra_kapital::decimal::parse_decimal_micro;
use kalandra_kapital::price::SAFE_AMOUNT_MICRO;

#[test]
fn whole_numbers_scale_to_micro() {
    assert_eq!(parse_decimal_micro(b"2"), Some(2_000_000));
    assert_eq!(parse_decimal_micro(b"0"), Some(0));
    assert_eq!(parse_decimal_micro(b"500"), Some(500_000_000));
}

#[test]
fn fractions_are_read_exactly() {
    assert_eq!(parse_decimal_micro(b"0.02"), Some(20_000));
    assert_eq!(parse_decimal_micro(b"2.0"), Some(2_000_000));
    assert_eq!(parse_decimal_micro(b"0.004"), Some(4_000));
    assert_eq!(parse_decimal_micro(b"1.5"), Some(1_500_000));
    assert_eq!(parse_decimal_micro(b"0.000001"), Some(1));
}

#[test]
fn seventh_fraction_digit_is_truncated() {
    assert_eq!(parse_decimal_micro(b"123.4567891"), Some(123_456_789));
    assert_eq!(parse_decimal_micro(b"0.0000009"), Some(0));
}

#[test]
fn malformed_text_is_rejected() {
    assert_eq!(parse_decimal_micro(b""), None);
    assert_eq!(parse_decimal_micro(b"."), None);
    assert_eq!(parse_decimal_micro(b"1."), None);
    assert_eq!(parse_decimal_micro(b".5"), None);
    assert_eq!(parse_decimal_micro(b"1.2.3"), None);
    assert_eq!(parse_decimal_micro(b"-3"), None);
    assert_eq!(parse_decimal_micro(b"1e5"), None);
    assert_eq!(parse_decimal_micro(b"12a"), None);
    assert_eq!(parse_decimal_micro(b" 1"), None);
}

#[test]
fn values_beyond_the_representable_range_are_rejected() {
    assert_eq!(parse_decimal_micro(b"90000000"), Some(SAFE_AMOUNT_MICRO));
    assert_eq!(parse_decimal_micro(b"90000001"), None);
    assert_eq!(parse_decimal_micro(b"90000000.000001"), None);
    assert_eq!(parse_decimal_micro(b"999999999999999999999"), None);
}

#[test]
fn leading_zeros_are_accepted() {
    assert_eq!(parse_decimal_micro(b"007"), Some(7_000_000));
    assert_eq!(parse_decimal_micro(b"000000000012"), Some(12_000_000));
}
