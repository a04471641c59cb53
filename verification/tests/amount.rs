use jeek::amount::{
    decimal_string, distance, format_magnitude, parse_amount, parse_hundredths, Amount,
    MAX_HUNDREDTHS,
};

#[test]
fn parse_hundredths_scrubs_currency_text() {
    assert_eq!(parse_hundredths("¥1,234.56"), Some(123456));
    assert_eq!(parse_hundredths("12.50"), Some(1250));
    assert_eq!(parse_hundredths(" 7 "), Some(700));
}

#[test]
fn parse_hundredths_accepts_bare_points() {
    assert_eq!(parse_hundredths("5."), Some(500));
    assert_eq!(parse_hundredths(".5"), Some(50));
}

#[test]
fn parse_hundredths_rounds_on_the_third_decimal() {
    assert_eq!(parse_hundredths("1.234"), Some(123));
    assert_eq!(parse_hundredths("1.235"), Some(124));
    assert_eq!(parse_hundredths("1.999"), Some(200));
    assert_eq!(parse_hundredths("0.0049"), Some(0));
}

#[test]
fn parse_hundredths_rejects_what_is_no_decimal() {
    assert_eq!(parse_hundredths(""), None);
    assert_eq!(parse_hundredths("abc"), None);
    assert_eq!(parse_hundredths("."), None);
    assert_eq!(parse_hundredths("-"), None);
    assert_eq!(parse_hundredths("1.2.3"), None);
    assert_eq!(parse_hundredths("1-2"), None);
    assert_eq!(parse_hundredths("--5"), None);
    assert_eq!(parse_hundredths("2024-01-01"), None);
}

#[test]
fn parse_hundredths_rejects_negative_amounts() {
    assert_eq!(parse_hundredths("-12.5"), None);
    assert_eq!(parse_hundredths("-.5"), None);
    assert_eq!(parse_hundredths("-0.01"), None);
    assert_eq!(parse_hundredths("-0.005"), None);
    assert_eq!(parse_hundredths("-0.004"), Some(0));
    assert_eq!(parse_hundredths("-0"), Some(0));
    assert_eq!(parse_hundredths("-0.00"), Some(0));
    assert_eq!(parse_hundredths("¥-3"), None);
}

#[test]
fn parse_hundredths_stops_at_the_limit() {
    assert_eq!(parse_hundredths("10000000000000000"), Some(MAX_HUNDREDTHS));
    assert_eq!(parse_hundredths("10000000000000000.01"), None);
    assert_eq!(parse_hundredths("99999999999999999999999999999999999999999"), None);
    assert_eq!(parse_hundredths("000000000000000000000000000000000000000001"), Some(100));
}

#[test]
fn parse_amount_agrees_with_parse_hundredths() {
    assert_eq!(parse_amount("¥1,234.56").map(|a| a.hundredths()), Some(123456));
    assert!(parse_amount("n/a").is_none());
}

#[test]
fn amount_new_enforces_the_limit() {
    assert_eq!(Amount::new(1250).map(|a| a.hundredths()), Some(1250));
    assert!(Amount::new(MAX_HUNDREDTHS).is_some());
    assert!(Amount::new(MAX_HUNDREDTHS + 1).is_none());
    assert!(Amount::new(u64::MAX).is_none());
    assert_eq!(Amount::new(0).map(|a| a.hundredths()), Some(0));
}

#[test]
fn format_magnitude_writes_two_decimals() {
    assert_eq!(format_magnitude(0), "0.00");
    assert_eq!(format_magnitude(5), "0.05");
    assert_eq!(format_magnitude(50), "0.50");
    assert_eq!(format_magnitude(1250), "12.50");
    assert_eq!(format_magnitude(123456), "1234.56");
    assert_eq!(format_magnitude(u128::MAX), "3402823669209384634633746074317682114.55");
    assert_eq!(Amount::new(7).unwrap().to_text(), "0.07");
    assert_eq!(Amount::new(MAX_HUNDREDTHS).unwrap().to_text(), "10000000000000000.00");
}

#[test]
fn what_is_written_reads_back() {
    for h in [0u64, 1, 9, 10, 99, 100, 101, 1250, 123456, 999_999, MAX_HUNDREDTHS] {
        let text = Amount::new(h).unwrap().to_text();
        assert_eq!(parse_hundredths(&text), Some(h));
    }
}

#[test]
fn decimal_string_writes_base_ten() {
    assert_eq!(decimal_string(0), "0");
    assert_eq!(decimal_string(7), "7");
    assert_eq!(decimal_string(10), "10");
    assert_eq!(decimal_string(1234567890), "1234567890");
    assert_eq!(decimal_string(usize::MAX), usize::MAX.to_string());
}

#[test]
fn distance_is_the_absolute_value() {
    assert_eq!(distance(0), 0);
    assert_eq!(distance(5), 5);
    assert_eq!(distance(-5), 5);
    assert_eq!(distance(i128::MAX), i128::MAX as u128);
    assert_eq!(distance(i128::MIN), (i128::MAX as u128) + 1);
}
