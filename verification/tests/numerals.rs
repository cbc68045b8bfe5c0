use minicc::decimal::i32_to_string;
use minicc::decimal::parse_i32;
use minicc::decimal::u64_to_string;
use minicc::text::is_digit;
use minicc::text::is_ws;
use minicc::text::repeat_char;

#[test]
fn renders_small_and_boundary_values() {
    assert_eq!(u64_to_string(0), "0");
    assert_eq!(u64_to_string(7), "7");
    assert_eq!(u64_to_string(1234567890), "1234567890");
    assert_eq!(u64_to_string(u64::MAX), "18446744073709551615");
    assert_eq!(i32_to_string(0), "0");
    assert_eq!(i32_to_string(-1), "-1");
    assert_eq!(i32_to_string(i32::MAX), "2147483647");
    assert_eq!(i32_to_string(i32::MIN), "-2147483648");
}

#[test]
fn reads_digits_signs_and_bounds() {
    assert_eq!(parse_i32("0"), Some(0));
    assert_eq!(parse_i32("42"), Some(42));
    assert_eq!(parse_i32("007"), Some(7));
    assert_eq!(parse_i32("+13"), Some(13));
    assert_eq!(parse_i32("-13"), Some(-13));
    assert_eq!(parse_i32("2147483647"), Some(i32::MAX));
    assert_eq!(parse_i32("-2147483648"), Some(i32::MIN));
}

#[test]
fn rejects_malformed_and_out_of_range_text() {
    assert_eq!(parse_i32(""), None);
    assert_eq!(parse_i32("+"), None);
    assert_eq!(parse_i32("-"), None);
    assert_eq!(parse_i32("1a"), None);
    assert_eq!(parse_i32(" 1"), None);
    assert_eq!(parse_i32("1 "), None);
    assert_eq!(parse_i32("--1"), None);
    assert_eq!(parse_i32("2147483648"), None);
    assert_eq!(parse_i32("-2147483649"), None);
    assert_eq!(parse_i32("99999999999999999999999999"), None);
}

#[test]
fn round_trip_through_text() {
    for value in [0, 1, -1, 9, 10, -10, 123456, i32::MAX, i32::MIN] {
        assert_eq!(parse_i32(i32_to_string(value).as_str()), Some(value));
    }
}

#[test]
fn repeats_a_character() {
    assert_eq!(repeat_char('^', 0), "");
    assert_eq!(repeat_char('^', 3), "^^^");
    assert_eq!(repeat_char(' ', 5), "     ");
}

#[test]
fn classifies_characters_as_the_scanner_needs() {
    assert!(is_ws(' ') && is_ws('\t') && is_ws('\n') && is_ws('\r') && is_ws('\x0c'));
    assert!(!is_ws('a') && !is_ws('\u{b}'));
    assert!(is_digit('0') && is_digit('9'));
    assert!(!is_digit('a') && !is_digit('/') && !is_digit(':'));
}
