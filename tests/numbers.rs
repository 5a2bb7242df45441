use sdo_rust_tool::eds_parser;
use sdo_rust_tool::numeric::{numeric_value, parse_hex_or_dec, trim, NumberError};

#[test]
fn hex_prefixed_values_in_range() {
    assert_eq!(parse_hex_or_dec("0x2A", 1, 127), Ok(42));
    assert_eq!(parse_hex_or_dec("0x7F", 1, 127), Ok(127));
    assert_eq!(parse_hex_or_dec("0xFFFF", 0, 0xFFFF), Ok(0xFFFF));
    assert_eq!(parse_hex_or_dec("0xff", 0, 0xFF), Ok(255));
}

#[test]
fn bare_digits_read_as_hex_first() {
    assert_eq!(parse_hex_or_dec("10", 0, 0xFFFF), Ok(16));
    assert_eq!(parse_hex_or_dec("  1A  ", 0, 0xFFFF), Ok(26));
}

#[test]
fn decimal_fallback_when_hex_overflows() {
    // 4294967295 does not fit as hexadecimal, but does as decimal.
    assert_eq!(numeric_value("4294967295"), Some(4_294_967_295));
    assert_eq!(numeric_value("0xFFFFFFFF"), Some(4_294_967_295));
    assert_eq!(numeric_value("0x100000000"), None);
}

#[test]
fn out_of_range_and_malformed() {
    assert_eq!(parse_hex_or_dec("0x80", 1, 127), Err(NumberError::OutOfRange));
    assert_eq!(parse_hex_or_dec("0x0", 1, 127), Err(NumberError::OutOfRange));
    assert_eq!(parse_hex_or_dec("hello", 0, 0xFFFF), Err(NumberError::Malformed));
    assert_eq!(parse_hex_or_dec("", 0, 0xFFFF), Err(NumberError::Malformed));
    assert_eq!(parse_hex_or_dec("0x", 0, 0xFFFF), Err(NumberError::Malformed));
    assert_eq!(parse_hex_or_dec("0X2A", 0, 0xFFFF), Err(NumberError::Malformed));
}

#[test]
fn plus_sign_is_accepted() {
    assert_eq!(numeric_value("+12"), Some(0x12));
    assert_eq!(numeric_value("-12"), None);
}

#[test]
fn trim_drops_unicode_white_space() {
    assert_eq!(trim("\u{3000} 0x10\t\n"), "0x10");
    assert_eq!(trim("   "), "");
    assert_eq!(numeric_value("\u{a0}0x10\u{2003}"), Some(16));
}

#[test]
fn eds_number_rule_errors_are_parse_errors() {
    assert_eq!(eds_parser::parse_hex_or_dec(" 0x12345678 ").unwrap(), 0x1234_5678);
    let e = eds_parser::parse_hex_or_dec("xyz").unwrap_err();
    assert!(matches!(e, eds_parser::EdsError::Parse(_)));
}
