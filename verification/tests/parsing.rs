//! The numeric parsers and formatters on their own.

use egui_typed_input::digits::{format_u64, parse_i64, parse_u32, parse_u64, NumParseError};

#[test]
fn parse_u64_plain_and_signed() {
    assert_eq!(parse_u64("0"), Ok(0));
    assert_eq!(parse_u64("007"), Ok(7));
    assert_eq!(parse_u64("+42"), Ok(42));
    assert_eq!(parse_u64("18446744073709551615"), Ok(u64::MAX));
    assert_eq!(parse_u64("18446744073709551616"), Err(NumParseError::OutOfRange));
    assert_eq!(parse_u64(""), Err(NumParseError::Empty));
    assert_eq!(parse_u64("+"), Err(NumParseError::Empty));
    assert_eq!(parse_u64("-1"), Err(NumParseError::InvalidChar));
    assert_eq!(parse_u64("1 2"), Err(NumParseError::InvalidChar));
    assert_eq!(parse_u64("++1"), Err(NumParseError::InvalidChar));
}

#[test]
fn parse_u32_range() {
    assert_eq!(parse_u32("4294967295"), Ok(u32::MAX));
    assert_eq!(parse_u32("4294967296"), Err(NumParseError::OutOfRange));
    assert_eq!(parse_u32("100"), Ok(100));
}

#[test]
fn parse_i64_signs_and_extremes() {
    assert_eq!(parse_i64("-3"), Ok(-3));
    assert_eq!(parse_i64("+3"), Ok(3));
    assert_eq!(parse_i64("3"), Ok(3));
    assert_eq!(parse_i64("-0"), Ok(0));
    assert_eq!(parse_i64("9223372036854775807"), Ok(i64::MAX));
    assert_eq!(parse_i64("9223372036854775808"), Err(NumParseError::OutOfRange));
    assert_eq!(parse_i64("-9223372036854775808"), Ok(i64::MIN));
    assert_eq!(parse_i64("-9223372036854775809"), Err(NumParseError::OutOfRange));
    assert_eq!(parse_i64("-"), Err(NumParseError::Empty));
    assert_eq!(parse_i64("12a"), Err(NumParseError::InvalidChar));
    assert_eq!(parse_i64("1.5"), Err(NumParseError::InvalidChar));
}

#[test]
fn format_is_canonical_decimal() {
    assert_eq!(format_u64(0).as_str(), "0");
    assert_eq!(format_u64(10).as_str(), "10");
    assert_eq!(format_u64(907).as_str(), "907");
    assert_eq!(format_u64(u64::MAX).as_str(), "18446744073709551615");
}
