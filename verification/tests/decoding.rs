use physchem::decode::{
    decode_order, decode_precision, decode_scientific_flag, parse_bool, parse_i32, parse_usize,
};
use physchem::error::CalcError;

#[test]
fn precision_plain_literal() {
    assert_eq!(decode_precision(b"3"), Ok(3));
    assert_eq!(decode_precision(b"0"), Ok(0));
    assert_eq!(decode_precision(b"10"), Ok(10));
}

#[test]
fn precision_plus_sign() {
    assert_eq!(decode_precision(b"+7"), Ok(7));
}

#[test]
fn precision_default_on_junk() {
    assert_eq!(decode_precision(b"abc"), Ok(2));
    assert_eq!(decode_precision(b""), Ok(2));
    assert_eq!(decode_precision(b"2.5"), Ok(2));
    assert_eq!(decode_precision(b"-1"), Ok(2));
}

#[test]
fn precision_default_on_overflow() {
    assert_eq!(decode_precision(b"99999999999999999999999999"), Ok(2));
}

#[test]
fn precision_rejects_invalid_utf8() {
    assert_eq!(decode_precision(&[0xFF]), Err(CalcError::Decode));
    assert_eq!(decode_precision(&[0xC3, 0x28]), Err(CalcError::Decode));
}

#[test]
fn scientific_flag_literals() {
    assert_eq!(decode_scientific_flag(b"true"), Ok(true));
    assert_eq!(decode_scientific_flag(b"false"), Ok(false));
}

#[test]
fn scientific_flag_default_on_junk() {
    assert_eq!(decode_scientific_flag(b"TRUE"), Ok(false));
    assert_eq!(decode_scientific_flag(b"1"), Ok(false));
    assert_eq!(decode_scientific_flag(b""), Ok(false));
}

#[test]
fn scientific_flag_rejects_invalid_utf8() {
    assert_eq!(decode_scientific_flag(&[0xF0, 0x28, 0x8C, 0x28]), Err(CalcError::Decode));
}

#[test]
fn order_literals() {
    assert_eq!(decode_order(b"2"), Ok(2));
    assert_eq!(decode_order(b"0"), Ok(0));
    assert_eq!(decode_order(b"-1"), Ok(-1));
    assert_eq!(decode_order(b"+1"), Ok(1));
}

#[test]
fn order_extremes() {
    assert_eq!(decode_order(b"2147483647"), Ok(i32::MAX));
    assert_eq!(decode_order(b"-2147483648"), Ok(i32::MIN));
}

#[test]
fn order_parse_failures() {
    assert_eq!(decode_order(b"abc"), Err(CalcError::Parse));
    assert_eq!(decode_order(b""), Err(CalcError::Parse));
    assert_eq!(decode_order(b"1.5"), Err(CalcError::Parse));
    assert_eq!(decode_order(b"2147483648"), Err(CalcError::Parse));
    assert_eq!(decode_order(b"-2147483649"), Err(CalcError::Parse));
}

#[test]
fn order_rejects_invalid_utf8() {
    assert_eq!(decode_order(&[0x80]), Err(CalcError::Decode));
}

#[test]
fn parse_usize_exact() {
    assert_eq!(parse_usize(b"0"), Some(0));
    assert_eq!(parse_usize(b"18446744073709551615"), Some(usize::MAX));
    assert_eq!(parse_usize(b"18446744073709551616"), None);
    assert_eq!(parse_usize(b"+"), None);
    assert_eq!(parse_usize(b"1 "), None);
}

#[test]
fn parse_i32_exact() {
    assert_eq!(parse_i32(b"-0"), Some(0));
    assert_eq!(parse_i32(b"007"), Some(7));
    assert_eq!(parse_i32(b"-"), None);
    assert_eq!(parse_i32(b"--1"), None);
}

#[test]
fn parse_bool_exact() {
    assert_eq!(parse_bool(b"true"), Some(true));
    assert_eq!(parse_bool(b"false"), Some(false));
    assert_eq!(parse_bool(b"truee"), None);
    assert_eq!(parse_bool(b"tru"), None);
    assert_eq!(parse_bool(b""), None);
}
