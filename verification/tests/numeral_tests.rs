use stackvm::numerals::{parse_numeral_u16, parse_numeral_u32};

#[test]
fn decimal_numerals_parse() {
    assert_eq!(parse_numeral_u16(b"0"), Some(0));
    assert_eq!(parse_numeral_u16(b"255"), Some(255));
    assert_eq!(parse_numeral_u16(b"65535"), Some(65535));
    assert_eq!(parse_numeral_u32(b"4294967295"), Some(4294967295));
}

#[test]
fn hex_numerals_parse_in_both_cases() {
    assert_eq!(parse_numeral_u16(b"0x10"), Some(16));
    assert_eq!(parse_numeral_u16(b"0xff"), Some(255));
    assert_eq!(parse_numeral_u16(b"0xFF"), Some(255));
    assert_eq!(parse_numeral_u32(b"0xDEADbeef"), Some(0xdeadbeef));
}

#[test]
fn out_of_range_numerals_are_rejected() {
    assert_eq!(parse_numeral_u16(b"65536"), None);
    assert_eq!(parse_numeral_u16(b"0x10000"), None);
    assert_eq!(parse_numeral_u32(b"4294967296"), None);
    assert_eq!(parse_numeral_u32(b"0x100000000"), None);
    assert_eq!(parse_numeral_u32(b"99999999999999999999999"), None);
}

#[test]
fn malformed_numerals_are_rejected() {
    assert_eq!(parse_numeral_u16(b""), None);
    assert_eq!(parse_numeral_u16(b"0x"), None);
    assert_eq!(parse_numeral_u16(b"12a"), None);
    assert_eq!(parse_numeral_u16(b"+12"), None);
    assert_eq!(parse_numeral_u16(b"-12"), None);
    assert_eq!(parse_numeral_u16(b" 12"), None);
    assert_eq!(parse_numeral_u32(b"0xfg"), None);
}

#[test]
fn hex_digits_are_decimal_without_the_prefix() {
    assert_eq!(parse_numeral_u16(b"ff"), None);
    assert_eq!(parse_numeral_u16(b"10"), Some(10));
}
