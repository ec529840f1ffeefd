use aionui_server::digest::hex_text;
use aionui_server::text::{decimal_text, parse_u32, same_text};

#[test]
fn texts_are_compared_whole() {
    assert!(same_text("", ""));
    assert!(same_text("größe", "größe"));
    assert!(!same_text("a", "b"));
    assert!(!same_text("a", "ab"));
    assert!(!same_text("ab", "a"));
}

#[test]
fn numbers_are_written_without_leading_zeros() {
    assert_eq!(decimal_text(0), "0");
    assert_eq!(decimal_text(9), "9");
    assert_eq!(decimal_text(10), "10");
    assert_eq!(decimal_text(1234567890), "1234567890");
    assert_eq!(decimal_text(u64::MAX), "18446744073709551615");
}

#[test]
fn numbers_read_back_as_they_were_written() {
    for value in [0u32, 1, 10, 99, 60_000, u32::MAX] {
        assert_eq!(parse_u32(&decimal_text(value as u64)), Some(value));
    }
}

#[test]
fn numbers_are_read_as_the_standard_library_reads_them() {
    for text in [
        "", "+", "-", "+0", "-0", "-1", "++1", "+-1", "007", "+007", "1 ", " 1", "1_000", "0x10",
        "4294967295", "4294967296", "42949672950", "99999999999999999999", "000000000004294967295",
        "1a", "a1", "12٣", "é", "1+", "+4294967295", "99999999999x",
    ] {
        assert_eq!(parse_u32(text), text.parse::<u32>().ok(), "{}", text);
    }
}

#[test]
fn bytes_are_written_in_lower_case_hexadecimal() {
    assert_eq!(hex_text(&[10, 20, 30], 3), "0a141e");
    assert_eq!(hex_text(&[0, 255, 0xab], 2), "00ff");
    assert_eq!(hex_text(&[1], 0), "");
}
