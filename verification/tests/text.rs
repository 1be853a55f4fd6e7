//! Text out of numbers, and numbers out of text

use nkscan::text::{
    decimal_text, eq_ignore_ascii_case, hex_text, parse_u32, push_decimal, push_hex2,
    push_hex_value, push_lower_hex, same_text, trim_text,
};

#[test]
fn numbers_are_written_without_leading_zeros() {
    assert_eq!(decimal_text(0), "0");
    assert_eq!(decimal_text(9), "9");
    assert_eq!(decimal_text(10), "10");
    assert_eq!(decimal_text(u64::MAX), "18446744073709551615");
    assert_eq!(hex_text(0), "0");
    assert_eq!(hex_text(0xBEEF), "BEEF");
}

#[test]
fn what_is_appended_stands_behind_what_was_there() {
    let mut s = String::from("a");
    push_decimal(&mut s, 65535);
    push_hex2(&mut s, 0x0F);
    push_hex2(&mut s, 0xA0);
    assert_eq!(s, "a655350FA0");

    let mut s = String::new();
    push_hex_value(&mut s, 6);
    s.push(' ');
    push_hex_value(&mut s, 0x1b);
    s.push(' ');
    push_hex_value(&mut s, 0x12345);
    s.push(' ');
    push_lower_hex(&mut s, 0xABCDEF);
    assert_eq!(s, "0x06 0x1b 0x12345 abcdef");
}

/// A number written down reads back as itself
#[test]
fn a_written_number_reads_back() {
    for n in [0u32, 7, 10, 135, 99_999, u32::MAX] {
        assert_eq!(parse_u32(&decimal_text(u64::from(n))), Some(n));
    }
}

#[test]
fn only_digits_behind_one_plus_are_a_number() {
    assert_eq!(parse_u32("56"), Some(56));
    assert_eq!(parse_u32("+56"), Some(56));
    assert_eq!(parse_u32("007"), Some(7));
    assert_eq!(parse_u32("4294967295"), Some(u32::MAX));
    for bad in ["", "+", "-1", "++1", "5 ", " 5", "5mm", "4294967296", "99999999999999999999", "\u{0665}"] {
        assert_eq!(parse_u32(bad), None, "{bad}");
        assert!(bad.parse::<u32>().is_err(), "{bad}");
    }
}

#[test]
fn white_space_is_trimmed_at_both_ends() {
    for s in ["", "   ", "a", " a b ", "\t\r\na\u{b}\u{c}", "\u{a0}\u{2003}x\u{3000}", "\u{85}y\u{1680}", "\u{200b}z"] {
        assert_eq!(trim_text(s), s.trim(), "{s:?}");
    }
}

#[test]
fn case_is_ignored_for_ascii_letters_alone() {
    assert!(eq_ignore_ascii_case("USB:1-4", "usb:1-4"));
    assert!(eq_ignore_ascii_case("", ""));
    assert!(!eq_ignore_ascii_case("a", "ab"));
    assert!(!eq_ignore_ascii_case("\u{c4}", "\u{e4}"));
    // '[' and '{' are 32 apart like a letter's two cases
    assert!(!eq_ignore_ascii_case("[", "{"));
    assert!(same_text("a", "a"));
    assert!(!same_text("a", "A"));
}
