//! Texts.

use bot_polymarket_rust::text::{
    all_hex_digits, characters, contains, is_whitespace, number_text, parse_i64, parse_u32, parse_u64,
    rest_after_last, same_ignoring_case, same_text, starts_with, strip_prefixes, trim,
};

#[test]
fn whitespace_is_trimmed_at_both_ends() {
    for t in ["", " ", "a", " a", "a ", "\t a b \r\n", "\u{a0}x\u{3000}", "\u{200b}x", "\u{85}x"] {
        assert_eq!(trim(t), t.trim());
    }
    assert_eq!(trim("  PONG\n"), "PONG");
}

#[test]
fn whitespace_is_that_of_unicode() {
    for n in 0..=0x10ffffu32 {
        if let Some(c) = char::from_u32(n) {
            assert_eq!(is_whitespace(c), c.is_whitespace());
        }
    }
}

#[test]
fn prefixes_are_taken_off_again_and_again() {
    for t in ["0x12", "0x0x12", "x0x", "", "0x", "00x1", "0X12"] {
        assert_eq!(strip_prefixes(t, "0x"), t.trim_start_matches("0x"));
    }
}

#[test]
fn integers_are_read_as_the_standard_library_reads_them() {
    let texts = [
        "0", "-0", "+0", "7", "+7", "-7", "", "+", "-", " 1", "1 ", "1_0", "007", "4294967295",
        "4294967296", "18446744073709551615", "18446744073709551616", "9223372036854775807",
        "-9223372036854775808", "9223372036854775808", "-9223372036854775809", "1e3", "\u{0661}",
        "--1", "+-1",
    ];
    for t in texts {
        assert_eq!(parse_i64(t), t.parse::<i64>().ok(), "{}", t);
        assert_eq!(parse_u64(t), t.parse::<u64>().ok(), "{}", t);
        assert_eq!(parse_u32(t), t.parse::<u32>().ok(), "{}", t);
    }
}

#[test]
fn numbers_are_written_in_digits() {
    for n in [0u64, 9, 10, 99, 100, 12345, u64::MAX] {
        assert_eq!(number_text(n), n.to_string());
    }
}

#[test]
fn parts_are_found() {
    assert!(contains("will-bitcoin-rise", "bitcoin"));
    assert!(contains("abc", ""));
    assert!(!contains("bit", "bitcoin"));
    assert!(!contains("bitcbitcoi", "bitcoin"));
    assert!(starts_with("btc-updown", "btc-"));
    assert!(!starts_with("abtc-", "btc-"));
    assert_eq!(rest_after_last("a-b-c", '-'), "c");
    assert_eq!(rest_after_last("abc", '-'), "abc");
    assert_eq!(rest_after_last("a-", '-'), "");
    assert_eq!(characters("a\u{e9}b"), vec!['a', '\u{e9}', 'b']);
}

#[test]
fn case_is_told_apart_or_not() {
    assert!(same_text("off", "off") && !same_text("off", "OFF"));
    for (a, b) in [("off", "OFF"), ("Off", "oFF"), ("off", "of"), ("\u{e9}", "\u{c9}"), ("", "")] {
        assert_eq!(same_ignoring_case(a, b), a.eq_ignore_ascii_case(b));
    }
    assert!(all_hex_digits("09afAF") && !all_hex_digits("0g") && all_hex_digits(""));
}
