use mosaic::text::{decimal_string, substring, trim};

#[test]
fn trim_drops_leading_and_trailing_white_space() {
    assert_eq!(trim("  a b \t\n"), "a b");
    assert_eq!(trim("\u{3000}x\u{00A0}"), "x");
    assert_eq!(trim("\u{2003}\u{85}"), "");
    assert_eq!(trim(""), "");
    assert_eq!(trim("plain"), "plain");
}

#[test]
fn trim_agrees_with_std() {
    let samples = [" x ", "\u{1680}y\u{200A}", "\u{200B}z", "\r\n q \u{2028}", "\u{180E}w"];
    for s in samples {
        assert_eq!(trim(s), s.trim());
    }
}

#[test]
fn substring_counts_characters() {
    assert_eq!(substring("héllo", 1, 4), "éll");
    assert_eq!(substring("abc", 3, 3), "");
}

#[test]
fn decimals_have_no_leading_zeros() {
    assert_eq!(decimal_string(0), "0");
    assert_eq!(decimal_string(1234567890), "1234567890");
    assert_eq!(decimal_string(u64::MAX), "18446744073709551615");
}
