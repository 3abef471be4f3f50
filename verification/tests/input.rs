use guessing_game::input::{is_whitespace, parse_guess};

#[test]
fn plain_numbers_parse() {
    assert_eq!(parse_guess("0"), Some(0));
    assert_eq!(parse_guess("1"), Some(1));
    assert_eq!(parse_guess("42"), Some(42));
    assert_eq!(parse_guess("100"), Some(100));
    assert_eq!(parse_guess("4294967295"), Some(u32::MAX));
}

#[test]
fn surrounding_white_space_is_dropped() {
    assert_eq!(parse_guess("42\n"), Some(42));
    assert_eq!(parse_guess("  42\r\n"), Some(42));
    assert_eq!(parse_guess("\t7 "), Some(7));
    assert_eq!(parse_guess("\u{3000}5\u{a0}"), Some(5));
}

#[test]
fn a_plus_sign_and_leading_zeros_are_accepted() {
    assert_eq!(parse_guess("+7"), Some(7));
    assert_eq!(parse_guess("007"), Some(7));
    assert_eq!(parse_guess("+000000000000000000042"), Some(42));
    assert_eq!(parse_guess("00000000004294967295"), Some(u32::MAX));
}

#[test]
fn what_is_not_a_number_is_no_guess() {
    assert_eq!(parse_guess(""), None);
    assert_eq!(parse_guess("   "), None);
    assert_eq!(parse_guess("abc"), None);
    assert_eq!(parse_guess("-5"), None);
    assert_eq!(parse_guess("-0"), None);
    assert_eq!(parse_guess("+"), None);
    assert_eq!(parse_guess("++5"), None);
    assert_eq!(parse_guess("+ 5"), None);
    assert_eq!(parse_guess("5+"), None);
    assert_eq!(parse_guess("4 2"), None);
    assert_eq!(parse_guess("12a"), None);
    assert_eq!(parse_guess("1.5"), None);
    assert_eq!(parse_guess("0x10"), None);
    assert_eq!(parse_guess("\u{664}\u{662}"), None);
}

#[test]
fn numbers_past_the_largest_u32_are_no_guess() {
    assert_eq!(parse_guess("4294967296"), None);
    assert_eq!(parse_guess("4294967300"), None);
    assert_eq!(parse_guess("42949672950"), None);
    assert_eq!(parse_guess("99999999999999999999999999"), None);
}

#[test]
fn parse_guess_agrees_with_the_standard_parser() {
    let samples = [
        "", " ", "0", "1", "9", "10", "99", "100", "101", "+1", "-1", "+", "-", "+-1", "1+",
        " 1", "1 ", " 1 ", "\n1\n", "1\t", "\u{85}3\u{2003}", "\u{200b}3", "١٢", "1e3", "1,000",
        "4294967295", "4294967296", "04294967295", "18446744073709551616", "a", "1a", "a1",
        "+0", "00", "+00", "１", "\u{feff}1", "1\u{0}",
    ];
    for text in samples {
        let expected: Option<u32> = text.trim().parse::<u32>().ok();
        assert_eq!(parse_guess(text), expected, "text {:?}", text);
    }
    for n in 0u32..2000 {
        assert_eq!(parse_guess(&format!(" {}\n", n)), Some(n));
    }
}

#[test]
fn white_space_is_the_unicode_property() {
    for code in 0u32..=0x10ffff {
        if let Some(c) = char::from_u32(code) {
            assert_eq!(is_whitespace(c), c.is_whitespace(), "code {:x}", code);
        }
    }
}

#[test]
fn named_white_space_characters() {
    for c in [' ', '\t', '\n', '\r', '\u{b}', '\u{c}', '\u{85}', '\u{a0}', '\u{1680}', '\u{2000}',
        '\u{200a}', '\u{2028}', '\u{2029}', '\u{202f}', '\u{205f}', '\u{3000}']
    {
        assert!(is_whitespace(c));
    }
    for c in ['a', '0', '+', '\u{8}', '\u{e}', '\u{200b}', '\u{180e}', '\u{feff}'] {
        assert!(!is_whitespace(c));
    }
}
