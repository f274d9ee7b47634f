use droptail::text::{decimal_string, is_white_space, text_equals, trim_text};

#[test]
fn trimming_matches_str_trim() {
    let samples = [
        "", " ", "  a  ", "\t\nname\r\n", "\u{3000}全角\u{3000}", "\u{a0}x\u{2029}", "a b", "\u{85}", "\u{200b}z\u{200b}",
        "\u{1680}\u{2000}\u{200a}\u{202f}\u{205f}mid\u{2028}", "\u{180e}k",
    ];
    for s in samples {
        assert_eq!(trim_text(s), s.trim(), "trim of {s:?}");
    }
}

#[test]
fn white_space_is_the_unicode_property() {
    for code in 0..0x3100_u32 {
        if let Some(c) = char::from_u32(code) {
            assert_eq!(is_white_space(c), c.is_whitespace(), "{code:#x}");
        }
    }
}

#[test]
fn numbers_and_texts() {
    assert_eq!(decimal_string(0), "0");
    assert_eq!(decimal_string(1_964_947_538), "1964947538");
    assert_eq!(decimal_string(u128::MAX), u128::MAX.to_string());
    assert!(text_equals("abc", "abc"));
    assert!(!text_equals("abc", "abd"));
}
