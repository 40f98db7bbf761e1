use hash_color_lib::text::{contains_text, trim, trim_end, trim_start, white_space};

#[test]
fn white_space_matches_char_is_whitespace() {
    for v in 0u32..=0x10FFFF {
        if let Some(c) = char::from_u32(v) {
            assert_eq!(white_space(c), c.is_whitespace(), "U+{v:04X}");
        }
    }
}

#[test]
fn trims_match_std() {
    let samples = [
        "", " ", "abc", "  abc  ", "\t\na b\r\n", "\u{3000}x\u{a0}", "\u{85}\u{2028}y\u{205f}",
        "é ", " \u{1680}", "a\u{200b}",
    ];
    for s in samples {
        assert_eq!(trim(s), s.trim());
        assert_eq!(trim_end(s), s.trim_end());
        assert_eq!(trim_start(s), s.trim_start());
    }
}

#[test]
fn substring_search() {
    assert!(contains_text("xterm-256color", "256color"));
    assert!(contains_text("abc", ""));
    assert!(!contains_text("ab", "abc"));
    assert!(!contains_text("truecolo", "truecolor"));
}
