use hash_color_lib::input::hash_key;

#[test]
fn sensitive_key_is_raw_bytes() {
    assert_eq!(hash_key("foo\n", true), b"foo\n");
    assert_eq!(hash_key("foo", true), b"foo");
    assert_ne!(hash_key("hello\n", true), hash_key("hello\r\n", true));
}

#[test]
fn trimmed_key_drops_trailing_white_space() {
    assert_eq!(hash_key("foo\n", false), b"foo");
    assert_eq!(hash_key("hello\r\n", false), b"hello");
    assert_eq!(hash_key("hello\n\r\n\n", false), b"hello");
    assert_eq!(hash_key("a\nb\n", false), b"a\nb");
    assert_eq!(hash_key("foo \n", false), b"foo");
    assert_eq!(hash_key("foo\t \r\n", false), b"foo");
    assert_eq!(hash_key("foo\u{3000}\u{a0}", false), b"foo");
    assert_eq!(hash_key("  foo", false), b"  foo");
    for s in ["", " x y \n\t", "é \u{2028}", "\u{85}a\u{85}"] {
        assert_eq!(hash_key(s, false), s.trim_end().as_bytes());
    }
    assert_eq!(hash_key("\n\n", false), b"");
    assert_eq!(hash_key("é\n", false), "é".as_bytes());
}
