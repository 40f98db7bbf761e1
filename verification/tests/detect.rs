use hash_color_lib::detect::{
    colorterm_support, detect_color_support_from, force_color_support, term_support, ColorEnv,
    ColorSupport, ColorSupportParseError,
};

fn env(no_color: bool, force: Option<&str>, colorterm: Option<&str>, term: Option<&str>) -> ColorEnv {
    ColorEnv {
        no_color,
        force_color: force.map(|s| s.to_string()),
        colorterm: colorterm.map(|s| s.to_string()),
        term: term.map(|s| s.to_string()),
    }
}

#[test]
fn no_color_wins_over_everything() {
    let e = env(true, Some("3"), Some("truecolor"), Some("xterm-256color"));
    assert_eq!(detect_color_support_from(&e, true, true), ColorSupport::NoColor);
}

#[test]
fn force_color_levels() {
    assert_eq!(detect_color_support_from(&env(false, Some("3"), None, None), false, false), ColorSupport::TrueColor);
    assert_eq!(detect_color_support_from(&env(false, Some(" 0 "), None, None), true, true), ColorSupport::NoColor);
    assert_eq!(detect_color_support_from(&env(false, Some("1"), None, None), false, false), ColorSupport::Ansi16);
    assert_eq!(detect_color_support_from(&env(false, Some("2"), None, None), false, false), ColorSupport::Ansi256);
    assert_eq!(detect_color_support_from(&env(false, Some("yes"), None, None), false, false), ColorSupport::TrueColor);
    assert_eq!(detect_color_support_from(&env(false, Some("\u{a0}2\t"), None, None), false, false), ColorSupport::Ansi256);
    assert_eq!(force_color_support("0"), ColorSupport::NoColor);
    assert_eq!(force_color_support(""), ColorSupport::TrueColor);
}

#[test]
fn colorterm_then_terminfo_then_term() {
    assert_eq!(detect_color_support_from(&env(false, None, Some("TrueColor"), None), false, false), ColorSupport::TrueColor);
    assert_eq!(detect_color_support_from(&env(false, None, Some("256"), Some("dumb")), true, true), ColorSupport::Ansi256);
    assert_eq!(detect_color_support_from(&env(false, None, Some("yes"), Some("dumb")), true, true), ColorSupport::TrueColor);
    assert_eq!(detect_color_support_from(&env(false, None, None, Some("dumb")), false, true), ColorSupport::NoColor);
    assert_eq!(detect_color_support_from(&env(false, None, None, Some("xterm-256color")), false, false), ColorSupport::Ansi256);
    assert_eq!(detect_color_support_from(&env(false, None, None, Some("foo-truecolor")), false, false), ColorSupport::TrueColor);
    assert_eq!(colorterm_support("24bit"), Some(ColorSupport::TrueColor));
    assert_eq!(colorterm_support("16"), None);
    assert_eq!(term_support("screen-256color"), Some(ColorSupport::Ansi256));
    assert_eq!(term_support("xterm"), None);
}

#[test]
fn non_tty_gives_none_and_tty_gives_16() {
    assert_eq!(detect_color_support_from(&env(false, None, None, None), false, false), ColorSupport::NoColor);
    assert_eq!(detect_color_support_from(&env(false, None, None, Some("xterm")), false, true), ColorSupport::Ansi16);
}

#[test]
fn parse_color_support_names() {
    assert_eq!("none".parse::<ColorSupport>().unwrap(), ColorSupport::NoColor);
    assert_eq!(ColorSupport::parse("OFF").unwrap(), ColorSupport::NoColor);
    assert_eq!(ColorSupport::parse("Basic").unwrap(), ColorSupport::Ansi16);
    assert_eq!(ColorSupport::parse("xterm256").unwrap(), ColorSupport::Ansi256);
    assert_eq!(ColorSupport::parse("24BIT").unwrap(), ColorSupport::TrueColor);
    match ColorSupport::parse("lots") {
        Err(ColorSupportParseError::Unknown(s)) => assert_eq!(s, "lots"),
        other => panic!("unexpected {:?}", other),
    }
}

#[test]
fn color_support_names_and_order() {
    for c in [ColorSupport::NoColor, ColorSupport::Ansi16, ColorSupport::Ansi256, ColorSupport::TrueColor] {
        assert_eq!(ColorSupport::parse(c.name()).unwrap(), c);
    }
    assert_eq!(ColorSupport::TrueColor.to_string(), "truecolor");
    assert_eq!(ColorSupport::Ansi16.to_string(), "16");
    assert!(ColorSupport::TrueColor >= ColorSupport::Ansi256);
    assert!(ColorSupport::Ansi256 > ColorSupport::Ansi16);
    assert!(ColorSupport::Ansi16 > ColorSupport::NoColor);
    let e = ColorSupportParseError::Unknown("x".to_string());
    assert_eq!(e.message(), "Unknown color support level: x. Valid values: none, 16, 256, truecolor");
}
