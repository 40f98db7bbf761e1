use hash_color_lib::exclusion::{split_hue_exclusion, ColorBlindnessMode, ColorBlindnessModeParseError, HueExclusionParseError};

#[test]
fn color_blind_modes_parse() {
    assert_eq!(
        "deuteranopia".parse::<ColorBlindnessMode>().unwrap(),
        ColorBlindnessMode::Deuteranopia
    );
    assert_eq!(
        "achromatopsia".parse::<ColorBlindnessMode>().unwrap(),
        ColorBlindnessMode::Achromatopsia
    );
}

#[test]
fn color_blind_aliases_and_case() {
    assert_eq!(ColorBlindnessMode::parse("Green-Weak").unwrap(), ColorBlindnessMode::Deuteranopia);
    assert_eq!(ColorBlindnessMode::parse("PROTANOMALY").unwrap(), ColorBlindnessMode::Protanopia);
    assert_eq!(ColorBlindnessMode::parse("blue-yellow").unwrap(), ColorBlindnessMode::Tritanopia);
    assert_eq!(ColorBlindnessMode::parse("Greyscale").unwrap(), ColorBlindnessMode::Achromatopsia);
    assert_eq!(ColorBlindnessMode::parse("monochromacy").unwrap(), ColorBlindnessMode::Achromatopsia);
}

#[test]
fn unknown_color_blind_mode_is_rejected() {
    match ColorBlindnessMode::parse("purple") {
        Err(ColorBlindnessModeParseError::Unknown(s)) => assert_eq!(s, "purple"),
        other => panic!("unexpected {:?}", other),
    }
    let e = ColorBlindnessModeParseError::Unknown("x".to_string());
    assert_eq!(
        e.message(),
        "Unknown color-blindness mode: x. Valid values: deuteranopia, protanopia, tritanopia, achromatopsia"
    );
}

#[test]
fn mode_names_round_trip() {
    for m in [
        ColorBlindnessMode::Deuteranopia,
        ColorBlindnessMode::Protanopia,
        ColorBlindnessMode::Tritanopia,
        ColorBlindnessMode::Achromatopsia,
    ] {
        assert_eq!(ColorBlindnessMode::parse(m.name()).unwrap(), m);
        assert_eq!(m.to_string(), m.name());
    }
    assert_eq!(ColorBlindnessMode::Protanopia.name(), "protanopia");
}

#[test]
fn preset_arcs() {
    assert_eq!(ColorBlindnessMode::Deuteranopia.hue_exclusion_arcs(), vec![(80, 170)]);
    assert_eq!(ColorBlindnessMode::Protanopia.hue_exclusion_arcs(), vec![(340, 30)]);
    assert_eq!(ColorBlindnessMode::Tritanopia.hue_exclusion_arcs(), vec![(180, 270)]);
    assert_eq!(ColorBlindnessMode::Achromatopsia.hue_exclusion_arcs(), vec![(0, 360)]);
}

#[test]
fn split_exclusion_text() {
    let (a, b) = split_hue_exclusion("60:180").unwrap();
    assert_eq!((a, b), ("60", "180"));
    let (a, b) = split_hue_exclusion(" 340 : 30 ").unwrap();
    assert_eq!((a, b), ("340", "30"));
    let (a, b) = split_hue_exclusion("1:2:3").unwrap();
    assert_eq!((a, b), ("1", "2:3"));
    let (a, b) = split_hue_exclusion(":").unwrap();
    assert_eq!((a, b), ("", ""));
}

#[test]
fn split_exclusion_without_colon_is_bad_format() {
    match split_hue_exclusion("60-180") {
        Err(HueExclusionParseError::BadFormat(s)) => assert_eq!(s, "60-180"),
        other => panic!("unexpected {:?}", other),
    }
}
