use hash_color_lib::color::Ground;
use hash_color_lib::config::{ColorBlindArg, ColorSupportArg, ConfigError, GroundArg};
use hash_color_lib::detect::ColorSupport;
use hash_color_lib::exclusion::ColorBlindnessMode;

#[test]
fn args_convert() {
    assert_eq!(Ground::from(GroundArg::Fg), Ground::Foreground);
    assert_eq!(Ground::from(GroundArg::Bg), Ground::Background);
    assert_eq!(ColorSupport::from(ColorSupportArg::NoColor), ColorSupport::NoColor);
    assert_eq!(ColorSupport::from(ColorSupportArg::TrueColor), ColorSupport::TrueColor);
    assert_eq!(ColorBlindnessMode::from(ColorBlindArg::Tritanopia), ColorBlindnessMode::Tritanopia);
}

#[test]
fn config_error_message() {
    let e = ConfigError::Validation("bad".to_string());
    assert_eq!(e.message(), "Configuration validation failed: bad");
}
