use hash_color_lib::color::{cube_index_to_rgb, Color, Ground};

#[test]
fn cube_index_zero_is_black() {
    assert_eq!(cube_index_to_rgb(0), (0, 0, 0));
}

#[test]
fn ansi16_foreground_codes() {
    assert_eq!(Color::Ansi16(0).escape_open(Ground::Foreground), "\x1b[30m");
    assert_eq!(Color::Ansi16(8).escape_open(Ground::Foreground), "\x1b[90m");
}

#[test]
fn ansi256_background_code() {
    assert_eq!(
        Color::Ansi256(200).escape_open(Ground::Background),
        "\x1b[48;5;200m"
    );
}

#[test]
fn truecolor_foreground_code() {
    assert_eq!(
        Color::TrueColor(255, 128, 0).escape_open(Ground::Foreground),
        "\x1b[38;2;255;128;0m"
    );
}

#[test]
fn ansi16_background_and_bright_codes() {
    assert_eq!(Color::Ansi16(0).escape_open(Ground::Background), "\x1b[40m");
    assert_eq!(Color::Ansi16(7).escape_open(Ground::Foreground), "\x1b[37m");
    assert_eq!(Color::Ansi16(8).escape_open(Ground::Background), "\x1b[100m");
    assert_eq!(Color::Ansi16(15).escape_open(Ground::Background), "\x1b[107m");
    assert_eq!(Color::Ansi16(15).escape_open(Ground::Foreground), "\x1b[97m");
}

#[test]
fn ansi256_foreground_and_small_numbers() {
    assert_eq!(Color::Ansi256(5).escape_open(Ground::Foreground), "\x1b[38;5;5m");
    assert_eq!(Color::Ansi256(42).escape_open(Ground::Foreground), "\x1b[38;5;42m");
    assert_eq!(Color::Ansi256(0).escape_open(Ground::Background), "\x1b[48;5;0m");
}

#[test]
fn truecolor_background_code() {
    assert_eq!(
        Color::TrueColor(0, 9, 10).escape_open(Ground::Background),
        "\x1b[48;2;0;9;10m"
    );
}

#[test]
fn reset_sequence() {
    assert_eq!(Color::escape_close(), "\x1b[0m");
}

#[test]
fn cube_corners_and_levels() {
    assert_eq!(cube_index_to_rgb(215), (255, 255, 255));
    assert_eq!(cube_index_to_rgb(36), (95, 0, 0));
    assert_eq!(cube_index_to_rgb(6), (0, 95, 0));
    assert_eq!(cube_index_to_rgb(1), (0, 0, 95));
    assert_eq!(cube_index_to_rgb(2 * 36 + 3 * 6 + 4), (135, 175, 215));
}

#[test]
fn escape_fit_check() {
    assert!(Color::Ansi16(15).can_escape(Ground::Foreground));
    assert!(Color::Ansi16(173).can_escape(Ground::Foreground));
    assert!(!Color::Ansi16(174).can_escape(Ground::Foreground));
    assert!(!Color::Ansi16(164).can_escape(Ground::Background));
    assert!(Color::TrueColor(1, 2, 3).can_escape(Ground::Background));
}
