use hash_color_lib::color::{cube_index_to_rgb, Color, Ground};
use hash_color_lib::colorize::{
    hash_to_ansi16, hash_to_ansi256, hash_to_gray_truecolor, ColorChoice, ColorSelector,
    ColorizedText, HuePlan,
};
use hash_color_lib::detect::ColorSupport;
use hash_color_lib::hash::fnv1a_64_seeded;

fn plan(grayscale: bool, sextants: [bool; 6], cube: impl Fn(u8) -> bool) -> HuePlan {
    let c: Vec<bool> = (0u8..216).map(|i| cube(i)).collect();
    HuePlan::new(grayscale, sextants.to_vec(), c).unwrap()
}

fn selector(support: ColorSupport, seed: u64, p: HuePlan) -> ColorSelector {
    ColorSelector { seed, support, plan: p }
}

#[test]
fn plan_needs_exact_lengths() {
    assert!(HuePlan::new(false, vec![false; 5], vec![false; 216]).is_none());
    assert!(HuePlan::new(false, vec![false; 6], vec![false; 215]).is_none());
    assert!(HuePlan::new(true, vec![false; 6], vec![false; 216]).is_some());
}

#[test]
fn no_support_is_plain() {
    let s = selector(ColorSupport::NoColor, 0, HuePlan::unrestricted());
    assert_eq!(s.select(b"hello"), ColorChoice::Plain);
}

#[test]
fn same_key_same_choice() {
    for support in [ColorSupport::Ansi16, ColorSupport::Ansi256, ColorSupport::TrueColor] {
        let s = selector(support, 3, HuePlan::unrestricted());
        assert_eq!(s.select(b"hello"), s.select(b"hello"));
    }
}

#[test]
fn truecolor_chromatic_carries_hash() {
    let s = selector(ColorSupport::TrueColor, 42, HuePlan::unrestricted());
    assert_eq!(s.select(b"web-01"), ColorChoice::Chromatic(fnv1a_64_seeded(b"web-01", 42)));
}

#[test]
fn grayscale_plan_gives_gray() {
    let p = || plan(true, [true; 6], |_| true);
    for key in [&b"test"[..], b"a", b"web-01", b""] {
        match selector(ColorSupport::TrueColor, 0, p()).select(key) {
            ColorChoice::Fixed(Color::TrueColor(r, g, b)) => {
                assert_eq!(r, g);
                assert_eq!(g, b);
                assert!((60..220).contains(&r));
            }
            other => panic!("unexpected {:?}", other),
        }
        match selector(ColorSupport::Ansi16, 0, p()).select(key) {
            ColorChoice::Fixed(Color::Ansi16(n)) => assert!(n == 7 || n == 15),
            other => panic!("unexpected {:?}", other),
        }
        match selector(ColorSupport::Ansi256, 0, p()).select(key) {
            ColorChoice::Fixed(Color::Ansi256(n)) => assert!(n >= 232),
            other => panic!("unexpected {:?}", other),
        }
    }
}

#[test]
fn ansi16_formula() {
    // Nothing excluded: candidates are 1..=7 and 9..=15 in palette order.
    let order = [1u8, 2, 3, 4, 5, 6, 7, 9, 10, 11, 12, 13, 14, 15];
    let p = HuePlan::unrestricted();
    for h in 0u64..40 {
        assert_eq!(hash_to_ansi16(h, &p), Color::Ansi16(order[(h % 14) as usize]));
    }
    // Red (0°) and green (120°) excluded: 1, 2, 9, 10 drop out.
    let p = plan(false, [true, false, true, false, false, false], |_| false);
    let order = [3u8, 4, 5, 6, 7, 11, 12, 13, 14, 15];
    for h in 0u64..40 {
        assert_eq!(hash_to_ansi16(h, &p), Color::Ansi16(order[(h % 10) as usize]));
    }
}

#[test]
fn gray_truecolor_formula() {
    assert_eq!(hash_to_gray_truecolor(0), Color::TrueColor(60, 60, 60));
    assert_eq!(hash_to_gray_truecolor(159), Color::TrueColor(219, 219, 219));
    assert_eq!(hash_to_gray_truecolor(160), Color::TrueColor(60, 60, 60));
}

#[test]
fn ansi256_walks_cube() {
    let p = HuePlan::unrestricted();
    assert_eq!(hash_to_ansi256(0, &p), Color::Ansi256(16));
    assert_eq!(hash_to_ansi256(217, &p), Color::Ansi256(17));
    // Exclude every chromatic cell: only gray cells (r == g == b) remain.
    let p = plan(false, [false; 6], |_| true);
    for h in 0u64..300 {
        match hash_to_ansi256(h, &p) {
            Color::Ansi256(n) => {
                assert!((16..=231).contains(&n));
                let (r, g, b) = cube_index_to_rgb(n - 16);
                assert!(r == g && g == b);
            }
            other => panic!("unexpected {:?}", other),
        }
    }
    // Starting at cell 1 (excluded, chromatic) the walk moves on to cell 2.
    let p = plan(false, [false; 6], |i| i == 1);
    assert_eq!(hash_to_ansi256(1, &p), Color::Ansi256(18));
    // Start near the top of the hash range: the walk starts at cell
    // u64::MAX mod 216 = 159 and goes on to 160 when 159 is excluded.
    let p = HuePlan::unrestricted();
    assert_eq!(hash_to_ansi256(u64::MAX, &p), Color::Ansi256(16 + (u64::MAX % 216) as u8));
    let p = plan(false, [false; 6], |i| i == 159);
    assert_eq!(hash_to_ansi256(u64::MAX, &p), Color::Ansi256(176));
    // Cell 214 (255, 255, 215) is chromatic; cell 215 is white and always usable.
    let p = plan(false, [false; 6], |i| i >= 214);
    assert_eq!(hash_to_ansi256(214, &p), Color::Ansi256(231));
}

#[test]
fn ansi256_grayscale_ramp() {
    let p = plan(true, [false; 6], |_| false);
    assert_eq!(hash_to_ansi256(0, &p), Color::Ansi256(232));
    assert_eq!(hash_to_ansi256(23, &p), Color::Ansi256(255));
    assert_eq!(hash_to_ansi256(24, &p), Color::Ansi256(232));
}

#[test]
fn wrap_without_color_is_plain_text() {
    let ct = ColorizedText::wrap(None, Ground::Foreground, "hello");
    assert_eq!(ct.render(), "hello");
    assert_eq!(ct.open, "");
    assert_eq!(ct.close, "");
}

#[test]
fn colored_text_wraps_escapes() {
    let ct = ColorizedText::wrap(Some(Color::Ansi256(200)), Ground::Background, "hi");
    assert_eq!(ct.render(), "\x1b[48;5;200mhi\x1b[0m");
    assert_eq!(ct.text, "hi");
}

#[test]
fn bytes_are_shown_lossily() {
    let ct = ColorizedText::wrap_bytes(None, Ground::Foreground, b"ab\xffc");
    assert_eq!(ct.text, "ab\u{FFFD}c");
    let ct = ColorizedText::wrap_bytes(Some(Color::Ansi16(1)), Ground::Foreground, "héllo".as_bytes());
    assert_eq!(ct.render(), "\x1b[31mhéllo\x1b[0m");
}
