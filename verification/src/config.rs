//! The choices a command line offers and how they map onto library types.

use vstd::prelude::*;
use vstd::string::*;

use crate::color::Ground;
use crate::detect::ColorSupport;
use crate::exclusion::ColorBlindnessMode;

verus! {

/// Why a configuration was rejected.
#[derive(Debug)]
pub enum ConfigError {
    Validation(String),
}

impl ConfigError {
    /// The message shown for this error.
    pub fn message(&self) -> (r: String)
        ensures
            match self {
                ConfigError::Validation(s) => r@ == "Configuration validation failed: "@ + s@,
            },
    {
        match self {
            ConfigError::Validation(s) => {
                let mut m = String::from_str("Configuration validation failed: ");
                m.append(s.as_str());
                m
            },
        }
    }
}

/// Color the foreground or background of the output.
#[derive(Debug, Clone, Copy, PartialEq, Eq, Structural)]
pub enum GroundArg {
    /// Color the text foreground.
    Fg,
    /// Color the text background.
    Bg,
}

/// Override automatic color-support detection.
#[derive(Debug, Clone, Copy, PartialEq, Eq, Structural)]
pub enum ColorSupportArg {
    /// Disable all color output.
    NoColor,
    /// 16 standard ANSI colors.
    Ansi16,
    /// 256-color xterm palette.
    Ansi256,
    /// 24-bit true color.
    TrueColor,
}

/// Preset for accommodating a color-vision deficiency.
#[derive(Debug, Clone, Copy, PartialEq, Eq, Structural)]
pub enum ColorBlindArg {
    /// Deuteranopia / deuteranomaly — green-weak.
    Deuteranopia,
    /// Protanopia / protanomaly — red-weak.
    Protanopia,
    /// Tritanopia / tritanomaly — blue–yellow.
    Tritanopia,
    /// Achromatopsia — complete color blindness (grayscale output).
    Achromatopsia,
}

pub open spec fn ground_of(g: GroundArg) -> Ground {
    match g {
        GroundArg::Fg => Ground::Foreground,
        GroundArg::Bg => Ground::Background,
    }
}

pub open spec fn support_of(c: ColorSupportArg) -> ColorSupport {
    match c {
        ColorSupportArg::NoColor => ColorSupport::NoColor,
        ColorSupportArg::Ansi16 => ColorSupport::Ansi16,
        ColorSupportArg::Ansi256 => ColorSupport::Ansi256,
        ColorSupportArg::TrueColor => ColorSupport::TrueColor,
    }
}

pub open spec fn mode_of(m: ColorBlindArg) -> ColorBlindnessMode {
    match m {
        ColorBlindArg::Deuteranopia => ColorBlindnessMode::Deuteranopia,
        ColorBlindArg::Protanopia => ColorBlindnessMode::Protanopia,
        ColorBlindArg::Tritanopia => ColorBlindnessMode::Tritanopia,
        ColorBlindArg::Achromatopsia => ColorBlindnessMode::Achromatopsia,
    }
}

impl From<GroundArg> for Ground {
    fn from(g: GroundArg) -> (r: Ground) {
        match g {
            GroundArg::Fg => Ground::Foreground,
            GroundArg::Bg => Ground::Background,
        }
    }
}

impl vstd::std_specs::convert::FromSpecImpl<GroundArg> for Ground {
    open spec fn obeys_from_spec() -> bool {
        true
    }

    open spec fn from_spec(g: GroundArg) -> Ground {
        ground_of(g)
    }
}

impl From<ColorSupportArg> for ColorSupport {
    fn from(c: ColorSupportArg) -> (r: ColorSupport) {
        match c {
            ColorSupportArg::NoColor => ColorSupport::NoColor,
            ColorSupportArg::Ansi16 => ColorSupport::Ansi16,
            ColorSupportArg::Ansi256 => ColorSupport::Ansi256,
            ColorSupportArg::TrueColor => ColorSupport::TrueColor,
        }
    }
}

impl vstd::std_specs::convert::FromSpecImpl<ColorSupportArg> for ColorSupport {
    open spec fn obeys_from_spec() -> bool {
        true
    }

    open spec fn from_spec(c: ColorSupportArg) -> ColorSupport {
        support_of(c)
    }
}

impl From<ColorBlindArg> for ColorBlindnessMode {
    fn from(m: ColorBlindArg) -> (r: ColorBlindnessMode) {
        match m {
            ColorBlindArg::Deuteranopia => ColorBlindnessMode::Deuteranopia,
            ColorBlindArg::Protanopia => ColorBlindnessMode::Protanopia,
            ColorBlindArg::Tritanopia => ColorBlindnessMode::Tritanopia,
            ColorBlindArg::Achromatopsia => ColorBlindnessMode::Achromatopsia,
        }
    }
}

impl vstd::std_specs::convert::FromSpecImpl<ColorBlindArg> for ColorBlindnessMode {
    open spec fn obeys_from_spec() -> bool {
        true
    }

    open spec fn from_spec(m: ColorBlindArg) -> ColorBlindnessMode {
        mode_of(m)
    }
}

// ─── laws ─────────────────────────────────────────────────────────────────────

/// Each argument choice maps to a distinct library value.
pub proof fn lemma_arg_maps_injective(a: ColorSupportArg, b: ColorSupportArg, m: ColorBlindArg, n: ColorBlindArg, g: GroundArg, h: GroundArg)
    ensures
        support_of(a) == support_of(b) ==> a == b,
        mode_of(m) == mode_of(n) ==> m == n,
        ground_of(g) == ground_of(h) ==> g == h,
{
}

} // verus!
