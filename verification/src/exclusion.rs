//! Color-blindness accommodation presets and the textual form of hue
//! exclusion arcs.
//!
//! An arc is written `START:END` in degrees.  Splitting that text is done
//! here; reading the two halves as floating-point degrees is done by the
//! program.

use vstd::prelude::*;
use vstd::string::*;

use crate::text::{chars_of, lowercase, same_text, to_lowercase, trim, trimmed};

verus! {

/// Declares `std::num::ParseFloatError` (the error of reading a float from
/// text) as an opaque type, so that `HueExclusionParseError` can carry it.
#[verifier::external_type_specification]
#[verifier::external_body]
pub struct ExParseFloatError(std::num::ParseFloatError);

/// Why a hue exclusion `START:END` could not be read.
#[derive(Debug)]
pub enum HueExclusionParseError {
    /// The text has no `:` separator.
    BadFormat(String),
    /// One of the two halves is not a number of degrees.
    BadDegree { input: String, source: std::num::ParseFloatError },
}

/// Preset color-blindness accommodation modes.
///
/// Each mode expands to a set of hue arcs covering the hues that are most
/// difficult to distinguish for that condition.
#[derive(Debug, Clone, Copy, PartialEq, Eq, Structural)]
pub enum ColorBlindnessMode {
    /// Green-weak red–green deficiency: excludes greens (80°–170°).
    Deuteranopia,
    /// Red-weak red–green deficiency: excludes reds and magentas (340°–30°,
    /// wrapping around 0°).
    Protanopia,
    /// Blue–yellow deficiency: excludes blues and cyans (180°–270°).
    Tritanopia,
    /// Complete color blindness: the full 0°–360° arc, i.e. grayscale output.
    Achromatopsia,
}

/// An unknown color-blindness mode name.
#[derive(Debug)]
pub enum ColorBlindnessModeParseError {
    Unknown(String),
}

/// The mode that a lowercased name stands for, if any.
pub open spec fn color_blindness_word(w: Seq<char>) -> Option<ColorBlindnessMode> {
    if w == "deuteranopia"@ || w == "deuteranomaly"@ || w == "green-weak"@ {
        Some(ColorBlindnessMode::Deuteranopia)
    } else if w == "protanopia"@ || w == "protanomaly"@ || w == "red-weak"@ {
        Some(ColorBlindnessMode::Protanopia)
    } else if w == "tritanopia"@ || w == "tritanomaly"@ || w == "blue-yellow"@ {
        Some(ColorBlindnessMode::Tritanopia)
    } else if w == "achromatopsia"@ || w == "monochromacy"@ || w == "grayscale"@ || w
        == "greyscale"@ {
        Some(ColorBlindnessMode::Achromatopsia)
    } else {
        None
    }
}

/// The display name of a mode.
pub open spec fn color_blindness_name(m: ColorBlindnessMode) -> Seq<char> {
    match m {
        ColorBlindnessMode::Deuteranopia => "deuteranopia"@,
        ColorBlindnessMode::Protanopia => "protanopia"@,
        ColorBlindnessMode::Tritanopia => "tritanopia"@,
        ColorBlindnessMode::Achromatopsia => "achromatopsia"@,
    }
}

/// The hue arcs `(start, end)` in whole degrees that a mode excludes.
pub open spec fn preset_arcs(m: ColorBlindnessMode) -> Seq<(u16, u16)> {
    match m {
        ColorBlindnessMode::Deuteranopia => seq![(80u16, 170u16)],
        ColorBlindnessMode::Protanopia => seq![(340u16, 30u16)],
        ColorBlindnessMode::Tritanopia => seq![(180u16, 270u16)],
        ColorBlindnessMode::Achromatopsia => seq![(0u16, 360u16)],
    }
}

impl ColorBlindnessMode {
    /// The hue arcs (start, end) in degrees that this mode excludes.  An arc
    /// with start > end wraps around 0°/360°.
    pub fn hue_exclusion_arcs(&self) -> (r: Vec<(u16, u16)>)
        ensures
            r@ == preset_arcs(*self),
    {
        let mut v: Vec<(u16, u16)> = Vec::new();
        match self {
            ColorBlindnessMode::Deuteranopia => v.push((80, 170)),
            ColorBlindnessMode::Protanopia => v.push((340, 30)),
            ColorBlindnessMode::Tritanopia => v.push((180, 270)),
            ColorBlindnessMode::Achromatopsia => v.push((0, 360)),
        }
        assert(v@ =~= preset_arcs(*self));
        v
    }

    /// The mode named by an already-lowercased word, if any.
    pub fn from_lowercase_word(w: &str) -> (r: Option<ColorBlindnessMode>)
        ensures
            r == color_blindness_word(w@),
    {
        if same_text(w, "deuteranopia") || same_text(w, "deuteranomaly") || same_text(w, "green-weak") {
            Some(ColorBlindnessMode::Deuteranopia)
        } else if same_text(w, "protanopia") || same_text(w, "protanomaly") || same_text(
            w,
            "red-weak",
        ) {
            Some(ColorBlindnessMode::Protanopia)
        } else if same_text(w, "tritanopia") || same_text(w, "tritanomaly") || same_text(
            w,
            "blue-yellow",
        ) {
            Some(ColorBlindnessMode::Tritanopia)
        } else if same_text(w, "achromatopsia") || same_text(w, "monochromacy") || same_text(
            w,
            "grayscale",
        ) || same_text(w, "greyscale") {
            Some(ColorBlindnessMode::Achromatopsia)
        } else {
            None
        }
    }

    /// Parse a mode name, case-insensitively.
    pub fn parse(s: &str) -> (r: Result<ColorBlindnessMode, ColorBlindnessModeParseError>)
        ensures
            match r {
                Ok(m) => color_blindness_word(lowercase(s@)) == Some(m),
                Err(ColorBlindnessModeParseError::Unknown(t)) => color_blindness_word(
                    lowercase(s@),
                ) is None && t@ == s@,
            },
    {
        let lower = to_lowercase(s);
        match ColorBlindnessMode::from_lowercase_word(lower.as_str()) {
            Some(m) => Ok(m),
            None => Err(ColorBlindnessModeParseError::Unknown(String::from_str(s))),
        }
    }

    /// The display name of this mode.
    pub fn name(&self) -> (r: &'static str)
        ensures
            r@ == color_blindness_name(*self),
    {
        match self {
            ColorBlindnessMode::Deuteranopia => "deuteranopia",
            ColorBlindnessMode::Protanopia => "protanopia",
            ColorBlindnessMode::Tritanopia => "tritanopia",
            ColorBlindnessMode::Achromatopsia => "achromatopsia",
        }
    }

    /// The display name of this mode, as an owned string.
    pub fn to_string(&self) -> (r: String)
        ensures
            r@ == color_blindness_name(*self),
    {
        String::from_str(self.name())
    }
}

impl ColorBlindnessModeParseError {
    /// The message shown for this error.
    pub fn message(&self) -> (r: String)
        ensures
            match self {
                ColorBlindnessModeParseError::Unknown(s) => r@ == "Unknown color-blindness mode: "@
                    + s@ + ". Valid values: deuteranopia, protanopia, tritanopia, achromatopsia"@,
            },
    {
        match self {
            ColorBlindnessModeParseError::Unknown(s) => {
                let mut m = String::from_str("Unknown color-blindness mode: ");
                m.append(s.as_str());
                m.append(". Valid values: deuteranopia, protanopia, tritanopia, achromatopsia");
                m
            },
        }
    }
}

impl std::str::FromStr for ColorBlindnessMode {
    type Err = ColorBlindnessModeParseError;

    fn from_str(s: &str) -> (r: Result<Self, Self::Err>)
        ensures
            match r {
                Ok(m) => color_blindness_word(lowercase(s@)) == Some(m),
                Err(ColorBlindnessModeParseError::Unknown(t)) => color_blindness_word(
                    lowercase(s@),
                ) is None && t@ == s@,
            },
    {
        ColorBlindnessMode::parse(s)
    }
}

/// `k` is the position of the first `:` in `s`.
pub open spec fn first_colon_at(s: Seq<char>, k: int) -> bool {
    &&& 0 <= k < s.len()
    &&& s[k] == ':'
    &&& forall|j: int| 0 <= j < k ==> s[j] != ':'
}

/// `s` holds a `:`.
pub open spec fn has_colon(s: Seq<char>) -> bool {
    exists|k: int| 0 <= k < s.len() && s[k] == ':'
}

/// Split `START:END` at its first `:` and trim both halves.  Fails with
/// `BadFormat` (carrying the whole text) when there is no `:`.
pub fn split_hue_exclusion(s: &str) -> (r: Result<(&str, &str), HueExclusionParseError>)
    ensures
        r is Ok <==> has_colon(s@),
        match r {
            Ok((a, b)) => exists|k: int|
                first_colon_at(s@, k) && a@ == trimmed(s@.subrange(0, k)) && b@ == trimmed(
                    s@.subrange(k + 1, s@.len() as int),
                ),
            Err(HueExclusionParseError::BadFormat(t)) => t@ == s@,
            Err(_) => false,
        },
{
    let cs = chars_of(s);
    let mut k: usize = 0;
    while k < cs.len()
        invariant
            cs@ == s@,
            k <= cs@.len(),
            forall|j: int| 0 <= j < k ==> cs@[j] != ':',
        decreases cs@.len() - k,
    {
        if cs[k] == ':' {
            let first = s.substring_char(0, k);
            let rest = s.substring_char(k + 1, cs.len());
            let a = trim(first);
            let b = trim(rest);
            assert(first_colon_at(s@, k as int));
            return Ok((a, b));
        }
        k = k + 1;
    }
    assert(!has_colon(s@));
    Err(HueExclusionParseError::BadFormat(String::from_str(s)))
}

// ─── laws ─────────────────────────────────────────────────────────────────────

/// Every display name parses back to its mode.
pub proof fn lemma_mode_name_round_trip(m: ColorBlindnessMode)
    ensures
        color_blindness_word(color_blindness_name(m)) == Some(m),
{
    reveal_strlit("deuteranopia");
    reveal_strlit("deuteranomaly");
    reveal_strlit("green-weak");
    reveal_strlit("protanopia");
    reveal_strlit("protanomaly");
    reveal_strlit("red-weak");
    reveal_strlit("tritanopia");
    reveal_strlit("tritanomaly");
    reveal_strlit("blue-yellow");
    reveal_strlit("achromatopsia");
    assert("deuteranopia"@.len() == 12 && "deuteranomaly"@.len() == 13 && "green-weak"@.len() == 10);
    assert("protanopia"@.len() == 10 && "protanomaly"@.len() == 11 && "red-weak"@.len() == 8);
    assert("tritanopia"@.len() == 10 && "tritanomaly"@.len() == 11 && "blue-yellow"@.len() == 11);
    assert("achromatopsia"@.len() == 13);
    assert("protanopia"@ != "green-weak"@) by {
        assert("protanopia"@[0] != "green-weak"@[0]);
    }
    assert("tritanopia"@ != "green-weak"@) by {
        assert("tritanopia"@[0] != "green-weak"@[0]);
    }
    assert("tritanopia"@ != "protanopia"@) by {
        assert("tritanopia"@[0] != "protanopia"@[0]);
    }
    assert("achromatopsia"@ != "deuteranomaly"@) by {
        assert("achromatopsia"@[0] != "deuteranomaly"@[0]);
    }
}

/// Each preset is a single arc; only Protanopia's wraps around 0°/360°
/// (start > end), and only Achromatopsia's spans the full wheel.
pub proof fn lemma_preset_arc_shapes(m: ColorBlindnessMode)
    ensures
        preset_arcs(m).len() == 1,
        (preset_arcs(m)[0].0 > preset_arcs(m)[0].1) <==> m == ColorBlindnessMode::Protanopia,
        (preset_arcs(m)[0].1 - preset_arcs(m)[0].0 >= 360) <==> m == ColorBlindnessMode::Achromatopsia,
{
}

/// Every documented name of a mode, and only those, reads as that mode
/// (after lowercasing): deuteranopia, deuteranomaly and green-weak as
/// Deuteranopia; protanopia, protanomaly and red-weak as Protanopia;
/// tritanopia, tritanomaly and blue-yellow as Tritanopia; achromatopsia,
/// monochromacy, grayscale and greyscale as Achromatopsia.  Any other word is
/// no mode.
pub proof fn lemma_mode_aliases(w: Seq<char>)
    ensures
        (color_blindness_word(w) == Some(ColorBlindnessMode::Deuteranopia)) <==> (w
            == "deuteranopia"@ || w == "deuteranomaly"@ || w == "green-weak"@),
        (color_blindness_word(w) == Some(ColorBlindnessMode::Protanopia)) <==> (w == "protanopia"@
            || w == "protanomaly"@ || w == "red-weak"@),
        (color_blindness_word(w) == Some(ColorBlindnessMode::Tritanopia)) <==> (w == "tritanopia"@
            || w == "tritanomaly"@ || w == "blue-yellow"@),
        (color_blindness_word(w) == Some(ColorBlindnessMode::Achromatopsia)) <==> (w
            == "achromatopsia"@ || w == "monochromacy"@ || w == "grayscale"@ || w == "greyscale"@),
{
    reveal_strlit("deuteranopia");
    reveal_strlit("deuteranomaly");
    reveal_strlit("green-weak");
    reveal_strlit("protanopia");
    reveal_strlit("protanomaly");
    reveal_strlit("red-weak");
    reveal_strlit("tritanopia");
    reveal_strlit("tritanomaly");
    reveal_strlit("blue-yellow");
    reveal_strlit("achromatopsia");
    reveal_strlit("monochromacy");
    reveal_strlit("grayscale");
    reveal_strlit("greyscale");
    assert("deuteranopia"@.len() == 12 && "deuteranomaly"@.len() == 13 && "green-weak"@.len() == 10);
    assert("protanopia"@.len() == 10 && "protanomaly"@.len() == 11 && "red-weak"@.len() == 8);
    assert("tritanopia"@.len() == 10 && "tritanomaly"@.len() == 11 && "blue-yellow"@.len() == 11);
    assert("achromatopsia"@.len() == 13 && "monochromacy"@.len() == 12);
    assert("grayscale"@.len() == 9 && "greyscale"@.len() == 9);
    assert("deuteranopia"@[0] == 'd' && "deuteranomaly"@[0] == 'd' && "green-weak"@[0] == 'g');
    assert("protanopia"@[0] == 'p' && "protanomaly"@[0] == 'p');
    assert("tritanopia"@[0] == 't' && "tritanomaly"@[0] == 't' && "blue-yellow"@[0] == 'b');
    assert("achromatopsia"@[0] == 'a' && "monochromacy"@[0] == 'm');
    assert("protanopia"@ != "green-weak"@);
    assert("tritanopia"@ != "green-weak"@ && "tritanopia"@ != "protanopia"@);
    assert("tritanomaly"@ != "protanomaly"@ && "blue-yellow"@ != "protanomaly"@);
    assert("achromatopsia"@ != "deuteranomaly"@ && "monochromacy"@ != "deuteranopia"@);
}

} // verus!
