//! Terminal color-support levels and the rules that choose one from what the
//! environment says.
//!
//! Respects the NO_COLOR and FORCE_COLOR conventions.  Reading the
//! environment, the terminfo database and the terminal flag of the output
//! stream happens in the program; the decision itself is made here.

use vstd::prelude::*;
use vstd::string::*;
use vstd::std_specs::cmp::PartialOrdSpecImpl;
use core::cmp::Ordering;

use crate::text::{contains_run, contains_text, lowercase, same_text, to_lowercase, trim, trimmed};

verus! {

/// The level of color support available in the current terminal.
///
/// Variants are ordered from least to most capable so that `>=` comparisons
/// work as expected.
#[derive(Debug, Clone, Copy, PartialEq, Eq, Structural, Ord)]
pub enum ColorSupport {
    /// No color output; emit plain text only.
    NoColor,
    /// 16 standard ANSI colors.
    Ansi16,
    /// 256-color xterm palette.
    Ansi256,
    /// 24-bit true color (16 million colors).
    TrueColor,
}

/// The capability rank of a level: none < 16 < 256 < true color.
pub open spec fn support_rank(c: ColorSupport) -> int {
    match c {
        ColorSupport::NoColor => 0,
        ColorSupport::Ansi16 => 1,
        ColorSupport::Ansi256 => 2,
        ColorSupport::TrueColor => 3,
    }
}

/// Levels compare by capability.
pub open spec fn support_cmp(a: ColorSupport, b: ColorSupport) -> Option<Ordering> {
    if support_rank(a) < support_rank(b) {
        Some(Ordering::Less)
    } else if support_rank(a) == support_rank(b) {
        Some(Ordering::Equal)
    } else {
        Some(Ordering::Greater)
    }
}

impl ColorSupport {
    /// The capability rank of this level (0 = none … 3 = true color).
    pub fn rank(&self) -> (r: u8)
        ensures
            r == support_rank(*self),
    {
        match self {
            ColorSupport::NoColor => 0,
            ColorSupport::Ansi16 => 1,
            ColorSupport::Ansi256 => 2,
            ColorSupport::TrueColor => 3,
        }
    }
}

impl PartialOrd for ColorSupport {
    fn partial_cmp(&self, other: &Self) -> (r: Option<Ordering>) {
        let a = self.rank();
        let b = other.rank();
        if a < b {
            Some(Ordering::Less)
        } else if a == b {
            Some(Ordering::Equal)
        } else {
            Some(Ordering::Greater)
        }
    }
}

impl PartialOrdSpecImpl for ColorSupport {
    open spec fn obeys_partial_cmp_spec() -> bool {
        true
    }

    open spec fn partial_cmp_spec(&self, other: &Self) -> Option<Ordering> {
        support_cmp(*self, *other)
    }
}

/// An unknown color-support name.
#[derive(Debug)]
pub enum ColorSupportParseError {
    Unknown(String),
}

/// The level that a lowercased name stands for, if any.
pub open spec fn color_support_word(w: Seq<char>) -> Option<ColorSupport> {
    if w == "none"@ || w == "0"@ || w == "false"@ || w == "off"@ {
        Some(ColorSupport::NoColor)
    } else if w == "16"@ || w == "ansi16"@ || w == "ansi"@ || w == "basic"@ {
        Some(ColorSupport::Ansi16)
    } else if w == "256"@ || w == "ansi256"@ || w == "xterm256"@ {
        Some(ColorSupport::Ansi256)
    } else if w == "truecolor"@ || w == "24bit"@ || w == "true"@ || w == "full"@ {
        Some(ColorSupport::TrueColor)
    } else {
        None
    }
}

/// The display name of a level.
pub open spec fn color_support_name(c: ColorSupport) -> Seq<char> {
    match c {
        ColorSupport::NoColor => "none"@,
        ColorSupport::Ansi16 => "16"@,
        ColorSupport::Ansi256 => "256"@,
        ColorSupport::TrueColor => "truecolor"@,
    }
}

/// The level `FORCE_COLOR` demands, from its trimmed value.
pub open spec fn force_color_level(t: Seq<char>) -> ColorSupport {
    if t == "0"@ {
        ColorSupport::NoColor
    } else if t == "1"@ {
        ColorSupport::Ansi16
    } else if t == "2"@ {
        ColorSupport::Ansi256
    } else {
        ColorSupport::TrueColor
    }
}

/// The level `COLORTERM` signals, from its lowercased value.
pub open spec fn colorterm_level(l: Seq<char>) -> Option<ColorSupport> {
    if l == "truecolor"@ || l == "24bit"@ {
        Some(ColorSupport::TrueColor)
    } else if l == "256"@ {
        Some(ColorSupport::Ansi256)
    } else {
        None
    }
}

/// The level `TERM` hints at, from its lowercased value.
pub open spec fn term_level(l: Seq<char>) -> Option<ColorSupport> {
    if l == "dumb"@ {
        Some(ColorSupport::NoColor)
    } else if contains_run(l, "truecolor"@) {
        Some(ColorSupport::TrueColor)
    } else if contains_run(l, "256color"@) {
        Some(ColorSupport::Ansi256)
    } else {
        None
    }
}

/// What detection reads from the process environment.
pub struct ColorEnv {
    /// `NO_COLOR` is set (to any value).
    pub no_color: bool,
    /// `FORCE_COLOR`, when set to valid Unicode.
    pub force_color: Option<String>,
    /// `COLORTERM`, when set to valid Unicode.
    pub colorterm: Option<String>,
    /// `TERM`, when set to valid Unicode.
    pub term: Option<String>,
}

/// The detection rules, highest precedence first: `NO_COLOR`, `FORCE_COLOR`,
/// `COLORTERM`, terminfo truecolor capability, `TERM`, then whether the output
/// is a terminal (16 colors) or not (no color).
pub open spec fn spec_detect(
    no_color: bool,
    force_color: Option<Seq<char>>,
    colorterm: Option<Seq<char>>,
    terminfo_truecolor: bool,
    term: Option<Seq<char>>,
    is_terminal: bool,
) -> ColorSupport {
    if no_color {
        ColorSupport::NoColor
    } else if force_color is Some {
        force_color_level(trimmed(force_color->0))
    } else if colorterm is Some && colorterm_level(lowercase(colorterm->0)) is Some {
        colorterm_level(lowercase(colorterm->0))->0
    } else if terminfo_truecolor {
        ColorSupport::TrueColor
    } else if term is Some && term_level(lowercase(term->0)) is Some {
        term_level(lowercase(term->0))->0
    } else if !is_terminal {
        ColorSupport::NoColor
    } else {
        ColorSupport::Ansi16
    }
}

/// The view of an optional string.
pub open spec fn opt_view(s: Option<String>) -> Option<Seq<char>> {
    match s {
        Some(t) => Some(t@),
        None => None,
    }
}

impl ColorSupport {
    /// The level named by an already-lowercased word, if any.
    pub fn from_lowercase_word(w: &str) -> (r: Option<ColorSupport>)
        ensures
            r == color_support_word(w@),
    {
        if same_text(w, "none") || same_text(w, "0") || same_text(w, "false") || same_text(w, "off") {
            Some(ColorSupport::NoColor)
        } else if same_text(w, "16") || same_text(w, "ansi16") || same_text(w, "ansi") || same_text(
            w,
            "basic",
        ) {
            Some(ColorSupport::Ansi16)
        } else if same_text(w, "256") || same_text(w, "ansi256") || same_text(w, "xterm256") {
            Some(ColorSupport::Ansi256)
        } else if same_text(w, "truecolor") || same_text(w, "24bit") || same_text(w, "true")
            || same_text(w, "full") {
            Some(ColorSupport::TrueColor)
        } else {
            None
        }
    }

    /// Parse a color-support name, case-insensitively.
    pub fn parse(s: &str) -> (r: Result<ColorSupport, ColorSupportParseError>)
        ensures
            match r {
                Ok(c) => color_support_word(lowercase(s@)) == Some(c),
                Err(ColorSupportParseError::Unknown(t)) => color_support_word(lowercase(s@)) is None
                    && t@ == s@,
            },
    {
        let lower = to_lowercase(s);
        match ColorSupport::from_lowercase_word(lower.as_str()) {
            Some(c) => Ok(c),
            None => Err(ColorSupportParseError::Unknown(String::from_str(s))),
        }
    }

    /// The display name of this level: `none`, `16`, `256` or `truecolor`.
    pub fn name(&self) -> (r: &'static str)
        ensures
            r@ == color_support_name(*self),
    {
        match self {
            ColorSupport::NoColor => "none",
            ColorSupport::Ansi16 => "16",
            ColorSupport::Ansi256 => "256",
            ColorSupport::TrueColor => "truecolor",
        }
    }

    /// The display name of this level, as an owned string.
    pub fn to_string(&self) -> (r: String)
        ensures
            r@ == color_support_name(*self),
    {
        String::from_str(self.name())
    }
}

impl ColorSupportParseError {
    /// The message shown for this error.
    pub fn message(&self) -> (r: String)
        ensures
            match self {
                ColorSupportParseError::Unknown(s) => r@ == "Unknown color support level: "@ + s@
                    + ". Valid values: none, 16, 256, truecolor"@,
            },
    {
        match self {
            ColorSupportParseError::Unknown(s) => {
                let mut m = String::from_str("Unknown color support level: ");
                m.append(s.as_str());
                m.append(". Valid values: none, 16, 256, truecolor");
                m
            },
        }
    }
}

impl std::str::FromStr for ColorSupport {
    type Err = ColorSupportParseError;

    fn from_str(s: &str) -> (r: Result<Self, Self::Err>)
        ensures
            match r {
                Ok(c) => color_support_word(lowercase(s@)) == Some(c),
                Err(ColorSupportParseError::Unknown(t)) => color_support_word(lowercase(s@)) is None
                    && t@ == s@,
            },
    {
        ColorSupport::parse(s)
    }
}

/// The level `FORCE_COLOR` demands, from its already-trimmed value.
pub fn force_color_support(t: &str) -> (r: ColorSupport)
    ensures
        r == force_color_level(t@),
{
    if same_text(t, "0") {
        ColorSupport::NoColor
    } else if same_text(t, "1") {
        ColorSupport::Ansi16
    } else if same_text(t, "2") {
        ColorSupport::Ansi256
    } else {
        ColorSupport::TrueColor
    }
}

/// The level `COLORTERM` signals, from its already-lowercased value.
pub fn colorterm_support(l: &str) -> (r: Option<ColorSupport>)
    ensures
        r == colorterm_level(l@),
{
    if same_text(l, "truecolor") || same_text(l, "24bit") {
        Some(ColorSupport::TrueColor)
    } else if same_text(l, "256") {
        Some(ColorSupport::Ansi256)
    } else {
        None
    }
}

/// The level `TERM` hints at, from its already-lowercased value.
pub fn term_support(l: &str) -> (r: Option<ColorSupport>)
    ensures
        r == term_level(l@),
{
    if same_text(l, "dumb") {
        Some(ColorSupport::NoColor)
    } else if contains_text(l, "truecolor") {
        Some(ColorSupport::TrueColor)
    } else if contains_text(l, "256color") {
        Some(ColorSupport::Ansi256)
    } else {
        None
    }
}

/// Decide the color support level from the environment, whether the terminfo
/// entry for `$TERM` declares truecolor support, and whether the output
/// stream is a terminal.
pub fn detect_color_support_from(env: &ColorEnv, terminfo_truecolor: bool, is_terminal: bool) -> (r:
    ColorSupport)
    ensures
        r == spec_detect(
            env.no_color,
            opt_view(env.force_color),
            opt_view(env.colorterm),
            terminfo_truecolor,
            opt_view(env.term),
            is_terminal,
        ),
{
    if env.no_color {
        return ColorSupport::NoColor;
    }
    if let Some(v) = &env.force_color {
        return force_color_support(trim(v.as_str()));
    }
    if let Some(ct) = &env.colorterm {
        let l = to_lowercase(ct.as_str());
        if let Some(c) = colorterm_support(l.as_str()) {
            return c;
        }
    }
    if terminfo_truecolor {
        return ColorSupport::TrueColor;
    }
    if let Some(term) = &env.term {
        let l = to_lowercase(term.as_str());
        if let Some(c) = term_support(l.as_str()) {
            return c;
        }
    }
    if !is_terminal {
        return ColorSupport::NoColor;
    }
    ColorSupport::Ansi16
}

// ─── laws ─────────────────────────────────────────────────────────────────────

/// `NO_COLOR` wins over everything else.
pub proof fn lemma_no_color_wins(
    force_color: Option<Seq<char>>,
    colorterm: Option<Seq<char>>,
    terminfo_truecolor: bool,
    term: Option<Seq<char>>,
    is_terminal: bool,
)
    ensures
        spec_detect(true, force_color, colorterm, terminfo_truecolor, term, is_terminal)
            == ColorSupport::NoColor,
{
}

/// With none of the variables set and no terminfo truecolor capability,
/// piped output gets no color and a terminal gets 16 colors.
pub proof fn lemma_fallback_follows_terminal(is_terminal: bool)
    ensures
        spec_detect(false, None, None, false, None, is_terminal) == (if is_terminal {
            ColorSupport::Ansi16
        } else {
            ColorSupport::NoColor
        }),
{
}

/// Every display name parses back to its level.
pub proof fn lemma_name_round_trip(c: ColorSupport)
    ensures
        color_support_word(color_support_name(c)) == Some(c),
{
    broadcast use vstd::string::group_string_axioms;
    reveal_strlit("none");
    reveal_strlit("0");
    reveal_strlit("false");
    reveal_strlit("off");
    reveal_strlit("16");
    reveal_strlit("ansi16");
    reveal_strlit("ansi");
    reveal_strlit("basic");
    reveal_strlit("256");
    reveal_strlit("ansi256");
    reveal_strlit("xterm256");
    reveal_strlit("truecolor");
    reveal_strlit("24bit");
    reveal_strlit("true");
    reveal_strlit("full");
    assert("none"@.len() == 4 && "0"@.len() == 1 && "false"@.len() == 5 && "off"@.len() == 3);
    assert("16"@.len() == 2 && "ansi16"@.len() == 6 && "ansi"@.len() == 4 && "basic"@.len() == 5);
    assert("256"@.len() == 3 && "ansi256"@.len() == 7 && "xterm256"@.len() == 8);
    assert("truecolor"@.len() == 9);
    assert("256"@ != "off"@) by {
        assert("256"@[0] != "off"@[0]);
    }
}

/// Levels are ordered from least to most capable, and two levels compare
/// equal only when they are the same level.
pub proof fn lemma_support_order()
    ensures
        support_cmp(ColorSupport::NoColor, ColorSupport::Ansi16) == Some(Ordering::Less),
        support_cmp(ColorSupport::Ansi16, ColorSupport::Ansi256) == Some(Ordering::Less),
        support_cmp(ColorSupport::Ansi256, ColorSupport::TrueColor) == Some(Ordering::Less),
        forall|a: ColorSupport, b: ColorSupport|
            (#[trigger] support_cmp(a, b) == Some(Ordering::Equal)) <==> a == b,
        forall|a: ColorSupport, b: ColorSupport|
            (#[trigger] support_cmp(a, b) == Some(Ordering::Less)) <==> support_cmp(b, a) == Some(
                Ordering::Greater,
            ),
{
}

/// When NO_COLOR is unset and FORCE_COLOR is set, FORCE_COLOR alone decides,
/// whatever COLORTERM, terminfo, TERM and the terminal flag say: its trimmed
/// value `0` means no color, `1` 16 colors, `2` 256 colors and anything else
/// true color.
pub proof fn lemma_force_color_decides(
    force: Seq<char>,
    colorterm: Option<Seq<char>>,
    terminfo_truecolor: bool,
    term: Option<Seq<char>>,
    is_terminal: bool,
)
    ensures
        spec_detect(false, Some(force), colorterm, terminfo_truecolor, term, is_terminal) == (if trimmed(
            force,
        ) == seq!['0'] {
            ColorSupport::NoColor
        } else if trimmed(force) == seq!['1'] {
            ColorSupport::Ansi16
        } else if trimmed(force) == seq!['2'] {
            ColorSupport::Ansi256
        } else {
            ColorSupport::TrueColor
        }),
{
    reveal_strlit("0");
    reveal_strlit("1");
    reveal_strlit("2");
    assert("0"@ =~= seq!['0']);
    assert("1"@ =~= seq!['1']);
    assert("2"@ =~= seq!['2']);
}

/// Without NO_COLOR and FORCE_COLOR, a COLORTERM of `truecolor` or `24bit`
/// (any case) means true color and `256` means 256 colors, whatever terminfo,
/// TERM and the terminal flag say.
pub proof fn lemma_colorterm_decides(
    colorterm: Seq<char>,
    terminfo_truecolor: bool,
    term: Option<Seq<char>>,
    is_terminal: bool,
)
    ensures
        (lowercase(colorterm) == seq!['t', 'r', 'u', 'e', 'c', 'o', 'l', 'o', 'r'] || lowercase(
            colorterm,
        ) == seq!['2', '4', 'b', 'i', 't']) ==> spec_detect(
            false,
            None,
            Some(colorterm),
            terminfo_truecolor,
            term,
            is_terminal,
        ) == ColorSupport::TrueColor,
        lowercase(colorterm) == seq!['2', '5', '6'] ==> spec_detect(
            false,
            None,
            Some(colorterm),
            terminfo_truecolor,
            term,
            is_terminal,
        ) == ColorSupport::Ansi256,
{
    reveal_strlit("truecolor");
    reveal_strlit("24bit");
    reveal_strlit("256");
    assert("truecolor"@ =~= seq!['t', 'r', 'u', 'e', 'c', 'o', 'l', 'o', 'r']);
    assert("24bit"@ =~= seq!['2', '4', 'b', 'i', 't']);
    assert("256"@ =~= seq!['2', '5', '6']);
}

/// Without NO_COLOR and FORCE_COLOR, and with a COLORTERM that names no
/// level, a terminfo truecolor capability means true color whatever TERM and
/// the terminal flag say.
pub proof fn lemma_terminfo_before_term(
    colorterm: Option<Seq<char>>,
    term: Option<Seq<char>>,
    is_terminal: bool,
)
    requires
        colorterm matches Some(ct) ==> lowercase(ct) != seq!['t', 'r', 'u', 'e', 'c', 'o', 'l', 'o', 'r']
            && lowercase(ct) != seq!['2', '4', 'b', 'i', 't'] && lowercase(ct) != seq!['2', '5', '6'],
    ensures
        spec_detect(false, None, colorterm, true, term, is_terminal) == ColorSupport::TrueColor,
{
    reveal_strlit("truecolor");
    reveal_strlit("24bit");
    reveal_strlit("256");
    assert("truecolor"@ =~= seq!['t', 'r', 'u', 'e', 'c', 'o', 'l', 'o', 'r']);
    assert("24bit"@ =~= seq!['2', '4', 'b', 'i', 't']);
    assert("256"@ =~= seq!['2', '5', '6']);
}

/// With nothing before it deciding, a TERM of `dumb` (any case) means no
/// color even on a terminal.
pub proof fn lemma_dumb_term_is_plain(term: Seq<char>, is_terminal: bool)
    requires
        lowercase(term) == seq!['d', 'u', 'm', 'b'],
    ensures
        spec_detect(false, None, None, false, Some(term), is_terminal) == ColorSupport::NoColor,
{
    reveal_strlit("dumb");
    assert("dumb"@ =~= seq!['d', 'u', 'm', 'b']);
}

/// Every documented name of a level, and only those, reads as that level
/// (after lowercasing): none, 0, false and off as no color; 16, ansi16, ansi
/// and basic as 16 colors; 256, ansi256 and xterm256 as 256 colors;
/// truecolor, 24bit, true and full as true color.  Any other word is no
/// level.
pub proof fn lemma_support_aliases(w: Seq<char>)
    ensures
        (color_support_word(w) == Some(ColorSupport::NoColor)) <==> (w == "none"@ || w == "0"@ || w
            == "false"@ || w == "off"@),
        (color_support_word(w) == Some(ColorSupport::Ansi16)) <==> (w == "16"@ || w == "ansi16"@
            || w == "ansi"@ || w == "basic"@),
        (color_support_word(w) == Some(ColorSupport::Ansi256)) <==> (w == "256"@ || w
            == "ansi256"@ || w == "xterm256"@),
        (color_support_word(w) == Some(ColorSupport::TrueColor)) <==> (w == "truecolor"@ || w
            == "24bit"@ || w == "true"@ || w == "full"@),
{
    reveal_strlit("none");
    reveal_strlit("0");
    reveal_strlit("false");
    reveal_strlit("off");
    reveal_strlit("16");
    reveal_strlit("ansi16");
    reveal_strlit("ansi");
    reveal_strlit("basic");
    reveal_strlit("256");
    reveal_strlit("ansi256");
    reveal_strlit("xterm256");
    reveal_strlit("truecolor");
    reveal_strlit("24bit");
    reveal_strlit("true");
    reveal_strlit("full");
    assert("none"@.len() == 4 && "0"@.len() == 1 && "false"@.len() == 5 && "off"@.len() == 3);
    assert("16"@.len() == 2 && "ansi16"@.len() == 6 && "ansi"@.len() == 4 && "basic"@.len() == 5);
    assert("256"@.len() == 3 && "ansi256"@.len() == 7 && "xterm256"@.len() == 8);
    assert("truecolor"@.len() == 9 && "24bit"@.len() == 5 && "true"@.len() == 4 && "full"@.len()
        == 4);
    assert("none"@[0] == 'n' && "false"@[0] == 'f' && "off"@[0] == 'o');
    assert("ansi"@[0] == 'a' && "basic"@[0] == 'b' && "256"@[0] == '2');
    assert("24bit"@[0] == '2' && "true"@[0] == 't' && "full"@[0] == 'f' && "full"@[1] == 'u');
    assert("false"@[1] == 'a');
    assert("ansi"@ != "none"@ && "basic"@ != "false"@ && "256"@ != "off"@);
    assert("24bit"@ != "false"@ && "24bit"@ != "basic"@);
    assert("true"@ != "none"@ && "true"@ != "ansi"@);
    assert("full"@ != "none"@ && "full"@ != "ansi"@);
}

/// With NO_COLOR, FORCE_COLOR and COLORTERM unset, no terminfo truecolor
/// capability and a TERM other than `dumb`: a TERM holding `truecolor` (any
/// case) means true color; otherwise one holding `256color` means 256
/// colors; otherwise the terminal flag decides (16 colors on a terminal, none
/// when piped).
pub proof fn lemma_term_hints(term: Seq<char>, is_terminal: bool)
    requires
        lowercase(term) != seq!['d', 'u', 'm', 'b'],
    ensures
        (exists|i: int|
            0 <= i && i + 9 <= lowercase(term).len() && #[trigger] lowercase(term).subrange(i, i + 9)
                == seq!['t', 'r', 'u', 'e', 'c', 'o', 'l', 'o', 'r']) ==> spec_detect(
            false,
            None,
            None,
            false,
            Some(term),
            is_terminal,
        ) == ColorSupport::TrueColor,
        !(exists|i: int|
            0 <= i && i + 9 <= lowercase(term).len() && #[trigger] lowercase(term).subrange(i, i + 9)
                == seq!['t', 'r', 'u', 'e', 'c', 'o', 'l', 'o', 'r']) && (exists|i: int|
            0 <= i && i + 8 <= lowercase(term).len() && #[trigger] lowercase(term).subrange(i, i + 8)
                == seq!['2', '5', '6', 'c', 'o', 'l', 'o', 'r']) ==> spec_detect(
            false,
            None,
            None,
            false,
            Some(term),
            is_terminal,
        ) == ColorSupport::Ansi256,
        !(exists|i: int|
            0 <= i && i + 9 <= lowercase(term).len() && #[trigger] lowercase(term).subrange(i, i + 9)
                == seq!['t', 'r', 'u', 'e', 'c', 'o', 'l', 'o', 'r']) && !(exists|i: int|
            0 <= i && i + 8 <= lowercase(term).len() && #[trigger] lowercase(term).subrange(i, i + 8)
                == seq!['2', '5', '6', 'c', 'o', 'l', 'o', 'r']) ==> spec_detect(
            false,
            None,
            None,
            false,
            Some(term),
            is_terminal,
        ) == (if is_terminal {
            ColorSupport::Ansi16
        } else {
            ColorSupport::NoColor
        }),
{
    reveal_strlit("dumb");
    reveal_strlit("truecolor");
    reveal_strlit("256color");
    assert("dumb"@ =~= seq!['d', 'u', 'm', 'b']);
    assert("truecolor"@ =~= seq!['t', 'r', 'u', 'e', 'c', 'o', 'l', 'o', 'r']);
    assert("256color"@ =~= seq!['2', '5', '6', 'c', 'o', 'l', 'o', 'r']);
}

} // verus!
