//! Color types and ANSI escape-code generation.

use vstd::prelude::*;
use vstd::string::*;

use crate::text::{dec, push_decimal};

verus! {

/// The terminal layer to apply color to.
#[derive(Debug, Clone, Copy, PartialEq, Eq, Structural, Default)]
pub enum Ground {
    /// Apply color to the text foreground. (default)
    #[default]
    Foreground,
    /// Apply color to the text background.
    Background,
}

/// A terminal color in one of the supported color spaces.
#[derive(Debug, Clone, Copy, PartialEq, Eq, Structural)]
pub enum Color {
    /// One of the 16 standard ANSI colors (0–15).
    Ansi16(u8),
    /// One of the 256 xterm colors (0–255).
    Ansi256(u8),
    /// 24-bit true color (red, green, blue each 0–255).
    TrueColor(u8, u8, u8),
}

/// The SGR parameter of a 16-color index on a layer: 30–37 / 90–97 for the
/// foreground, 40–47 / 100–107 for the background (for indices 0–15).
pub open spec fn ansi16_code(n: u8, ground: Ground) -> int {
    let base: int = match ground {
        Ground::Foreground => 30,
        Ground::Background => 40,
    };
    if n < 8 {
        base + n
    } else {
        base + 60 + (n - 8)
    }
}

/// A color can be rendered on a layer without its SGR parameter leaving `u8`.
pub open spec fn escape_fits(color: Color, ground: Ground) -> bool {
    match color {
        Color::Ansi16(n) => ansi16_code(n, ground) <= 255,
        _ => true,
    }
}

/// `ESC [ params m`
pub open spec fn sgr(params: Seq<char>) -> Seq<char> {
    seq!['\x1b', '['] + params + seq!['m']
}

/// The SGR selector that starts an extended-color parameter list:
/// `38` for the foreground, `48` for the background.
pub open spec fn extended_selector(ground: Ground) -> Seq<char> {
    match ground {
        Ground::Foreground => seq!['3', '8'],
        Ground::Background => seq!['4', '8'],
    }
}

/// The escape sequence that enables `color` on `ground`.
pub open spec fn spec_escape_open(color: Color, ground: Ground) -> Seq<char> {
    match color {
        Color::Ansi16(n) => sgr(dec(ansi16_code(n, ground) as nat)),
        Color::Ansi256(n) => sgr(extended_selector(ground) + seq![';', '5', ';'] + dec(n as nat)),
        Color::TrueColor(r, g, b) => sgr(
            extended_selector(ground) + seq![';', '2', ';'] + dec(r as nat) + seq![';'] + dec(
                g as nat,
            ) + seq![';'] + dec(b as nat),
        ),
    }
}

/// The escape sequence that resets all SGR attributes.
pub open spec fn spec_escape_close() -> Seq<char> {
    seq!['\x1b', '[', '0', 'm']
}

/// One channel of a 6×6×6 cube cell: 0 for level 0, otherwise 55 + 40 × level.
pub open spec fn cube_channel(level: int) -> int {
    if level == 0 {
        0
    } else {
        55 + 40 * level
    }
}

impl Color {
    /// Produce the ANSI escape sequence that enables this color on `ground`.
    pub fn escape_open(&self, ground: Ground) -> (r: String)
        requires
            escape_fits(*self, ground),
        ensures
            r@ == spec_escape_open(*self, ground),
    {
        let mut s = String::new();
        proof {
            reveal_strlit("\x1b[");
            reveal_strlit("m");
            reveal_strlit(";");
            reveal_strlit("38;5;");
            reveal_strlit("48;5;");
            reveal_strlit("38;2;");
            reveal_strlit("48;2;");
        }
        s.append("\x1b[");
        match (self, ground) {
            (Color::Ansi16(n), Ground::Foreground) => {
                if *n < 8 {
                    push_decimal(&mut s, 30 + *n);
                } else {
                    push_decimal(&mut s, 90 + (*n - 8));
                }
            },
            (Color::Ansi16(n), Ground::Background) => {
                if *n < 8 {
                    push_decimal(&mut s, 40 + *n);
                } else {
                    push_decimal(&mut s, 100 + (*n - 8));
                }
            },
            (Color::Ansi256(n), Ground::Foreground) => {
                s.append("38;5;");
                push_decimal(&mut s, *n);
            },
            (Color::Ansi256(n), Ground::Background) => {
                s.append("48;5;");
                push_decimal(&mut s, *n);
            },
            (Color::TrueColor(r, g, b), ground) => {
                match ground {
                    Ground::Foreground => s.append("38;2;"),
                    Ground::Background => s.append("48;2;"),
                }
                push_decimal(&mut s, *r);
                s.append(";");
                push_decimal(&mut s, *g);
                s.append(";");
                push_decimal(&mut s, *b);
            },
        }
        s.append("m");
        assert(s@ =~= spec_escape_open(*self, ground));
        s
    }

    /// Can this color be rendered on `ground`?  (Always, for the 16 standard
    /// colors, the 256 xterm colors and true color; an out-of-range
    /// 16-color index whose SGR parameter would exceed 255 cannot.)
    pub fn can_escape(&self, ground: Ground) -> (r: bool)
        ensures
            r == escape_fits(*self, ground),
    {
        match self {
            Color::Ansi16(n) => match ground {
                Ground::Foreground => *n < 174,
                Ground::Background => *n < 164,
            },
            _ => true,
        }
    }

    /// The ANSI escape sequence that resets all SGR attributes.
    pub fn escape_close() -> (r: &'static str)
        ensures
            r@ == spec_escape_close(),
    {
        proof {
            reveal_strlit("\x1b[0m");
        }
        "\x1b[0m"
    }
}

/// Convert a 6×6×6 xterm-256 cube index (0–215) to sRGB components.
///
/// Each channel value `n` maps to 0 when n == 0, otherwise 55 + 40 × n.
pub fn cube_index_to_rgb(cube_idx: u8) -> (rgb: (u8, u8, u8))
    requires
        cube_idx < 216,
    ensures
        rgb.0 == cube_channel(cube_idx as int / 36),
        rgb.1 == cube_channel((cube_idx as int % 36) / 6),
        rgb.2 == cube_channel(cube_idx as int % 6),
{
    let r_idx = cube_idx / 36;
    let g_idx = (cube_idx % 36) / 6;
    let b_idx = cube_idx % 6;
    (cube_level_value(r_idx), cube_level_value(g_idx), cube_level_value(b_idx))
}

fn cube_level_value(n: u8) -> (v: u8)
    requires
        n < 6,
    ensures
        v == cube_channel(n as int),
{
    if n == 0 {
        0u8
    } else {
        55 + 40 * n
    }
}

// ─── laws ─────────────────────────────────────────────────────────────────────

/// Every one of the 16 standard colors renders with a foreground code in
/// 30–37 or 90–97 and a background code in 40–47 or 100–107, and the
/// foreground and background codes of a color differ by exactly 10.
pub proof fn lemma_ansi16_code_ranges(n: u8)
    requires
        n < 16,
    ensures
        30 <= ansi16_code(n, Ground::Foreground) <= 37 || 90 <= ansi16_code(n, Ground::Foreground)
            <= 97,
        40 <= ansi16_code(n, Ground::Background) <= 47 || 100 <= ansi16_code(n, Ground::Background)
            <= 107,
        ansi16_code(n, Ground::Background) == ansi16_code(n, Ground::Foreground) + 10,
        escape_fits(Color::Ansi16(n), Ground::Foreground),
        escape_fits(Color::Ansi16(n), Ground::Background),
{
}

/// Every cube cell has channels drawn from {0, 95, 135, 175, 215, 255}.
pub proof fn lemma_cube_channel_levels(level: int)
    requires
        0 <= level < 6,
    ensures
        cube_channel(level) == 0 || (95 <= cube_channel(level) <= 255 && (cube_channel(level) - 95)
            % 40 == 0),
{
}

/// The 16 standard colors render with SGR parameter 30 + n (foreground) or
/// 40 + n (background) for the normal colors n = 0–7, and 90 + (n − 8) or
/// 100 + (n − 8) for the bright colors n = 8–15: ESC `[`, those decimal
/// digits, `m`.
pub proof fn lemma_ansi16_escape_digits(n: u8)
    requires
        n < 16,
    ensures
        n < 8 ==> spec_escape_open(Color::Ansi16(n), Ground::Foreground) == seq![
            '\x1b',
            '[',
            '3',
            (48 + n) as char,
            'm',
        ],
        n < 8 ==> spec_escape_open(Color::Ansi16(n), Ground::Background) == seq![
            '\x1b',
            '[',
            '4',
            (48 + n) as char,
            'm',
        ],
        8 <= n ==> spec_escape_open(Color::Ansi16(n), Ground::Foreground) == seq![
            '\x1b',
            '[',
            '9',
            (48 + (n - 8)) as char,
            'm',
        ],
        8 <= n ==> spec_escape_open(Color::Ansi16(n), Ground::Background) == seq![
            '\x1b',
            '[',
            '1',
            '0',
            (48 + (n - 8)) as char,
            'm',
        ],
{
    reveal_with_fuel(dec, 3);
    let fg = ansi16_code(n, Ground::Foreground) as nat;
    let bg = ansi16_code(n, Ground::Background) as nat;
    if n < 8 {
        assert(fg / 10 == 3 && fg % 10 == n);
        assert(bg / 10 == 4 && bg % 10 == n);
        assert(dec(fg) =~= seq!['3', (48 + n) as char]);
        assert(dec(bg) =~= seq!['4', (48 + n) as char]);
    } else {
        assert(fg / 10 == 9 && fg % 10 == n - 8);
        assert(bg / 10 == 10 && bg % 10 == n - 8);
        assert(bg / 10 / 10 == 1 && (bg / 10) % 10 == 0);
        assert(dec(fg) =~= seq!['9', (48 + (n - 8)) as char]);
        assert(dec(bg) =~= seq!['1', '0', (48 + (n - 8)) as char]);
    }
    assert(spec_escape_open(Color::Ansi16(n), Ground::Foreground) =~= seq!['\x1b', '['] + dec(fg)
        + seq!['m']);
    assert(spec_escape_open(Color::Ansi16(n), Ground::Background) =~= seq!['\x1b', '['] + dec(bg)
        + seq!['m']);
}

/// A 256-color index renders as ESC `[38;5;` (foreground) or ESC `[48;5;`
/// (background), the index in decimal, and `m`; a true color as ESC
/// `[38;2;` or ESC `[48;2;`, then red, green and blue in decimal separated by
/// `;`, and `m`.
pub proof fn lemma_extended_escape_forms(n: u8, r: u8, g: u8, b: u8)
    ensures
        spec_escape_open(Color::Ansi256(n), Ground::Foreground) == seq![
            '\x1b',
            '[',
            '3',
            '8',
            ';',
            '5',
            ';',
        ] + dec(n as nat) + seq!['m'],
        spec_escape_open(Color::Ansi256(n), Ground::Background) == seq![
            '\x1b',
            '[',
            '4',
            '8',
            ';',
            '5',
            ';',
        ] + dec(n as nat) + seq!['m'],
        spec_escape_open(Color::TrueColor(r, g, b), Ground::Foreground) == seq![
            '\x1b',
            '[',
            '3',
            '8',
            ';',
            '2',
            ';',
        ] + dec(r as nat) + seq![';'] + dec(g as nat) + seq![';'] + dec(b as nat) + seq!['m'],
        spec_escape_open(Color::TrueColor(r, g, b), Ground::Background) == seq![
            '\x1b',
            '[',
            '4',
            '8',
            ';',
            '2',
            ';',
        ] + dec(r as nat) + seq![';'] + dec(g as nat) + seq![';'] + dec(b as nat) + seq!['m'],
{
    assert(spec_escape_open(Color::Ansi256(n), Ground::Foreground) =~= seq![
        '\x1b',
        '[',
        '3',
        '8',
        ';',
        '5',
        ';',
    ] + dec(n as nat) + seq!['m']);
    assert(spec_escape_open(Color::Ansi256(n), Ground::Background) =~= seq![
        '\x1b',
        '[',
        '4',
        '8',
        ';',
        '5',
        ';',
    ] + dec(n as nat) + seq!['m']);
    assert(spec_escape_open(Color::TrueColor(r, g, b), Ground::Foreground) =~= seq![
        '\x1b',
        '[',
        '3',
        '8',
        ';',
        '2',
        ';',
    ] + dec(r as nat) + seq![';'] + dec(g as nat) + seq![';'] + dec(b as nat) + seq!['m']);
    assert(spec_escape_open(Color::TrueColor(r, g, b), Ground::Background) =~= seq![
        '\x1b',
        '[',
        '4',
        '8',
        ';',
        '2',
        ';',
    ] + dec(r as nat) + seq![';'] + dec(g as nat) + seq![';'] + dec(b as nat) + seq!['m']);
}

} // verus!
