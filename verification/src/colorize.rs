//! Hash-to-color mapping and text colorization.
//!
//! A [`ColorSelector`] hashes a key (with its seed) and turns the hash into a
//! color for the terminal's support level, avoiding excluded hues.  Which
//! hues are excluded arrives as a [`HuePlan`] of plain flags; the one step
//! that needs floating-point color math (a chromatic true color) is handed
//! back to the caller as [`ColorChoice::Chromatic`] with the hash.

use vstd::prelude::*;
use vstd::string::*;
use vstd::utf8::{decode_utf8, valid_utf8};

use crate::color::{cube_channel, cube_index_to_rgb, escape_fits, spec_escape_close, spec_escape_open, Color, Ground};
use crate::detect::ColorSupport;
use crate::hash::{fnv1a_64_seeded, spec_hash};

verus! {

// ─── hue plan ─────────────────────────────────────────────────────────────────

/// Which hues a colorizer may use, as plain flags.
///
/// - `grayscale_only`: every hue is excluded (less than one degree of the
///   wheel is left), so only achromatic colors may be chosen.
/// - `sextant_excluded[k]`: the hue `60 × k` degrees is excluded (k = 0..5);
///   these are the hues of the 16-color palette.
/// - `cube_excluded[i]`: the hue of cell `i` (0..215) of the 6×6×6 xterm
///   color cube is excluded.
pub struct HuePlan {
    grayscale_only: bool,
    sextant_excluded: Vec<bool>,
    cube_excluded: Vec<bool>,
}

impl HuePlan {
    #[verifier::type_invariant]
    spec fn well_formed(self) -> bool {
        &&& self.sextant_excluded@.len() == 6
        &&& self.cube_excluded@.len() == 216
    }

    /// Every hue is excluded.
    pub closed spec fn grayscale(self) -> bool {
        self.grayscale_only
    }

    /// Exclusion flags of the hues 0°, 60°, …, 300° (always six).
    pub closed spec fn sextants(self) -> Seq<bool> {
        Seq::new(6, |k: int| self.sextant_excluded@[k])
    }

    /// Exclusion flags of the hues of the 216 cube cells (always 216).
    pub closed spec fn cube(self) -> Seq<bool> {
        Seq::new(216, |i: int| self.cube_excluded@[i])
    }

    /// A plan has six sextant flags and 216 cube flags.
    pub proof fn lemma_plan_lengths(self)
        ensures
            self.sextants().len() == 6,
            self.cube().len() == 216,
    {
    }

    /// Build a plan; `None` unless there are exactly 6 sextant flags and 216
    /// cube flags.
    pub fn new(grayscale_only: bool, sextant_excluded: Vec<bool>, cube_excluded: Vec<bool>) -> (r:
        Option<HuePlan>)
        ensures
            r is Some <==> (sextant_excluded@.len() == 6 && cube_excluded@.len() == 216),
            r matches Some(p) ==> p.grayscale() == grayscale_only && p.sextants()
                == sextant_excluded@ && p.cube() == cube_excluded@,
    {
        if sextant_excluded.len() == 6 && cube_excluded.len() == 216 {
            Some(HuePlan { grayscale_only, sextant_excluded, cube_excluded })
        } else {
            None
        }
    }

    /// A plan that excludes nothing.
    pub fn unrestricted() -> (r: HuePlan)
        ensures
            !r.grayscale(),
            r.sextants() == Seq::new(6, |i: int| false),
            r.cube() == Seq::new(216, |i: int| false),
    {
        let mut s: Vec<bool> = Vec::new();
        let mut i: usize = 0;
        while i < 6
            invariant
                i <= 6,
                s@ == Seq::new(i as nat, |j: int| false),
            decreases 6 - i,
        {
            s.push(false);
            i = i + 1;
            assert(s@ =~= Seq::new(i as nat, |j: int| false));
        }
        let mut c: Vec<bool> = Vec::new();
        let mut j: usize = 0;
        while j < 216
            invariant
                j <= 216,
                c@ == Seq::new(j as nat, |k: int| false),
            decreases 216 - j,
        {
            c.push(false);
            j = j + 1;
            assert(c@ =~= Seq::new(j as nat, |k: int| false));
        }
        HuePlan { grayscale_only: false, sextant_excluded: s, cube_excluded: c }
    }

    /// Every hue is excluded.
    pub fn grayscale_only(&self) -> (r: bool)
        ensures
            r == self.grayscale(),
    {
        self.grayscale_only
    }
}

// ─── 16 colors ────────────────────────────────────────────────────────────────

/// The 16-color palette as (color index, hue sextant).  Sextant `k` < 6 is
/// the hue 60 × k degrees; 6 marks an achromatic entry.  Black (0) and dark
/// grey (8) are left out: they are unreadable on common backgrounds.
pub open spec fn ansi16_palette() -> Seq<(u8, u8)> {
    seq![
        (1u8, 0u8),
        (2u8, 2u8),
        (3u8, 1u8),
        (4u8, 4u8),
        (5u8, 5u8),
        (6u8, 3u8),
        (7u8, 6u8),
        (9u8, 0u8),
        (10u8, 2u8),
        (11u8, 1u8),
        (12u8, 4u8),
        (13u8, 5u8),
        (14u8, 3u8),
        (15u8, 6u8),
    ]
}

/// A palette entry may be used: achromatic entries always, chromatic ones
/// only when some hue is left and their own hue is not excluded.
pub open spec fn palette_entry_allowed(e: (u8, u8), grayscale: bool, sextants: Seq<bool>) -> bool {
    e.1 >= 6 || (!grayscale && !sextants[e.1 as int])
}

/// The color indices of the allowed entries, in palette order.
pub open spec fn ansi16_candidates(entries: Seq<(u8, u8)>, grayscale: bool, sextants: Seq<bool>) -> Seq<
    u8,
>
    decreases entries.len(),
{
    if entries.len() == 0 {
        seq![]
    } else {
        let prev = ansi16_candidates(entries.drop_last(), grayscale, sextants);
        if palette_entry_allowed(entries.last(), grayscale, sextants) {
            prev.push(entries.last().0)
        } else {
            prev
        }
    }
}

/// The 16-color index for a hash: the candidate at `hash mod count`.
pub open spec fn ansi16_index(hash: u64, plan: HuePlan) -> u8 {
    let c = ansi16_candidates(ansi16_palette(), plan.grayscale(), plan.sextants());
    c[(hash as usize) as int % c.len() as int]
}

/// The 16-color choice for a hash.
pub open spec fn spec_ansi16(hash: u64, plan: HuePlan) -> Color {
    Color::Ansi16(ansi16_index(hash, plan))
}

fn palette_entry(i: usize) -> (e: (u8, u8))
    requires
        i < 14,
    ensures
        e == ansi16_palette()[i as int],
{
    match i {
        0 => (1, 0),
        1 => (2, 2),
        2 => (3, 1),
        3 => (4, 4),
        4 => (5, 5),
        5 => (6, 3),
        6 => (7, 6),
        7 => (9, 0),
        8 => (10, 2),
        9 => (11, 1),
        10 => (12, 4),
        11 => (13, 5),
        12 => (14, 3),
        _ => (15, 6),
    }
}

/// Pick one of the 16 standard colors for `hash`.
pub fn hash_to_ansi16(hash: u64, plan: &HuePlan) -> (r: Color)
    ensures
        r == spec_ansi16(hash, *plan),
        ansi16_candidates(ansi16_palette(), plan.grayscale(), plan.sextants()).len() > 0,
{
    proof {
        use_type_invariant(plan);
    }
    let grayscale = plan.grayscale_only;
    let mut cands: Vec<u8> = Vec::new();
    let mut i: usize = 0;
    while i < 14
        invariant
            i <= 14,
            grayscale == plan.grayscale(),
            plan.sextants() == plan.sextant_excluded@,
            plan.sextant_excluded@.len() == 6,
            cands@ == ansi16_candidates(ansi16_palette().take(i as int), grayscale, plan.sextants()),
            i > 6 ==> cands@.len() > 0,
        decreases 14 - i,
    {
        let e = palette_entry(i);
        assert(ansi16_palette().take(i + 1).drop_last() =~= ansi16_palette().take(i as int));
        assert(ansi16_palette().take(i + 1).last() == e);
        let allowed = e.1 >= 6 || (!grayscale && !plan.sextant_excluded[e.1 as usize]);
        if allowed {
            cands.push(e.0);
        }
        i = i + 1;
    }
    assert(ansi16_palette().take(14) =~= ansi16_palette());
    let n = cands[(hash as usize) % cands.len()];
    Color::Ansi16(n)
}

// ─── 256 colors ───────────────────────────────────────────────────────────────

/// The cube cell visited at `offset` steps from the hash-derived start cell
/// `hash mod 216`, going round the cube.
pub open spec fn cube_at(hash: u64, offset: int) -> int {
    (hash % 216 + offset) % 216
}

pub open spec fn max3(a: int, b: int, c: int) -> int {
    if a >= b && a >= c {
        a
    } else if b >= c {
        b
    } else {
        c
    }
}

pub open spec fn min3(a: int, b: int, c: int) -> int {
    if a <= b && a <= c {
        a
    } else if b <= c {
        b
    } else {
        c
    }
}

/// A cube cell is near-achromatic when its chroma (max − min channel, as a
/// fraction of 255) is below 0.15, i.e. 20 × (max − min) < 3 × 255.
#[verifier::opaque]
pub open spec fn cube_near_achromatic(idx: int) -> bool {
    let r = cube_channel(idx / 36);
    let g = cube_channel((idx % 36) / 6);
    let b = cube_channel(idx % 6);
    20 * (max3(r, g, b) - min3(r, g, b)) < 765
}

/// A cube cell may be used: it has no meaningful hue, or its hue is allowed.
pub open spec fn cube_allowed(cube: Seq<bool>, idx: int) -> bool {
    cube_near_achromatic(idx) || !cube[idx]
}

/// The first offset at or after `from` whose cell may be used.
pub open spec fn first_allowed_offset(hash: u64, cube: Seq<bool>, from: int) -> Option<int>
    decreases 216 - from,
{
    if from < 0 || from >= 216 {
        None
    } else if cube_allowed(cube, cube_at(hash, from)) {
        Some(from)
    } else {
        first_allowed_offset(hash, cube, from + 1)
    }
}

/// The grayscale-ramp index (xterm 232–255) for a hash.
pub open spec fn gray_ramp_index(hash: u64) -> u8 {
    (232 + hash % 24) as u8
}

/// The 256-color index for a hash: walk the cube from the hash-derived cell
/// and take the first usable one; the grayscale ramp when every hue is
/// excluded or no cell is usable.
pub open spec fn ansi256_index(hash: u64, plan: HuePlan) -> u8 {
    if plan.grayscale() {
        gray_ramp_index(hash)
    } else {
        match first_allowed_offset(hash, plan.cube(), 0) {
            Some(o) => (16 + cube_at(hash, o)) as u8,
            None => gray_ramp_index(hash),
        }
    }
}

/// The 256-color choice for a hash.
pub open spec fn spec_ansi256(hash: u64, plan: HuePlan) -> Color {
    Color::Ansi256(ansi256_index(hash, plan))
}

fn max3_u8(a: u8, b: u8, c: u8) -> (r: u8)
    ensures
        r == max3(a as int, b as int, c as int),
{
    if a >= b && a >= c {
        a
    } else if b >= c {
        b
    } else {
        c
    }
}

fn min3_u8(a: u8, b: u8, c: u8) -> (r: u8)
    ensures
        r == min3(a as int, b as int, c as int),
{
    if a <= b && a <= c {
        a
    } else if b <= c {
        b
    } else {
        c
    }
}

fn is_near_achromatic(idx: u8) -> (r: bool)
    requires
        idx < 216,
    ensures
        r == cube_near_achromatic(idx as int),
{
    reveal(cube_near_achromatic);
    let (r, g, b) = cube_index_to_rgb(idx);
    let spread = max3_u8(r, g, b) - min3_u8(r, g, b);
    (spread as u16) * 20 < 765
}

fn cell_allowed(plan: &HuePlan, idx: u8) -> (r: bool)
    requires
        idx < 216,
    ensures
        r == cube_allowed(plan.cube(), idx as int),
{
    proof {
        use_type_invariant(plan);
    }
    is_near_achromatic(idx) || !plan.cube_excluded[idx as usize]
}

fn cube_cell_at(hash: u64, offset: u64) -> (r: u8)
    requires
        offset < 216,
    ensures
        r as int == cube_at(hash, offset as int),
        r < 216,
{
    ((hash % 216 + offset) % 216) as u8
}

/// Pick one of the 256 xterm colors for `hash`.
pub fn hash_to_ansi256(hash: u64, plan: &HuePlan) -> (r: Color)
    ensures
        r == spec_ansi256(hash, *plan),
{
    proof {
        use_type_invariant(plan);
    }
    if plan.grayscale_only {
        return Color::Ansi256(232 + (hash % 24) as u8);
    }
    let mut offset: u64 = 0;
    while offset < 216
        invariant
            offset <= 216,
            !plan.grayscale(),
            first_allowed_offset(hash, plan.cube(), 0) == first_allowed_offset(
                hash,
                plan.cube(),
                offset as int,
            ),
        decreases 216 - offset,
    {
        let cube_idx = cube_cell_at(hash, offset);
        if cell_allowed(plan, cube_idx) {
            assert(first_allowed_offset(hash, plan.cube(), offset as int) == Some(offset as int));
            return Color::Ansi256(16 + cube_idx);
        }
        offset = offset + 1;
    }
    Color::Ansi256(232 + (hash % 24) as u8)
}

// ─── true color ───────────────────────────────────────────────────────────────

/// The gray true color for a hash, biased toward the readable middle range:
/// brightness 60 + (hash mod 160).
pub open spec fn spec_gray_truecolor(hash: u64) -> Color {
    let v = (60 + hash % 160) as u8;
    Color::TrueColor(v, v, v)
}

/// The gray true color used when every hue is excluded.
pub fn hash_to_gray_truecolor(hash: u64) -> (r: Color)
    ensures
        r == spec_gray_truecolor(hash),
{
    let v = 60u8.saturating_add((hash % 160) as u8);
    Color::TrueColor(v, v, v)
}

// ─── selection ────────────────────────────────────────────────────────────────

/// The outcome of selecting a color for a key.
#[derive(Debug, Clone, Copy, PartialEq, Eq, Structural)]
pub enum ColorChoice {
    /// No color: the terminal supports none.
    Plain,
    /// This color.
    Fixed(Color),
    /// A true color whose hue is derived from this hash (its RGB value is
    /// computed from the allowed hue ranges, saturation and lightness).
    Chromatic(u64),
}

/// The choice for a key hashed with `seed`, at support level `support`.
pub open spec fn spec_select(seed: u64, support: ColorSupport, plan: HuePlan, key: Seq<u8>) -> ColorChoice {
    let hash = spec_hash(key, seed);
    match support {
        ColorSupport::NoColor => ColorChoice::Plain,
        ColorSupport::Ansi16 => ColorChoice::Fixed(spec_ansi16(hash, plan)),
        ColorSupport::Ansi256 => ColorChoice::Fixed(spec_ansi256(hash, plan)),
        ColorSupport::TrueColor => if plan.grayscale() {
            ColorChoice::Fixed(spec_gray_truecolor(hash))
        } else {
            ColorChoice::Chromatic(hash)
        },
    }
}

/// Selects colors for keys: the same key always gets the same color for a
/// given seed, support level and hue plan.
pub struct ColorSelector {
    /// Mixed into every hash; changing it shifts the color of every key.
    pub seed: u64,
    /// The effective color support level.
    pub support: ColorSupport,
    /// Which hues may be used.
    pub plan: HuePlan,
}

impl ColorSelector {
    /// Select the color for `key`.
    pub fn select(&self, key: &[u8]) -> (r: ColorChoice)
        ensures
            r == spec_select(self.seed, self.support, self.plan, key@),
    {
        let hash = fnv1a_64_seeded(key, self.seed);
        match self.support {
            ColorSupport::NoColor => ColorChoice::Plain,
            ColorSupport::Ansi16 => ColorChoice::Fixed(hash_to_ansi16(hash, &self.plan)),
            ColorSupport::Ansi256 => ColorChoice::Fixed(hash_to_ansi256(hash, &self.plan)),
            ColorSupport::TrueColor => {
                if self.plan.grayscale_only() {
                    ColorChoice::Fixed(hash_to_gray_truecolor(hash))
                } else {
                    ColorChoice::Chromatic(hash)
                }
            },
        }
    }
}

// ─── colorized text ───────────────────────────────────────────────────────────

/// Text paired with the ANSI escape sequences that apply its color.  Without
/// a color, `open` and `close` are empty.
#[derive(Debug, Clone)]
pub struct ColorizedText {
    /// The original (unescaped) text.
    pub text: String,
    /// ANSI sequence to enable the chosen color (may be empty).
    pub open: String,
    /// ANSI sequence to reset attributes (may be empty).
    pub close: String,
}

/// The opening sequence for an optional color.
pub open spec fn open_for(color: Option<Color>, ground: Ground) -> Seq<char> {
    match color {
        Some(c) => spec_escape_open(c, ground),
        None => seq![],
    }
}

/// The closing sequence for an optional color.
pub open spec fn close_for(color: Option<Color>) -> Seq<char> {
    match color {
        Some(c) => spec_escape_close(),
        None => seq![],
    }
}

/// What `String::from_utf8_lossy` returns for a byte sequence.
pub uninterp spec fn lossy_text(bytes: Seq<u8>) -> Seq<char>;

/// Calls `String::from_utf8_lossy`.  Claims that the result is the value the
/// name `lossy_text` gives to the bytes, and, as its documentation states,
/// that valid UTF-8 is decoded unchanged.
#[verifier::external_body]
fn utf8_lossy(bytes: &[u8]) -> (r: String)
    ensures
        r@ == lossy_text(bytes@),
        valid_utf8(bytes@) ==> r@ == decode_utf8(bytes@),
{
    String::from_utf8_lossy(bytes).into_owned()
}

impl ColorizedText {
    /// Wrap `text` in the escapes of `color` on `ground` (no escapes when
    /// `color` is `None`).
    pub fn wrap(color: Option<Color>, ground: Ground, text: &str) -> (r: ColorizedText)
        requires
            color matches Some(c) ==> escape_fits(c, ground),
        ensures
            r.text@ == text@,
            r.open@ == open_for(color, ground),
            r.close@ == close_for(color),
    {
        match color {
            Some(c) => ColorizedText {
                text: String::from_str(text),
                open: c.escape_open(ground),
                close: String::from_str(Color::escape_close()),
            },
            None => ColorizedText {
                text: String::from_str(text),
                open: String::new(),
                close: String::new(),
            },
        }
    }

    /// Wrap the text of `bytes` (invalid UTF-8 replaced by U+FFFD) in the
    /// escapes of `color` on `ground`.
    pub fn wrap_bytes(color: Option<Color>, ground: Ground, bytes: &[u8]) -> (r: ColorizedText)
        requires
            color matches Some(c) ==> escape_fits(c, ground),
        ensures
            r.text@ == lossy_text(bytes@),
            valid_utf8(bytes@) ==> r.text@ == decode_utf8(bytes@),
            r.open@ == open_for(color, ground),
            r.close@ == close_for(color),
    {
        let text = utf8_lossy(bytes);
        ColorizedText::wrap(color, ground, text.as_str())
    }

    /// The displayed form: opening sequence, text, closing sequence.
    pub fn render(&self) -> (r: String)
        ensures
            r@ == self.open@ + self.text@ + self.close@,
    {
        let mut s = String::from_str(self.open.as_str());
        s.append(self.text.as_str());
        s.append(self.close.as_str());
        s
    }
}

// ─── laws ─────────────────────────────────────────────────────────────────────

/// `x` is the index of a usable entry of `entries`.
pub open spec fn usable_index(entries: Seq<(u8, u8)>, grayscale: bool, sextants: Seq<bool>, x: u8) -> bool {
    exists|i: int|
        0 <= i < entries.len() && entries[i].0 == x && #[trigger] palette_entry_allowed(
            entries[i],
            grayscale,
            sextants,
        )
}

/// Every candidate index comes from a palette entry that may be used.
proof fn lemma_candidates_allowed(entries: Seq<(u8, u8)>, grayscale: bool, sextants: Seq<bool>)
    ensures
        forall|j: int|
            0 <= j < ansi16_candidates(entries, grayscale, sextants).len() ==> usable_index(
                entries,
                grayscale,
                sextants,
                #[trigger] ansi16_candidates(entries, grayscale, sextants)[j],
            ),
    decreases entries.len(),
{
    if entries.len() > 0 {
        let init = entries.drop_last();
        lemma_candidates_allowed(init, grayscale, sextants);
        let prev = ansi16_candidates(init, grayscale, sextants);
        let c = ansi16_candidates(entries, grayscale, sextants);
        assert forall|j: int| 0 <= j < c.len() implies usable_index(
            entries,
            grayscale,
            sextants,
            #[trigger] c[j],
        ) by {
            if j < prev.len() {
                assert(c[j] == prev[j]);
                assert(usable_index(init, grayscale, sextants, prev[j]));
                let i = choose|i: int|
                    0 <= i < init.len() && init[i].0 == prev[j] && #[trigger] palette_entry_allowed(
                        init[i],
                        grayscale,
                        sextants,
                    );
                assert(entries[i] == init[i]);
            } else {
                assert(c[j] == entries.last().0);
                assert(entries[entries.len() - 1] == entries.last());
                assert(palette_entry_allowed(entries[entries.len() - 1], grayscale, sextants));
            }
        }
    }
}

/// A palette with a usable entry has at least one candidate.
proof fn lemma_candidates_nonempty(entries: Seq<(u8, u8)>, grayscale: bool, sextants: Seq<bool>, i: int)
    requires
        0 <= i < entries.len(),
        palette_entry_allowed(entries[i], grayscale, sextants),
    ensures
        ansi16_candidates(entries, grayscale, sextants).len() > 0,
    decreases entries.len(),
{
    if i < entries.len() - 1 {
        let init = entries.drop_last();
        assert(init[i] == entries[i]);
        lemma_candidates_nonempty(init, grayscale, sextants, i);
    }
}

/// The 16-color choice is always a palette entry whose hue is allowed:
/// achromatic (white or bright white), or chromatic with some hue left and
/// its own hue not excluded.  Black and dark grey are never chosen.
pub proof fn lemma_ansi16_avoids_excluded(hash: u64, plan: HuePlan)
    ensures
        exists|i: int|
            0 <= i < 14 && #[trigger] ansi16_palette()[i].0 == ansi16_index(hash, plan)
                && palette_entry_allowed(ansi16_palette()[i], plan.grayscale(), plan.sextants()),
        1 <= ansi16_index(hash, plan) <= 15,
        ansi16_index(hash, plan) != 8,
{
    let p = ansi16_palette();
    assert(p[6] == (7u8, 6u8));
    lemma_candidates_nonempty(p, plan.grayscale(), plan.sextants(), 6);
    lemma_candidates_allowed(p, plan.grayscale(), plan.sextants());
    let c = ansi16_candidates(p, plan.grayscale(), plan.sextants());
    let j = (hash as usize) as int % c.len() as int;
    assert(0 <= j < c.len());
    assert(usable_index(p, plan.grayscale(), plan.sextants(), c[j]));
    let i = choose|i: int|
        0 <= i < p.len() && p[i].0 == c[j] && #[trigger] palette_entry_allowed(
            p[i],
            plan.grayscale(),
            plan.sextants(),
        );
    assert(1 <= p[i].0 <= 15 && p[i].0 != 8);
}

/// With every hue excluded, the 16-color choice is white or bright white.
pub proof fn lemma_ansi16_grayscale(hash: u64, plan: HuePlan)
    requires
        plan.grayscale(),
    ensures
        ansi16_index(hash, plan) == 7 || ansi16_index(hash, plan) == 15,
{
    lemma_ansi16_avoids_excluded(hash, plan);
    let p = ansi16_palette();
    let i = choose|i: int|
        0 <= i < 14 && #[trigger] p[i].0 == ansi16_index(hash, plan) && palette_entry_allowed(
            p[i],
            plan.grayscale(),
            plan.sextants(),
        );
    assert(p[i].1 >= 6);
}

/// The offset found by the cube walk is in range and its cell may be used.
proof fn lemma_first_allowed_offset(hash: u64, cube: Seq<bool>, from: int)
    ensures
        first_allowed_offset(hash, cube, from) matches Some(o) ==> from <= o < 216 && cube_allowed(
            cube,
            cube_at(hash, o),
        ),
    decreases 216 - from,
{
    if 0 <= from < 216 && !cube_allowed(cube, cube_at(hash, from)) {
        lemma_first_allowed_offset(hash, cube, from + 1);
    }
}

/// The 256-color choice is either a cube color (xterm 16–231) whose cell may
/// be used, with some hue left, or a shade of the grayscale ramp (232–255).
pub proof fn lemma_ansi256_avoids_excluded(hash: u64, plan: HuePlan)
    ensures
        ({
            let n = ansi256_index(hash, plan);
            (232 <= n <= 255) || (16 <= n <= 231 && !plan.grayscale() && cube_allowed(
                plan.cube(),
                n - 16,
            ))
        }),
        plan.grayscale() ==> 232 <= ansi256_index(hash, plan) <= 255,
{
    lemma_first_allowed_offset(hash, plan.cube(), 0);
}

/// The gray true color has three equal channels in the readable range
/// 60–219.
pub proof fn lemma_gray_truecolor(hash: u64)
    ensures
        spec_gray_truecolor(hash) matches Color::TrueColor(r, g, b) && r == g && g == b && 60 <= r
            <= 219,
{
}

/// No color support means no color; every fixed color can be rendered on
/// either layer; a chromatic true color is only requested when some hue is
/// left.
pub proof fn lemma_select_outcomes(seed: u64, support: ColorSupport, plan: HuePlan, key: Seq<u8>)
    ensures
        (spec_select(seed, support, plan, key) == ColorChoice::Plain) <==> support
            == ColorSupport::NoColor,
        spec_select(seed, support, plan, key) matches ColorChoice::Fixed(c) ==> escape_fits(
            c,
            Ground::Foreground,
        ) && escape_fits(c, Ground::Background),
        spec_select(seed, support, plan, key) matches ColorChoice::Chromatic(h) ==> support
            == ColorSupport::TrueColor && !plan.grayscale() && h == spec_hash(key, seed),
{
    lemma_ansi16_avoids_excluded(spec_hash(key, seed), plan);
}

/// With every hue excluded, every color chosen is achromatic: white or bright
/// white, a grayscale-ramp shade, or a gray true color.
pub proof fn lemma_grayscale_plan_is_achromatic(seed: u64, support: ColorSupport, plan: HuePlan, key: Seq<u8>)
    requires
        plan.grayscale(),
    ensures
        match spec_select(seed, support, plan, key) {
            ColorChoice::Plain => true,
            ColorChoice::Fixed(Color::Ansi16(n)) => n == 7 || n == 15,
            ColorChoice::Fixed(Color::Ansi256(n)) => 232 <= n <= 255,
            ColorChoice::Fixed(Color::TrueColor(r, g, b)) => r == g && g == b,
            ColorChoice::Chromatic(_) => false,
        },
{
    let hash = spec_hash(key, seed);
    lemma_ansi16_grayscale(hash, plan);
    lemma_ansi256_avoids_excluded(hash, plan);
}

/// The choice depends on the key only through its seeded hash: keys with the
/// same hash get the same choice.
pub proof fn lemma_choice_follows_hash(seed: u64, support: ColorSupport, plan: HuePlan, k1: Seq<u8>, k2: Seq<u8>)
    requires
        spec_hash(k1, seed) == spec_hash(k2, seed),
    ensures
        spec_select(seed, support, plan, k1) == spec_select(seed, support, plan, k2),
{
}

/// Without a color the displayed text is exactly the text; with one it is the
/// text between the color's opening sequence and the reset sequence.
pub proof fn lemma_render_preserves_text(color: Option<Color>, ground: Ground, text: Seq<char>)
    ensures
        color is None ==> open_for(color, ground) + text + close_for(color) == text,
        color matches Some(c) ==> open_for(color, ground) + text + close_for(color)
            == spec_escape_open(c, ground) + text + spec_escape_close(),
{
    if color is None {
        assert(Seq::<char>::empty() + text + Seq::<char>::empty() =~= text);
    }
}

/// Each chromatic color of the 16-color palette is chosen only when its own
/// hue is allowed: red (1, 9) needs 0°, yellow (3, 11) 60°, green (2, 10)
/// 120°, cyan (6, 14) 180°, blue (4, 12) 240° and magenta (5, 13) 300°, and
/// all of them need some hue left.  White and bright white (7, 15) are always
/// possible; black and dark grey (0, 8) never.
pub proof fn lemma_ansi16_hue_of_choice(hash: u64, plan: HuePlan)
    ensures
        ({
            let n = ansi16_index(hash, plan);
            let ex = plan.sextants();
            &&& (1 <= n <= 7 || 9 <= n <= 15)
            &&& (n == 1 || n == 9) ==> !plan.grayscale() && !ex[0]
            &&& (n == 3 || n == 11) ==> !plan.grayscale() && !ex[1]
            &&& (n == 2 || n == 10) ==> !plan.grayscale() && !ex[2]
            &&& (n == 6 || n == 14) ==> !plan.grayscale() && !ex[3]
            &&& (n == 4 || n == 12) ==> !plan.grayscale() && !ex[4]
            &&& (n == 5 || n == 13) ==> !plan.grayscale() && !ex[5]
        }),
{
    lemma_ansi16_avoids_excluded(hash, plan);
    let p = ansi16_palette();
    let i = choose|i: int|
        0 <= i < 14 && #[trigger] p[i].0 == ansi16_index(hash, plan) && palette_entry_allowed(
            p[i],
            plan.grayscale(),
            plan.sextants(),
        );
    assert(0 <= i < 14);
}

/// The kind of color selected follows the support level: plain text without
/// color support; one of the 16 standard colors (never black or dark grey) on
/// a 16-color terminal; one of the 256 xterm colors on a 256-color terminal;
/// a gray true color or a chromatic true color of the key's hash on a
/// true-color terminal.  This holds for every hue plan.
pub proof fn lemma_select_kind(seed: u64, support: ColorSupport, plan: HuePlan, key: Seq<u8>)
    ensures
        support == ColorSupport::NoColor ==> spec_select(seed, support, plan, key)
            == ColorChoice::Plain,
        support == ColorSupport::Ansi16 ==> (spec_select(seed, support, plan, key) matches
            ColorChoice::Fixed(Color::Ansi16(n)) && 1 <= n <= 15 && n != 8),
        support == ColorSupport::Ansi256 ==> (spec_select(seed, support, plan, key) matches
            ColorChoice::Fixed(Color::Ansi256(n)) && 16 <= n),
        support == ColorSupport::TrueColor ==> ((spec_select(seed, support, plan, key) matches
            ColorChoice::Fixed(Color::TrueColor(r, g, b)) && r == g && g == b && plan.grayscale())
            || spec_select(seed, support, plan, key) == ColorChoice::Chromatic(spec_hash(key, seed))),
{
    let hash = spec_hash(key, seed);
    lemma_ansi16_avoids_excluded(hash, plan);
    lemma_ansi256_avoids_excluded(hash, plan);
}

} // verus!
