//! The digital 8-colour PC-98 palette and the `Palette` struct widgets read
//! their colours from.
//!
//! A colour is a packed `0xRRGGBB` value; the egui front end turns it into an
//! opaque `egui::Color32`.

use vstd::prelude::*;

verus! {

/// An opaque 24-bit colour, packed as `0xRRGGBB`.
pub type Rgb = u32;

/// Background of the screen and window bodies.
pub const GROUND: Rgb = 0x000000;
/// Background of title/status bars and the selection bar.
pub const BAR_BG: Rgb = 0x2233CC;
/// Text on `BAR_BG`.
pub const BAR_FG: Rgb = 0xFFFFFF;
/// 1-dot frame and inactive-widget border colour.
pub const FRAME: Rgb = 0x22CCCC;
/// Background of a `TitledPanel`'s title strip.
pub const TITLE_BG: Rgb = 0x22CCCC;
/// Text on `TITLE_BG`.
pub const TITLE_FG: Rgb = 0x000000;
/// Default body text colour.
pub const TEXT: Rgb = 0xEEEEEE;
/// Muted text and disabled-widget colour.
pub const DIM: Rgb = 0x888888;
/// Hover fill and highlight colour.
pub const ACCENT: Rgb = 0xEEDD22;
/// Base red hue.
pub const RED: Rgb = 0xEE2233;
/// Seek bar / timeline cursor colour.
pub const PLAYHEAD: Rgb = RED;
/// Background of a selected row or item.
pub const SELECTED_BG: Rgb = 0x2233CC;
/// Background of recessed areas (scroll rail, text edit).
pub const WELL: Rgb = 0x161616;
/// Base green hue.
pub const GREEN: Rgb = 0x22CC44;
/// Positive-state colour; alias of `GREEN`.
pub const OK: Rgb = GREEN;
/// Background of a function-key label.
pub const FKEY_BG: Rgb = 0xEEEEEE;
/// Text on `FKEY_BG`.
pub const FKEY_FG: Rgb = 0x000000;
/// Caution-state colour; alias of `ACCENT`.
pub const WARN: Rgb = ACCENT;
/// Error/mute-state colour; alias of `RED`.
pub const DANGER: Rgb = RED;
/// Text on `SELECTED_BG`; alias of `BAR_FG`.
pub const SELECTED_FG: Rgb = BAR_FG;
/// Text on a hovered (accent-filled) item.
pub const HOVER_FG: Rgb = 0x000000;
/// Red, cyan, green, yellow, magenta, blue, white, gray.
pub const HUES: [Rgb; 8] = [
    0xEE2233,
    0x22CCCC,
    0x22CC44,
    0xEEDD22,
    0xCC33CC,
    0x5566FF,
    0xEEEEEE,
    0x999999,
];

/// Red channel of a packed colour.
pub open spec fn red_of(c: Rgb) -> int {
    (c / 0x10000) as int % 0x100
}

/// Green channel of a packed colour.
pub open spec fn green_of(c: Rgb) -> int {
    (c / 0x100) as int % 0x100
}

/// Blue channel of a packed colour.
pub open spec fn blue_of(c: Rgb) -> int {
    c as int % 0x100
}

/// Packs three 8-bit channels into one colour.
pub fn rgb(r: u8, g: u8, b: u8) -> (c: Rgb)
    ensures
        red_of(c) == r,
        green_of(c) == g,
        blue_of(c) == b,
        c < 0x1000000,
{
    let c = (r as u32) * 0x10000 + (g as u32) * 0x100 + (b as u32);
    assert(c / 0x10000 == r) by (nonlinear_arith)
        requires c == r * 0x10000 + g * 0x100 + b, r < 0x100, g < 0x100, b < 0x100;
    assert(c / 0x100 == r * 0x100 + g) by (nonlinear_arith)
        requires c == r * 0x10000 + g * 0x100 + b, g < 0x100, b < 0x100;
    assert((r * 0x100 + g) % 0x100 == g) by (nonlinear_arith)
        requires g < 0x100;
    assert(c % 0x100 == b) by (nonlinear_arith)
        requires c == r * 0x10000 + g * 0x100 + b, b < 0x100;
    c
}

/// The channels of a packed colour, `(r, g, b)`.
pub fn channels(c: Rgb) -> (rgb: (u8, u8, u8))
    ensures
        rgb.0 == red_of(c),
        rgb.1 == green_of(c),
        rgb.2 == blue_of(c),
{
    (((c / 0x10000) % 0x100) as u8, ((c / 0x100) % 0x100) as u8, (c % 0x100) as u8)
}

/// The set of colours a PC-98 style is built from.
#[derive(Clone, Copy, Debug, PartialEq, Eq)]
pub struct Palette {
    /// Background of the screen and window bodies.
    pub ground: Rgb,
    /// Background of title/status bars and the selection bar.
    pub bar_bg: Rgb,
    /// Text on `bar_bg`.
    pub bar_fg: Rgb,
    /// 1-dot frame and inactive-widget border colour.
    pub frame: Rgb,
    /// Background of a `TitledPanel`'s title strip.
    pub title_bg: Rgb,
    /// Text on `title_bg`.
    pub title_fg: Rgb,
    /// Default body text colour.
    pub text: Rgb,
    /// Muted text and disabled-widget colour.
    pub dim: Rgb,
    /// Hover fill and highlight colour.
    pub accent: Rgb,
    /// Base red hue.
    pub red: Rgb,
    /// Background of a selected row or item.
    pub selected_bg: Rgb,
    /// Background of recessed areas (scroll rail, text edit).
    pub well: Rgb,
    /// Base green hue.
    pub green: Rgb,
    /// Background of a function-key label.
    pub fkey_bg: Rgb,
    /// Text on `fkey_bg`.
    pub fkey_fg: Rgb,
    /// Positive state (e.g. "done", "on air").
    pub ok: Rgb,
    /// Caution: meter top segments, warnings.
    pub warn: Rgb,
    /// Errors, mute, playhead.
    pub danger: Rgb,
    /// Text on `selected_bg`.
    pub selected_fg: Rgb,
    /// Text on a hovered (accent-filled) item.
    pub hover_fg: Rgb,
    /// Red, cyan, green, yellow, magenta, blue, white, gray.
    pub hues: [Rgb; 8],
}

/// The stock NEC PC-98 palette, field by field.
pub open spec fn spec_pc98() -> Palette {
    Palette {
        ground: GROUND,
        bar_bg: BAR_BG,
        bar_fg: BAR_FG,
        frame: FRAME,
        title_bg: TITLE_BG,
        title_fg: TITLE_FG,
        text: TEXT,
        dim: DIM,
        accent: ACCENT,
        red: RED,
        selected_bg: SELECTED_BG,
        well: WELL,
        green: GREEN,
        fkey_bg: FKEY_BG,
        fkey_fg: FKEY_FG,
        ok: OK,
        warn: WARN,
        danger: DANGER,
        selected_fg: SELECTED_FG,
        hover_fg: HOVER_FG,
        hues: HUES,
    }
}

impl Palette {
    /// The stock NEC PC-98 palette.
    #[allow(non_snake_case)]
    pub fn PC98() -> (p: Palette)
        ensures
            p == spec_pc98(),
    {
        Palette {
            ground: GROUND,
            bar_bg: BAR_BG,
            bar_fg: BAR_FG,
            frame: FRAME,
            title_bg: TITLE_BG,
            title_fg: TITLE_FG,
            text: TEXT,
            dim: DIM,
            accent: ACCENT,
            red: RED,
            selected_bg: SELECTED_BG,
            well: WELL,
            green: GREEN,
            fkey_bg: FKEY_BG,
            fkey_fg: FKEY_FG,
            ok: OK,
            warn: WARN,
            danger: DANGER,
            selected_fg: SELECTED_FG,
            hover_fg: HOVER_FG,
            hues: HUES,
        }
    }

    /// Hue `i` of the 8-colour set, wrapping around.
    pub fn hue(&self, i: usize) -> (c: Rgb)
        ensures
            c == self.hues@[(i % 8) as int],
    {
        self.hues[i % 8]
    }
}

impl Default for Palette {
    fn default() -> (p: Self)
        ensures
            p == spec_pc98(),
    {
        Self::PC98()
    }
}

/// The stock palette's semantic roles are the named constants they alias:
/// `ok` is green, `warn` the accent, `danger` red, `selected_fg` the bar text.
pub proof fn lemma_pc98_roles()
    ensures
        spec_pc98().ok == GREEN,
        spec_pc98().warn == ACCENT,
        spec_pc98().danger == RED,
        spec_pc98().selected_fg == BAR_FG,
        spec_pc98().hover_fg == HOVER_FG,
        spec_pc98().hues@[0] == RED,
{
}

/// Hues wrap around every eight indices.
pub proof fn lemma_hue_wraps(p: Palette, i: int)
    requires
        0 <= i,
    ensures
        p.hues@[(i + 8) % 8] == p.hues@[i % 8],
{
}

} // verus!
