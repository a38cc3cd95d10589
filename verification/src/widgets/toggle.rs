//! `[M]`-style letter toggle box: how it is painted.

use vstd::prelude::*;

use crate::palette::{spec_pc98, Palette, Rgb};

verus! {

/// How a letter toggle box is painted.
#[derive(Clone, Copy, Debug, PartialEq, Eq)]
pub struct ToggleBoxColors {
    /// Fill of the box, if any.
    pub fill: Option<Rgb>,
    /// 1-dot frame around the box, if any.
    pub frame: Option<Rgb>,
    /// Letter colour.
    pub letter: Rgb,
    /// Extra 1-dot highlight frame drawn over the box, if any.
    pub highlight: Option<Rgb>,
}

/// On: filled with the "on" colour, letter in `ground`. Off: `dim` frame and
/// letter. An enabled box under the pointer or with focus also gets an
/// `accent` frame on top.
pub open spec fn toggle_box_colors_spec(p: Palette, on: bool, on_color: Rgb, enabled: bool, hot: bool) -> ToggleBoxColors {
    let highlight = if enabled && hot { Some(p.accent) } else { None };
    if on {
        ToggleBoxColors { fill: Some(on_color), frame: None, letter: p.ground, highlight }
    } else {
        ToggleBoxColors { fill: None, frame: Some(p.dim), letter: p.dim, highlight }
    }
}

/// Colours of a letter toggle box; `hot` is whether it is hovered or has
/// focus.
pub fn toggle_box_colors(palette: &Palette, on: bool, on_color: Rgb, enabled: bool, hot: bool) -> (c: ToggleBoxColors)
    ensures
        c == toggle_box_colors_spec(*palette, on, on_color, enabled, hot),
{
    let highlight = if enabled && hot {
        Some(palette.accent)
    } else {
        None
    };
    if on {
        ToggleBoxColors { fill: Some(on_color), frame: None, letter: palette.ground, highlight }
    } else {
        ToggleBoxColors { fill: None, frame: Some(palette.dim), letter: palette.dim, highlight }
    }
}

/// A click flips the state; no click keeps it.
pub open spec fn toggle_spec(on: bool, clicked: bool) -> bool {
    on != clicked
}

/// The new state of a toggle after a frame: a click (or Space/Enter on the
/// focused box) flips it.
pub fn toggled(on: bool, clicked: bool) -> (r: bool)
    ensures
        r == toggle_spec(on, clicked),
{
    if clicked {
        !on
    } else {
        on
    }
}

/// Two clicks give back the starting state.
pub proof fn lemma_toggle_twice(on: bool)
    ensures
        toggle_spec(toggle_spec(on, true), true) == on,
        toggle_spec(on, true) != on,
{
}

/// The accent highlight shows exactly when the box is enabled and hot; an
/// on box is filled with its on colour and an off box is an outline; with
/// the stock palette the letter is readable both ways when the on colour is
/// not the ground colour.
pub proof fn lemma_toggle_box_looks(on: bool, on_color: Rgb, enabled: bool, hot: bool)
    ensures
        ({
            let p = spec_pc98();
            let c = toggle_box_colors_spec(p, on, on_color, enabled, hot);
            &&& c.highlight is Some <==> enabled && hot
            &&& on ==> c.fill == Some(on_color) && c.frame is None
            &&& !on ==> c.fill is None && c.frame is Some
            &&& on && on_color != p.ground ==> c.letter != on_color
            &&& !on ==> c.letter != p.ground
        }),
{
}

} // verus!
