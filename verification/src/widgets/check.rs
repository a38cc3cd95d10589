//! Text-drawn checkbox `[*]` and radio `(*)`: the colours of their parts.

use vstd::prelude::*;

use crate::palette::{spec_pc98, Palette, Rgb};

verus! {

/// How a text checkbox or radio is painted: an optional fill behind it, the
/// colour of the brackets and label, and the colour of the `*` mark.
#[derive(Clone, Copy, Debug, PartialEq, Eq)]
pub struct ToggleMarkColors {
    /// Fill behind the whole widget, if any.
    pub fill: Option<Rgb>,
    /// Brackets and label.
    pub bracket: Rgb,
    /// The `*` mark.
    pub marker: Rgb,
}

/// Colours of a text checkbox or radio: disabled is all `dim`; an enabled
/// one under the pointer or with focus is filled with `accent` and drawn in
/// `hover_fg`; otherwise the brackets and label are `text` and the mark
/// `accent`.
pub open spec fn toggle_mark_colors_spec(p: Palette, enabled: bool, hot: bool) -> ToggleMarkColors {
    if !enabled {
        ToggleMarkColors { fill: None, bracket: p.dim, marker: p.dim }
    } else if hot {
        ToggleMarkColors { fill: Some(p.accent), bracket: p.hover_fg, marker: p.hover_fg }
    } else {
        ToggleMarkColors { fill: None, bracket: p.text, marker: p.accent }
    }
}

/// Colours of a text checkbox or radio; `hot` is whether it is hovered or
/// has focus.
pub fn toggle_mark_colors(palette: &Palette, enabled: bool, hot: bool) -> (c: ToggleMarkColors)
    ensures
        c == toggle_mark_colors_spec(*palette, enabled, hot),
{
    if !enabled {
        ToggleMarkColors { fill: None, bracket: palette.dim, marker: palette.dim }
    } else if hot {
        ToggleMarkColors { fill: Some(palette.accent), bracket: palette.hover_fg, marker: palette.hover_fg }
    } else {
        ToggleMarkColors { fill: None, bracket: palette.text, marker: palette.accent }
    }
}

/// Whatever is drawn on the accent fill is drawn in `hover_fg`.
pub proof fn lemma_text_on_accent_uses_hover_fg(p: Palette, enabled: bool, hot: bool)
    ensures
        toggle_mark_colors_spec(p, enabled, hot).fill == Some(p.accent) ==> {
            &&& toggle_mark_colors_spec(p, enabled, hot).bracket == p.hover_fg
            &&& toggle_mark_colors_spec(p, enabled, hot).marker == p.hover_fg
        },
{
}

/// With the stock palette the mark and brackets are readable in every
/// state: they differ from the hover fill when filled and from the ground
/// behind them otherwise; an enabled, resting mark stands out from its
/// brackets.
pub proof fn lemma_marks_readable(enabled: bool, hot: bool)
    ensures
        ({
            let p = spec_pc98();
            let c = toggle_mark_colors_spec(p, enabled, hot);
            let behind = match c.fill {
                Some(f) => f,
                None => p.ground,
            };
            &&& c.bracket != behind
            &&& c.marker != behind
            &&& enabled && !hot ==> c.marker != c.bracket
        }),
{
}

} // verus!
