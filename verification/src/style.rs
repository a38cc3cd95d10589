//! Which palette colour each part of the PC-98 theme takes: window and panel
//! fills, recessed areas, selection, and the fill, border and text of a
//! widget in each interaction state.

use vstd::prelude::*;

use crate::palette::{spec_pc98, Palette, Rgb};

verus! {

/// Colours of a widget in one interaction state.
#[derive(Clone, Copy, Debug, PartialEq, Eq)]
pub struct StateColors {
    /// Fill of the widget's background.
    pub bg_fill: Rgb,
    /// Fill of widgets drawn with a weak background (buttons, title bars).
    pub weak_bg_fill: Rgb,
    /// Border.
    pub bg_stroke: Rgb,
    /// Text and foreground marks.
    pub fg_stroke: Rgb,
}

/// The colour of every role of the theme.
#[derive(Clone, Copy, Debug, PartialEq, Eq)]
pub struct StyleColors {
    /// Window body.
    pub window_fill: Rgb,
    /// Panel body.
    pub panel_fill: Rgb,
    /// Window border.
    pub window_stroke: Rgb,
    /// Recessed areas: scroll rail, slider rail.
    pub extreme_bg: Rgb,
    /// Text edit background.
    pub text_edit_bg: Rgb,
    /// Code background.
    pub code_bg: Rgb,
    /// Striped-row background.
    pub faint_bg: Rgb,
    /// Hyperlinks.
    pub hyperlink: Rgb,
    /// Warning text.
    pub warn_fg: Rgb,
    /// Error text.
    pub error_fg: Rgb,
    /// Selected text and items.
    pub selection_bg: Rgb,
    /// Outline of a selection.
    pub selection_stroke: Rgb,
    /// Labels, frames and other widgets that take no input.
    pub noninteractive: StateColors,
    /// Interactive widgets at rest; `bg_fill` is also the scroll handle.
    pub inactive: StateColors,
    /// Widgets under the pointer.
    pub hovered: StateColors,
    /// Widgets being pressed or dragged.
    pub active: StateColors,
    /// Open menus and combo boxes, and the focused window's title bar.
    pub open: StateColors,
}

/// The theme's colours, read from palette `p`.
pub open spec fn style_colors_spec(p: Palette) -> StyleColors {
    StyleColors {
        window_fill: p.ground,
        panel_fill: p.ground,
        window_stroke: p.frame,
        extreme_bg: p.well,
        text_edit_bg: p.well,
        code_bg: p.well,
        faint_bg: p.well,
        hyperlink: p.frame,
        warn_fg: p.warn,
        error_fg: p.danger,
        selection_bg: p.selected_bg,
        selection_stroke: p.bar_fg,
        noninteractive: StateColors {
            bg_fill: p.ground,
            weak_bg_fill: p.ground,
            bg_stroke: p.frame,
            fg_stroke: p.text,
        },
        inactive: StateColors {
            bg_fill: p.dim,
            weak_bg_fill: p.ground,
            bg_stroke: p.frame,
            fg_stroke: p.text,
        },
        hovered: StateColors {
            bg_fill: p.accent,
            weak_bg_fill: p.accent,
            bg_stroke: p.accent,
            fg_stroke: p.hover_fg,
        },
        active: StateColors {
            bg_fill: p.frame,
            weak_bg_fill: p.frame,
            bg_stroke: p.frame,
            fg_stroke: p.hover_fg,
        },
        open: StateColors {
            bg_fill: p.bar_bg,
            weak_bg_fill: p.bar_bg,
            bg_stroke: p.frame,
            fg_stroke: p.bar_fg,
        },
    }
}

/// The theme's colours for palette `p`. Hovered and pressed widgets take
/// `hover_fg` text on their bright fill; the scroll handle (the resting
/// widgets' fill) is `dim`, so it shows on the `well` rail; open menus and
/// the focused title bar take `bar_bg`, under plain text.
pub fn style_colors(p: &Palette) -> (c: StyleColors)
    ensures
        c == style_colors_spec(*p),
{
    StyleColors {
        window_fill: p.ground,
        panel_fill: p.ground,
        window_stroke: p.frame,
        extreme_bg: p.well,
        text_edit_bg: p.well,
        code_bg: p.well,
        faint_bg: p.well,
        hyperlink: p.frame,
        warn_fg: p.warn,
        error_fg: p.danger,
        selection_bg: p.selected_bg,
        selection_stroke: p.bar_fg,
        noninteractive: StateColors {
            bg_fill: p.ground,
            weak_bg_fill: p.ground,
            bg_stroke: p.frame,
            fg_stroke: p.text,
        },
        inactive: StateColors {
            bg_fill: p.dim,
            weak_bg_fill: p.ground,
            bg_stroke: p.frame,
            fg_stroke: p.text,
        },
        hovered: StateColors {
            bg_fill: p.accent,
            weak_bg_fill: p.accent,
            bg_stroke: p.accent,
            fg_stroke: p.hover_fg,
        },
        active: StateColors {
            bg_fill: p.frame,
            weak_bg_fill: p.frame,
            bg_stroke: p.frame,
            fg_stroke: p.hover_fg,
        },
        open: StateColors {
            bg_fill: p.bar_bg,
            weak_bg_fill: p.bar_bg,
            bg_stroke: p.frame,
            fg_stroke: p.bar_fg,
        },
    }
}

/// With the stock palette every state's text differs from its fill, the
/// scroll handle differs from the rail it slides on, and the focused title
/// bar differs from the plain text drawn on it.
pub proof fn lemma_pc98_style_contrasts()
    ensures
        ({
            let c = style_colors_spec(spec_pc98());
            &&& c.noninteractive.fg_stroke != c.noninteractive.bg_fill
            &&& c.inactive.fg_stroke != c.inactive.bg_fill
            &&& c.inactive.fg_stroke != c.inactive.weak_bg_fill
            &&& c.hovered.fg_stroke != c.hovered.bg_fill
            &&& c.active.fg_stroke != c.active.bg_fill
            &&& c.open.fg_stroke != c.open.bg_fill
            &&& c.inactive.bg_fill != c.extreme_bg
            &&& c.open.weak_bg_fill != c.noninteractive.fg_stroke
            &&& c.selection_stroke != c.selection_bg
        }),
{
}

} // verus!
