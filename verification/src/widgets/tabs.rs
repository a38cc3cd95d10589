//! Row of tabs: the title strip of a `TitledPanel`, or a standalone bar.

use vstd::prelude::*;

use crate::palette::{spec_pc98, Palette, Rgb};

verus! {

/// Where a tab strip is drawn, which picks its selected/hovered colours.
#[derive(Clone, Copy, Debug, PartialEq, Eq)]
pub enum TabStyle {
    /// For the title strip of a `TitledPanel`: current tab cut out in `ground`.
    TitleStrip,
    /// For use on `ground`.
    Bar,
}

/// How one tab is painted: an optional fill, the label colour, and an
/// optional 1-dot frame.
#[derive(Clone, Copy, Debug, PartialEq, Eq)]
pub struct TabColors {
    /// Fill behind the label, if any.
    pub fill: Option<Rgb>,
    /// Label colour.
    pub text: Rgb,
    /// Frame colour, if the tab is framed.
    pub frame: Option<Rgb>,
}

/// Colours of a tab: the selected tab is filled (cut out in `ground` on a
/// title strip, `selected_bg` on a bar); a hovered tab that is not selected
/// is filled with `accent`; any other tab is only framed.
pub open spec fn tab_colors_spec(p: Palette, style: TabStyle, selected: bool, hovered: bool) -> TabColors {
    let hot = !selected && hovered;
    match style {
        TabStyle::TitleStrip => if selected {
            TabColors { fill: Some(p.ground), text: p.title_bg, frame: None }
        } else if hot {
            TabColors { fill: Some(p.accent), text: p.hover_fg, frame: None }
        } else {
            TabColors { fill: None, text: p.title_fg, frame: Some(p.title_fg) }
        },
        TabStyle::Bar => if selected {
            TabColors { fill: Some(p.selected_bg), text: p.selected_fg, frame: None }
        } else if hot {
            TabColors { fill: Some(p.accent), text: p.hover_fg, frame: None }
        } else {
            TabColors { fill: None, text: p.text, frame: Some(p.dim) }
        },
    }
}

/// Colours of one tab of a strip drawn in `style`, given whether it is the
/// selected tab and whether the pointer hovers it.
pub fn tab_colors(palette: &Palette, style: TabStyle, selected: bool, hovered: bool) -> (c: TabColors)
    ensures
        c == tab_colors_spec(*palette, style, selected, hovered),
{
    let hot = !selected && hovered;
    match (style, selected, hot) {
        (TabStyle::TitleStrip, true, _) => TabColors {
            fill: Some(palette.ground),
            text: palette.title_bg,
            frame: None,
        },
        (TabStyle::TitleStrip, false, true) => TabColors {
            fill: Some(palette.accent),
            text: palette.hover_fg,
            frame: None,
        },
        (TabStyle::TitleStrip, false, false) => TabColors {
            fill: None,
            text: palette.title_fg,
            frame: Some(palette.title_fg),
        },
        (TabStyle::Bar, true, _) => TabColors {
            fill: Some(palette.selected_bg),
            text: palette.selected_fg,
            frame: None,
        },
        (TabStyle::Bar, false, true) => TabColors {
            fill: Some(palette.accent),
            text: palette.hover_fg,
            frame: None,
        },
        (TabStyle::Bar, false, false) => TabColors { fill: None, text: palette.text, frame: Some(palette.dim) },
    }
}

/// The last clicked tab among the first `k`, if any.
pub open spec fn last_clicked(clicked: Seq<bool>, k: int) -> Option<int>
    decreases k,
{
    if k <= 0 {
        None
    } else if clicked[k - 1] {
        Some(k - 1)
    } else {
        last_clicked(clicked, k - 1)
    }
}

/// The selection after a frame in which the tabs flagged in `clicked` were
/// clicked: each click selects its tab, so the last one wins; with no click
/// the selection stays as it is, even when it is out of range.
pub fn select_clicked(selected: usize, clicked: &[bool]) -> (s: usize)
    ensures
        s == match last_clicked(clicked@, clicked.len() as int) {
            Some(i) => i,
            None => selected as int,
        },
{
    let mut s = selected;
    let mut i: usize = 0;
    while i < clicked.len()
        invariant
            i <= clicked.len(),
            s == match last_clicked(clicked@, i as int) {
                Some(j) => j,
                None => selected as int,
            },
        decreases clicked.len() - i,
    {
        if clicked[i] {
            s = i;
        }
        i = i + 1;
    }
    s
}

/// A clicked tab ends up selected unless a tab to its right was clicked too.
pub proof fn lemma_click_selects(clicked: Seq<bool>, i: int)
    requires
        0 <= i < clicked.len(),
        clicked[i],
        forall|j: int| i < j < clicked.len() ==> !clicked[j],
    ensures
        last_clicked(clicked, clicked.len() as int) == Some(i),
{
    lemma_last_clicked_suffix(clicked, i, clicked.len() as int);
}

proof fn lemma_last_clicked_suffix(clicked: Seq<bool>, i: int, k: int)
    requires
        0 <= i < k <= clicked.len(),
        clicked[i],
        forall|j: int| i < j < clicked.len() ==> !clicked[j],
    ensures
        last_clicked(clicked, k) == Some(i),
    decreases k,
{
    if k - 1 > i {
        lemma_last_clicked_suffix(clicked, i, k - 1);
    }
}

/// The selected tab is drawn filled and unframed, and hovering it does not
/// change how it looks.
pub proof fn lemma_selected_tab_ignores_hover(p: Palette, style: TabStyle)
    ensures
        tab_colors_spec(p, style, true, true) == tab_colors_spec(p, style, true, false),
        tab_colors_spec(p, style, true, false).fill is Some,
        tab_colors_spec(p, style, true, false).frame is None,
{
}

/// With the stock palette a tab's label is readable in every state: it
/// differs from the tab's own fill, or, unfilled, from the strip or bar
/// behind it; and the selected tab never looks like a plain unselected one.
pub proof fn lemma_tab_labels_readable(style: TabStyle, selected: bool, hovered: bool)
    ensures
        ({
            let p = spec_pc98();
            let c = tab_colors_spec(p, style, selected, hovered);
            let behind = match style {
                TabStyle::TitleStrip => p.title_bg,
                TabStyle::Bar => p.ground,
            };
            &&& c.fill matches Some(f) ==> c.text != f
            &&& c.fill is None ==> c.text != behind
            &&& tab_colors_spec(p, style, true, hovered) != tab_colors_spec(p, style, false, false)
        }),
{
}

/// A frame without a click keeps the selection.
pub proof fn lemma_no_click_keeps_selection(clicked: Seq<bool>, k: int)
    requires
        0 <= k <= clicked.len(),
        forall|j: int| 0 <= j < k ==> !#[trigger] clicked[j],
    ensures
        last_clicked(clicked, k) is None,
    decreases k,
{
    if k > 0 {
        lemma_no_click_keeps_selection(clicked, k - 1);
    }
}

} // verus!
