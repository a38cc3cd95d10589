//! Function-key bar: how each slot's label is painted, and which items'
//! shortcuts are tried.

use vstd::prelude::*;

use crate::palette::{spec_pc98, Palette, Rgb};

verus! {

/// Background and text colour of a function-key label.
#[derive(Clone, Copy, Debug, PartialEq, Eq)]
pub struct FKeyLabelColors {
    /// Label background.
    pub bg: Rgb,
    /// Label text.
    pub fg: Rgb,
}

/// Disabled slots draw dimmed on `well`; a hovered slot's label is filled
/// with `accent`; otherwise it is `fkey_fg` on `fkey_bg`.
pub open spec fn fkey_label_colors_spec(p: Palette, enabled: bool, hovered: bool) -> FKeyLabelColors {
    if !enabled {
        FKeyLabelColors { bg: p.well, fg: p.dim }
    } else if hovered {
        FKeyLabelColors { bg: p.accent, fg: p.fkey_fg }
    } else {
        FKeyLabelColors { bg: p.fkey_bg, fg: p.fkey_fg }
    }
}

/// Colours of one function-key label.
pub fn fkey_label_colors(palette: &Palette, enabled: bool, hovered: bool) -> (c: FKeyLabelColors)
    ensures
        c == fkey_label_colors_spec(*palette, enabled, hovered),
{
    if !enabled {
        FKeyLabelColors { bg: palette.well, fg: palette.dim }
    } else if hovered {
        FKeyLabelColors { bg: palette.accent, fg: palette.fkey_fg }
    } else {
        FKeyLabelColors { bg: palette.fkey_bg, fg: palette.fkey_fg }
    }
}

/// Item `i` takes part in shortcut matching: it is enabled and has a shortcut.
pub open spec fn shortcut_candidate(enabled: Seq<bool>, has_shortcut: Seq<bool>, i: int) -> bool {
    enabled[i] && has_shortcut[i]
}

/// The next item, from index `from` on, whose shortcut the bar tries: the
/// first enabled item with a shortcut, in item order. Every item takes part,
/// including slots dropped for width, so a binding never depends on the
/// bar's width. `None` when no item from `from` on qualifies.
pub fn next_shortcut_candidate(enabled: &[bool], has_shortcut: &[bool], from: usize) -> (r: Option<usize>)
    requires
        enabled.len() == has_shortcut.len(),
    ensures
        match r {
            Some(i) => {
                &&& from <= i < enabled.len()
                &&& shortcut_candidate(enabled@, has_shortcut@, i as int)
                &&& forall|j: int|
                    from <= j < i ==> !shortcut_candidate(enabled@, has_shortcut@, j)
            },
            None => forall|j: int|
                from <= j < enabled.len() ==> !shortcut_candidate(enabled@, has_shortcut@, j),
        },
{
    let mut i = from;
    while i < enabled.len()
        invariant
            enabled.len() == has_shortcut.len(),
            from <= i,
            forall|j: int| from <= j < i ==> !shortcut_candidate(enabled@, has_shortcut@, j),
        decreases enabled.len() - i,
    {
        if enabled[i] && has_shortcut[i] {
            return Some(i);
        }
        i = i + 1;
    }
    None
}

/// A disabled item's shortcut is never tried.
pub proof fn lemma_disabled_never_tried(enabled: Seq<bool>, has_shortcut: Seq<bool>, i: int)
    requires
        0 <= i < enabled.len(),
        !enabled[i],
    ensures
        !shortcut_candidate(enabled, has_shortcut, i),
{
}

/// With the stock palette a function-key label is readable in every state,
/// a hovered label differs from a resting one, and a disabled label from an
/// enabled one.
pub proof fn lemma_fkey_labels_readable(enabled: bool, hovered: bool)
    ensures
        ({
            let p = spec_pc98();
            let c = fkey_label_colors_spec(p, enabled, hovered);
            &&& c.fg != c.bg
            &&& fkey_label_colors_spec(p, true, true).bg != fkey_label_colors_spec(p, true, false).bg
            &&& fkey_label_colors_spec(p, false, hovered) != fkey_label_colors_spec(p, true, hovered)
        }),
{
}

} // verus!
