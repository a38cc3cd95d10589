//! When a modal dialog asks its caller to close it.

use vstd::prelude::*;

verus! {

/// Whether Esc is the dialog's to take: only when it is the topmost modal
/// and no popup of its own is open.
pub open spec fn esc_reaches_spec(is_top_modal: bool, any_popup_open: bool) -> bool {
    is_top_modal && !any_popup_open
}

/// Whether a dialog asks to be closed this frame: Esc reached it, its
/// contents asked to close, or the backdrop was clicked and the dialog
/// closes on backdrop clicks.
pub open spec fn close_requested_spec(
    esc: bool,
    should_close: bool,
    close_on_backdrop_click: bool,
    backdrop_clicked: bool,
) -> bool {
    esc || should_close || (close_on_backdrop_click && backdrop_clicked)
}

/// Whether an Esc press belongs to this dialog; the key is consumed only
/// when it does.
pub fn esc_reaches_dialog(is_top_modal: bool, any_popup_open: bool) -> (r: bool)
    ensures
        r == esc_reaches_spec(is_top_modal, any_popup_open),
{
    is_top_modal && !any_popup_open
}

/// Whether the dialog asks its caller to stop showing it.
pub fn dialog_close_requested(
    esc: bool,
    should_close: bool,
    close_on_backdrop_click: bool,
    backdrop_clicked: bool,
) -> (r: bool)
    ensures
        r == close_requested_spec(esc, should_close, close_on_backdrop_click, backdrop_clicked),
{
    esc || should_close || (close_on_backdrop_click && backdrop_clicked)
}

/// A backdrop click alone closes a dialog only when it opted in; Esc and a
/// close from inside close it either way.
pub proof fn lemma_backdrop_needs_opt_in(esc: bool, should_close: bool, close_on_backdrop_click: bool)
    ensures
        close_requested_spec(false, false, close_on_backdrop_click, true) == close_on_backdrop_click,
        (esc || should_close) ==> close_requested_spec(esc, should_close, close_on_backdrop_click, true)
            && close_requested_spec(esc, should_close, close_on_backdrop_click, false),
        !close_requested_spec(false, false, close_on_backdrop_click, false),
{
}

} // verus!
