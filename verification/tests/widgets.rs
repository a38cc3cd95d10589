use egui_pc98_revival::palette::Palette;
use egui_pc98_revival::style::{StateColors, style_colors};
use egui_pc98_revival::widgets::dialog::{dialog_close_requested, esc_reaches_dialog};
use egui_pc98_revival::widgets::check::{ToggleMarkColors, toggle_mark_colors};
use egui_pc98_revival::widgets::fkey::{FKeyLabelColors, fkey_label_colors, next_shortcut_candidate};
use egui_pc98_revival::widgets::message_box::{
    MessageBoxResult, message_box_inner_cells, message_box_outcome,
};
use egui_pc98_revival::widgets::segment::{segment_color, wheel_step};
use egui_pc98_revival::widgets::spinner::{FRAMES, SPINNER_GRID, spinner_cells};
use egui_pc98_revival::widgets::tabs::{TabColors, TabStyle, select_clicked, tab_colors};
use egui_pc98_revival::widgets::toggle::{ToggleBoxColors, toggle_box_colors, toggled};

#[test]
fn tab_strip_without_input_keeps_selection() {
    assert_eq!(select_clicked(0, &[false, false, false]), 0);
}

#[test]
fn tab_strip_click_selects() {
    assert_eq!(select_clicked(0, &[false, true, false]), 1);
    // Two clicks in one frame: the last one wins.
    assert_eq!(select_clicked(0, &[true, false, true]), 2);
}

#[test]
fn tab_strip_out_of_range_selected_is_untouched() {
    assert_eq!(select_clicked(99, &[false, false, false]), 99);
}

#[test]
fn tab_colors_table() {
    let p = Palette::PC98();
    assert_eq!(
        tab_colors(&p, TabStyle::TitleStrip, true, true),
        TabColors { fill: Some(p.ground), text: p.title_bg, frame: None }
    );
    assert_eq!(
        tab_colors(&p, TabStyle::TitleStrip, false, true),
        TabColors { fill: Some(p.accent), text: p.hover_fg, frame: None }
    );
    assert_eq!(
        tab_colors(&p, TabStyle::TitleStrip, false, false),
        TabColors { fill: None, text: p.title_fg, frame: Some(p.title_fg) }
    );
    assert_eq!(
        tab_colors(&p, TabStyle::Bar, true, false),
        TabColors { fill: Some(p.selected_bg), text: p.selected_fg, frame: None }
    );
    assert_eq!(
        tab_colors(&p, TabStyle::Bar, false, true),
        TabColors { fill: Some(p.accent), text: p.hover_fg, frame: None }
    );
    assert_eq!(
        tab_colors(&p, TabStyle::Bar, false, false),
        TabColors { fill: None, text: p.text, frame: Some(p.dim) }
    );
}

#[test]
fn message_box_outcomes() {
    assert_eq!(message_box_outcome(None, false), None);
    assert_eq!(message_box_outcome(Some(1), false), Some(MessageBoxResult::Button(1)));
    assert_eq!(message_box_outcome(None, true), Some(MessageBoxResult::Dismissed));
    // A button bound to Escape wins over the dismiss path.
    assert_eq!(message_box_outcome(Some(2), true), Some(MessageBoxResult::Button(2)));
}

#[test]
fn message_box_width() {
    // "Sure?" with Yes/No buttons keyed Y/N and title "T": buttons need
    // 2 * (1 + 3 + 2) = 12, the text 7, the title 5, so the floor of 20 wins.
    assert_eq!(message_box_inner_cells(&[5], &[1, 1], &[3, 2], 1), 20);
    assert_eq!(message_box_inner_cells(&[3, 30], &[], &[], 1), 32);
    assert_eq!(message_box_inner_cells(&[], &[3, 3, 3], &[6, 2, 1], 0), 33);
    assert_eq!(message_box_inner_cells(&[], &[], &[], 40), 44);
}

#[test]
fn spinner_shapes() {
    assert_eq!(FRAMES, ['|', '/', '-', '\\']);
    assert_eq!(spinner_cells('|'), vec![[2, 0, 1, SPINNER_GRID]]);
    assert_eq!(spinner_cells('-'), vec![[0, 2, SPINNER_GRID, 1]]);
    assert_eq!(
        spinner_cells('/'),
        vec![[0, 4, 1, 1], [1, 3, 1, 1], [2, 2, 1, 1], [3, 1, 1, 1], [4, 0, 1, 1]]
    );
    assert_eq!(
        spinner_cells('\\'),
        vec![[0, 0, 1, 1], [1, 1, 1, 1], [2, 2, 1, 1], [3, 3, 1, 1], [4, 4, 1, 1]]
    );
    assert!(spinner_cells('x').is_empty());
}

#[test]
fn segment_colors() {
    let p = Palette::PC98();
    let warn = Some((6, p.warn));
    assert_eq!(segment_color(0, 7, None, warn, p.frame, p.well), p.frame);
    assert_eq!(segment_color(6, 7, None, warn, p.frame, p.well), p.warn);
    assert_eq!(segment_color(7, 7, None, warn, p.frame, p.well), p.well);
    assert_eq!(segment_color(2, 7, Some(p.ok), warn, p.frame, p.well), p.ok);
    assert_eq!(segment_color(6, 7, Some(p.ok), None, p.frame, p.well), p.ok);
}

#[test]
fn wheel_steps_whole_segments() {
    assert_eq!(wheel_step(3, 8, true), 4);
    assert_eq!(wheel_step(8, 8, true), 8);
    assert_eq!(wheel_step(3, 8, false), 2);
    assert_eq!(wheel_step(0, 8, false), 0);
}

#[test]
fn check_mark_colors() {
    let p = Palette::PC98();
    assert_eq!(
        toggle_mark_colors(&p, false, true),
        ToggleMarkColors { fill: None, bracket: p.dim, marker: p.dim }
    );
    assert_eq!(
        toggle_mark_colors(&p, true, true),
        ToggleMarkColors { fill: Some(p.accent), bracket: p.hover_fg, marker: p.hover_fg }
    );
    assert_eq!(
        toggle_mark_colors(&p, true, false),
        ToggleMarkColors { fill: None, bracket: p.text, marker: p.accent }
    );
}

#[test]
fn toggle_box_states() {
    let p = Palette::PC98();
    assert!(toggled(false, true));
    assert!(!toggled(false, false));
    assert!(!toggled(true, true));
    assert_eq!(
        toggle_box_colors(&p, true, p.danger, true, false),
        ToggleBoxColors { fill: Some(p.danger), frame: None, letter: p.ground, highlight: None }
    );
    assert_eq!(
        toggle_box_colors(&p, false, p.danger, true, true),
        ToggleBoxColors { fill: None, frame: Some(p.dim), letter: p.dim, highlight: Some(p.accent) }
    );
    assert_eq!(
        toggle_box_colors(&p, false, p.danger, false, true).highlight,
        None
    );
}

#[test]
fn fkey_label_states() {
    let p = Palette::PC98();
    assert_eq!(fkey_label_colors(&p, false, true), FKeyLabelColors { bg: p.well, fg: p.dim });
    assert_eq!(fkey_label_colors(&p, true, true), FKeyLabelColors { bg: p.accent, fg: p.fkey_fg });
    assert_eq!(fkey_label_colors(&p, true, false), FKeyLabelColors { bg: p.fkey_bg, fg: p.fkey_fg });
}

#[test]
fn shortcut_candidates_skip_disabled_items() {
    let enabled = [true, false, true, true];
    let has_shortcut = [false, true, true, true];
    assert_eq!(next_shortcut_candidate(&enabled, &has_shortcut, 0), Some(2));
    assert_eq!(next_shortcut_candidate(&enabled, &has_shortcut, 3), Some(3));
    assert_eq!(next_shortcut_candidate(&enabled, &has_shortcut, 4), None);
    assert_eq!(next_shortcut_candidate(&[false], &[true], 0), None);
}

#[test]
fn dialog_close_rule() {
    assert!(esc_reaches_dialog(true, false));
    assert!(!esc_reaches_dialog(true, true));
    assert!(!esc_reaches_dialog(false, false));
    assert!(dialog_close_requested(true, false, false, false));
    assert!(dialog_close_requested(false, true, false, false));
    assert!(!dialog_close_requested(false, false, false, true));
    assert!(dialog_close_requested(false, false, true, true));
    assert!(!dialog_close_requested(false, false, true, false));
}

#[test]
fn style_colors_of_the_stock_palette() {
    let p = Palette::PC98();
    let c = style_colors(&p);
    assert_eq!(c.window_fill, p.ground);
    assert_eq!(c.panel_fill, p.ground);
    assert_eq!(c.window_stroke, p.frame);
    assert_eq!(c.extreme_bg, p.well);
    assert_eq!(c.text_edit_bg, p.well);
    assert_eq!(c.hyperlink, p.frame);
    assert_eq!(c.warn_fg, p.warn);
    assert_eq!(c.error_fg, p.danger);
    assert_eq!(c.selection_bg, p.selected_bg);
    assert_eq!(c.selection_stroke, p.bar_fg);
    assert_eq!(
        c.hovered,
        StateColors { bg_fill: p.accent, weak_bg_fill: p.accent, bg_stroke: p.accent, fg_stroke: p.hover_fg }
    );
    assert_eq!(
        c.inactive,
        StateColors { bg_fill: p.dim, weak_bg_fill: p.ground, bg_stroke: p.frame, fg_stroke: p.text }
    );
    assert_eq!(
        c.open,
        StateColors { bg_fill: p.bar_bg, weak_bg_fill: p.bar_bg, bg_stroke: p.frame, fg_stroke: p.bar_fg }
    );
    assert_eq!(c.active.fg_stroke, p.hover_fg);
    assert_eq!(c.noninteractive.fg_stroke, p.text);
    // Readable on every state's fill; the scroll handle shows on its rail.
    assert_ne!(c.hovered.fg_stroke, c.hovered.bg_fill);
    assert_ne!(c.inactive.bg_fill, c.extreme_bg);
}
