use egui_pc98_revival::Palette;
use egui_pc98_revival::palette::{
    ACCENT, BAR_FG, DANGER, GREEN, HOVER_FG, HUES, OK, RED, SELECTED_FG, WARN, channels, rgb,
};

#[test]
fn default_is_pc98() {
    assert_eq!(Palette::default(), Palette::PC98());
}

#[test]
fn pc98_accent_matches_const() {
    assert_eq!(Palette::PC98().accent, ACCENT);
}

#[test]
fn first_hue_is_red() {
    assert_eq!(HUES[0], RED);
}

#[test]
fn pc98_semantic_roles_match_consts() {
    let p = Palette::PC98();
    assert_eq!(p.ok, OK);
    assert_eq!(p.warn, WARN);
    assert_eq!(p.danger, DANGER);
    assert_eq!(p.selected_fg, SELECTED_FG);
    assert_eq!(p.hover_fg, HOVER_FG);
}

#[test]
fn hue_wraps() {
    let p = Palette::PC98();
    assert_eq!(p.hue(8), p.hues[0]);
}

#[test]
fn hue_picks_each_entry_and_wraps_far_out() {
    let p = Palette::PC98();
    for i in 0..8 {
        assert_eq!(p.hue(i), HUES[i]);
        assert_eq!(p.hue(i + 80), HUES[i]);
    }
    assert_eq!(p.hue(usize::MAX), HUES[usize::MAX % 8]);
}

#[test]
fn aliases_share_values() {
    assert_eq!(OK, GREEN);
    assert_eq!(WARN, ACCENT);
    assert_eq!(DANGER, RED);
    assert_eq!(SELECTED_FG, BAR_FG);
}

#[test]
fn channels_unpack_and_rgb_packs() {
    assert_eq!(channels(RED), (0xEE, 0x22, 0x33));
    assert_eq!(channels(ACCENT), (0xEE, 0xDD, 0x22));
    assert_eq!(rgb(0x22, 0x33, 0xCC), 0x2233CC);
    assert_eq!(channels(rgb(1, 2, 3)), (1, 2, 3));
}
