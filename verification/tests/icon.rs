use egui_pc98_revival::palette::Palette;
use egui_pc98_revival::widgets::icon::{
    DotIcon, ICON_GRID, IconButtonColors, arrow_right_cells, icon_button_colors, icon_cells,
    mirror_cells, transpose_cells,
};

#[test]
fn icon_cells_inside_grid() {
    let icons = [
        DotIcon::Play,
        DotIcon::Pause,
        DotIcon::Stop,
        DotIcon::ArrowUp,
        DotIcon::ArrowDown,
        DotIcon::ArrowLeft,
        DotIcon::ArrowRight,
        DotIcon::Check,
    ];
    for icon in icons {
        for [x, y, w, h] in icon_cells(icon) {
            assert!(w >= 1 && h >= 1, "{icon:?}: cell [{x},{y},{w},{h}]");
            assert!(
                x + w <= ICON_GRID && y + h <= ICON_GRID,
                "{icon:?}: cell [{x},{y},{w},{h}] out of bounds"
            );
        }
    }
}

#[test]
fn arrow_left_mirrors_right() {
    let right = icon_cells(DotIcon::ArrowRight);
    let left = icon_cells(DotIcon::ArrowLeft);
    assert_eq!(right.len(), left.len());
    for (r, l) in right.iter().zip(left.iter()) {
        assert_eq!(l, &[ICON_GRID - r[0] - r[2], r[1], r[2], r[3]]);
    }
}

#[test]
fn arrow_up_transposes_left() {
    let left = icon_cells(DotIcon::ArrowLeft);
    let up = icon_cells(DotIcon::ArrowUp);
    assert_eq!(left.len(), up.len());
    for (l, u) in left.iter().zip(up.iter()) {
        assert_eq!(u, &[l[1], l[0], l[3], l[2]]);
    }
}

#[test]
fn arrow_down_transposes_right() {
    let right = icon_cells(DotIcon::ArrowRight);
    let down = icon_cells(DotIcon::ArrowDown);
    assert_eq!(right.len(), down.len());
    for (r, d) in right.iter().zip(down.iter()) {
        assert_eq!(d, &[r[1], r[0], r[3], r[2]]);
    }
}

#[test]
fn play_differs_from_arrow_right() {
    assert_ne!(icon_cells(DotIcon::Play), icon_cells(DotIcon::ArrowRight));
}

#[test]
fn mirror_and_transpose_are_involutions() {
    let right = arrow_right_cells();
    assert_eq!(mirror_cells(&mirror_cells(&right)), right);
    assert_eq!(transpose_cells(&transpose_cells(&right)), right);
}

#[test]
fn exact_cells() {
    assert_eq!(icon_cells(DotIcon::Stop), vec![[1, 1, 5, 5]]);
    assert_eq!(icon_cells(DotIcon::Pause), vec![[1, 0, 2, 7], [4, 0, 2, 7]]);
    assert_eq!(
        icon_cells(DotIcon::ArrowLeft),
        vec![[4, 2, 3, 3], [3, 0, 1, 7], [2, 1, 1, 5], [1, 2, 1, 3], [0, 3, 1, 1]]
    );
    assert_eq!(
        icon_cells(DotIcon::Check),
        vec![
            [0, 2, 1, 2],
            [1, 3, 1, 2],
            [2, 4, 1, 2],
            [3, 3, 1, 2],
            [4, 2, 1, 2],
            [5, 1, 1, 2],
            [6, 0, 1, 2]
        ]
    );
}

#[test]
fn icon_button_color_states() {
    let p = Palette::PC98();
    assert_eq!(
        icon_button_colors(&p, false, true),
        IconButtonColors { fill: None, frame: p.dim, icon: p.dim }
    );
    assert_eq!(
        icon_button_colors(&p, true, true),
        IconButtonColors { fill: Some(p.frame), frame: p.frame, icon: p.ground }
    );
    assert_eq!(
        icon_button_colors(&p, true, false),
        IconButtonColors { fill: None, frame: p.frame, icon: p.text }
    );
}
