//! Glyph-free icons drawn from axis-aligned dot rects. Icons avoid the font
//! because the bundled font draws box-drawing and arrow glyphs full-width or
//! not at all.

use vstd::prelude::*;

use crate::palette::{spec_pc98, Palette, Rgb};

verus! {

/// Glyph-free icon drawn from axis-aligned dot rects.
#[derive(Clone, Copy, Debug, PartialEq, Eq, Hash)]
pub enum DotIcon {
    Play,
    Pause,
    Stop,
    ArrowUp,
    ArrowDown,
    ArrowLeft,
    ArrowRight,
    Check,
}

/// Side of the square grid `icon_cells` places cells on.
pub const ICON_GRID: u8 = 7;

/// One cell `[x, y, w, h]`.
pub open spec fn cell(x: u8, y: u8, w: u8, h: u8) -> [u8; 4] {
    [x, y, w, h]
}

/// A cell lies on the icon grid and covers at least one dot.
pub open spec fn in_grid(c: [u8; 4], grid: u8) -> bool {
    &&& c[2] >= 1
    &&& c[3] >= 1
    &&& c[0] + c[2] <= grid
    &&& c[1] + c[3] <= grid
}

/// Cells of the right-pointing arrow: a 3-dot shaft and a 7-dot head.
pub open spec fn arrow_right_spec() -> Seq<[u8; 4]> {
    seq![cell(0, 2, 3, 3), cell(3, 0, 1, 7), cell(4, 1, 1, 5), cell(5, 2, 1, 3), cell(6, 3, 1, 1)]
}

/// A cell mirrored horizontally within the grid: `x' = GRID - x - w`.
pub open spec fn mirror_cell(c: [u8; 4]) -> [u8; 4] {
    cell((ICON_GRID - c[0] - c[2]) as u8, c[1], c[2], c[3])
}

/// A cell with x/y and w/h swapped.
pub open spec fn transpose_cell(c: [u8; 4]) -> [u8; 4] {
    cell(c[1], c[0], c[3], c[2])
}

/// Cells mirrored horizontally.
pub open spec fn mirror_spec(cells: Seq<[u8; 4]>) -> Seq<[u8; 4]> {
    cells.map_values(|c: [u8; 4]| mirror_cell(c))
}

/// Cells transposed.
pub open spec fn transpose_spec(cells: Seq<[u8; 4]>) -> Seq<[u8; 4]> {
    cells.map_values(|c: [u8; 4]| transpose_cell(c))
}

/// Cells of the check mark: a 2-dot-tall stroke down to `(2, 4)` and up to `(6, 0)`.
pub open spec fn check_spec() -> Seq<[u8; 4]> {
    seq![
        cell(0, 2, 1, 2),
        cell(1, 3, 1, 2),
        cell(2, 4, 1, 2),
        cell(3, 3, 1, 2),
        cell(4, 2, 1, 2),
        cell(5, 1, 1, 2),
        cell(6, 0, 1, 2),
    ]
}

/// Cells of each icon on the `ICON_GRID` grid; the arrows other than
/// `ArrowRight` are derived from it.
pub open spec fn icon_spec(icon: DotIcon) -> Seq<[u8; 4]> {
    match icon {
        DotIcon::Play => seq![cell(2, 0, 1, 7), cell(3, 1, 1, 5), cell(4, 2, 1, 3), cell(5, 3, 1, 1)],
        DotIcon::Pause => seq![cell(1, 0, 2, 7), cell(4, 0, 2, 7)],
        DotIcon::Stop => seq![cell(1, 1, 5, 5)],
        DotIcon::ArrowRight => arrow_right_spec(),
        DotIcon::ArrowLeft => mirror_spec(arrow_right_spec()),
        DotIcon::ArrowUp => transpose_spec(mirror_spec(arrow_right_spec())),
        DotIcon::ArrowDown => transpose_spec(arrow_right_spec()),
        DotIcon::Check => check_spec(),
    }
}

/// Cells of the right-pointing arrow.
pub fn arrow_right_cells() -> (v: Vec<[u8; 4]>)
    ensures
        v@ == arrow_right_spec(),
{
    let v = vec![[0, 2, 3, 3], [3, 0, 1, 7], [4, 1, 1, 5], [5, 2, 1, 3], [6, 3, 1, 1]];
    assert(v@ =~= arrow_right_spec());
    v
}

/// Mirrors cells horizontally within the grid: `x' = GRID - x - w`.
pub fn mirror_cells(cells: &[[u8; 4]]) -> (v: Vec<[u8; 4]>)
    requires
        forall|i: int| 0 <= i < cells.len() ==> #[trigger] cells@[i][0] + cells@[i][2] <= ICON_GRID,
    ensures
        v@ == mirror_spec(cells@),
{
    let mut v: Vec<[u8; 4]> = Vec::new();
    let mut i: usize = 0;
    while i < cells.len()
        invariant
            i <= cells.len(),
            forall|j: int| 0 <= j < cells.len() ==> #[trigger] cells@[j][0] + cells@[j][2] <= ICON_GRID,
            v@ == mirror_spec(cells@.take(i as int)),
        decreases cells.len() - i,
    {
        let c = cells[i];
        let (x, y, w, h) = (c[0], c[1], c[2], c[3]);
        assert(x + w <= ICON_GRID);
        v.push([ICON_GRID - x - w, y, w, h]);
        proof {
            assert(cells@.take(i + 1) =~= cells@.take(i as int).push(cells@[i as int]));
            assert(v@ =~= mirror_spec(cells@.take(i + 1)));
        }
        i = i + 1;
    }
    assert(cells@.take(cells.len() as int) =~= cells@);
    v
}

/// Transposes cells (swaps x/y and w/h), turning a horizontal icon vertical.
pub fn transpose_cells(cells: &[[u8; 4]]) -> (v: Vec<[u8; 4]>)
    ensures
        v@ == transpose_spec(cells@),
{
    let mut v: Vec<[u8; 4]> = Vec::new();
    let mut i: usize = 0;
    while i < cells.len()
        invariant
            i <= cells.len(),
            v@ == transpose_spec(cells@.take(i as int)),
        decreases cells.len() - i,
    {
        let c = cells[i];
        let (x, y, w, h) = (c[0], c[1], c[2], c[3]);
        v.push([y, x, h, w]);
        proof {
            assert(cells@.take(i + 1) =~= cells@.take(i as int).push(cells@[i as int]));
            assert(v@ =~= transpose_spec(cells@.take(i + 1)));
        }
        i = i + 1;
    }
    assert(cells@.take(cells.len() as int) =~= cells@);
    v
}

/// Cells for `icon` on a `ICON_GRID`x`ICON_GRID` grid, as `(x, y, w, h)`, y down.
pub fn icon_cells(icon: DotIcon) -> (v: Vec<[u8; 4]>)
    ensures
        v@ == icon_spec(icon),
{
    match icon {
        DotIcon::Play => {
            let v = vec![[2, 0, 1, 7], [3, 1, 1, 5], [4, 2, 1, 3], [5, 3, 1, 1]];
            assert(v@ =~= icon_spec(icon));
            v
        },
        DotIcon::Pause => {
            let v = vec![[1, 0, 2, 7], [4, 0, 2, 7]];
            assert(v@ =~= icon_spec(icon));
            v
        },
        DotIcon::Stop => {
            let v = vec![[1, 1, 5, 5]];
            assert(v@ =~= icon_spec(icon));
            v
        },
        DotIcon::ArrowRight => arrow_right_cells(),
        // Arrow variants are derived from `ArrowRight` so they cannot drift apart.
        DotIcon::ArrowLeft => {
            let right = arrow_right_cells();
            proof {
                lemma_arrow_right_in_grid();
            }
            mirror_cells(right.as_slice())
        },
        DotIcon::ArrowUp => {
            let right = arrow_right_cells();
            proof {
                lemma_arrow_right_in_grid();
            }
            let left = mirror_cells(right.as_slice());
            transpose_cells(left.as_slice())
        },
        DotIcon::ArrowDown => {
            let right = arrow_right_cells();
            transpose_cells(right.as_slice())
        },
        DotIcon::Check => {
            let ys: [u8; 7] = [2, 3, 4, 3, 2, 1, 0];
            let mut v: Vec<[u8; 4]> = Vec::new();
            let mut x: u8 = 0;
            while x < 7
                invariant
                    x <= 7,
                    ys@ == seq![2u8, 3, 4, 3, 2, 1, 0],
                    v@ == check_spec().take(x as int),
                decreases 7 - x,
            {
                v.push([x, ys[x as usize], 1, 2]);
                proof {
                    assert(v@ =~= check_spec().take(x + 1));
                }
                x = x + 1;
            }
            assert(v@ =~= check_spec());
            v
        },
    }
}

/// The right arrow's cells lie on the grid.
proof fn lemma_arrow_right_in_grid()
    ensures
        forall|i: int| 0 <= i < arrow_right_spec().len() ==> in_grid(#[trigger] arrow_right_spec()[i], ICON_GRID),
{
    assert forall|i: int| 0 <= i < arrow_right_spec().len() implies in_grid(#[trigger] arrow_right_spec()[i], ICON_GRID) by {
    }
}

/// Every icon's cells lie on the `ICON_GRID` grid and are at least one dot
/// wide and tall.
pub proof fn lemma_icon_cells_in_grid(icon: DotIcon)
    ensures
        forall|i: int| 0 <= i < icon_spec(icon).len() ==> in_grid(#[trigger] icon_spec(icon)[i], ICON_GRID),
{
    lemma_arrow_right_in_grid();
    let r = arrow_right_spec();
    assert forall|i: int| 0 <= i < icon_spec(icon).len() implies in_grid(#[trigger] icon_spec(icon)[i], ICON_GRID) by {
        match icon {
            DotIcon::ArrowLeft => {
                assert(in_grid(r[i], ICON_GRID));
            },
            DotIcon::ArrowUp => {
                assert(in_grid(r[i], ICON_GRID));
                assert(mirror_spec(r)[i] == mirror_cell(r[i]));
            },
            DotIcon::ArrowDown => {
                assert(in_grid(r[i], ICON_GRID));
            },
            _ => {},
        }
    }
}

/// Mirroring a cell that lies on the grid keeps it on the grid, and
/// mirroring twice gives the cell back.
pub proof fn lemma_mirror_involution(c: [u8; 4])
    requires
        in_grid(c, ICON_GRID),
    ensures
        in_grid(mirror_cell(c), ICON_GRID),
        mirror_cell(mirror_cell(c)) == c,
{
    assert(mirror_cell(mirror_cell(c))@ =~= c@);
}

/// Transposing twice gives the cell back.
pub proof fn lemma_transpose_involution(c: [u8; 4])
    ensures
        transpose_cell(transpose_cell(c)) == c,
{
    assert(transpose_cell(transpose_cell(c))@ =~= c@);
}

/// The left arrow mirrors the right one, the up arrow transposes the left
/// one, and the down arrow transposes the right one, cell by cell.
pub proof fn lemma_arrows_derived()
    ensures
        icon_spec(DotIcon::ArrowLeft).len() == icon_spec(DotIcon::ArrowRight).len(),
        icon_spec(DotIcon::ArrowUp).len() == icon_spec(DotIcon::ArrowLeft).len(),
        icon_spec(DotIcon::ArrowDown).len() == icon_spec(DotIcon::ArrowRight).len(),
        forall|i: int|
            0 <= i < icon_spec(DotIcon::ArrowRight).len() ==> {
                &&& #[trigger] icon_spec(DotIcon::ArrowLeft)[i] == mirror_cell(icon_spec(DotIcon::ArrowRight)[i])
                &&& icon_spec(DotIcon::ArrowUp)[i] == transpose_cell(icon_spec(DotIcon::ArrowLeft)[i])
                &&& icon_spec(DotIcon::ArrowDown)[i] == transpose_cell(icon_spec(DotIcon::ArrowRight)[i])
            },
{
}

/// The play icon is a triangle pointing right: one-dot-wide columns side by
/// side from left to right, the first spanning the whole grid height, each
/// next one a dot shorter at the top and at the bottom, down to a single-dot
/// tip; so heights strictly fall as x grows, and the tip is the rightmost
/// cell.
pub proof fn lemma_play_points_right()
    ensures
        icon_spec(DotIcon::Play).len() >= 2,
        icon_spec(DotIcon::Play)[0][0] + icon_spec(DotIcon::Play).len() <= ICON_GRID,
        icon_spec(DotIcon::Play)[0][1] == 0,
        icon_spec(DotIcon::Play)[0][3] == ICON_GRID,
        icon_spec(DotIcon::Play).last()[3] == 1,
        forall|k: int|
            0 <= k < icon_spec(DotIcon::Play).len() ==> #[trigger] icon_spec(DotIcon::Play)[k][2] == 1
                && 2 * icon_spec(DotIcon::Play)[k][1] + icon_spec(DotIcon::Play)[k][3] == ICON_GRID,
        forall|k: int|
            0 <= k < icon_spec(DotIcon::Play).len() - 1 ==> {
                let a = #[trigger] icon_spec(DotIcon::Play)[k];
                let b = icon_spec(DotIcon::Play)[k + 1];
                &&& b[0] == a[0] + 1
                &&& b[1] == a[1] + 1
                &&& b[3] + 2 == a[3]
            },
        forall|j: int, k: int|
            0 <= j < k < icon_spec(DotIcon::Play).len() ==> #[trigger] icon_spec(DotIcon::Play)[j][0]
                < #[trigger] icon_spec(DotIcon::Play)[k][0] && icon_spec(DotIcon::Play)[j][3]
                > icon_spec(DotIcon::Play)[k][3],
{
}

/// The right arrow points right: a shaft from the left edge, vertically
/// centred, runs into a head of one-dot-wide columns side by side, the
/// first spanning the whole grid height and each next one a dot shorter at
/// the top and at the bottom, down to a single-dot tip on the right edge.
/// The other arrows, derived from it, point left, up and down.
pub proof fn lemma_arrow_right_points_right()
    ensures
        ({
            let a = icon_spec(DotIcon::ArrowRight);
            &&& a.len() >= 3
            &&& a[0][0] == 0
            &&& 2 * a[0][1] + a[0][3] == ICON_GRID
            &&& a[0][0] + a[0][2] == a[1][0]
            &&& a[1][1] == 0
            &&& a[1][3] == ICON_GRID
            &&& a.last()[3] == 1
            &&& a.last()[0] + a.last()[2] == ICON_GRID
            &&& forall|k: int| 1 <= k < a.len() ==> #[trigger] a[k][2] == 1 && 2 * a[k][1] + a[k][3] == ICON_GRID
            &&& forall|k: int|
                1 <= k < a.len() - 1 ==> a[k + 1][0] == #[trigger] a[k][0] + 1 && a[k + 1][3] + 2 == a[k][3]
        }),
        icon_spec(DotIcon::ArrowLeft).last()[0] == 0,
        icon_spec(DotIcon::ArrowLeft)[0][0] + icon_spec(DotIcon::ArrowLeft)[0][2] == ICON_GRID,
        icon_spec(DotIcon::ArrowUp).last()[1] == 0,
        icon_spec(DotIcon::ArrowUp)[0][1] + icon_spec(DotIcon::ArrowUp)[0][3] == ICON_GRID,
        icon_spec(DotIcon::ArrowDown).last()[1] + icon_spec(DotIcon::ArrowDown).last()[3] == ICON_GRID,
        icon_spec(DotIcon::ArrowDown)[0][1] == 0,
{
}

/// The check mark is a tick drawn with a two-dot-tall pen across the whole
/// grid width: one column per x from the left edge to the right edge, going
/// down a dot per column to its lowest point at `x = 2`, then up a dot per
/// column to the top edge.
pub proof fn lemma_check_is_a_tick()
    ensures
        icon_spec(DotIcon::Check).len() == ICON_GRID,
        forall|k: int|
            0 <= k < ICON_GRID ==> {
                let c = #[trigger] icon_spec(DotIcon::Check)[k];
                &&& c[0] == k
                &&& c[2] == 1
                &&& c[3] == 2
                &&& (k <= 2 ==> c[1] == 2 + k)
                &&& (k >= 2 ==> c[1] == 6 - k)
            },
{
}

/// The pause icon is two equal bars placed mirror-symmetrically, and the
/// stop icon is a square centred on the grid.
pub proof fn lemma_pause_and_stop_symmetric()
    ensures
        icon_spec(DotIcon::Pause).len() == 2,
        mirror_cell(icon_spec(DotIcon::Pause)[0]) == icon_spec(DotIcon::Pause)[1],
        icon_spec(DotIcon::Stop).len() == 1,
        mirror_cell(icon_spec(DotIcon::Stop)[0]) == icon_spec(DotIcon::Stop)[0],
        transpose_cell(icon_spec(DotIcon::Stop)[0]) == icon_spec(DotIcon::Stop)[0],
{
    assert(mirror_cell(icon_spec(DotIcon::Pause)[0])@ =~= icon_spec(DotIcon::Pause)[1]@);
    assert(mirror_cell(icon_spec(DotIcon::Stop)[0])@ =~= icon_spec(DotIcon::Stop)[0]@);
    assert(transpose_cell(icon_spec(DotIcon::Stop)[0])@ =~= icon_spec(DotIcon::Stop)[0]@);
}

/// The play triangle is not the right arrow.
pub proof fn lemma_play_is_not_arrow_right()
    ensures
        icon_spec(DotIcon::Play) != icon_spec(DotIcon::ArrowRight),
{
    assert(icon_spec(DotIcon::Play).len() != icon_spec(DotIcon::ArrowRight).len());
}

/// How an icon button is painted.
#[derive(Clone, Copy, Debug, PartialEq, Eq)]
pub struct IconButtonColors {
    /// Fill of the button, if any.
    pub fill: Option<Rgb>,
    /// 1-dot frame colour.
    pub frame: Rgb,
    /// Icon colour.
    pub icon: Rgb,
}

/// Disabled: `dim` frame and icon. Hovered, focused or pressed: filled with
/// `frame`, icon in `ground`. Otherwise: `frame` outline, icon in `text`.
pub open spec fn icon_button_colors_spec(p: Palette, enabled: bool, active: bool) -> IconButtonColors {
    if !enabled {
        IconButtonColors { fill: None, frame: p.dim, icon: p.dim }
    } else if active {
        IconButtonColors { fill: Some(p.frame), frame: p.frame, icon: p.ground }
    } else {
        IconButtonColors { fill: None, frame: p.frame, icon: p.text }
    }
}

/// Colours of an icon button; `active` is whether it is hovered, focused or
/// pressed.
pub fn icon_button_colors(palette: &Palette, enabled: bool, active: bool) -> (c: IconButtonColors)
    ensures
        c == icon_button_colors_spec(*palette, enabled, active),
{
    if !enabled {
        IconButtonColors { fill: None, frame: palette.dim, icon: palette.dim }
    } else if active {
        IconButtonColors { fill: Some(palette.frame), frame: palette.frame, icon: palette.ground }
    } else {
        IconButtonColors { fill: None, frame: palette.frame, icon: palette.text }
    }
}

/// With the stock palette an icon is readable on its button in every
/// state: it differs from the button's fill, or, unfilled, from the ground
/// behind it; an active button is filled and a resting one is not.
pub proof fn lemma_icon_buttons_readable(enabled: bool, active: bool)
    ensures
        ({
            let p = spec_pc98();
            let c = icon_button_colors_spec(p, enabled, active);
            let behind = match c.fill {
                Some(f) => f,
                None => p.ground,
            };
            &&& c.icon != behind
            &&& c.frame != p.ground
            &&& icon_button_colors_spec(p, true, true).fill is Some
            &&& icon_button_colors_spec(p, true, false).fill is None
        }),
{
}

} // verus!
