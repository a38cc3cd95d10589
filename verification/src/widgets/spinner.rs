//! One-cell spinner cycling `| / - \` shapes. Drawn from axis-aligned dot
//! rects rather than font glyphs, because the bundled JIS font draws `\` as
//! `¥`.

use vstd::prelude::*;

use crate::widgets::icon::{cell, transpose_cell};

verus! {

/// The spinner's shapes, in the order it cycles through them.
pub const FRAMES: [char; 4] = ['|', '/', '-', '\\'];

/// Side of the square grid each spinner shape is drawn on.
pub const SPINNER_GRID: u8 = 5;

/// Cells of each spinner shape on the `SPINNER_GRID` grid: a full-height
/// bar, a full-width bar, and two 1-dot staircases; nothing for any other
/// character.
pub open spec fn spinner_spec(frame: char) -> Seq<[u8; 4]> {
    if frame == '|' {
        seq![cell(2, 0, 1, SPINNER_GRID)]
    } else if frame == '-' {
        seq![cell(0, 2, SPINNER_GRID, 1)]
    } else if frame == '/' {
        Seq::new(SPINNER_GRID as nat, |x: int| cell(x as u8, (SPINNER_GRID - 1 - x) as u8, 1, 1))
    } else if frame == '\\' {
        Seq::new(SPINNER_GRID as nat, |x: int| cell(x as u8, x as u8, 1, 1))
    } else {
        Seq::empty()
    }
}

/// A cell flipped vertically within the spinner grid: `y' = GRID - y - h`.
pub open spec fn flip_cell(c: [u8; 4]) -> [u8; 4] {
    cell(c[0], (SPINNER_GRID - c[1] - c[3]) as u8, c[2], c[3])
}

/// Cells for `frame` on a `SPINNER_GRID`x`SPINNER_GRID` grid, as `(x, y, w, h)`, y down.
/// Diagonals are staircases of 1-dot cells rather than diagonal strokes.
pub fn spinner_cells(frame: char) -> (v: Vec<[u8; 4]>)
    ensures
        v@ == spinner_spec(frame),
{
    if frame == '|' {
        let v = vec![[2, 0, 1, SPINNER_GRID]];
        assert(v@ =~= spinner_spec(frame));
        v
    } else if frame == '-' {
        let v = vec![[0, 2, SPINNER_GRID, 1]];
        assert(v@ =~= spinner_spec(frame));
        v
    } else if frame == '/' || frame == '\\' {
        let rising = frame == '/';
        let mut v: Vec<[u8; 4]> = Vec::new();
        let mut x: u8 = 0;
        while x < SPINNER_GRID
            invariant
                x <= SPINNER_GRID,
                rising == (frame == '/'),
                frame == '/' || frame == '\\',
                v@ == spinner_spec(frame).take(x as int),
            decreases SPINNER_GRID - x,
        {
            let y = if rising {
                SPINNER_GRID - 1 - x
            } else {
                x
            };
            v.push([x, y, 1, 1]);
            proof {
                assert(v@ =~= spinner_spec(frame).take(x + 1));
            }
            x = x + 1;
        }
        assert(v@ =~= spinner_spec(frame));
        v
    } else {
        let v: Vec<[u8; 4]> = Vec::new();
        assert(v@ =~= spinner_spec(frame));
        v
    }
}

/// Every spinner shape's cells lie on the `SPINNER_GRID` grid.
pub proof fn lemma_spinner_cells_in_grid(frame: char)
    ensures
        forall|i: int|
            0 <= i < spinner_spec(frame).len() ==> crate::widgets::icon::in_grid(
                #[trigger] spinner_spec(frame)[i],
                SPINNER_GRID,
            ),
{
}

/// The two diagonals are vertical mirror images of each other, and the
/// horizontal bar is the vertical bar transposed.
pub proof fn lemma_spinner_symmetry()
    ensures
        spinner_spec('\\').len() == spinner_spec('/').len(),
        forall|i: int|
            0 <= i < spinner_spec('/').len() ==> #[trigger] spinner_spec('\\')[i] == flip_cell(
                spinner_spec('/')[i],
            ),
        spinner_spec('-') == seq![transpose_cell(spinner_spec('|')[0])],
{
    assert forall|i: int| 0 <= i < spinner_spec('/').len() implies #[trigger] spinner_spec('\\')[i]
        == flip_cell(spinner_spec('/')[i]) by {
        assert(spinner_spec('\\')[i]@ =~= flip_cell(spinner_spec('/')[i])@);
    }
    assert(spinner_spec('-') =~= seq![transpose_cell(spinner_spec('|')[0])]);
}

/// Each frame draws the stroke its character names: `|` a full-height
/// centred column, `-` a full-width centred row, `/` single dots climbing
/// from the bottom-left corner to the top-right, `\` single dots falling
/// from the top-left corner to the bottom-right.
pub proof fn lemma_spinner_shapes()
    ensures
        spinner_spec('|').len() == 1,
        spinner_spec('|')[0][1] == 0 && spinner_spec('|')[0][3] == SPINNER_GRID,
        spinner_spec('|')[0][2] == 1 && 2 * spinner_spec('|')[0][0] + 1 == SPINNER_GRID,
        spinner_spec('-').len() == 1,
        spinner_spec('-')[0][0] == 0 && spinner_spec('-')[0][2] == SPINNER_GRID,
        spinner_spec('-')[0][3] == 1 && 2 * spinner_spec('-')[0][1] + 1 == SPINNER_GRID,
        spinner_spec('/').len() == SPINNER_GRID,
        spinner_spec('/')[0][1] == SPINNER_GRID - 1,
        spinner_spec('\\').len() == SPINNER_GRID,
        spinner_spec('\\')[0][1] == 0,
        forall|k: int|
            0 <= k < SPINNER_GRID ==> {
                let c = #[trigger] spinner_spec('/')[k];
                &&& c[0] == k && c[2] == 1 && c[3] == 1
                &&& (k + 1 < SPINNER_GRID ==> spinner_spec('/')[k + 1][1] + 1 == c[1])
            },
        forall|k: int|
            0 <= k < SPINNER_GRID ==> {
                let c = #[trigger] spinner_spec('\\')[k];
                &&& c[0] == k && c[2] == 1 && c[3] == 1
                &&& (k + 1 < SPINNER_GRID ==> spinner_spec('\\')[k + 1][1] == c[1] + 1)
            },
{
}

} // verus!
