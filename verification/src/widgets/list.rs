//! The rules behind the keyboard-driven list view: whole-cell column
//! placement with priority-based dropping, and the cursor model that the
//! arrow, page, Home, End and Enter keys drive.

use vstd::math::{max, min};
use vstd::prelude::*;

use crate::layout::{fit_by_priority, fit_spec, kept_count, kept_sum, total_width};
use crate::text::saturate;

verus! {

/// Horizontal alignment of text within a column.
#[derive(Clone, Copy, Debug, PartialEq, Eq)]
pub enum Align {
    /// Left.
    Min,
    /// Centred.
    Center,
    /// Right.
    Max,
}

/// Width policy of a [`Column`].
#[derive(Clone, Copy, Debug, PartialEq, Eq)]
pub enum ColumnWidth {
    /// Fixed width in half-width cells.
    Cells(usize),
    /// Takes the width left over; never narrower than `min_cells`.
    Fill {
        /// Minimum width, in half-width cells, before the column is dropped.
        min_cells: usize,
    },
}

/// One column of a list header/rows.
#[derive(Clone, Copy, Debug)]
pub struct Column<'a> {
    /// Header text.
    pub title: &'a str,
    /// Width policy.
    pub width: ColumnWidth,
    /// `Min` = left, `Center`, `Max` = right.
    pub align: Align,
    /// `None` = never dropped; higher values are dropped first when narrow.
    pub drop_priority: Option<u8>,
}

impl<'a> Column<'a> {
    /// New column, left-aligned, never dropped.
    pub fn new(title: &'a str, width: ColumnWidth) -> (c: Self)
        ensures
            c.title == title,
            c.width == width,
            c.align == Align::Min,
            c.drop_priority is None,
    {
        Self { title, width, align: Align::Min, drop_priority: None }
    }

    /// Sets the text alignment within the column.
    pub fn align(self, align: Align) -> (c: Self)
        ensures
            c == (Column { align, ..self }),
    {
        Column { align, ..self }
    }

    /// Sets the drop priority: higher values are dropped first when the row is too narrow.
    pub fn drop_priority(self, p: u8) -> (c: Self)
        ensures
            c == (Column { drop_priority: Some(p), ..self }),
    {
        Column { drop_priority: Some(p), ..self }
    }
}

/// Horizontal placement of one visible column, in half-width cells from the
/// row's left edge.
#[derive(Clone, Copy, Debug, PartialEq, Eq)]
pub struct ColumnSpan {
    /// Left edge, in cells from the row's left edge.
    pub x: usize,
    /// Width in cells.
    pub cells: usize,
    /// Text alignment, copied from the column.
    pub align: Align,
}

/// The width a column asks for before any leftover is shared out.
pub open spec fn min_cells_of(c: Column) -> nat {
    match c.width {
        ColumnWidth::Cells(n) => n as nat,
        ColumnWidth::Fill { min_cells } => min_cells as nat,
    }
}

/// Whether a column takes a share of the leftover width.
pub open spec fn is_fill(c: Column) -> bool {
    c.width is Fill
}

/// The columns' minimum widths, as widths for `fit_by_priority`.
pub open spec fn min_widths(cols: Seq<Column>) -> Seq<u64> {
    Seq::new(cols.len(), |i: int| min_cells_of(cols[i]) as u64)
}

/// The columns' drop priorities.
pub open spec fn priorities(cols: Seq<Column>) -> Seq<Option<u8>> {
    Seq::new(cols.len(), |i: int| cols[i].drop_priority)
}

/// Cells between the 1-cell insets at both ends of a row `width_cells` wide.
pub open spec fn inner_cells(width_cells: int) -> int {
    if width_cells >= 2 { width_cells - 2 } else { 0 }
}

/// Which columns survive: `fit_by_priority` over the minimum widths with a
/// 1-cell gap.
pub open spec fn kept_columns(cols: Seq<Column>, width_cells: int) -> Seq<bool> {
    fit_spec(min_widths(cols), priorities(cols), 1, inner_cells(width_cells) as u64)
}

/// Kept Fill columns of an arbitrary keep mask.
pub open spec fn fills_of(cols: Seq<Column>, mask: Seq<bool>) -> Seq<bool> {
    Seq::new(cols.len(), |i: int| mask[i] && is_fill(cols[i]))
}

/// Kept Fill columns.
pub open spec fn fill_mask(cols: Seq<Column>, width_cells: int) -> Seq<bool> {
    fills_of(cols, kept_columns(cols, width_cells))
}

/// Whole cells left over once the kept columns and their gaps are placed.
pub open spec fn leftover_cells(cols: Seq<Column>, width_cells: int) -> int {
    let used = total_width(min_widths(cols), kept_columns(cols, width_cells), 1);
    let avail = inner_cells(width_cells);
    if avail > used { avail - used } else { 0 }
}

/// Number of kept Fill columns.
pub open spec fn fill_count(cols: Seq<Column>, width_cells: int) -> int {
    kept_count(fill_mask(cols, width_cells), cols.len() as int)
}

/// Extra cells column `i` receives: the leftover split evenly over the kept
/// Fill columns, the remainder going one cell each to the first of them.
pub open spec fn extra_cells(cols: Seq<Column>, width_cells: int, i: int) -> int {
    if fill_mask(cols, width_cells)[i] {
        let nf = fill_count(cols, width_cells);
        let lo = leftover_cells(cols, width_cells);
        lo / nf + if kept_count(fill_mask(cols, width_cells), i) < lo % nf { 1int } else { 0 }
    } else {
        0
    }
}

/// Final width of column `i`.
pub open spec fn span_cells(cols: Seq<Column>, width_cells: int, i: int) -> int {
    min_cells_of(cols[i]) + extra_cells(cols, width_cells, i)
}

/// Left edge of column `i`: after the 1-cell inset, every kept column before
/// it followed by a 1-cell gap.
pub open spec fn span_x(cols: Seq<Column>, width_cells: int, i: int) -> int
    decreases i,
{
    if i <= 0 {
        1
    } else {
        span_x(cols, width_cells, i - 1) + if kept_columns(cols, width_cells)[i - 1] {
            span_cells(cols, width_cells, i - 1) + 1
        } else {
            0
        }
    }
}

/// Sum of all the columns' minimum widths.
pub open spec fn total_min_cells(cols: Seq<Column>) -> int {
    kept_sum(min_widths(cols), Seq::new(cols.len(), |i: int| true), cols.len() as int)
}

/// The columns' minimum widths and drop priorities, in column order.
fn widths_and_priorities(columns: &[Column]) -> (r: (Vec<u64>, Vec<Option<u8>>))
    ensures
        r.0@ == min_widths(columns@),
        r.1@ == priorities(columns@),
{
    let n = columns.len();
    let mut widths: Vec<u64> = Vec::new();
    let mut prio: Vec<Option<u8>> = Vec::new();
    let mut i: usize = 0;
    while i < n
        invariant
            n == columns.len(),
            i <= n,
            widths@ == min_widths(columns@).take(i as int),
            prio@ == priorities(columns@).take(i as int),
        decreases n - i,
    {
        let m = match columns[i].width {
            ColumnWidth::Cells(c) => c,
            ColumnWidth::Fill { min_cells } => min_cells,
        };
        widths.push(m as u64);
        prio.push(columns[i].drop_priority);
        proof {
            assert(widths@ =~= min_widths(columns@).take(i + 1));
            assert(prio@ =~= priorities(columns@).take(i + 1));
        }
        i = i + 1;
    }
    assert(widths@ =~= min_widths(columns@));
    assert(prio@ =~= priorities(columns@));
    (widths, prio)
}

/// Whether a column is a Fill column.
fn column_is_fill(c: &Column) -> (r: bool)
    ensures
        r == is_fill(*c),
{
    match c.width {
        ColumnWidth::Fill { .. } => true,
        ColumnWidth::Cells(_) => false,
    }
}

/// Cells taken by the kept columns at their minimum widths (`cap + 1` when
/// that is more than `cap`), the number of kept columns, and the number of
/// kept Fill columns.
fn measure_kept(columns: &[Column], widths: &Vec<u64>, kept: &Vec<bool>, cap: u64) -> (r: (
    u128,
    usize,
    usize,
))
    requires
        widths@ == min_widths(columns@),
        kept.len() == columns.len(),
    ensures
        r.0 == if kept_sum(widths@, kept@, columns.len() as int) > cap {
            cap + 1
        } else {
            kept_sum(widths@, kept@, columns.len() as int)
        },
        r.1 == kept_count(kept@, columns.len() as int),
        r.2 == kept_count(fills_of(columns@, kept@), columns.len() as int),
        r.1 <= columns.len(),
{
    let n = columns.len();
    let ghost fm = fills_of(columns@, kept@);
    let mut used: u128 = 0;
    let mut count: usize = 0;
    let mut nfill: usize = 0;
    let mut i: usize = 0;
    while i < n
        invariant
            n == columns.len(),
            n == widths.len(),
            n == kept.len(),
            widths@ == min_widths(columns@),
            fm == fills_of(columns@, kept@),
            i <= n,
            used == if kept_sum(widths@, kept@, i as int) > cap {
                cap + 1
            } else {
                kept_sum(widths@, kept@, i as int)
            },
            count == kept_count(kept@, i as int),
            nfill == kept_count(fm, i as int),
            count <= i,
            nfill <= i,
        decreases n - i,
    {
        if kept[i] {
            let w = widths[i] as u128;
            used = if used + w > cap as u128 {
                cap as u128 + 1
            } else {
                used + w
            };
            count = count + 1;
            if column_is_fill(&columns[i]) {
                nfill = nfill + 1;
            }
        }
        i = i + 1;
    }
    (used, count, nfill)
}

/// Places columns in a row `width_cells` wide: 1-cell inset at both ends,
/// 1-cell gap between columns, drops columns via `fit_by_priority` (Fill
/// counts as `min_cells`), then gives leftover whole cells to Fill columns
/// (split evenly, remainder to the first). `None` = dropped. Positions and
/// widths past `usize::MAX` are held at `usize::MAX`.
pub fn column_layout(columns: &[Column], width_cells: usize) -> (spans: Vec<Option<ColumnSpan>>)
    ensures
        spans.len() == columns.len(),
        forall|i: int|
            0 <= i < columns.len() ==> #[trigger] spans@[i] == if kept_columns(columns@, width_cells as int)[i] {
                Some(
                    ColumnSpan {
                        x: saturate(span_x(columns@, width_cells as int, i)) as usize,
                        cells: saturate(span_cells(columns@, width_cells as int, i)) as usize,
                        align: columns@[i].align,
                    },
                )
            } else {
                None
            },
{
    let n = columns.len();
    if n == 0 {
        return Vec::new();
    }
    let (widths, prio) = widths_and_priorities(columns);
    let available: usize = width_cells.saturating_sub(2);
    let kept = fit_by_priority(&widths, &prio, 1, available as u64);
    let (used, count, nfill) = measure_kept(columns, &widths, &kept, available as u64);
    let gaps: usize = if count > 1 {
        count - 1
    } else {
        0
    };
    let total: u128 = used + gaps as u128;
    let leftover: usize = if available as u128 > total {
        (available as u128 - total) as usize
    } else {
        0
    };
    proof {
        assert(kept@ == kept_columns(columns@, width_cells as int));
        assert(leftover == leftover_cells(columns@, width_cells as int));
    }
    let (base, rem) = if nfill > 0 {
        (leftover / nfill, leftover % nfill)
    } else {
        (0, 0)
    };
    place_columns(columns, width_cells, &widths, &kept, leftover, nfill, base, rem)
}

/// The placement pass of `column_layout`, once the kept columns, the
/// leftover cells and its per-Fill-column share are known.
fn place_columns(
    columns: &[Column],
    width_cells: usize,
    widths: &Vec<u64>,
    kept: &Vec<bool>,
    leftover: usize,
    nfill: usize,
    base: usize,
    rem: usize,
) -> (spans: Vec<Option<ColumnSpan>>)
    requires
        widths@ == min_widths(columns@),
        kept@ == kept_columns(columns@, width_cells as int),
        leftover == leftover_cells(columns@, width_cells as int),
        nfill == fill_count(columns@, width_cells as int),
        nfill > 0 ==> base == leftover / nfill && rem == leftover % nfill,
        nfill == 0 ==> base == 0 && rem == 0,
    ensures
        spans.len() == columns.len(),
        forall|i: int|
            0 <= i < columns.len() ==> #[trigger] spans@[i] == if kept_columns(columns@, width_cells as int)[i] {
                Some(
                    ColumnSpan {
                        x: saturate(span_x(columns@, width_cells as int, i)) as usize,
                        cells: saturate(span_cells(columns@, width_cells as int, i)) as usize,
                        align: columns@[i].align,
                    },
                )
            } else {
                None
            },
{
    let n = columns.len();
    let ghost cols = columns@;
    let ghost wc = width_cells as int;
    let ghost km = kept@;
    let ghost fm = fill_mask(cols, wc);
    proof {
        if rem > 0 {
            assert(base + 1 <= usize::MAX) by (nonlinear_arith)
                requires
                    nfill > 0,
                    base == leftover / nfill,
                    rem == leftover % nfill,
                    rem > 0,
                    leftover <= usize::MAX,
            ;
        }
    }
    let mut spans: Vec<Option<ColumnSpan>> = Vec::new();
    let mut x: usize = 1;
    let mut rank: usize = 0;
    let mut i: usize = 0;
    while i < n
        invariant
            n == columns.len(),
            n == widths.len(),
            n == kept.len(),
            cols == columns@,
            wc == width_cells,
            km == kept@,
            widths@ == min_widths(cols),
            fm == fill_mask(cols, wc),
            km == kept_columns(cols, wc),
            leftover == leftover_cells(cols, wc),
            nfill == fill_count(cols, wc),
            nfill > 0 ==> base == leftover / nfill && rem == leftover % nfill,
            nfill == 0 ==> base == 0 && rem == 0,
            rem > 0 ==> base + 1 <= usize::MAX,
            i <= n,
            spans.len() == i,
            rank == kept_count(fm, i as int),
            rank <= i,
            span_x(cols, wc, i as int) >= 1,
            x == saturate(span_x(cols, wc, i as int)),
            forall|j: int|
                0 <= j < i ==> #[trigger] spans@[j] == if km[j] {
                    Some(
                        ColumnSpan {
                            x: saturate(span_x(cols, wc, j)) as usize,
                            cells: saturate(span_cells(cols, wc, j)) as usize,
                            align: cols[j].align,
                        },
                    )
                } else {
                    None
                },
        decreases n - i,
    {
        proof {
            lemma_extra_nonneg(cols, wc, i as int);
        }
        if kept[i] {
            let fill = column_is_fill(&columns[i]);
            let extra: usize = if fill {
                if rank < rem {
                    base + 1
                } else {
                    base
                }
            } else {
                0
            };
            proof {
                assert(fm[i as int] == fill);
                if fill {
                    assert(fm.len() == n);
                    lemma_fill_count_positive(fm, i as int);
                }
            }
            assert(extra == extra_cells(cols, wc, i as int));
            let cells = (widths[i] as usize).saturating_add(extra);
            assert(cells == saturate(span_cells(cols, wc, i as int)));
            spans.push(Some(ColumnSpan { x, cells, align: columns[i].align }));
            x = x.saturating_add(cells).saturating_add(1);
            if fill {
                rank = rank + 1;
            }
        } else {
            spans.push(None);
        }
        i = i + 1;
    }
    spans
}

/// A prefix of a mask's count is no larger than a longer prefix's.
proof fn lemma_kept_count_prefix(mask: Seq<bool>, i: int, k: int)
    requires
        0 <= i <= k <= mask.len(),
    ensures
        kept_count(mask, i) <= kept_count(mask, k),
    decreases k - i,
{
    if i < k {
        lemma_kept_count_prefix(mask, i, k - 1);
    }
}

/// An entry set at `i` is counted in the whole mask, after the entries before it.
proof fn lemma_fill_count_positive(mask: Seq<bool>, i: int)
    requires
        0 <= i < mask.len(),
        mask[i],
    ensures
        kept_count(mask, mask.len() as int) >= kept_count(mask, i) + 1,
        kept_count(mask, i) >= 0,
{
    lemma_kept_count_prefix(mask, i + 1, mask.len() as int);
    crate::layout::lemma_kept_count_bounds(mask, i);
}

/// Left edges in closed form: after the first `i` columns, the left edge is
/// the inset, the kept columns' minimum widths, one gap per kept column, and
/// the extra cells handed to the kept Fill columns so far (`r` of them get
/// the even share, the first `min(r, remainder)` one cell more).
pub proof fn lemma_span_x_closed_form(cols: Seq<Column>, wc: int, i: int)
    requires
        0 <= i <= cols.len(),
    ensures
        ({
            let km = kept_columns(cols, wc);
            let fm = fill_mask(cols, wc);
            let nf = fill_count(cols, wc);
            let lo = leftover_cells(cols, wc);
            let r = kept_count(fm, i);
            let b = if nf > 0 { lo / nf } else { 0 };
            let m = if nf > 0 { lo % nf } else { 0 };
            span_x(cols, wc, i) == 1 + kept_sum(min_widths(cols), km, i) + kept_count(km, i) + r * b
                + if r < m { r } else { m }
        }),
    decreases i,
{
    if i > 0 {
        lemma_span_x_closed_form(cols, wc, i - 1);
        let km = kept_columns(cols, wc);
        let fm = fill_mask(cols, wc);
        let nf = fill_count(cols, wc);
        let lo = leftover_cells(cols, wc);
        let r = kept_count(fm, i - 1);
        let b = if nf > 0 { lo / nf } else { 0 };
        let m = if nf > 0 { lo % nf } else { 0 };
        crate::layout::lemma_kept_count_bounds(fm, i - 1);
        assert(min_widths(cols)[i - 1] == min_cells_of(cols[i - 1]));
        if fm[i - 1] {
            lemma_fill_count_positive(fm, i - 1);
            assert(nf > 0);
            assert((r + 1) * b == r * b + b) by (nonlinear_arith);
            assert(extra_cells(cols, wc, i - 1) == b + if r < m { 1int } else { 0 });
        } else {
            assert(extra_cells(cols, wc, i - 1) == 0);
        }
    }
}

/// Kept columns never overlap: each kept column ends, and a 1-cell gap
/// follows, before any later column starts.
pub proof fn lemma_spans_ordered(cols: Seq<Column>, wc: int, i: int, j: int)
    requires
        0 <= i < j <= cols.len(),
        kept_columns(cols, wc)[i],
    ensures
        span_x(cols, wc, j) >= span_x(cols, wc, i) + span_cells(cols, wc, i) + 1,
    decreases j - i,
{
    if j > i + 1 {
        lemma_spans_ordered(cols, wc, i, j - 1);
        lemma_extra_nonneg(cols, wc, j - 1);
    }
}

/// Extra cells are never negative.
proof fn lemma_extra_nonneg(cols: Seq<Column>, wc: int, i: int)
    requires
        0 <= i < cols.len(),
    ensures
        extra_cells(cols, wc, i) >= 0,
{
    let fm = fill_mask(cols, wc);
    if fm[i] {
        lemma_fill_count_positive(fm, i);
        assert(fm.len() == cols.len());
        let nf = fill_count(cols, wc);
        assert(nf > 0);
        let lo = leftover_cells(cols, wc);
        assert(lo / nf >= 0) by (nonlinear_arith)
            requires
                lo >= 0,
                nf > 0,
        ;
    }
}

/// When the kept columns fit and one of them is a Fill column, the columns
/// and their gaps take the whole row between the two 1-cell insets: the
/// position after the last kept column and its gap is the row width.
pub proof fn lemma_fill_takes_whole_row(cols: Seq<Column>, wc: int)
    requires
        wc >= 2,
        fill_count(cols, wc) > 0,
        total_width(min_widths(cols), kept_columns(cols, wc), 1) <= inner_cells(wc),
    ensures
        span_x(cols, wc, cols.len() as int) == wc,
{
    let n = cols.len() as int;
    lemma_span_x_closed_form(cols, wc, n);
    let km = kept_columns(cols, wc);
    let fm = fill_mask(cols, wc);
    let nf = fill_count(cols, wc);
    let lo = leftover_cells(cols, wc);
    assert(nf * (lo / nf) + lo % nf == lo) by (nonlinear_arith)
        requires
            nf > 0,
    ;
    assert(lo % nf < nf) by (nonlinear_arith)
        requires
            nf > 0,
    ;
    crate::layout::lemma_kept_monotone(min_widths(cols), fm, km, n);
}

/// How kept columns are placed: a fixed-width column keeps exactly its
/// width and a Fill column never gets less than its minimum; the first kept
/// column starts right after the 1-cell inset, and each next kept column
/// starts one gap cell after the previous kept one ends.
pub proof fn lemma_column_spans(cols: Seq<Column>, wc: int, i: int, j: int)
    requires
        0 <= i < j < cols.len(),
        kept_columns(cols, wc)[i],
        kept_columns(cols, wc)[j],
        forall|m: int| i < m < j ==> !#[trigger] kept_columns(cols, wc)[m],
    ensures
        span_x(cols, wc, j) == span_x(cols, wc, i) + span_cells(cols, wc, i) + 1,
        cols[i].width matches ColumnWidth::Cells(n) ==> span_cells(cols, wc, i) == n,
        cols[i].width matches ColumnWidth::Fill { min_cells } ==> span_cells(cols, wc, i) >= min_cells,
        (forall|m: int| 0 <= m < i ==> !#[trigger] kept_columns(cols, wc)[m]) ==> span_x(cols, wc, i) == 1,
    decreases j - i,
{
    lemma_extra_nonneg(cols, wc, i);
    if j > i + 1 {
        lemma_column_spans_gap(cols, wc, i + 1, j);
    }
    if forall|m: int| 0 <= m < i ==> !#[trigger] kept_columns(cols, wc)[m] {
        lemma_span_x_start(cols, wc, i);
    }
}

/// Dropped columns take no room.
proof fn lemma_column_spans_gap(cols: Seq<Column>, wc: int, a: int, j: int)
    requires
        0 < a <= j <= cols.len(),
        forall|m: int| a - 1 < m < j ==> !#[trigger] kept_columns(cols, wc)[m],
    ensures
        span_x(cols, wc, j) == span_x(cols, wc, a),
    decreases j - a,
{
    if j > a {
        lemma_column_spans_gap(cols, wc, a, j - 1);
        assert(!kept_columns(cols, wc)[j - 1]);
    }
}

/// With no kept column before it, a column starts after the inset.
proof fn lemma_span_x_start(cols: Seq<Column>, wc: int, i: int)
    requires
        0 <= i <= cols.len(),
        forall|m: int| 0 <= m < i ==> !#[trigger] kept_columns(cols, wc)[m],
    ensures
        span_x(cols, wc, i) == 1,
    decreases i,
{
    if i > 0 {
        lemma_span_x_start(cols, wc, i - 1);
    }
}

/// The leftover is shared fairly: of two kept Fill columns, the earlier one
/// gets the same number of extra cells as the later one or exactly one more.
pub proof fn lemma_fill_share_fair(cols: Seq<Column>, wc: int, i: int, j: int)
    requires
        0 <= i < j < cols.len(),
        fill_mask(cols, wc)[i],
        fill_mask(cols, wc)[j],
    ensures
        extra_cells(cols, wc, i) == extra_cells(cols, wc, j)
            || extra_cells(cols, wc, i) == extra_cells(cols, wc, j) + 1,
{
    let fm = fill_mask(cols, wc);
    lemma_kept_count_prefix(fm, i + 1, j);
}

/// Persistent state of a list: which row the cursor (selection bar) sits on.
#[derive(Clone, Copy, Debug, PartialEq, Eq)]
pub struct ListState {
    /// Row under the cursor (selection bar). Clamped to the row count each frame.
    pub cursor: usize,
}

impl Default for ListState {
    fn default() -> (s: Self)
        ensures
            s.cursor == 0,
    {
        ListState { cursor: 0 }
    }
}

/// Navigation keys pressed on a focused list during one frame, each counted
/// once per press.
#[derive(Clone, Copy, Debug, PartialEq, Eq)]
pub struct ListKeys {
    /// Arrow Down presses.
    pub down: usize,
    /// Arrow Up presses.
    pub up: usize,
    /// Page Down presses.
    pub page_down: usize,
    /// Page Up presses.
    pub page_up: usize,
    /// Home was pressed.
    pub home: bool,
    /// End was pressed.
    pub end: bool,
    /// Enter was pressed.
    pub enter: bool,
}

/// The cursor moved onto the rows: the last row when it is past the end,
/// row 0 when there are no rows.
pub open spec fn clamp_cursor(cursor: int, row_count: int) -> int {
    if row_count <= 0 {
        0
    } else if cursor < row_count - 1 {
        cursor
    } else {
        row_count - 1
    }
}

/// Rows one Page Up/Down moves: one less than the rows in view, at least one.
pub open spec fn page_rows(visible_rows: int) -> int {
    if visible_rows > 2 { visible_rows - 1 } else { 1 }
}

/// The rows one Page Up/Down press moves by, as a reader states it: one row
/// less than the rows in view, but at least one row.
pub open spec fn page_size(visible_rows: int) -> int {
    max(visible_rows - 1, 1)
}

/// Only arrow keys (and possibly Enter) were pressed.
pub open spec fn arrow_keys_only(keys: ListKeys) -> bool {
    keys.page_down == 0 && keys.page_up == 0 && !keys.home && !keys.end
}

/// Only Page Up/Down keys (and possibly Enter) were pressed.
pub open spec fn page_keys_only(keys: ListKeys) -> bool {
    keys.down == 0 && keys.up == 0 && !keys.home && !keys.end
}

/// `a` moved down by `d` rows, stopping at the last row `last`.
pub open spec fn move_down(a: int, d: int, last: int) -> int {
    if a + d < last { a + d } else { last }
}

/// `a` moved up by `d` rows, stopping at row 0.
pub open spec fn move_up(a: int, d: int) -> int {
    if a - d > 0 { a - d } else { 0 }
}

/// The cursor after one frame's keys, applied in the order Down, Up, Page
/// Down, Page Up, Home, End over `row_count` rows.
pub open spec fn navigate(cursor: int, row_count: int, page: int, keys: ListKeys) -> int {
    let last = row_count - 1;
    let c1 = move_down(cursor, keys.down as int, last);
    let c2 = move_up(c1, keys.up as int);
    let c3 = move_down(c2, keys.page_down * page, last);
    let c4 = move_up(c3, keys.page_up * page);
    let c5 = if keys.home { 0 } else { c4 };
    if keys.end { last } else { c5 }
}

/// `a * b`, or `usize::MAX` when the product does not fit.
fn saturating_product(a: usize, b: usize) -> (r: usize)
    ensures
        r == if a * b > usize::MAX { usize::MAX as int } else { a * b },
{
    match a.checked_mul(b) {
        Some(v) => v,
        None => usize::MAX,
    }
}

impl ListState {
    /// Moves the cursor onto the rows: past the end it goes to the last row;
    /// with no rows it goes to row 0.
    pub fn clamp(&mut self, row_count: usize)
        ensures
            final(self).cursor == clamp_cursor(old(self).cursor as int, row_count as int),
    {
        self.cursor = if row_count == 0 {
            0
        } else if self.cursor < row_count - 1 {
            self.cursor
        } else {
            row_count - 1
        };
    }

    /// Applies one frame's navigation keys to a focused list of `row_count`
    /// rows of which `visible_rows` are in view. Returns the row activated by
    /// Enter, which is the row the cursor ends on.
    pub fn apply_keys(&mut self, row_count: usize, visible_rows: usize, keys: ListKeys) -> (activated:
        Option<usize>)
        requires
            row_count > 0,
        ensures
            final(self).cursor == navigate(
                old(self).cursor as int,
                row_count as int,
                page_rows(visible_rows as int),
                keys,
            ),
            final(self).cursor < row_count,
            arrow_keys_only(keys) && keys.up == 0 ==> final(self).cursor == min(
                old(self).cursor + keys.down,
                row_count - 1,
            ),
            arrow_keys_only(keys) && keys.down == 0 && old(self).cursor < row_count
                ==> final(self).cursor == max(old(self).cursor - keys.up, 0),
            keys.end ==> final(self).cursor == row_count - 1,
            keys.home && !keys.end ==> final(self).cursor == 0,
            page_keys_only(keys) && keys.page_up == 0 ==> final(self).cursor == min(
                old(self).cursor + keys.page_down * page_size(visible_rows as int),
                row_count - 1,
            ),
            page_keys_only(keys) && keys.page_down == 0 && old(self).cursor < row_count
                ==> final(self).cursor == max(
                old(self).cursor - keys.page_up * page_size(visible_rows as int),
                0,
            ),
            activated == if keys.enter {
                Some(final(self).cursor)
            } else {
                None
            },
    {
        let last = row_count - 1;
        let page: usize = if visible_rows > 2 {
            visible_rows - 1
        } else {
            1
        };
        let c = self.cursor.saturating_add(keys.down);
        let c = if c < last {
            c
        } else {
            last
        };
        let c = c.saturating_sub(keys.up);
        let c = c.saturating_add(saturating_product(keys.page_down, page));
        let c = if c < last {
            c
        } else {
            last
        };
        let c = c.saturating_sub(saturating_product(keys.page_up, page));
        let c = if keys.home {
            0
        } else {
            c
        };
        let c = if keys.end {
            last
        } else {
            c
        };
        proof {
            assert(page == page_size(visible_rows as int));
            assert(0 * page == 0);
            if keys.page_down * page > usize::MAX {
                assert(keys.page_down * page > last);
            }
            assert(keys.page_down * page >= 0) by (nonlinear_arith)
                requires
                    keys.page_down >= 0,
                    page >= 0,
            ;
            assert(keys.page_up * page >= 0) by (nonlinear_arith)
                requires
                    keys.page_up >= 0,
                    page >= 0,
            ;
        }
        self.cursor = c;
        if keys.enter {
            Some(c)
        } else {
            None
        }
    }
}

/// No keys at all.
pub open spec fn no_keys() -> ListKeys {
    ListKeys { down: 0, up: 0, page_down: 0, page_up: 0, home: false, end: false, enter: false }
}

/// Clamping leaves the cursor on a row (row 0 of an empty list), and a
/// cursor already on a row stays where it is.
pub proof fn lemma_clamp_on_rows(cursor: int, row_count: int)
    requires
        cursor >= 0,
        row_count >= 0,
    ensures
        row_count > 0 ==> 0 <= clamp_cursor(cursor, row_count) < row_count,
        row_count == 0 ==> clamp_cursor(cursor, row_count) == 0,
        cursor < row_count ==> clamp_cursor(cursor, row_count) == cursor,
        clamp_cursor(clamp_cursor(cursor, row_count), row_count) == clamp_cursor(cursor, row_count),
{
}

/// Arrow Up undoes Arrow Down: going down `k` rows and then up `k` rows
/// returns to the starting row when the last row is not passed.
pub proof fn lemma_down_then_up(cursor: int, row_count: int, page: int, k: usize)
    requires
        0 <= cursor,
        cursor + k < row_count,
    ensures
        navigate(
            navigate(cursor, row_count, page, ListKeys { down: k, ..no_keys() }),
            row_count,
            page,
            ListKeys { up: k, ..no_keys() },
        ) == cursor,
{
}

/// Each Arrow Down press moves one row down, stopping at the last row; each
/// Arrow Up press one row up, stopping at row 0; Enter alone moves nothing.
pub proof fn lemma_arrows_move(cursor: int, row_count: int, page: int, k: usize)
    requires
        0 <= cursor < row_count,
    ensures
        navigate(cursor, row_count, page, ListKeys { down: k, ..no_keys() }) == min(cursor + k, row_count - 1),
        navigate(cursor, row_count, page, ListKeys { up: k, ..no_keys() }) == max(cursor - k, 0),
        navigate(cursor, row_count, page, ListKeys { enter: true, ..no_keys() }) == cursor,
{
    assert(0 * page == 0);
}

/// Home goes to the first row and End to the last, whatever else was
/// pressed; End wins when both are pressed.
pub proof fn lemma_home_end(cursor: int, row_count: int, page: int, keys: ListKeys)
    requires
        row_count > 0,
    ensures
        keys.end ==> navigate(cursor, row_count, page, keys) == row_count - 1,
        keys.home && !keys.end ==> navigate(cursor, row_count, page, keys) == 0,
{
}

/// Page Down moves one page, stopping at the last row; Page Up moves one
/// page back, stopping at the first.
pub proof fn lemma_page_moves(cursor: int, row_count: int, page: int)
    requires
        0 <= cursor < row_count,
        page >= 1,
    ensures
        navigate(cursor, row_count, page, ListKeys { page_down: 1, ..no_keys() }) == if cursor
            + page < row_count - 1 {
            cursor + page
        } else {
            row_count - 1
        },
        navigate(cursor, row_count, page, ListKeys { page_up: 1, ..no_keys() }) == if cursor
            - page > 0 {
            cursor - page
        } else {
            0
        },
{
}

/// Page Down moves the cursor by one row less than the rows in view (at
/// least one row) per press, stopping at the last row; Page Up moves it back
/// the same way, stopping at row 0. With `v >= 2` rows in view, one Page Down
/// from row `c` lands on `min(c + v - 1, row_count - 1)`.
pub proof fn lemma_page_size(cursor: int, row_count: int, visible_rows: int, presses: usize)
    requires
        0 <= cursor < row_count,
    ensures
        navigate(
            cursor,
            row_count,
            page_rows(visible_rows),
            ListKeys { page_down: presses, ..no_keys() },
        ) == min(cursor + presses * max(visible_rows - 1, 1), row_count - 1),
        navigate(
            cursor,
            row_count,
            page_rows(visible_rows),
            ListKeys { page_up: presses, ..no_keys() },
        ) == max(cursor - presses * max(visible_rows - 1, 1), 0),
        visible_rows >= 2 ==> navigate(
            cursor,
            row_count,
            page_rows(visible_rows),
            ListKeys { page_down: 1, ..no_keys() },
        ) == min(cursor + visible_rows - 1, row_count - 1),
        visible_rows >= 2 ==> navigate(
            cursor,
            row_count,
            page_rows(visible_rows),
            ListKeys { page_up: 1, ..no_keys() },
        ) == max(cursor - (visible_rows - 1), 0),
{
    let page = page_rows(visible_rows);
    assert(page == max(visible_rows - 1, 1));
    assert(presses * page >= 0) by (nonlinear_arith)
        requires
            page >= 1,
    ;
    assert(1 * page == page);
}

/// A frame without keys leaves a cursor that is on a row where it is.
pub proof fn lemma_no_keys_no_move(cursor: int, row_count: int, page: int)
    requires
        0 <= cursor < row_count,
    ensures
        navigate(cursor, row_count, page, no_keys()) == cursor,
{
}

} // verus!
