//! Modal dialog with a text body and an fkey-style button row: how it sizes
//! itself and how it reports the user's decision.

use vstd::prelude::*;

verus! {

/// How a message box was closed this frame.
#[derive(Clone, Copy, Debug, PartialEq, Eq)]
pub enum MessageBoxResult {
    /// Button `i` was clicked or its shortcut pressed.
    Button(usize),
    /// Esc (with no button bound to Esc) or `ui.close()`.
    Dismissed,
}

/// What a message box returns this frame: a button pick wins (a button bound
/// to Esc consumes the key before the dialog sees it); otherwise a close
/// request dismisses it; otherwise nothing was decided.
pub open spec fn outcome_spec(button: Option<usize>, close_requested: bool) -> Option<MessageBoxResult> {
    match button {
        Some(i) => Some(MessageBoxResult::Button(i)),
        None => if close_requested {
            Some(MessageBoxResult::Dismissed)
        } else {
            None
        },
    }
}

/// The decision of a message box from the button row's pick and the
/// dialog's close request.
pub fn message_box_outcome(button: Option<usize>, close_requested: bool) -> (r: Option<MessageBoxResult>)
    ensures
        r == outcome_spec(button, close_requested),
{
    match button {
        Some(i) => Some(MessageBoxResult::Button(i)),
        None => if close_requested {
            Some(MessageBoxResult::Dismissed)
        } else {
            None
        },
    }
}

/// Largest of the first `k` values, or 0.
pub open spec fn max_of(s: Seq<usize>, k: int) -> int
    decreases k,
{
    if k <= 0 {
        0
    } else {
        let m = max_of(s, k - 1);
        if s[k - 1] > m { s[k - 1] as int } else { m }
    }
}

/// Largest value of a sequence, or 0 when it is empty.
pub open spec fn seq_max(s: Seq<usize>) -> int {
    max_of(s, s.len() as int)
}

/// Width of a message box's body, in cells: wide enough for the longest
/// line plus a cell on each side, for every button at the widest key and
/// label plus two cells, for the title plus four cells, and never under 20.
pub open spec fn inner_cells_spec(
    line_cells: Seq<usize>,
    key_cells: Seq<usize>,
    label_cells: Seq<usize>,
    title_cells: usize,
) -> int {
    let text = seq_max(line_cells) + 2;
    let buttons = key_cells.len() * (seq_max(key_cells) + seq_max(label_cells) + 2);
    let title = title_cells + 4;
    let a = if text > buttons { text } else { buttons };
    let b = if title > 20 { title as int } else { 20 };
    if a > b { a } else { b }
}

/// Largest value, or 0 when empty.
fn max_cells(s: &[usize]) -> (m: usize)
    ensures
        m == seq_max(s@),
        forall|i: int| 0 <= i < s.len() ==> s@[i] <= m,
{
    let mut m: usize = 0;
    let mut i: usize = 0;
    while i < s.len()
        invariant
            i <= s.len(),
            m == max_of(s@, i as int),
            forall|j: int| 0 <= j < i ==> s@[j] <= m,
        decreases s.len() - i,
    {
        if s[i] > m {
            m = s[i];
        }
        i = i + 1;
    }
    m
}

/// Width of a message box's body, in cells, from the cell widths of its
/// text lines, its buttons' keys and labels, and its title.
pub fn message_box_inner_cells(
    line_cells: &[usize],
    key_cells: &[usize],
    label_cells: &[usize],
    title_cells: usize,
) -> (w: usize)
    requires
        key_cells.len() == label_cells.len(),
        seq_max(line_cells@) + 2 <= usize::MAX,
        key_cells.len() * (seq_max(key_cells@) + seq_max(label_cells@) + 2) <= usize::MAX,
        title_cells + 4 <= usize::MAX,
    ensures
        w == inner_cells_spec(line_cells@, key_cells@, label_cells@, title_cells),
{
    let text = max_cells(line_cells) + 2;
    let k = max_cells(key_cells);
    let l = max_cells(label_cells);
    let n = key_cells.len();
    proof {
        if n > 0 {
            assert(k + l + 2 <= n * (k + l + 2)) by (nonlinear_arith)
                requires
                    n >= 1,
            ;
        }
    }
    let per_button: usize = if n > 0 {
        k + l + 2
    } else {
        0
    };
    let buttons: usize = if n > 0 {
        n * per_button
    } else {
        0
    };
    proof {
        if n == 0 {
            assert(n * (k + l + 2) == 0) by (nonlinear_arith)
                requires
                    n == 0,
            ;
        }
        assert(buttons == key_cells@.len() * (seq_max(key_cells@) + seq_max(label_cells@) + 2));
    }
    let title = title_cells + 4;
    let a = if text > buttons {
        text
    } else {
        buttons
    };
    let b = if title > 20 {
        title
    } else {
        20
    };
    if a > b {
        a
    } else {
        b
    }
}

/// A picked button is always reported, even when a close was requested in
/// the same frame; a close request alone dismisses; nothing else decides.
pub proof fn lemma_button_wins(button: Option<usize>, close_requested: bool)
    ensures
        button matches Some(i) ==> outcome_spec(button, close_requested) == Some(
            MessageBoxResult::Button(i),
        ),
        button is None && close_requested ==> outcome_spec(button, close_requested) == Some(
            MessageBoxResult::Dismissed,
        ),
        outcome_spec(button, close_requested) is None <==> (button is None && !close_requested),
{
}

/// The body is never narrower than 20 cells, than the title plus 4, or than
/// any line plus 2.
pub proof fn lemma_inner_cells_bounds(
    line_cells: Seq<usize>,
    key_cells: Seq<usize>,
    label_cells: Seq<usize>,
    title_cells: usize,
    i: int,
)
    requires
        0 <= i < line_cells.len(),
    ensures
        inner_cells_spec(line_cells, key_cells, label_cells, title_cells) >= 20,
        inner_cells_spec(line_cells, key_cells, label_cells, title_cells) >= title_cells + 4,
        inner_cells_spec(line_cells, key_cells, label_cells, title_cells) >= line_cells[i] + 2,
{
    lemma_max_of_bound(line_cells, i, line_cells.len() as int);
}

proof fn lemma_max_of_bound(s: Seq<usize>, i: int, k: int)
    requires
        0 <= i < k <= s.len(),
    ensures
        s[i] <= max_of(s, k),
    decreases k,
{
    if k - 1 > i {
        lemma_max_of_bound(s, i, k - 1);
    }
}

/// The largest of a non-empty prefix is one of its values.
proof fn lemma_max_of_attained(s: Seq<usize>, k: int)
    requires
        0 < k <= s.len(),
    ensures
        exists|i: int| 0 <= i < k && s[i] == max_of(s, k),
    decreases k,
{
    if k > 1 {
        lemma_max_of_attained(s, k - 1);
        let i = choose|i: int| 0 <= i < k - 1 && s[i] == max_of(s, k - 1);
        if s[k - 1] > max_of(s, k - 1) {
            assert(s[k - 1] == max_of(s, k));
        } else {
            assert(s[i] == max_of(s, k));
        }
    } else {
        assert(max_of(s, 0) == 0);
        assert(s[0] == max_of(s, 1));
    }
}

/// The body is as narrow as it can be: at least 20 cells, the title plus 4,
/// every line plus 2, and, for the buttons, their number times the widest
/// key plus the widest label plus 2; and it is exactly one of these.
pub proof fn lemma_inner_cells_least(
    line_cells: Seq<usize>,
    key_cells: Seq<usize>,
    label_cells: Seq<usize>,
    title_cells: usize,
)
    requires
        key_cells.len() == label_cells.len(),
    ensures
        ({
            let w = inner_cells_spec(line_cells, key_cells, label_cells, title_cells);
            let n = key_cells.len() as int;
            &&& w >= 20
            &&& w >= title_cells + 4
            &&& forall|i: int| 0 <= i < line_cells.len() ==> w >= #[trigger] line_cells[i] + 2
            &&& forall|a: int, b: int|
                0 <= a < n && 0 <= b < n ==> w >= n * (#[trigger] key_cells[a] + #[trigger] label_cells[b] + 2)
            &&& (w == 20 || w == title_cells + 4 || (exists|i: int|
                0 <= i < line_cells.len() && w == #[trigger] line_cells[i] + 2) || (exists|a: int, b: int|
                0 <= a < n && 0 <= b < n && w == n * (#[trigger] key_cells[a] + #[trigger] label_cells[b]
                    + 2)))
        }),
{
    let w = inner_cells_spec(line_cells, key_cells, label_cells, title_cells);
    let n = key_cells.len() as int;
    let mk = seq_max(key_cells);
    let ml = seq_max(label_cells);
    assert forall|i: int| 0 <= i < line_cells.len() implies w >= #[trigger] line_cells[i] + 2 by {
        lemma_max_of_bound(line_cells, i, line_cells.len() as int);
    }
    assert forall|a: int, b: int| 0 <= a < n && 0 <= b < n implies w >= n * (#[trigger] key_cells[a]
        + #[trigger] label_cells[b] + 2) by {
        lemma_max_of_bound(key_cells, a, n);
        lemma_max_of_bound(label_cells, b, n);
        assert(n * (key_cells[a] + label_cells[b] + 2) <= n * (mk + ml + 2)) by (nonlinear_arith)
            requires
                n >= 0,
                key_cells[a] <= mk,
                label_cells[b] <= ml,
        ;
    }
    if line_cells.len() > 0 {
        lemma_max_of_attained(line_cells, line_cells.len() as int);
        let i = choose|i: int| 0 <= i < line_cells.len() && line_cells[i] == max_of(line_cells, line_cells.len() as int);
        if w == seq_max(line_cells) + 2 {
            assert(w == line_cells[i] + 2);
        }
    } else {
        assert(seq_max(line_cells) == 0);
    }
    if n > 0 {
        lemma_max_of_attained(key_cells, n);
        lemma_max_of_attained(label_cells, n);
        let a = choose|a: int| 0 <= a < n && key_cells[a] == max_of(key_cells, n);
        let b = choose|b: int| 0 <= b < n && label_cells[b] == max_of(label_cells, n);
        assert(n * (key_cells[a] + label_cells[b] + 2) == n * (mk + ml + 2));
        if w == n * (mk + ml + 2) {
            assert(w == n * (key_cells[a] + label_cells[b] + 2));
        }
    } else {
        assert(n * (mk + ml + 2) == 0) by (nonlinear_arith)
            requires
                n == 0,
        ;
    }
}

} // verus!
