//! Priority-based fit: drop the least important items first when a row of
//! widths does not fit the available space.
//!
//! Widths are whole units (the list view measures them in half-width cells).

use vstd::prelude::*;

verus! {

/// Sum of the widths of the first `k` items whose mask entry is set.
pub open spec fn kept_sum(widths: Seq<u64>, mask: Seq<bool>, k: int) -> int
    decreases k,
{
    if k <= 0 {
        0
    } else {
        kept_sum(widths, mask, k - 1) + if mask[k - 1] { widths[k - 1] as int } else { 0 }
    }
}

/// Number of set entries among the first `k` entries of `mask`.
pub open spec fn kept_count(mask: Seq<bool>, k: int) -> int
    decreases k,
{
    if k <= 0 {
        0
    } else {
        kept_count(mask, k - 1) + if mask[k - 1] { 1int } else { 0 }
    }
}

/// Width of the kept items laid side by side: their widths plus one `gap`
/// between each pair of kept neighbours.
pub open spec fn total_width(widths: Seq<u64>, mask: Seq<bool>, gap: u64) -> int {
    let c = kept_count(mask, mask.len() as int);
    kept_sum(widths, mask, mask.len() as int) + if c > 1 { gap * (c - 1) } else { 0 }
}

/// Numeric drop priority: the value for `Some`, below every value for `None`.
pub open spec fn rank(p: Option<u8>) -> int {
    match p {
        Some(v) => v as int,
        None => -1,
    }
}

/// Item `j` is dropped before item `i`: it has a higher priority, or the same
/// priority and sits further right.
pub open spec fn outranks(prio: Seq<Option<u8>>, j: int, i: int) -> bool {
    rank(prio[j]) > rank(prio[i]) || (rank(prio[j]) == rank(prio[i]) && j > i)
}

/// The items left once every droppable item that outranks `i` is gone
/// (item `i` itself is still there).
pub open spec fn kept_before(prio: Seq<Option<u8>>, i: int) -> Seq<bool> {
    Seq::new(prio.len(), |j: int| !(prio[j] is Some && outranks(prio, j, i)))
}

/// Keep flags of `fit_by_priority`: a droppable item is dropped exactly when
/// the row is still too wide after every item that outranks it has been
/// dropped; items without a priority are always kept.
pub open spec fn fit_spec(
    widths: Seq<u64>,
    prio: Seq<Option<u8>>,
    gap: u64,
    available: u64,
) -> Seq<bool> {
    Seq::new(
        prio.len(),
        |i: int|
            !(prio[i] is Some && total_width(widths, kept_before(prio, i), gap) > available),
    )
}

/// A mask that keeps no more than another has no larger sum or count.
pub proof fn lemma_kept_monotone(widths: Seq<u64>, m1: Seq<bool>, m2: Seq<bool>, k: int)
    requires
        0 <= k <= m1.len(),
        m1.len() == m2.len(),
        k <= widths.len(),
        forall|j: int| 0 <= j < k && #[trigger] m1[j] ==> m2[j],
    ensures
        kept_sum(widths, m1, k) <= kept_sum(widths, m2, k),
        kept_count(m1, k) <= kept_count(m2, k),
    decreases k,
{
    if k > 0 {
        lemma_kept_monotone(widths, m1, m2, k - 1);
    }
}

/// Counts are non-negative and bounded by the prefix length.
pub proof fn lemma_kept_count_bounds(mask: Seq<bool>, k: int)
    requires
        0 <= k <= mask.len(),
    ensures
        0 <= kept_count(mask, k) <= k,
    decreases k,
{
    if k > 0 {
        lemma_kept_count_bounds(mask, k - 1);
    }
}

/// Dropping items never widens a row: a mask that keeps a subset of another
/// mask's items has a total width no larger than the other's.
pub proof fn lemma_total_width_monotone(widths: Seq<u64>, m1: Seq<bool>, m2: Seq<bool>, gap: u64)
    requires
        m1.len() == m2.len(),
        m1.len() <= widths.len(),
        forall|j: int| 0 <= j < m1.len() && #[trigger] m1[j] ==> m2[j],
    ensures
        total_width(widths, m1, gap) <= total_width(widths, m2, gap),
{
    let n = m1.len() as int;
    lemma_kept_monotone(widths, m1, m2, n);
    let c1 = kept_count(m1, n);
    let c2 = kept_count(m2, n);
    if c1 > 1 {
        assert(gap * (c1 - 1) <= gap * (c2 - 1)) by (nonlinear_arith)
            requires
                c1 <= c2,
                c1 > 1,
                gap >= 0,
        ;
    } else if c2 > 1 {
        assert(gap * (c2 - 1) >= 0) by (nonlinear_arith)
            requires
                c2 > 1,
                gap >= 0,
        ;
    }
}

/// Whether the kept items of `kept` are wider than `available`.
fn exceeds(widths: &[u64], kept: &Vec<bool>, gap: u64, available: u64) -> (r: bool)
    requires
        widths.len() == kept.len(),
    ensures
        r == (total_width(widths@, kept@, gap) > available),
{
    let n = kept.len();
    let cap: u128 = available as u128 + 1;
    let mut sum: u128 = 0;
    let mut count: usize = 0;
    let mut i: usize = 0;
    while i < n
        invariant
            n == kept.len(),
            n == widths.len(),
            i <= n,
            cap == available + 1,
            sum == if kept_sum(widths@, kept@, i as int) >= cap {
                cap as int
            } else {
                kept_sum(widths@, kept@, i as int)
            },
            count == kept_count(kept@, i as int),
            count <= i,
        decreases n - i,
    {
        proof {
            lemma_kept_count_bounds(kept@, i as int);
        }
        if kept[i] {
            let s = sum + widths[i] as u128;
            sum = if s >= cap {
                cap
            } else {
                s
            };
            count = count + 1;
        }
        i = i + 1;
    }
    if sum >= cap {
        return true;
    }
    if count <= 1 {
        return sum > available as u128;
    }
    assert(gap * (count - 1) <= 0xFFFF_FFFF_FFFF_FFFFu128 * 0xFFFF_FFFF_FFFF_FFFFu128)
        by (nonlinear_arith)
        requires
            gap <= 0xFFFF_FFFF_FFFF_FFFFu128,
            count - 1 <= 0xFFFF_FFFF_FFFF_FFFFu128,
            count >= 1,
    ;
    let extra: u128 = gap as u128 * (count - 1) as u128;
    if extra >= cap {
        return true;
    }
    sum + extra > available as u128
}

/// Index of the kept, droppable item that outranks every other kept,
/// droppable item; `None` when no kept item is droppable.
fn find_victim(prio: &[Option<u8>], kept: &Vec<bool>) -> (v: Option<usize>)
    requires
        prio.len() == kept.len(),
    ensures
        match v {
            Some(b) => {
                &&& b < kept.len()
                &&& kept@[b as int]
                &&& prio@[b as int] is Some
                &&& forall|j: int|
                    0 <= j < kept.len() && kept@[j] && prio@[j] is Some && j != b
                        ==> outranks(prio@, b as int, j)
            },
            None => forall|j: int| 0 <= j < kept.len() && kept@[j] ==> prio@[j] is None,
        },
{
    let n = kept.len();
    let mut best: Option<usize> = None;
    let mut best_p: u8 = 0;
    let mut i: usize = 0;
    while i < n
        invariant
            n == kept.len(),
            n == prio.len(),
            i <= n,
            match best {
                Some(b) => {
                    &&& b < i
                    &&& kept@[b as int]
                    &&& prio@[b as int] == Some(best_p)
                    &&& forall|j: int|
                        0 <= j < i && kept@[j] && prio@[j] is Some && j != b
                            ==> outranks(prio@, b as int, j)
                },
                None => forall|j: int| 0 <= j < i && kept@[j] ==> prio@[j] is None,
            },
        decreases n - i,
    {
        if kept[i] {
            match prio[i] {
                Some(p) => {
                    let take = match best {
                        None => true,
                        Some(_) => p >= best_p,
                    };
                    if take {
                        best = Some(i);
                        best_p = p;
                    }
                },
                None => {},
            }
        }
        i = i + 1;
    }
    best
}

/// Decides which items to keep so their widths (plus `gap` between kept
/// neighbours) fit in `available`. Items with `None` are never dropped. Among
/// droppable items the highest priority value is dropped first; ties drop the
/// rightmost first. Returns one keep flag per item, in input order; when no
/// droppable item is left the remaining row may still be too wide.
pub fn fit_by_priority(
    widths: &[u64],
    drop_priority: &[Option<u8>],
    gap: u64,
    available: u64,
) -> (kept: Vec<bool>)
    requires
        widths.len() == drop_priority.len(),
    ensures
        kept@ == fit_spec(widths@, drop_priority@, gap, available),
        total_width(widths@, kept@, gap) <= available
            || forall|j: int| 0 <= j < kept.len() && kept@[j] ==> drop_priority@[j] is None,
{
    let n = widths.len();
    let mut kept: Vec<bool> = Vec::new();
    let mut k: usize = 0;
    while k < n
        invariant
            k <= n,
            kept.len() == k,
            forall|j: int| 0 <= j < k ==> kept@[j],
        decreases n - k,
    {
        kept.push(true);
        k = k + 1;
    }
    let ghost prio = drop_priority@;
    let ghost w = widths@;
    proof {
        lemma_kept_count_bounds(kept@, n as int);
    }
    let mut done = false;
    while !done
        invariant
            n == widths.len(),
            n == drop_priority.len(),
            prio == drop_priority@,
            w == widths@,
            kept.len() == n,
            forall|j: int|
                0 <= j < n && !kept@[j] ==> {
                    &&& prio[j] is Some
                    &&& total_width(w, kept_before(prio, j), gap) > available
                },
            forall|j: int, i: int|
                0 <= j < n && 0 <= i < n && !kept@[j] && kept@[i] && prio[i] is Some
                    ==> outranks(prio, j, i),
            done ==> (total_width(w, kept@, gap) <= available
                || forall|j: int| 0 <= j < n && kept@[j] ==> prio[j] is None),
            0 <= kept_count(kept@, n as int),
        decreases kept_count(kept@, n as int) * 2 + if done { 0int } else { 1int },
    {
        if !exceeds(widths, &kept, gap, available) {
            done = true;
        } else {
            match find_victim(drop_priority, &kept) {
                Some(v) => {
                    let ghost old_kept = kept@;
                    proof {
                        // Every kept item is still there once the items that
                        // outrank `v` are gone.
                        assert forall|j: int|
                            0 <= j < n && #[trigger] old_kept[j] implies kept_before(prio, v as int)[j] by {
                            if prio[j] is Some && outranks(prio, j, v as int) {
                                assert(j != v);
                                assert(outranks(prio, v as int, j));
                            }
                        }
                        lemma_total_width_monotone(w, old_kept, kept_before(prio, v as int), gap);
                    }
                    kept.set(v, false);
                    proof {
                        lemma_kept_count_bounds(kept@, n as int);
                        lemma_kept_count_strict(kept@, old_kept, v as int, n as int);
                    }
                },
                None => {
                    done = true;
                },
            }
        }
    }
    proof {
        assert forall|i: int| 0 <= i < n implies kept@[i] == fit_spec(w, prio, gap, available)[i] by {
            if kept@[i] && prio[i] is Some {
                assert forall|j: int|
                    0 <= j < n && #[trigger] kept_before(prio, i)[j] implies kept@[j] by {
                    if !kept@[j] {
                        assert(prio[j] is Some);
                        assert(outranks(prio, j, i));
                    }
                }
                lemma_total_width_monotone(w, kept_before(prio, i), kept@, gap);
            }
        }
    }
    assert(kept@ =~= fit_spec(w, prio, gap, available));
    kept
}

/// Items without a drop priority are never dropped.
pub proof fn lemma_fit_keeps_undroppable(
    widths: Seq<u64>,
    prio: Seq<Option<u8>>,
    gap: u64,
    available: u64,
    i: int,
)
    requires
        0 <= i < prio.len(),
        prio[i] is None,
    ensures
        fit_spec(widths, prio, gap, available)[i],
{
}

/// A row that already fits loses nothing.
pub proof fn lemma_fit_all_when_fits(widths: Seq<u64>, prio: Seq<Option<u8>>, gap: u64, available: u64)
    requires
        widths.len() == prio.len(),
        total_width(widths, Seq::new(prio.len(), |j: int| true), gap) <= available,
    ensures
        forall|i: int| 0 <= i < prio.len() ==> fit_spec(widths, prio, gap, available)[i],
{
    let all = Seq::new(prio.len(), |j: int| true);
    assert forall|i: int| 0 <= i < prio.len() implies fit_spec(widths, prio, gap, available)[i] by {
        lemma_total_width_monotone(widths, kept_before(prio, i), all, gap);
    }
}

/// Higher priorities go first: when an item is dropped, every droppable item
/// that outranks it (higher priority, or equal priority further right) is
/// dropped too.
pub proof fn lemma_fit_drops_in_rank_order(
    widths: Seq<u64>,
    prio: Seq<Option<u8>>,
    gap: u64,
    available: u64,
    i: int,
    j: int,
)
    requires
        widths.len() == prio.len(),
        0 <= i < prio.len(),
        0 <= j < prio.len(),
        !fit_spec(widths, prio, gap, available)[i],
        prio[j] is Some,
        outranks(prio, j, i),
    ensures
        !fit_spec(widths, prio, gap, available)[j],
{
    assert forall|k: int|
        0 <= k < prio.len() && #[trigger] kept_before(prio, i)[k] implies kept_before(prio, j)[k] by {
    }
    lemma_total_width_monotone(widths, kept_before(prio, i), kept_before(prio, j), gap);
}

/// More room never drops more: every item kept in a row of width `a1` is
/// kept in a row of any width `a2 >= a1`.
pub proof fn lemma_fit_monotone_in_available(
    widths: Seq<u64>,
    prio: Seq<Option<u8>>,
    gap: u64,
    a1: u64,
    a2: u64,
    i: int,
)
    requires
        a1 <= a2,
        0 <= i < prio.len(),
        fit_spec(widths, prio, gap, a1)[i],
    ensures
        fit_spec(widths, prio, gap, a2)[i],
{
}

/// Clearing one set entry lowers the count by one.
proof fn lemma_kept_count_strict(m1: Seq<bool>, m2: Seq<bool>, v: int, k: int)
    requires
        m1.len() == m2.len(),
        0 <= v < k <= m1.len(),
        m2[v],
        !m1[v],
        forall|j: int| 0 <= j < m1.len() && j != v ==> m1[j] == m2[j],
    ensures
        kept_count(m1, k) < kept_count(m2, k),
    decreases k,
{
    if k - 1 > v {
        lemma_kept_count_strict(m1, m2, v, k - 1);
    } else {
        lemma_kept_monotone(Seq::new(m1.len(), |j: int| 0u64), m1, m2, k - 1);
    }
}

} // verus!
