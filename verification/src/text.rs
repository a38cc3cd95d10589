//! Text measured in half-width cells: how many cells a string takes, how to
//! cut it to a width, and the window a scrolling label shows.
//!
//! A character takes two cells when it is full-width: the East Asian wide
//! and full-width blocks (CJK, kana, Hangul, full-width forms), and the
//! symbol blocks that the bundled JIS dot font draws full-width: arrows,
//! mathematical operators (the full-width minus is U+2212), technical
//! symbols, enclosed numbers, box drawing, geometric shapes and
//! miscellaneous symbols. Every other character, half-width katakana
//! included, takes one cell.

use vstd::arithmetic::div_mod::{lemma_fundamental_div_mod, lemma_fundamental_div_mod_converse};
use vstd::prelude::*;
use vstd::string::*;

verus! {

/// Whether `c` is drawn full-width, two cells wide.
pub open spec fn is_wide(c: char) -> bool {
    let v = c as u32;
    ||| 0x1100 <= v <= 0x115F
    ||| 0x2190 <= v <= 0x23FF
    ||| 0x2460 <= v <= 0x24FF
    ||| 0x2500 <= v <= 0x257F
    ||| 0x25A0 <= v <= 0x26FF
    ||| 0x2E80 <= v <= 0x303E
    ||| 0x3041 <= v <= 0x33FF
    ||| 0x3400 <= v <= 0x4DBF
    ||| 0x4E00 <= v <= 0x9FFF
    ||| 0xA000 <= v <= 0xA4CF
    ||| 0xAC00 <= v <= 0xD7A3
    ||| 0xF900 <= v <= 0xFAFF
    ||| 0xFE30 <= v <= 0xFE4F
    ||| 0xFF00 <= v <= 0xFF60
    ||| 0xFFE0 <= v <= 0xFFE6
    ||| 0x20000 <= v <= 0x3FFFD
}

/// Cells one character takes.
pub open spec fn char_width(c: char) -> int {
    if is_wide(c) { 2 } else { 1 }
}

/// Cells a character sequence takes.
pub open spec fn str_cells(s: Seq<char>) -> int
    decreases s.len(),
{
    if s.len() == 0 {
        0
    } else {
        str_cells(s.drop_last()) + char_width(s.last())
    }
}

/// `v` held to the range of `usize`: `usize::MAX` when it is larger, 0 when
/// it is negative.
pub open spec fn saturate(v: int) -> int {
    if v > usize::MAX {
        usize::MAX as int
    } else if v < 0 {
        0
    } else {
        v
    }
}

/// Number of half-width cells `c` takes: 2 when full-width, else 1.
pub fn char_cells(c: char) -> (n: usize)
    ensures
        n == char_width(c),
        n == 1 || n == 2,
        0x3041 <= c as u32 <= 0x30FF ==> n == 2,
        0x3000 <= c as u32 <= 0x303E ==> n == 2,
        0x4E00 <= c as u32 <= 0x9FFF ==> n == 2,
        0xAC00 <= c as u32 <= 0xD7A3 ==> n == 2,
        0xFF01 <= c as u32 <= 0xFF60 ==> n == 2,
        0xFFE0 <= c as u32 <= 0xFFE6 ==> n == 2,
        0x2190 <= c as u32 <= 0x21FF ==> n == 2,
        c as u32 == 0x2212 ==> n == 2,
        0x2500 <= c as u32 <= 0x257F ==> n == 2,
        c as u32 <= 0x7F ==> n == 1,
        0xFF61 <= c as u32 <= 0xFF9F ==> n == 1,
{
    let v = c as u32;
    let wide = (0x1100 <= v && v <= 0x115F)
        || (0x2190 <= v && v <= 0x23FF)
        || (0x2460 <= v && v <= 0x24FF)
        || (0x2500 <= v && v <= 0x257F)
        || (0x25A0 <= v && v <= 0x26FF)
        || (0x2E80 <= v && v <= 0x303E)
        || (0x3041 <= v && v <= 0x33FF)
        || (0x3400 <= v && v <= 0x4DBF)
        || (0x4E00 <= v && v <= 0x9FFF)
        || (0xA000 <= v && v <= 0xA4CF)
        || (0xAC00 <= v && v <= 0xD7A3)
        || (0xF900 <= v && v <= 0xFAFF)
        || (0xFE30 <= v && v <= 0xFE4F)
        || (0xFF00 <= v && v <= 0xFF60)
        || (0xFFE0 <= v && v <= 0xFFE6)
        || (0x20000 <= v && v <= 0x3FFFD);
    if wide {
        2
    } else {
        1
    }
}

/// Number of half-width cells `s` takes (`usize::MAX` if that does not fit).
pub fn cells(s: &str) -> (n: usize)
    ensures
        n == saturate(str_cells(s@)),
{
    let len = s.unicode_len();
    let mut n: usize = 0;
    let mut i: usize = 0;
    while i < len
        invariant
            len == s@.len(),
            i <= len,
            n == saturate(str_cells(s@.take(i as int))),
        decreases len - i,
    {
        let c = s.get_char(i);
        proof {
            assert(s@.take(i + 1).drop_last() =~= s@.take(i as int));
            lemma_str_cells_nonneg(s@.take(i as int));
        }
        n = n.saturating_add(char_cells(c));
        i = i + 1;
    }
    assert(s@.take(len as int) =~= s@);
    n
}

/// Widths by code point: every Hiragana and Katakana character, CJK
/// symbol, CJK ideograph, Hangul syllable and full-width form, and every
/// arrow, minus sign and box-drawing character, takes two cells; ASCII and
/// half-width katakana take one.
pub proof fn lemma_widths_by_block(c: char)
    ensures
        0x3041 <= c as u32 <= 0x30FF ==> char_width(c) == 2,
        0x3000 <= c as u32 <= 0x303E ==> char_width(c) == 2,
        0x4E00 <= c as u32 <= 0x9FFF ==> char_width(c) == 2,
        0xAC00 <= c as u32 <= 0xD7A3 ==> char_width(c) == 2,
        0xFF01 <= c as u32 <= 0xFF60 ==> char_width(c) == 2,
        0xFFE0 <= c as u32 <= 0xFFE6 ==> char_width(c) == 2,
        0x2190 <= c as u32 <= 0x21FF ==> char_width(c) == 2,
        c as u32 == 0x2212 ==> char_width(c) == 2,
        0x2500 <= c as u32 <= 0x257F ==> char_width(c) == 2,
        c as u32 <= 0x7F ==> char_width(c) == 1,
        0xFF61 <= c as u32 <= 0xFF9F ==> char_width(c) == 1,
{
}

/// Text whose characters all take `w` cells takes `w` cells per character:
/// kana-only text takes twice its length, ASCII text its length.
pub proof fn lemma_uniform_text_cells(s: Seq<char>, w: int)
    requires
        forall|i: int| 0 <= i < s.len() ==> char_width(#[trigger] s[i]) == w,
    ensures
        str_cells(s) == w * s.len(),
    decreases s.len(),
{
    if s.len() > 0 {
        let t = s.drop_last();
        assert forall|i: int| 0 <= i < t.len() implies char_width(#[trigger] t[i]) == w by {
            assert(t[i] == s[i]);
        }
        lemma_uniform_text_cells(t, w);
        assert(char_width(s.last()) == w);
        assert(w * t.len() + w == w * s.len()) by (nonlinear_arith)
            requires
                t.len() + 1 == s.len(),
        ;
    }
}

/// Cell counts are never negative.
pub proof fn lemma_str_cells_nonneg(s: Seq<char>)
    ensures
        str_cells(s) >= 0,
    decreases s.len(),
{
    if s.len() > 0 {
        lemma_str_cells_nonneg(s.drop_last());
    }
}

/// A head of a sequence takes no more cells than the sequence.
pub proof fn lemma_str_cells_prefix(s: Seq<char>, k: int)
    requires
        0 <= k <= s.len(),
    ensures
        str_cells(s.take(k)) <= str_cells(s),
    decreases s.len() - k,
{
    if k < s.len() {
        lemma_str_cells_prefix(s, k + 1);
        assert(s.take(k + 1).drop_last() =~= s.take(k));
    } else {
        assert(s.take(k) =~= s);
    }
}

/// `s` cut at the end to fit in `max_cells` cells: the longest head of `s`
/// that fits; `s` itself when it fits.
pub fn truncate_tail(s: &str, max_cells: usize) -> (r: String)
    ensures
        r@.len() <= s@.len(),
        r@ == s@.take(r@.len() as int),
        str_cells(r@) <= max_cells,
        r@.len() == s@.len() || str_cells(s@.take(r@.len() + 1 as int)) > max_cells,
        str_cells(s@) <= max_cells ==> r@ == s@,
{
    let len = s.unicode_len();
    let mut used: usize = 0;
    let mut k: usize = 0;
    let mut full = false;
    while k < len && !full
        invariant
            len == s@.len(),
            k <= len,
            used == str_cells(s@.take(k as int)),
            used <= max_cells,
            full ==> k < len && str_cells(s@.take(k + 1)) > max_cells,
        decreases len - k + if full { 0int } else { 1int },
    {
        let w = char_cells(s.get_char(k));
        proof {
            assert(s@.take(k + 1).drop_last() =~= s@.take(k as int));
        }
        if w > max_cells - used {
            full = true;
        } else {
            used = used + w;
            k = k + 1;
        }
    }
    let head = s.substring_char(0, k);
    assert(s@.subrange(0, k as int) =~= s@.take(k as int));
    assert(s@.take(k as int).take(k as int) =~= s@.take(k as int));
    proof {
        if k < len {
            lemma_str_cells_prefix(s@, k + 1);
        } else {
            assert(s@.take(k as int) =~= s@);
        }
    }
    String::from_str(head)
}

/// The ring a scrolling label cycles through: the text followed by three
/// blank cells.
pub open spec fn marquee_ring(text: Seq<char>) -> Seq<char> {
    text + seq![' ', ' ', ' ']
}

/// The cells of `s`, left to right: `Some(k)` for the cell where character
/// `k` starts, `None` for the second cell of a full-width character.
pub open spec fn lead_cells(s: Seq<char>) -> Seq<Option<usize>>
    decreases s.len(),
{
    if s.len() == 0 {
        Seq::empty()
    } else {
        let k = (s.len() - 1) as usize;
        lead_cells(s.drop_last()) + if is_wide(s.last()) {
            seq![Some(k), None]
        } else {
            seq![Some(k)]
        }
    }
}

/// What the `i`-th cell of a window `max_cells` wide shows: the character
/// starting there, except that a full-width character cut by the right edge,
/// or the second half of one cut by the left edge, shows as a blank.
pub open spec fn window_piece(ring: Seq<char>, cell: Option<usize>, i: int, max_cells: int) -> Seq<char> {
    match cell {
        Some(k) => if is_wide(ring[k as int]) && i == max_cells - 1 {
            seq![' ']
        } else {
            seq![ring[k as int]]
        },
        None => if i == 0 {
            seq![' ']
        } else {
            Seq::empty()
        },
    }
}

/// The first `n` cells of the window that starts `step` cells into the ring
/// and wraps around its end.
pub open spec fn marquee_window(text: Seq<char>, max_cells: int, step: int, n: int) -> Seq<char>
    decreases n,
{
    if n <= 0 {
        Seq::empty()
    } else {
        let ring = marquee_ring(text);
        let cells = lead_cells(ring);
        marquee_window(text, max_cells, step, n - 1) + window_piece(
            ring,
            cells[(step + n - 1) % (cells.len() as int)],
            n - 1,
            max_cells,
        )
    }
}

/// The text a scrolling label shows at scroll step `step`.
pub open spec fn marquee_slice_spec(text: Seq<char>, max_cells: int, step: int) -> Seq<char> {
    marquee_window(text, max_cells, step, max_cells)
}

/// The cells of a character sequence, computed.
fn lead_cells_of(s: &str) -> (v: Vec<Option<usize>>)
    ensures
        v@ == lead_cells(s@),
{
    let len = s.unicode_len();
    let mut v: Vec<Option<usize>> = Vec::new();
    let mut i: usize = 0;
    while i < len
        invariant
            len == s@.len(),
            i <= len,
            v@ == lead_cells(s@.take(i as int)),
        decreases len - i,
    {
        let c = s.get_char(i);
        proof {
            assert(s@.take(i + 1).drop_last() =~= s@.take(i as int));
        }
        v.push(Some(i));
        if char_cells(c) == 2 {
            v.push(None);
        }
        proof {
            assert(v@ =~= lead_cells(s@.take(i + 1)));
        }
        i = i + 1;
    }
    assert(s@.take(len as int) =~= s@);
    v
}

/// Every cell of `lead_cells` names a character of the sequence, and the
/// ring's last cell starts a character.
proof fn lemma_lead_cells_in_range(s: Seq<char>)
    ensures
        forall|j: int|
            0 <= j < lead_cells(s).len() ==> (#[trigger] lead_cells(s)[j] matches Some(k) ==> k < s.len()),
        s.len() > 0 ==> lead_cells(s).len() > 0,
    decreases s.len(),
{
    if s.len() > 0 {
        lemma_lead_cells_in_range(s.drop_last());
    }
}

/// The window of `max_cells` cells a scrolling label shows at scroll step
/// `step`: the ring of the text and three blanks, entered `step` cells in
/// and wrapping around; a full-width character cut by either edge shows as
/// a blank.
pub fn marquee_slice(text: &str, max_cells: usize, step: usize) -> (r: String)
    requires
        text@.len() + 3 <= usize::MAX,
    ensures
        r@ == marquee_slice_spec(text@, max_cells as int, step as int),
        str_cells(r@) == max_cells,
{
    let mut ring = String::from_str(text);
    let blanks = "   ";
    let blank = " ";
    proof {
        reveal_strlit("   ");
        reveal_strlit(" ");
    }
    ring.append(blanks);
    assert(ring@ =~= marquee_ring(text@));
    let cells = lead_cells_of(ring.as_str());
    proof {
        lemma_lead_cells_in_range(ring@);
    }
    let len = cells.len();
    let mut out = String::new();
    let mut pos = step % len;
    let mut i: usize = 0;
    while i < max_cells
        invariant
            text@.len() + 3 <= usize::MAX,
            ring@ == marquee_ring(text@),
            cells@ == lead_cells(ring@),
            len == cells@.len(),
            len > 0,
            forall|j: int|
                0 <= j < lead_cells(ring@).len() ==> (#[trigger] lead_cells(ring@)[j] matches Some(k)
                    ==> k < ring@.len()),
            blank@ == seq![' '],
            i <= max_cells,
            pos < len,
            pos == (step + i) % (len as int),
            out@ == marquee_window(text@, max_cells as int, step as int, i as int),
        decreases max_cells - i,
    {
        match cells[pos] {
            Some(k) => {
                assert(k < ring@.len());
                assert(ring@.len() == text@.len() + 3);
                let c = ring.as_str().get_char(k);
                if char_cells(c) == 2 && i == max_cells - 1 {
                    out.append(blank);
                } else {
                    out.append(ring.as_str().substring_char(k, k + 1));
                    assert(ring@.subrange(k as int, k + 1) =~= seq![ring@[k as int]]);
                }
            },
            None => {
                if i == 0 {
                    out.append(blank);
                }
            },
        }
        proof {
            assert(out@ =~= marquee_window(text@, max_cells as int, step as int, i + 1));
            assert((step + i + 1) % (len as int) == if pos + 1 == len { 0 } else { pos + 1 })
                by (nonlinear_arith)
                requires
                    pos == (step + i) % (len as int),
                    pos < len,
                    len > 0,
            ;
        }
        pos = if pos + 1 == len {
            0
        } else {
            pos + 1
        };
        i = i + 1;
    }
    proof {
        lemma_marquee_width(text@, max_cells as int, step as int);
    }
    out
}

/// Cells of two sequences side by side add up.
pub proof fn lemma_str_cells_concat(a: Seq<char>, b: Seq<char>)
    ensures
        str_cells(a + b) == str_cells(a) + str_cells(b),
    decreases b.len(),
{
    if b.len() > 0 {
        lemma_str_cells_concat(a, b.drop_last());
        assert((a + b).drop_last() =~= a + b.drop_last());
    } else {
        assert(a + b =~= a);
    }
}

/// A single character takes its own width.
proof fn lemma_str_cells_single(c: char)
    ensures
        str_cells(seq![c]) == char_width(c),
{
    let s = seq![c];
    assert(s.drop_last() =~= Seq::<char>::empty());
    assert(s.last() == c);
    assert(str_cells(s) == str_cells(s.drop_last()) + char_width(s.last()));
    assert(str_cells(Seq::<char>::empty()) == 0);
}

/// A second cell of a full-width character directly follows the cell where
/// that character starts.
proof fn lemma_lead_none_follows(s: Seq<char>, j: int)
    requires
        s.len() <= usize::MAX,
        0 <= j < lead_cells(s).len(),
        lead_cells(s)[j] is None,
    ensures
        j >= 1,
        lead_cells(s)[j - 1] is Some,
        0 <= lead_cells(s)[j - 1]->Some_0 < s.len(),
        is_wide(s[lead_cells(s)[j - 1]->Some_0 as int]),
    decreases s.len(),
{
    let t = s.drop_last();
    let p = lead_cells(t);
    let k = (s.len() - 1) as usize;
    let tail = if is_wide(s.last()) { seq![Some(k), None] } else { seq![Some(k)] };
    assert(lead_cells(s) == p + tail);
    if j < p.len() {
        lemma_lead_none_follows(t, j);
        assert(lead_cells(s)[j - 1] == p[j - 1]);
    } else {
        assert(lead_cells(s)[j] == tail[j - p.len()]);
        assert(j == p.len() + 1);
        assert(lead_cells(s)[j - 1] == tail[0]);
    }
}

/// The cell where a full-width character starts is followed by its second
/// cell.
proof fn lemma_lead_wide_followed(s: Seq<char>, j: int)
    requires
        s.len() <= usize::MAX,
        0 <= j < lead_cells(s).len(),
        lead_cells(s)[j] is Some,
        is_wide(s[lead_cells(s)[j]->Some_0 as int]),
    ensures
        j + 1 < lead_cells(s).len(),
        lead_cells(s)[j + 1] is None,
    decreases s.len(),
{
    let t = s.drop_last();
    let p = lead_cells(t);
    let k = (s.len() - 1) as usize;
    let tail = if is_wide(s.last()) { seq![Some(k), None] } else { seq![Some(k)] };
    assert(lead_cells(s) == p + tail);
    if j < p.len() {
        assert(lead_cells(s)[j] == p[j]);
        lemma_lead_cells_in_range(t);
        assert(p[j] matches Some(m) ==> m < t.len());
        assert(t[p[j]->Some_0 as int] == s[p[j]->Some_0 as int]);
        lemma_lead_wide_followed(t, j);
        assert(lead_cells(s)[j + 1] == p[j + 1]);
    } else {
        assert(lead_cells(s)[j] == tail[j - p.len()]);
        assert(j == p.len());
        assert(lead_cells(s)[j + 1] == tail[1]);
    }
}

/// Cells already taken by the first `n` cells of a window beyond `n`: one
/// when cell `n - 1` starts a full-width character that the window shows
/// whole, so that it reaches into cell `n`.
pub open spec fn window_overhang(text: Seq<char>, max_cells: int, step: int, n: int) -> int {
    let ring = marquee_ring(text);
    let cells = lead_cells(ring);
    if 1 <= n < max_cells && (cells[(step + n - 1) % (cells.len() as int)] matches Some(k)
        && is_wide(ring[k as int])) {
        1
    } else {
        0
    }
}

/// The first `n` cells of a window take `n` cells, and one more when a
/// full-width character reaches past them.
proof fn lemma_window_cells(text: Seq<char>, max_cells: int, step: int, n: int)
    requires
        text.len() + 3 <= usize::MAX,
        step >= 0,
        0 <= n <= max_cells,
    ensures
        str_cells(marquee_window(text, max_cells, step, n)) == n + window_overhang(text, max_cells, step, n),
    decreases n,
{
    if n > 0 {
        let ring = marquee_ring(text);
        let cells = lead_cells(ring);
        let len = cells.len() as int;
        lemma_window_cells(text, max_cells, step, n - 1);
        lemma_lead_cells_in_range(ring);
        let i = n - 1;
        let j = (step + i) % len;
        let c = cells[j];
        let piece = window_piece(ring, c, i, max_cells);
        lemma_str_cells_concat(marquee_window(text, max_cells, step, i), piece);
        lemma_fundamental_div_mod(step + i, len);
        assert(0 <= j < len);
        if i >= 1 {
            let a = step + i - 1;
            let r = a % len;
            lemma_fundamental_div_mod(a, len);
            assert(0 <= r < len);
            let q = a / len;
            assert(q * len == len * q) by (nonlinear_arith);
            assert((q + 1) * len == q * len + len) by (nonlinear_arith);
            if r + 1 < len {
                lemma_fundamental_div_mod_converse(step + i, len, a / len, r + 1);
                assert(j == r + 1);
            } else {
                lemma_fundamental_div_mod_converse(step + i, len, a / len + 1, 0);
                assert(j == 0);
            }
            if cells[r] matches Some(k) && is_wide(ring[k as int]) {
                lemma_lead_wide_followed(ring, r);
                assert(r + 1 < len);
                assert(c is None);
            }
            if c is None {
                lemma_lead_none_follows(ring, j);
                assert(j >= 1);
                assert(r == j - 1);
            }
        }
        match c {
            Some(k) => {
                assert(window_overhang(text, max_cells, step, i) == 0);
                if is_wide(ring[k as int]) && i == max_cells - 1 {
                    lemma_str_cells_single(' ');
                } else {
                    lemma_str_cells_single(ring[k as int]);
                }
            },
            None => {
                if i == 0 {
                    lemma_str_cells_single(' ');
                } else {
                    assert(str_cells(piece) == 0);
                }
            },
        }
    }
}

/// A scrolling label's window always takes exactly its width in cells.
pub proof fn lemma_marquee_width(text: Seq<char>, max_cells: int, step: int)
    requires
        text.len() + 3 <= usize::MAX,
        step >= 0,
        max_cells >= 0,
    ensures
        str_cells(marquee_slice_spec(text, max_cells, step)) == max_cells,
{
    lemma_window_cells(text, max_cells, step, max_cells);
}

/// Text of half-width characters has a cell per character, each starting
/// its character.
proof fn lemma_lead_cells_narrow(s: Seq<char>)
    requires
        forall|i: int| 0 <= i < s.len() ==> !is_wide(#[trigger] s[i]),
    ensures
        lead_cells(s) =~= Seq::new(s.len(), |k: int| Some(k as usize)),
    decreases s.len(),
{
    if s.len() > 0 {
        let t = s.drop_last();
        assert forall|i: int| 0 <= i < t.len() implies !is_wide(#[trigger] t[i]) by {
            assert(t[i] == s[i]);
        }
        lemma_lead_cells_narrow(t);
        assert(!is_wide(s[s.len() - 1]));
    }
}

/// A window over half-width text is the text followed by three blanks,
/// read as a ring from position `step` on: cell `i` shows character
/// `(step + i) mod (length + 3)` of that ring.
pub proof fn lemma_marquee_narrow_text(text: Seq<char>, max_cells: int, step: int)
    requires
        text.len() + 3 <= usize::MAX,
        step >= 0,
        max_cells >= 0,
        forall|i: int| 0 <= i < text.len() ==> char_width(#[trigger] text[i]) == 1,
    ensures
        marquee_slice_spec(text, max_cells, step) =~= Seq::new(
            max_cells as nat,
            |i: int| (text + seq![' ', ' ', ' '])[(step + i) % (text.len() + 3) as int],
        ),
{
    let ring = marquee_ring(text);
    assert forall|i: int| 0 <= i < ring.len() implies !is_wide(#[trigger] ring[i]) by {
        if i < text.len() {
            assert(char_width(text[i]) == 1);
        }
    }
    lemma_lead_cells_narrow(ring);
    lemma_window_narrow(text, max_cells, step, max_cells);
}

proof fn lemma_window_narrow(text: Seq<char>, max_cells: int, step: int, n: int)
    requires
        text.len() + 3 <= usize::MAX,
        step >= 0,
        0 <= n <= max_cells,
        lead_cells(marquee_ring(text)) =~= Seq::new(marquee_ring(text).len(), |k: int| Some(k as usize)),
        forall|i: int| 0 <= i < marquee_ring(text).len() ==> !is_wide(#[trigger] marquee_ring(text)[i]),
    ensures
        marquee_window(text, max_cells, step, n) =~= Seq::new(
            n as nat,
            |i: int| (text + seq![' ', ' ', ' '])[(step + i) % (text.len() + 3) as int],
        ),
    decreases n,
{
    if n > 0 {
        lemma_window_narrow(text, max_cells, step, n - 1);
        let ring = marquee_ring(text);
        let len = ring.len() as int;
        let j = (step + n - 1) % len;
        assert(0 <= j < len);
        assert(lead_cells(ring)[j] == Some(j as usize));
        assert(!is_wide(ring[j]));
    }
}

/// Scrolling by the ring's length in cells shows the same window again.
pub proof fn lemma_marquee_periodic(text: Seq<char>, max_cells: int, step: int, n: int)
    requires
        step >= 0,
    ensures
        marquee_window(text, max_cells, step + lead_cells(marquee_ring(text)).len(), n)
            == marquee_window(text, max_cells, step, n),
    decreases n,
{
    if n > 0 {
        lemma_marquee_periodic(text, max_cells, step, n - 1);
        let len = lead_cells(marquee_ring(text)).len() as int;
        lemma_lead_cells_in_range(marquee_ring(text));
        assert((step + len + n - 1) % len == (step + n - 1) % len) by (nonlinear_arith)
            requires
                len > 0,
                step + n - 1 >= 0,
        ;
    }
}

} // verus!
