//! Row or column of equal blocks with 1-dot gaps (level meter, volume
//! blocks, gauge): which colour each block takes, and how the mouse wheel
//! steps the lit count.

use vstd::prelude::*;

verus! {

/// Colour of segment `i` when `lit` segments are lit: lit segments use the
/// warn colour from the warn threshold on and the fill colour (`frame` by
/// default) below it; unlit segments use `unlit` (the palette's `well`).
pub open spec fn segment_color_spec<C>(
    i: usize,
    lit: usize,
    fill: Option<C>,
    warn: Option<(usize, C)>,
    frame: C,
    unlit: C,
) -> C {
    if i < lit {
        match warn {
            Some((from, warn_color)) if i >= from => warn_color,
            _ => match fill {
                Some(c) => c,
                None => frame,
            },
        }
    } else {
        unlit
    }
}

/// Colour of segment `i` of a bar with `lit` segments lit, given the bar's
/// optional fill and warn colours and the palette's `frame` and `well`.
pub fn segment_color<C: Copy>(
    i: usize,
    lit: usize,
    fill: Option<C>,
    warn: Option<(usize, C)>,
    frame: C,
    unlit: C,
) -> (c: C)
    ensures
        c == segment_color_spec(i, lit, fill, warn, frame, unlit),
        i >= lit ==> c == unlit,
        i < lit && (warn matches Some((from, w)) && i >= from) ==> c == warn->Some_0.1,
        i < lit && !(warn matches Some((from, w)) && i >= from) ==> c == match fill {
            Some(f) => f,
            None => frame,
        },
{
    if i < lit {
        match warn {
            Some((from, warn_color)) if i >= from => warn_color,
            _ => match fill {
                Some(c) => c,
                None => frame,
            },
        }
    } else {
        unlit
    }
}

/// Lit segments from the warn threshold on take the warn colour, whatever
/// the fill colour; lit segments below it take the fill colour, or `frame`
/// without one; unlit segments take `unlit`.
pub proof fn lemma_segment_colors<C>(
    i: usize,
    lit: usize,
    fill: Option<C>,
    from: usize,
    w: C,
    frame: C,
    unlit: C,
)
    ensures
        i < lit && i >= from ==> segment_color_spec(i, lit, fill, Some((from, w)), frame, unlit) == w,
        i < lit && i >= from ==> segment_color_spec(i, lit, None, Some((from, w)), frame, unlit) == w,
        i < lit && i < from ==> segment_color_spec(i, lit, fill, Some((from, w)), frame, unlit)
            == segment_color_spec(i, lit, fill, None, frame, unlit),
        i < lit ==> segment_color_spec(i, lit, None, None, frame, unlit) == frame,
        i < lit ==> segment_color_spec(i, lit, Some(w), None, frame, unlit) == w,
        i >= lit ==> segment_color_spec(i, lit, fill, Some((from, w)), frame, unlit) == unlit,
{
}

/// Lit count after one mouse-wheel notch over a bar of `segments` segments:
/// up lights one more (at most all), down one fewer (at least none).
pub fn wheel_step(lit: usize, segments: usize, up: bool) -> (r: usize)
    ensures
        up ==> r == if lit + 1 < segments { lit + 1 } else { segments as int },
        !up ==> r == if lit > 0 { lit - 1 } else { 0 },
{
    if up {
        if lit < segments {
            lit + 1
        } else {
            segments
        }
    } else {
        lit.saturating_sub(1)
    }
}

/// A wheel notch up followed by one down returns to the same lit count
/// when not all segments were lit.
pub proof fn lemma_wheel_up_down(lit: int, segments: int)
    requires
        0 <= lit < segments,
    ensures
        ({
            let up = if lit + 1 < segments { lit + 1 } else { segments };
            (if up > 0 { up - 1 } else { 0 }) == lit
        }),
{
}

} // verus!
