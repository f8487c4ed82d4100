//! Window and sample counts derived from rounded spans.
use vstd::prelude::*;

verus! {

/// Number of cells along one axis of the AV-frame window, given the
/// rounded number of resolution steps across the window
/// (`round(2 * half_extent / resolution)`): `max(1, rounded_span + 1)`.
pub open spec fn spec_window_len(rounded_span: int) -> int {
    if rounded_span + 1 >= 1 {
        rounded_span + 1
    } else {
        1
    }
}

/// Cells along one axis of the AV-frame output window: one more than the
/// rounded span, and never fewer than one.
pub fn window_len(rounded_span: i64) -> (n: usize)
    requires
        rounded_span < i64::MAX,
        rounded_span + 1 <= usize::MAX,
    ensures
        n == spec_window_len(rounded_span as int),
        rounded_span >= 0 ==> n == rounded_span + 1,
        rounded_span < 0 ==> n == 1,
        n >= 1,
{
    let cells: i64 = rounded_span + 1;
    if cells >= 1 {
        cells as usize
    } else {
        1
    }
}

/// Number of samples of a span that is `rounded_steps` steps long, both
/// ends included: the side of the global grid and the number of horizon
/// steps are counted this way.
pub fn sample_count(rounded_steps: usize) -> (n: usize)
    requires
        rounded_steps < usize::MAX,
    ensures
        n == rounded_steps + 1,
{
    rounded_steps + 1
}

/// One more step across the window gives exactly one more cell, for every
/// non-negative span; a window never shrinks as its span grows; and no span
/// gives fewer than one cell.
pub proof fn lemma_window_len_counts_steps(a: int, b: int)
    ensures
        a >= 0 ==> spec_window_len(a) == a + 1,
        a < 0 ==> spec_window_len(a) == 1,
        a >= 0 ==> spec_window_len(a + 1) == spec_window_len(a) + 1,
        a <= b ==> spec_window_len(a) <= spec_window_len(b),
        spec_window_len(a) >= 1,
{
}

} // verus!
