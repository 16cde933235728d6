//! Piecewise-linear interpolation across time-of-day segments, in 16-bit
//! fixed point: `progress` runs from 0 to 65536 over a segment, and an
//! interpolated value is `start + (end - start) * progress / 65536`,
//! truncating toward zero. No floating point is involved, so results are
//! reproducible bit for bit.

use vstd::prelude::*;
use vstd::arithmetic::div_mod::{lemma_div_is_ordered, lemma_div_multiples_vanish, lemma_fundamental_div_mod};
use vstd::arithmetic::mul::lemma_mul_inequality;

verus! {

/// Linear interpolation from `start` to `end`, truncating toward zero,
/// exactly `start + (end - start) * progress / 65536` in integers.
pub open spec fn interp_spec(start: int, end: int, progress: int) -> int {
    if end >= start {
        start + (end - start) * progress / 65536
    } else {
        start - (start - end) * progress / 65536
    }
}

/// At `progress = 0` the interpolated value is the segment's start target
/// exactly; at `progress = 65536` it is the end target exactly.
pub proof fn lemma_interp_boundary_exact(start: int, end: int)
    ensures
        interp_spec(start, end, 0) == start,
        interp_spec(start, end, 65536) == end,
{
    if end >= start {
        lemma_div_multiples_vanish(end - start, 65536);
        assert((end - start) * 65536 == 65536 * (end - start)) by (nonlinear_arith);
        assert((end - start) * 0 == 0) by (nonlinear_arith);
    } else {
        lemma_div_multiples_vanish(start - end, 65536);
        assert((start - end) * 65536 == 65536 * (start - end)) by (nonlinear_arith);
        assert((start - end) * 0 == 0) by (nonlinear_arith);
    }
}

/// The interpolated value never leaves the interval spanned by the two
/// targets, as long as progress stays within one segment.
pub proof fn lemma_interp_in_range(start: int, end: int, progress: int)
    requires
        0 <= progress <= 65536,
    ensures
        end >= start ==> start <= interp_spec(start, end, progress) <= end,
        end < start ==> end <= interp_spec(start, end, progress) <= start,
{
    let d = if end >= start { end - start } else { start - end };
    assert(d * 0 == 0) by (nonlinear_arith);
    lemma_mul_inequality(0, progress, d);
    assert(0 * d == 0) by (nonlinear_arith);
    assert(progress * d == d * progress) by (nonlinear_arith);
    lemma_div_is_ordered(0, d * progress, 65536);
    lemma_mul_inequality(progress, 65536, d);
    assert(65536 * d == d * 65536) by (nonlinear_arith);
    lemma_div_is_ordered(d * progress, d * 65536, 65536);
    lemma_div_multiples_vanish(d, 65536);
    assert(d * 65536 == 65536 * d) by (nonlinear_arith);
}

/// Executable interpolation over the u16 range, covering both brightness
/// (u8 targets) and colour temperature (u16 targets).
pub fn interpolate(start: u16, end: u16, progress: u32) -> (r: u16)
    requires
        progress <= 65536,
    ensures
        r == interp_spec(start as int, end as int, progress as int),
        end >= start ==> start <= r <= end,
        end < start ==> end <= r <= start,
{
    proof {
        lemma_interp_in_range(start as int, end as int, progress as int);
    }
    if end >= start {
        let diff: u64 = (end - start) as u64;
        let add: u64 = diff * (progress as u64) / 65536;
        start + (add as u16)
    } else {
        let diff: u64 = (start - end) as u64;
        let sub: u64 = diff * (progress as u64) / 65536;
        start - (sub as u16)
    }
}

/// A boundary table is well formed when it begins at start of day, ends
/// at end of day, and is strictly increasing, so every segment has a
/// positive length and every time of day falls in exactly one segment.
pub open spec fn wf_boundaries(ts: Seq<u32>) -> bool {
    &&& ts.len() >= 2
    &&& ts[0] == 0
    &&& ts[ts.len() - 1] == 86400
    &&& forall|i: int| 0 <= i < ts.len() - 1 ==> #[trigger] ts[i] < ts[i + 1]
}

/// The segment reached by walking forward from segment 0 while the next
/// boundary is at or before the given time of day.
pub open spec fn seg_index_rec(ts: Seq<u32>, tod: u32, i: int) -> int
    decreases ts.len() - i,
{
    if i + 2 < ts.len() && ts[i + 1] <= tod {
        seg_index_rec(ts, tod, i + 1)
    } else {
        i
    }
}

/// The index of the segment containing the given time of day: the count
/// of boundaries after the leading sentinel that lie at or before it.
pub open spec fn segment_index_spec(ts: Seq<u32>, tod: u32) -> int {
    seg_index_rec(ts, tod, 0)
}

proof fn lemma_seg_index_rec_props(ts: Seq<u32>, tod: u32, i: int)
    requires
        wf_boundaries(ts),
        tod < 86400,
        0 <= i < ts.len() - 1,
        ts[i] <= tod,
    ensures
        i <= seg_index_rec(ts, tod, i) < ts.len() - 1,
        ts[seg_index_rec(ts, tod, i)] <= tod < ts[seg_index_rec(ts, tod, i) + 1],
    decreases ts.len() - i,
{
    if i + 2 < ts.len() && ts[i + 1] <= tod {
        lemma_seg_index_rec_props(ts, tod, i + 1);
    }
}

/// The spec segment index always names a real segment whose bounds
/// enclose the time of day.
pub proof fn lemma_segment_index_props(ts: Seq<u32>, tod: u32)
    requires
        wf_boundaries(ts),
        tod < 86400,
    ensures
        0 <= segment_index_spec(ts, tod) < ts.len() - 1,
        ts[segment_index_spec(ts, tod)] <= tod < ts[segment_index_spec(ts, tod) + 1],
{
    lemma_seg_index_rec_props(ts, tod, 0);
}

proof fn lemma_boundaries_monotonic(ts: Seq<u32>, i: int, j: int)
    requires
        wf_boundaries(ts),
        0 <= i < j < ts.len(),
    ensures
        ts[i] < ts[j],
    decreases j - i,
{
    if i + 1 < j {
        lemma_boundaries_monotonic(ts, i + 1, j);
    }
}

/// Segment selection is a pure function of the time of day: only one
/// segment's bounds can enclose a given time, and it is the one the
/// index computation names.
pub proof fn lemma_segment_index_unique(ts: Seq<u32>, tod: u32, i: int)
    requires
        wf_boundaries(ts),
        tod < 86400,
        0 <= i < ts.len() - 1,
        ts[i] <= tod < ts[i + 1],
    ensures
        i == segment_index_spec(ts, tod),
{
    let k = segment_index_spec(ts, tod);
    lemma_segment_index_props(ts, tod);
    if i < k {
        lemma_boundaries_monotonic(ts, i + 1, k);
        assert(false);
    }
    if k < i {
        lemma_boundaries_monotonic(ts, k + 1, i);
        assert(false);
    }
}

/// The executable segment lookup, recomputed fresh on every tick.
pub fn segment_index(ts: &Vec<u32>, tod: u32) -> (r: usize)
    requires
        wf_boundaries(ts@),
        tod < 86400,
    ensures
        r == segment_index_spec(ts@, tod),
        r + 1 < ts@.len(),
        ts@[r as int] <= tod < ts@[r + 1],
{
    proof {
        lemma_segment_index_props(ts@, tod);
    }
    let n = ts.len();
    let mut i: usize = 0;
    while i + 2 < n && ts[i + 1] <= tod
        invariant
            n == ts@.len(),
            0 <= i < n - 1,
            segment_index_spec(ts@, tod) == seg_index_rec(ts@, tod, i as int),
        decreases n - i,
    {
        i = i + 1;
    }
    i
}

/// The elapsed fraction of the segment containing `tod`, as a 16-bit
/// fixed-point ratio computed at whole-second resolution.
pub open spec fn progress_spec(ts: Seq<u32>, tod: u32) -> int {
    let i = segment_index_spec(ts, tod);
    (tod - ts[i]) * 65536 / (ts[i + 1] - ts[i])
}

/// A segment's elapsed fraction never reaches one whole segment: the
/// moment a boundary passes, the next segment begins at progress zero.
pub proof fn lemma_progress_in_range(ts: Seq<u32>, tod: u32)
    requires
        wf_boundaries(ts),
        tod < 86400,
    ensures
        0 <= progress_spec(ts, tod) < 65536,
{
    lemma_segment_index_props(ts, tod);
    let i = segment_index_spec(ts, tod);
    let elapsed = tod - ts[i];
    let total = ts[i + 1] - ts[i];
    assert(elapsed * 0 == 0) by (nonlinear_arith);
    lemma_mul_inequality(0, 65536, elapsed);
    assert(0 * elapsed == 0 && 65536 * elapsed == elapsed * 65536) by (nonlinear_arith);
    lemma_div_is_ordered(0, elapsed * 65536, total);
    let q = elapsed * 65536 / total;
    lemma_fundamental_div_mod(elapsed * 65536, total);
    if q >= 65536 {
        lemma_mul_inequality(65536, q, total);
        assert(q * total <= elapsed * 65536) by {
            lemma_fundamental_div_mod(elapsed * 65536, total);
            assert(elapsed * 65536 == total * q + (elapsed * 65536) % total);
            assert(total * q == q * total) by (nonlinear_arith);
        }
        assert(elapsed * 65536 < total * 65536) by (nonlinear_arith)
            requires elapsed < total;
        assert(total * 65536 == 65536 * total) by (nonlinear_arith);
        assert(false);
    }
}

/// The executable progress computation for the segment containing `tod`.
pub fn segment_progress(ts: &Vec<u32>, tod: u32) -> (r: u32)
    requires
        wf_boundaries(ts@),
        tod < 86400,
    ensures
        r == progress_spec(ts@, tod),
        r < 65536,
{
    proof {
        lemma_progress_in_range(ts@, tod);
    }
    let n = ts.len();
    let i = segment_index(ts, tod);
    let start = ts[i];
    let end = ts[i + 1];
    let elapsed: u64 = (tod - start) as u64;
    let total: u64 = (end - start) as u64;
    (elapsed * 65536 / total) as u32
}

} // verus!
