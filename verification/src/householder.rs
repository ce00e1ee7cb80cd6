//! The Householder reflection: an all-to-all mix of the lanes that keeps
//! the energy of the signal.
use crate::lane::LaneVector;
use crate::sample::{is_count, is_neg, is_prod, is_quot, is_sum, Sample};
use vstd::prelude::*;

verus! {

/// `sums` are the running sums of the lanes of `v`: it starts from a zero,
/// and each further entry is the one before plus the next lane.
pub open spec fn is_running_sum<S: Sample, const L: usize>(
    v: LaneVector<S, L>,
    sums: Seq<S>,
) -> bool {
    &&& sums.len() == L + 1
    &&& is_count(0, sums[0])
    &&& forall|i: int| 0 <= i < L ==> is_sum(sums[i], v.lanes[i], #[trigger] sums[i + 1])
}

/// `total` is the sum of all lanes of `v`, added from the first lane to the
/// last.
pub open spec fn is_total<S: Sample, const L: usize>(v: LaneVector<S, L>, total: S) -> bool {
    exists|sums: Seq<S>| #[trigger] is_running_sum(v, sums) && sums[L as int] == total
}

/// `r` is the reflection of `v`: with `s = (v[0] + .. + v[L-1]) * (-2 / L)`,
/// every lane of `r` is the lane of `v` plus `s`.
pub open spec fn is_reflection<S: Sample, const L: usize>(
    v: LaneVector<S, L>,
    r: LaneVector<S, L>,
) -> bool {
    exists|total: S, two: S, minus_two: S, width: S, gain: S, s: S|
        {
            &&& #[trigger] is_total(v, total)
            &&& #[trigger] is_count(2, two)
            &&& #[trigger] is_neg(two, minus_two)
            &&& #[trigger] is_count(L, width)
            &&& #[trigger] is_quot(minus_two, width, gain)
            &&& #[trigger] is_prod(total, gain, s)
            &&& forall|i: int| 0 <= i < L ==> is_sum(v.lanes[i], s, #[trigger] r.lanes[i])
        }
}

/// Reflects `v` about the plane orthogonal to the all-ones vector.
pub fn transform<S: Sample, const L: usize>(v: LaneVector<S, L>) -> (r: LaneVector<S, L>)
    ensures
        is_reflection(v, r),
{
    let mut total = S::from_count(0);
    let ghost mut sums: Seq<S> = seq![total];
    let mut i: usize = 0;
    while i < L
        invariant
            i <= L,
            sums.len() == i + 1,
            sums[i as int] == total,
            is_count(0, sums[0]),
            forall|k: int| 0 <= k < i ==> is_sum(sums[k], v.lanes[k], #[trigger] sums[k + 1]),
        decreases L - i,
    {
        total = total.plus(v.lanes[i]);
        proof {
            sums = sums.push(total);
        }
        i += 1;
    }
    assert(is_running_sum(v, sums));
    let two = S::from_count(2);
    let minus_two = two.negated();
    let width = S::from_count(L);
    let gain = minus_two.over(width);
    let s = total.times(gain);
    let mut out = v;
    let mut i: usize = 0;
    while i < L
        invariant
            i <= L,
            forall|k: int| 0 <= k < i ==> is_sum(v.lanes[k], s, #[trigger] out.lanes[k]),
        decreases L - i,
    {
        out.lanes[i] = v.lanes[i].plus(s);
        i += 1;
    }
    assert(is_total(v, total) && is_count(2, two) && is_neg(two, minus_two) && is_count(
        L,
        width,
    ) && is_quot(minus_two, width, gain) && is_prod(total, gain, s));
    out
}

} // verus!
