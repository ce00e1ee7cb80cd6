//! Scalar functions applied across the lanes of a vector.
use crate::lane::LaneVector;
use crate::sample::Sample;
use vstd::prelude::*;

verus! {

/// Applies `f` to every lane of `x`.
pub fn simd_f32func<T: Copy, const LANES: usize>(
    f: impl Fn(T) -> T,
    x: LaneVector<T, LANES>,
) -> (r: LaneVector<T, LANES>)
    requires
        forall|i: int| 0 <= i < LANES ==> call_requires(f, (#[trigger] x.lanes[i],)),
    ensures
        forall|i: int| 0 <= i < LANES ==> call_ensures(f, (x.lanes[i],), #[trigger] r.lanes[i]),
{
    let mut out = x;
    let mut i: usize = 0;
    while i < LANES
        invariant
            i <= LANES,
            forall|k: int| 0 <= k < LANES ==> call_requires(f, (#[trigger] x.lanes[k],)),
            forall|k: int| 0 <= k < i ==> call_ensures(f, (x.lanes[k],), #[trigger] out.lanes[k]),
        decreases LANES - i,
    {
        out.lanes[i] = f(x.lanes[i]);
        i += 1;
    }
    out
}

/// The hyperbolic tangent of every lane.
pub fn simd_f32tanh<S: Sample, const LANES: usize>(
    x: LaneVector<S, LANES>,
) -> (r: LaneVector<S, LANES>)
    ensures
        r.tanh_of(x),
{
    simd_f32func(S::tanh, x)
}

/// The cosine of every lane.
pub fn simd_f32cos<S: Sample, const LANES: usize>(
    x: LaneVector<S, LANES>,
) -> (r: LaneVector<S, LANES>)
    ensures
        r.cos_of(x),
{
    simd_f32func(S::cos, x)
}

/// The sine of every lane.
pub fn simd_f32sin<S: Sample, const LANES: usize>(
    x: LaneVector<S, LANES>,
) -> (r: LaneVector<S, LANES>)
    ensures
        r.sin_of(x),
{
    simd_f32func(S::sin, x)
}

/// The tangent of every lane.
pub fn simd_f32tan<S: Sample, const LANES: usize>(
    x: LaneVector<S, LANES>,
) -> (r: LaneVector<S, LANES>)
    ensures
        r.tan_of(x),
{
    simd_f32func(S::tan, x)
}

} // verus!
