//! The delay line: a ring of samples with fractional-position reads.
use crate::lane::LaneVector;
use crate::sample::{
    is_count, is_diff, is_floor, is_fract, is_gt, is_index, is_prod, is_ratio, is_rem, is_sum,
    ratio, Sample,
};
use std::collections::VecDeque;
use vstd::prelude::*;

verus! {

/// A fixed-capacity line of samples. Position 0 holds the newest sample, the
/// last position the oldest. The view is the content, newest first.
#[derive(Debug, Clone)]
pub struct Delay<T> {
    buffer: VecDeque<T>,
}

impl<T> View for Delay<T> {
    type V = Seq<T>;

    closed spec fn view(&self) -> Seq<T> {
        self.buffer@
    }
}

/// The content of a line after `next` was pushed: `next` in front, the
/// oldest sample gone. A line without capacity stays empty.
pub open spec fn pushed<T>(line: Seq<T>, next: T) -> Seq<T> {
    if line.len() == 0 {
        line
    } else {
        seq![next] + line.drop_last()
    }
}

/// The content of a line after every sample of `xs` was pushed in turn.
pub open spec fn pushed_all<T>(line: Seq<T>, xs: Seq<T>) -> Seq<T>
    decreases xs.len(),
{
    if xs.len() == 0 {
        line
    } else {
        pushed(pushed_all(line, xs.drop_last()), xs.last())
    }
}

/// The position that a read at `i` is clamped to in a line of `len > 0`
/// samples.
pub open spec fn clamped(len: nat, i: int) -> int {
    if i < len {
        i
    } else {
        len - 1
    }
}

impl<T> Delay<T> {
    /// Pushes `next` as the newest sample and drops the oldest. The length
    /// stays as it was.
    pub fn push_next(&mut self, next: T)
        ensures
            final(self)@ == pushed(old(self)@, next),
            final(self)@.len() == old(self)@.len(),
    {
        if self.buffer.len() > 0 {
            self.buffer.pop_back();
            self.buffer.push_front(next);
            assert(self@ =~= pushed(old(self)@, next));
        }
    }

    /// The capacity of the line.
    pub fn len(&self) -> (n: usize)
        ensures
            n == self@.len(),
    {
        self.buffer.len()
    }
}

impl<T: Default> Delay<T> {
    /// A line of `max_delay` samples, each a default value of `T`.
    pub fn new(max_delay: usize) -> (r: Self)
        ensures
            r@.len() == max_delay,
            forall|i: int| 0 <= i < max_delay ==> call_ensures(T::default, (), #[trigger] r@[i]),
    {
        let mut buffer: VecDeque<T> = VecDeque::new();
        let mut i: usize = 0;
        while i < max_delay
            invariant
                i <= max_delay,
                buffer@.len() == i,
                forall|k: int| 0 <= k < i ==> call_ensures(T::default, (), #[trigger] buffer@[k]),
            decreases max_delay - i,
        {
            buffer.push_back(T::default());
            i += 1;
        }
        Delay { buffer }
    }

    /// Overwrites every sample with a default value of `T`; the capacity
    /// stays.
    pub fn reset(&mut self)
        ensures
            final(self)@.len() == old(self)@.len(),
            forall|i: int|
                0 <= i < final(self)@.len() ==> call_ensures(
                    T::default,
                    (),
                    #[trigger] final(self)@[i],
                ),
    {
        let n = self.buffer.len();
        self.buffer.clear();
        let mut i: usize = 0;
        while i < n
            invariant
                i <= n,
                self.buffer@.len() == i,
                forall|k: int|
                    0 <= k < i ==> call_ensures(T::default, (), #[trigger] self.buffer@[k]),
            decreases n - i,
        {
            self.buffer.push_back(T::default());
            i += 1;
        }
    }
}

impl<T: Copy + Default> Delay<T> {
    /// `r` is what a read at the whole position `i` gives: the sample at
    /// `i`, or the oldest sample where `i` lies beyond it. A line without
    /// capacity reads as a default value of `T`.
    pub open spec fn reads(self, i: int, r: T) -> bool {
        if self@.len() == 0 {
            call_ensures(T::default, (), r)
        } else {
            r == self@[clamped(self@.len(), i)]
        }
    }

    /// Reads the sample at the whole position `i`, clamped into the line.
    pub fn sample(&self, i: usize) -> (r: T)
        ensures
            self.reads(i as int, r),
    {
        let n = self.buffer.len();
        if n == 0 {
            return T::default();
        }
        let index = if i < n {
            i
        } else {
            n - 1
        };
        self.buffer[index]
    }
}

impl<T: Copy + Default> Delay<T> {
    /// `x0` to `x3` are what the reads around the whole position `ix` give:
    /// at `ix - 2`, `ix - 1`, `ix` and `ix + 1`, none of them before the
    /// newest sample nor beyond the oldest.
    pub open spec fn anchored(self, ix: int, x0: T, x1: T, x2: T, x3: T) -> bool {
        &&& self.reads(
            if ix >= 2 {
                ix - 2
            } else {
                0
            },
            x0,
        )
        &&& self.reads(
            if ix >= 1 {
                ix - 1
            } else {
                0
            },
            x1,
        )
        &&& self.reads(ix, x2)
        &&& self.reads(ix + 1, x3)
    }

    /// The four samples that an interpolated read around the whole position
    /// `ix` is computed from.
    pub fn anchors(&self, ix: usize) -> (p: [T; 4])
        ensures
            self.anchored(ix as int, p[0], p[1], p[2], p[3]),
    {
        let n = self.len();
        let x0 = self.sample(ix.saturating_sub(2));
        let x1 = self.sample(ix.saturating_sub(1));
        let x2 = self.sample(ix);
        let x3 = self.sample(ix.saturating_add(1));
        assert(clamped(n as nat, ix.saturating_add(1) as int) == clamped(n as nat, ix + 1));
        [x0, x1, x2, x3]
    }
}

/// The constants of the interpolation polynomial.
pub struct CubicWeights<S> {
    pub half: S,
    pub two: S,
    pub three: S,
    pub four: S,
    pub five: S,
}

impl<S: Sample> CubicWeights<S> {
    /// Each field is the constant that its name says.
    pub open spec fn valid(self) -> bool {
        &&& is_ratio(1, 2, self.half)
        &&& is_count(2, self.two)
        &&& is_count(3, self.three)
        &&& is_count(4, self.four)
        &&& is_count(5, self.five)
    }

    /// The constants, each derived once.
    pub fn new() -> (k: Self)
        ensures
            k.valid(),
    {
        CubicWeights {
            half: ratio(1, 2),
            two: S::from_count(2),
            three: S::from_count(3),
            four: S::from_count(4),
            five: S::from_count(5),
        }
    }
}

/// `z` is the cubic coefficient `3 (x1 - x2) + x3 - x0`, evaluated from left
/// to right.
pub open spec fn is_cubic_term<S: Sample>(
    k: CubicWeights<S>,
    x0: S,
    x1: S,
    x2: S,
    x3: S,
    z: S,
) -> bool {
    exists|d: S, e: S, g: S|
        {
            &&& #[trigger] is_diff(x1, x2, d)
            &&& #[trigger] is_prod(k.three, d, e)
            &&& #[trigger] is_sum(e, x3, g)
            &&& is_diff(g, x0, z)
        }
}

/// `y` is the quadratic coefficient `2 x0 - 5 x1 + 4 x2 - x3 + t z`,
/// evaluated from left to right.
pub open spec fn is_square_term<S: Sample>(
    k: CubicWeights<S>,
    t: S,
    x0: S,
    x1: S,
    x2: S,
    x3: S,
    z: S,
    y: S,
) -> bool {
    exists|a: S, b: S, c: S, d: S, e: S, g: S, h: S|
        {
            &&& #[trigger] is_prod(k.two, x0, a)
            &&& #[trigger] is_prod(k.five, x1, b)
            &&& #[trigger] is_diff(a, b, c)
            &&& #[trigger] is_prod(k.four, x2, d)
            &&& #[trigger] is_sum(c, d, e)
            &&& #[trigger] is_diff(e, x3, g)
            &&& #[trigger] is_prod(t, z, h)
            &&& is_sum(g, h, y)
        }
}

/// `r` is `x1 + (1/2) t (x2 - x0 + t y)`, evaluated from left to right.
pub open spec fn is_linear_term<S: Sample>(
    k: CubicWeights<S>,
    t: S,
    x0: S,
    x1: S,
    x2: S,
    y: S,
    r: S,
) -> bool {
    exists|a: S, b: S, c: S, d: S, e: S|
        {
            &&& #[trigger] is_diff(x2, x0, a)
            &&& #[trigger] is_prod(t, y, b)
            &&& #[trigger] is_sum(a, b, c)
            &&& #[trigger] is_prod(k.half, t, d)
            &&& #[trigger] is_prod(d, c, e)
            &&& is_sum(x1, e, r)
        }
}

/// `r` is the four-point cubic through `x0` to `x3` at the fraction `t` of
/// the way from `x1` to `x2`:
/// `x1 + (1/2) t (x2 - x0 + t (2 x0 - 5 x1 + 4 x2 - x3 + t (3 (x1 - x2) + x3 - x0)))`.
pub open spec fn is_cubic_lane<S: Sample>(
    k: CubicWeights<S>,
    t: S,
    x0: S,
    x1: S,
    x2: S,
    x3: S,
    r: S,
) -> bool {
    exists|z: S, y: S|
        {
            &&& #[trigger] is_cubic_term(k, x0, x1, x2, x3, z)
            &&& #[trigger] is_square_term(k, t, x0, x1, x2, x3, z, y)
            &&& is_linear_term(k, t, x0, x1, x2, y, r)
        }
}

/// One lane of the cubic interpolation.
pub fn cubic_lane<S: Sample>(k: &CubicWeights<S>, t: S, x0: S, x1: S, x2: S, x3: S) -> (r: S)
    ensures
        is_cubic_lane(*k, t, x0, x1, x2, x3, r),
{
    let z = k.three.times(x1.minus(x2)).plus(x3).minus(x0);
    assert(is_cubic_term(*k, x0, x1, x2, x3, z));
    let y = k.two.times(x0).minus(k.five.times(x1)).plus(k.four.times(x2)).minus(x3).plus(
        t.times(z),
    );
    assert(is_square_term(*k, t, x0, x1, x2, x3, z, y));
    let r = x1.plus(k.half.times(t).times(x2.minus(x0).plus(t.times(y))));
    assert(is_linear_term(*k, t, x0, x1, x2, y, r));
    r
}

/// `r` is, lane by lane, the cubic through the four vectors of `p` at the
/// fraction `t`, all lanes sharing one set of constants.
pub open spec fn is_cubic<S: Sample, const L: usize>(
    t: S,
    p: [LaneVector<S, L>; 4],
    r: LaneVector<S, L>,
) -> bool {
    exists|k: CubicWeights<S>|
        {
            &&& #[trigger] k.valid()
            &&& forall|i: int|
                0 <= i < L ==> is_cubic_lane(
                    k,
                    t,
                    p[0].lanes[i],
                    p[1].lanes[i],
                    p[2].lanes[i],
                    p[3].lanes[i],
                    #[trigger] r.lanes[i],
                )
        }
}

/// Four-point cubic interpolation between `p[1]` (at `t = 0`) and `p[2]`
/// (at `t = 1`), with `p[0]` and `p[3]` shaping the slope at either end.
pub fn cubic<S: Sample, const L: usize>(t: S, p: [LaneVector<S, L>; 4]) -> (r: LaneVector<S, L>)
    ensures
        is_cubic(t, p, r),
{
    let k = CubicWeights::new();
    let mut out = p[1];
    let mut i: usize = 0;
    while i < L
        invariant
            i <= L,
            forall|j: int|
                0 <= j < i ==> is_cubic_lane(
                    k,
                    t,
                    p[0].lanes[j],
                    p[1].lanes[j],
                    p[2].lanes[j],
                    p[3].lanes[j],
                    #[trigger] out.lanes[j],
                ),
        decreases L - i,
    {
        out.lanes[i] = cubic_lane(
            &k,
            t,
            p[0].lanes[i],
            p[1].lanes[i],
            p[2].lanes[i],
            p[3].lanes[i],
        );
        i += 1;
    }
    assert(k.valid());
    out
}

/// `w` is the position `pos` wrapped into a line of `n` samples:
/// `(pos + n) % n`, and, where that is still below zero, wrapped once more
/// in the same way. A position that lies within the line stays as it is.
pub open spec fn is_wrapped<S: Sample>(pos: S, n: S, w: S) -> bool {
    exists|shifted: S, first: S, zero: S, below: bool|
        {
            &&& #[trigger] is_sum(pos, n, shifted)
            &&& #[trigger] is_rem(shifted, n, first)
            &&& #[trigger] is_count(0, zero)
            &&& #[trigger] is_gt(zero, first, below)
            &&& if below {
                exists|again: S| #[trigger] is_sum(first, n, again) && is_rem(again, n, w)
            } else {
                w == first
            }
        }
}

/// Wraps a position into a line of `n` samples, so that it lies from zero
/// up to, but not at, `n`.
pub fn wrap<S: Sample>(pos: S, n: S) -> (w: S)
    ensures
        is_wrapped(pos, n, w),
{
    let shifted = pos.plus(n);
    let first = shifted.modulo(n);
    let zero = S::from_count(0);
    let below = zero.exceeds(first);
    if below {
        let again = first.plus(n);
        let w = again.modulo(n);
        assert(is_sum(first, n, again) && is_rem(again, n, w));
        assert(is_sum(pos, n, shifted) && is_rem(shifted, n, first) && is_count(0, zero)
            && is_gt(zero, first, below));
        w
    } else {
        assert(is_sum(pos, n, shifted) && is_rem(shifted, n, first) && is_count(0, zero)
            && is_gt(zero, first, below));
        first
    }
}

impl<S: Sample, const L: usize> Delay<LaneVector<S, L>> {
    /// `r` is what an interpolated read at the position `pos` gives. The
    /// position is wrapped into the line; its whole part selects the
    /// anchors and its fraction the point between them.
    pub open spec fn taps(self, pos: S, r: LaneVector<S, L>) -> bool {
        exists|n: S, wrapped: S, whole: S, ix: usize, f: S, p: [LaneVector<S, L>; 4]|
            {
                &&& #[trigger] is_count(self@.len() as usize, n)
                &&& #[trigger] is_wrapped(pos, n, wrapped)
                &&& #[trigger] is_floor(wrapped, whole)
                &&& #[trigger] is_index(whole, ix)
                &&& #[trigger] is_fract(wrapped, f)
                &&& #[trigger] self.anchored(ix as int, p[0], p[1], p[2], p[3])
                &&& is_cubic(f, p, r)
            }
    }

    /// `x` is lane `i` of what an interpolated read at `pos` gives.
    pub open spec fn taps_lane(self, pos: S, i: int, x: S) -> bool {
        exists|v: LaneVector<S, L>| #[trigger] self.taps(pos, v) && v.lanes[i] == x
    }

    /// `r` is what a read with one position per lane gives: lane `i` of `r`
    /// is lane `i` of the read at `pos.lanes[i]`.
    pub open spec fn gets(self, pos: LaneVector<S, L>, r: LaneVector<S, L>) -> bool {
        forall|i: int| 0 <= i < L ==> self.taps_lane(pos.lanes[i], i, #[trigger] r.lanes[i])
    }

    /// Reads the line at a fractional position by cubic interpolation.
    /// Positions outside the line wrap into it; no read goes out of bounds.
    pub fn tap(&self, pos: S) -> (r: LaneVector<S, L>)
        ensures
            self.taps(pos, r),
    {
        let n = S::from_count(self.len());
        let wrapped = wrap(pos, n);
        let whole = wrapped.floor();
        let ix = whole.to_count();
        let f = wrapped.fract();
        let p = self.anchors(ix);
        let r = cubic(f, p);
        assert(is_count(self@.len() as usize, n) && is_wrapped(pos, n, wrapped) && is_floor(
            wrapped,
            whole,
        ) && is_index(whole, ix) && is_fract(wrapped, f) && self.anchored(
            ix as int,
            p[0],
            p[1],
            p[2],
            p[3],
        ) && is_cubic(f, p, r));
        r
    }

    /// Reads every lane at its own position: lane `i` of the result is lane
    /// `i` of the line read at `pos.lanes[i]`.
    pub fn get(&self, pos: LaneVector<S, L>) -> (r: LaneVector<S, L>)
        ensures
            self.gets(pos, r),
    {
        let mut res = pos;
        let mut i: usize = 0;
        while i < L
            invariant
                i <= L,
                forall|j: int|
                    0 <= j < i ==> self.taps_lane(pos.lanes[j], j, #[trigger] res.lanes[j]),
            decreases L - i,
        {
            let v = self.tap(pos.lanes[i]);
            res.lanes[i] = v.lanes[i];
            i += 1;
        }
        res
    }
}

/// After at least as many pushes as the line is long, the line holds the
/// last pushed samples, newest first, and nothing of what it held before.
/// After fewer pushes the earlier content has moved back by their number.
pub proof fn lemma_pushed_all<T>(line: Seq<T>, xs: Seq<T>)
    ensures
        pushed_all(line, xs).len() == line.len(),
        forall|i: int|
            0 <= i < line.len() && i < xs.len() ==> #[trigger] pushed_all(line, xs)[i]
                == xs[xs.len() - 1 - i],
        forall|i: int|
            xs.len() <= i < line.len() ==> #[trigger] pushed_all(line, xs)[i] == line[i - xs.len()],
    decreases xs.len(),
{
    if xs.len() > 0 {
        lemma_pushed_all(line, xs.drop_last());
    }
}

/// In a line that holds samples, an interpolated read around the whole
/// position `ix` runs from the sample one position before `ix` to the sample
/// at `ix`, both clamped into the line: these are the anchors `x1` and `x2`.
pub proof fn lemma_anchors_are_neighbours<T: Copy + Default>(
    line: Delay<T>,
    ix: int,
    x0: T,
    x1: T,
    x2: T,
    x3: T,
)
    requires
        line@.len() > 0,
        0 <= ix,
        line.anchored(ix, x0, x1, x2, x3),
    ensures
        ix == 0 ==> x1 == line@[0],
        1 <= ix <= line@.len() ==> x1 == line@[ix - 1],
        ix < line@.len() ==> x2 == line@[ix],
        ix >= line@.len() ==> x2 == line@.last() && x3 == line@.last(),
{
}

/// An impulse followed by as many silent samples as the line is long leaves
/// no trace: every position then holds silence.
pub proof fn lemma_impulse_decays<T>(line: Seq<T>, impulse: T, silence: T, xs: Seq<T>)
    requires
        xs.len() == line.len() + 1,
        xs[0] == impulse,
        forall|i: int| 1 <= i < xs.len() ==> xs[i] == silence,
    ensures
        pushed_all(line, xs).len() == line.len(),
        forall|i: int| 0 <= i < line.len() ==> #[trigger] pushed_all(line, xs)[i] == silence,
{
    lemma_pushed_all(line, xs);
}

} // verus!
