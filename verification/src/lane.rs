//! Lane vectors: a fixed number of samples processed side by side.
use crate::sample::{
    is_cos, is_count, is_diff, is_neg, is_prod, is_quot, is_sin, is_sum, is_tan, is_tanh, is_tau,
    Sample,
};
use vstd::prelude::*;

verus! {

/// A fixed-width tuple of samples, one per lane. All arithmetic on lane
/// vectors is elementwise.
#[derive(Debug, Clone, Copy)]
pub struct LaneVector<S, const L: usize> {
    pub lanes: [S; L],
}

impl<S: Sample, const L: usize> LaneVector<S, L> {
    /// Every lane of `self` is `x`.
    pub open spec fn all(self, x: S) -> bool {
        forall|i: int| 0 <= i < L ==> #[trigger] self.lanes[i] == x
    }

    /// Every lane of `self` is a zero of the scalar type.
    pub open spec fn is_zero(self) -> bool {
        forall|i: int| 0 <= i < L ==> is_count(0, #[trigger] self.lanes[i])
    }

    /// Every lane of `self` is one and the same value of the constant `n`.
    pub open spec fn is_constant(self, n: usize) -> bool {
        exists|c: S| is_count(n, c) && #[trigger] self.all(c)
    }

    /// Every lane of `self` is one and the same value of a full turn.
    pub open spec fn is_turn(self) -> bool {
        exists|c: S| is_tau(c) && #[trigger] self.all(c)
    }

    /// Lane by lane, `self` is what `a.cos()` gave.
    pub open spec fn cos_of(self, a: Self) -> bool {
        forall|i: int| 0 <= i < L ==> is_cos(a.lanes[i], #[trigger] self.lanes[i])
    }

    /// Lane by lane, `self` is what `a.sin()` gave.
    pub open spec fn sin_of(self, a: Self) -> bool {
        forall|i: int| 0 <= i < L ==> is_sin(a.lanes[i], #[trigger] self.lanes[i])
    }

    /// Lane by lane, `self` is what `a.tan()` gave.
    pub open spec fn tan_of(self, a: Self) -> bool {
        forall|i: int| 0 <= i < L ==> is_tan(a.lanes[i], #[trigger] self.lanes[i])
    }

    /// Lane by lane, `self` is what `a.tanh()` gave.
    pub open spec fn tanh_of(self, a: Self) -> bool {
        forall|i: int| 0 <= i < L ==> is_tanh(a.lanes[i], #[trigger] self.lanes[i])
    }

    /// Lane by lane, `self` is what `a.plus(b)` gave.
    pub open spec fn sum_of(self, a: Self, b: Self) -> bool {
        forall|i: int| 0 <= i < L ==> is_sum(a.lanes[i], b.lanes[i], #[trigger] self.lanes[i])
    }

    /// Lane by lane, `self` is what `a.minus(b)` gave.
    pub open spec fn diff_of(self, a: Self, b: Self) -> bool {
        forall|i: int| 0 <= i < L ==> is_diff(a.lanes[i], b.lanes[i], #[trigger] self.lanes[i])
    }

    /// Lane by lane, `self` is what `a.times(b)` gave.
    pub open spec fn prod_of(self, a: Self, b: Self) -> bool {
        forall|i: int| 0 <= i < L ==> is_prod(a.lanes[i], b.lanes[i], #[trigger] self.lanes[i])
    }

    /// Lane by lane, `self` is what `a.over(b)` gave.
    pub open spec fn quot_of(self, a: Self, b: Self) -> bool {
        forall|i: int| 0 <= i < L ==> is_quot(a.lanes[i], b.lanes[i], #[trigger] self.lanes[i])
    }

    /// Lane by lane, `self` is what `a.negated()` gave.
    pub open spec fn neg_of(self, a: Self) -> bool {
        forall|i: int| 0 <= i < L ==> is_neg(a.lanes[i], #[trigger] self.lanes[i])
    }

    /// Lane by lane, `self` is what `a.times(k)` gave.
    pub open spec fn scaled_of(self, a: Self, k: S) -> bool {
        forall|i: int| 0 <= i < L ==> is_prod(a.lanes[i], k, #[trigger] self.lanes[i])
    }

    /// Lane `i` of `self` is lane `idx[i]` of `src`, or a zero where `src`
    /// has no such lane.
    pub open spec fn gathered_of<const N: usize>(
        self,
        src: LaneVector<S, N>,
        idx: [usize; L],
    ) -> bool {
        forall|i: int|
            0 <= i < L ==> if idx[i] < N {
                #[trigger] self.lanes[i] == src.lanes[idx[i] as int]
            } else {
                is_count(0, self.lanes[i])
            }
    }

    /// The vector whose lanes all hold `x`.
    pub fn splat(x: S) -> (r: Self)
        ensures
            r.all(x),
    {
        LaneVector { lanes: [x;L] }
    }

    /// The vector of the constant `n`.
    pub fn constant(n: usize) -> (r: Self)
        ensures
            r.is_constant(n),
    {
        Self::splat(S::from_count(n))
    }

    /// The vector of a full turn.
    pub fn turn() -> (r: Self)
        ensures
            r.is_turn(),
    {
        Self::splat(S::tau())
    }

    /// The sum, lane by lane.
    pub fn plus(self, rhs: Self) -> (r: Self)
        ensures
            r.sum_of(self, rhs),
    {
        let mut out = self;
        let mut i: usize = 0;
        while i < L
            invariant
                i <= L,
                forall|k: int|
                    0 <= k < i ==> is_sum(self.lanes[k], rhs.lanes[k], #[trigger] out.lanes[k]),
            decreases L - i,
        {
            out.lanes[i] = self.lanes[i].plus(rhs.lanes[i]);
            i += 1;
        }
        out
    }

    /// The difference, lane by lane.
    pub fn minus(self, rhs: Self) -> (r: Self)
        ensures
            r.diff_of(self, rhs),
    {
        let mut out = self;
        let mut i: usize = 0;
        while i < L
            invariant
                i <= L,
                forall|k: int|
                    0 <= k < i ==> is_diff(self.lanes[k], rhs.lanes[k], #[trigger] out.lanes[k]),
            decreases L - i,
        {
            out.lanes[i] = self.lanes[i].minus(rhs.lanes[i]);
            i += 1;
        }
        out
    }

    /// The product, lane by lane.
    pub fn times(self, rhs: Self) -> (r: Self)
        ensures
            r.prod_of(self, rhs),
    {
        let mut out = self;
        let mut i: usize = 0;
        while i < L
            invariant
                i <= L,
                forall|k: int|
                    0 <= k < i ==> is_prod(self.lanes[k], rhs.lanes[k], #[trigger] out.lanes[k]),
            decreases L - i,
        {
            out.lanes[i] = self.lanes[i].times(rhs.lanes[i]);
            i += 1;
        }
        out
    }

    /// The quotient, lane by lane.
    pub fn over(self, rhs: Self) -> (r: Self)
        ensures
            r.quot_of(self, rhs),
    {
        let mut out = self;
        let mut i: usize = 0;
        while i < L
            invariant
                i <= L,
                forall|k: int|
                    0 <= k < i ==> is_quot(self.lanes[k], rhs.lanes[k], #[trigger] out.lanes[k]),
            decreases L - i,
        {
            out.lanes[i] = self.lanes[i].over(rhs.lanes[i]);
            i += 1;
        }
        out
    }

    /// The negation, lane by lane.
    pub fn negated(self) -> (r: Self)
        ensures
            r.neg_of(self),
    {
        let mut out = self;
        let mut i: usize = 0;
        while i < L
            invariant
                i <= L,
                forall|k: int| 0 <= k < i ==> is_neg(self.lanes[k], #[trigger] out.lanes[k]),
            decreases L - i,
        {
            out.lanes[i] = self.lanes[i].negated();
            i += 1;
        }
        out
    }

    /// Picks lanes of `src` by index: lane `i` of the result is lane
    /// `idx[i]` of `src`, or a zero where `src` has no such lane.
    pub fn gather<const N: usize>(src: LaneVector<S, N>, idx: [usize; L]) -> (r: Self)
        ensures
            r.gathered_of(src, idx),
    {
        let zero = S::from_count(0);
        let mut out = Self::splat(zero);
        let mut i: usize = 0;
        while i < L
            invariant
                i <= L,
                is_count(0, zero),
                forall|k: int| i <= k < L ==> out.lanes[k] == zero,
                forall|k: int|
                    0 <= k < i ==> if idx[k] < N {
                        #[trigger] out.lanes[k] == src.lanes[idx[k] as int]
                    } else {
                        is_count(0, out.lanes[k])
                    },
            decreases L - i,
        {
            if idx[i] < N {
                out.lanes[i] = src.lanes[idx[i]];
            }
            i += 1;
        }
        out
    }

    /// Every lane multiplied by the same scalar.
    pub fn scaled(self, k: S) -> (r: Self)
        ensures
            r.scaled_of(self, k),
    {
        let mut out = self;
        let mut i: usize = 0;
        while i < L
            invariant
                i <= L,
                forall|j: int| 0 <= j < i ==> is_prod(self.lanes[j], k, #[trigger] out.lanes[j]),
            decreases L - i,
        {
            out.lanes[i] = self.lanes[i].times(k);
            i += 1;
        }
        out
    }
}

impl<S: Sample, const L: usize> Default for LaneVector<S, L> {
    /// Silence: a zero in every lane.
    fn default() -> (r: Self)
        ensures
            r.is_zero(),
            exists|z: S| #[trigger] r.all(z),
    {
        Self::splat(S::from_count(0))
    }
}

} // verus!
