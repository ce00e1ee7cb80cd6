//! The biquad filter: a second-order recursive section, with first-order
//! forms for damping.
use crate::lane::LaneVector;
use crate::sample::Sample;
use crate::simdmath::{simd_f32cos, simd_f32sin, simd_f32tan};
use vstd::prelude::*;

verus! {

/// The coefficients of a section, one set per lane: `b` feeds the input
/// forward, `a` feeds the output back. The leading feedback coefficient is
/// one and is not stored.
#[derive(Debug, Copy, Clone)]
pub struct BiquadParams<S, const LANES: usize> {
    pub a: [LaneVector<S, LANES>; 2],
    pub b: [LaneVector<S, LANES>; 3],
}

impl<S: Sample, const LANES: usize> BiquadParams<S, LANES> {
    /// The section that passes its input through: `b = [1, 0, 0]` and
    /// `a = [0, 0]`.
    pub open spec fn is_identity(self) -> bool {
        &&& self.a[0].is_constant(0)
        &&& self.a[1].is_constant(0)
        &&& self.b[0].is_constant(1)
        &&& self.b[1].is_constant(0)
        &&& self.b[2].is_constant(0)
    }

    /// `w0`, `cw0` and `alpha` are the angular frequency `tau * fc`, its
    /// cosine, and `sin(w0) / (2 q)`.
    pub open spec fn is_prewarped(
        fc: LaneVector<S, LANES>,
        q: LaneVector<S, LANES>,
        cw0: LaneVector<S, LANES>,
        alpha: LaneVector<S, LANES>,
    ) -> bool {
        exists|
            tau: LaneVector<S, LANES>,
            w0: LaneVector<S, LANES>,
            sw0: LaneVector<S, LANES>,
            two: LaneVector<S, LANES>,
            twice_q: LaneVector<S, LANES>,
        |
            {
                &&& #[trigger] tau.is_turn()
                &&& #[trigger] w0.prod_of(tau, fc)
                &&& cw0.cos_of(w0)
                &&& #[trigger] sw0.sin_of(w0)
                &&& #[trigger] two.is_constant(2)
                &&& #[trigger] twice_q.prod_of(two, q)
                &&& alpha.quot_of(sw0, twice_q)
            }
    }

    /// `self` is the band-pass section at the centre `fc` and the resonance
    /// `q`, every coefficient normalised by `a0`. With
    /// `alpha = sin(tau fc) / (2 q)` and `a0 = 1 + alpha`:
    /// `b = [alpha / a0, 0, -alpha / a0]` and
    /// `a = [-2 cos(tau fc) / a0, (1 - alpha) / a0]`.
    pub open spec fn is_bandpass(self, fc: LaneVector<S, LANES>, q: LaneVector<S, LANES>) -> bool {
        exists|
            cw0: LaneVector<S, LANES>,
            alpha: LaneVector<S, LANES>,
            minus_alpha: LaneVector<S, LANES>,
            one: LaneVector<S, LANES>,
            a0: LaneVector<S, LANES>,
            two: LaneVector<S, LANES>,
            minus_two: LaneVector<S, LANES>,
            a1: LaneVector<S, LANES>,
            a2: LaneVector<S, LANES>,
        |
            {
                &&& #[trigger] Self::is_prewarped(fc, q, cw0, alpha)
                &&& #[trigger] minus_alpha.neg_of(alpha)
                &&& self.b[0].quot_of(alpha, a0)
                &&& self.b[1].is_constant(0)
                &&& self.b[2].quot_of(minus_alpha, a0)
                &&& #[trigger] one.is_constant(1)
                &&& #[trigger] a0.sum_of(one, alpha)
                &&& #[trigger] two.is_constant(2)
                &&& #[trigger] minus_two.neg_of(two)
                &&& #[trigger] a1.prod_of(minus_two, cw0)
                &&& #[trigger] a2.diff_of(one, alpha)
                &&& self.a[0].quot_of(a1, a0)
                &&& self.a[1].quot_of(a2, a0)
            }
    }

    /// `self` is the all-pass section at the centre `fc` and the resonance
    /// `q`. With `alpha = sin(tau fc) / (2 q)` and `a0 = 1 + alpha`:
    /// `b = [(1 - alpha) / a0, -2 cos(tau fc) / a0, 1]`, `a = [b[1], b[0]]`.
    pub open spec fn is_allpass(self, fc: LaneVector<S, LANES>, q: LaneVector<S, LANES>) -> bool {
        exists|
            cw0: LaneVector<S, LANES>,
            alpha: LaneVector<S, LANES>,
            one: LaneVector<S, LANES>,
            a0: LaneVector<S, LANES>,
            rest: LaneVector<S, LANES>,
            two: LaneVector<S, LANES>,
            minus_two: LaneVector<S, LANES>,
            scaled: LaneVector<S, LANES>,
        |
            {
                &&& #[trigger] Self::is_prewarped(fc, q, cw0, alpha)
                &&& #[trigger] one.is_constant(1)
                &&& #[trigger] a0.sum_of(one, alpha)
                &&& #[trigger] rest.diff_of(one, alpha)
                &&& self.b[0].quot_of(rest, a0)
                &&& #[trigger] two.is_constant(2)
                &&& #[trigger] minus_two.neg_of(two)
                &&& #[trigger] scaled.prod_of(minus_two, cw0)
                &&& self.b[1].quot_of(scaled, a0)
                &&& self.b[2].is_constant(1)
                &&& self.a[0] == self.b[1]
                &&& self.a[1] == self.b[0]
            }
    }

    /// `k`, `a` and `a1` are what both first-order sections share:
    /// `k = tan(fc / 2)`, `a = 1 + k` and `a1 = -(1 - fc) / a`.
    pub open spec fn is_one_pole(
        fc: LaneVector<S, LANES>,
        one: LaneVector<S, LANES>,
        k: LaneVector<S, LANES>,
        a: LaneVector<S, LANES>,
        a1: LaneVector<S, LANES>,
    ) -> bool {
        exists|
            two: LaneVector<S, LANES>,
            half_fc: LaneVector<S, LANES>,
            rest: LaneVector<S, LANES>,
            minus_rest: LaneVector<S, LANES>,
        |
            {
                &&& #[trigger] two.is_constant(2)
                &&& #[trigger] half_fc.quot_of(fc, two)
                &&& k.tan_of(half_fc)
                &&& one.is_constant(1)
                &&& a.sum_of(one, k)
                &&& #[trigger] rest.diff_of(one, fc)
                &&& #[trigger] minus_rest.neg_of(rest)
                &&& a1.quot_of(minus_rest, a)
            }
    }

    /// `self` is the first-order low-pass section at the cutoff `fc`. With
    /// `k = tan(fc / 2)` and `a = 1 + k`: `b = [k / a, k / a, 0]` and
    /// `a = [-(1 - fc) / a, 0]`.
    pub open spec fn is_lowpass_1p(self, fc: LaneVector<S, LANES>) -> bool {
        exists|one: LaneVector<S, LANES>, k: LaneVector<S, LANES>, a: LaneVector<S, LANES>|
            {
                &&& #[trigger] Self::is_one_pole(fc, one, k, a, self.a[0])
                &&& self.a[1].is_constant(0)
                &&& self.b[0].quot_of(k, a)
                &&& self.b[1].quot_of(k, a)
                &&& self.b[2].is_constant(0)
            }
    }

    /// `self` is the first-order high-pass section at the cutoff `fc`. With
    /// `k = tan(fc / 2)` and `a = 1 + k`: `b = [1 / a, -1 / a, 0]` and
    /// `a = [-(1 - fc) / a, 0]`.
    pub open spec fn is_highpass_1p(self, fc: LaneVector<S, LANES>) -> bool {
        exists|
            one: LaneVector<S, LANES>,
            k: LaneVector<S, LANES>,
            a: LaneVector<S, LANES>,
            minus_one: LaneVector<S, LANES>,
        |
            {
                &&& #[trigger] Self::is_one_pole(fc, one, k, a, self.a[0])
                &&& self.a[1].is_constant(0)
                &&& self.b[0].quot_of(one, a)
                &&& #[trigger] minus_one.neg_of(one)
                &&& self.b[1].quot_of(minus_one, a)
                &&& self.b[2].is_constant(0)
            }
    }

    fn prewarp(fc: LaneVector<S, LANES>, q: LaneVector<S, LANES>) -> (r: (
        LaneVector<S, LANES>,
        LaneVector<S, LANES>,
    ))
        ensures
            Self::is_prewarped(fc, q, r.0, r.1),
    {
        let tau = LaneVector::turn();
        let w0 = tau.times(fc);
        let cw0 = simd_f32cos(w0);
        let sw0 = simd_f32sin(w0);
        let two = LaneVector::constant(2);
        let twice_q = two.times(q);
        let alpha = sw0.over(twice_q);
        assert(tau.is_turn() && w0.prod_of(tau, fc) && sw0.sin_of(w0) && two.is_constant(2)
            && twice_q.prod_of(two, q));
        (cw0, alpha)
    }

    fn one_pole(fc: LaneVector<S, LANES>) -> (r: (
        LaneVector<S, LANES>,
        LaneVector<S, LANES>,
        LaneVector<S, LANES>,
        LaneVector<S, LANES>,
    ))
        ensures
            Self::is_one_pole(fc, r.0, r.1, r.2, r.3),
    {
        let two = LaneVector::constant(2);
        let half_fc = fc.over(two);
        let k = simd_f32tan(half_fc);
        let one = LaneVector::constant(1);
        let a = one.plus(k);
        let rest = one.minus(fc);
        let minus_rest = rest.negated();
        let a1 = minus_rest.over(a);
        assert(two.is_constant(2) && half_fc.quot_of(fc, two) && rest.diff_of(one, fc)
            && minus_rest.neg_of(rest));
        (one, k, a, a1)
    }

    /// The band-pass section centred on the normalised frequency `fc`
    /// (cycles per sample) with the resonance `q`.
    pub fn bandpass(fc: LaneVector<S, LANES>, q: LaneVector<S, LANES>) -> (r: Self)
        ensures
            r.is_bandpass(fc, q),
    {
        let (cw0, alpha) = Self::prewarp(fc, q);
        let minus_alpha = alpha.negated();
        let one = LaneVector::constant(1);
        let a0 = one.plus(alpha);
        let two = LaneVector::constant(2);
        let minus_two = two.negated();
        let a1 = minus_two.times(cw0);
        let a2 = one.minus(alpha);
        let b0 = alpha.over(a0);
        let b1 = LaneVector::constant(0);
        let b2 = minus_alpha.over(a0);
        let r = BiquadParams { a: [a1.over(a0), a2.over(a0)], b: [b0, b1, b2] };
        assert(Self::is_prewarped(fc, q, cw0, alpha) && minus_alpha.neg_of(alpha)
            && one.is_constant(1) && a0.sum_of(one, alpha) && two.is_constant(2)
            && minus_two.neg_of(two) && a1.prod_of(minus_two, cw0) && a2.diff_of(one, alpha));
        r
    }

    /// The all-pass section centred on the normalised frequency `fc` with
    /// the resonance `q`.
    pub fn allpass(fc: LaneVector<S, LANES>, q: LaneVector<S, LANES>) -> (r: Self)
        ensures
            r.is_allpass(fc, q),
    {
        let (cw0, alpha) = Self::prewarp(fc, q);
        let one = LaneVector::constant(1);
        let a0 = one.plus(alpha);
        let rest = one.minus(alpha);
        let b0 = rest.over(a0);
        let two = LaneVector::constant(2);
        let minus_two = two.negated();
        let scaled = minus_two.times(cw0);
        let b1 = scaled.over(a0);
        let b2 = LaneVector::constant(1);
        let r = BiquadParams { a: [b1, b0], b: [b0, b1, b2] };
        assert(Self::is_prewarped(fc, q, cw0, alpha) && one.is_constant(1) && a0.sum_of(one, alpha)
            && rest.diff_of(one, alpha) && two.is_constant(2) && minus_two.neg_of(two)
            && scaled.prod_of(minus_two, cw0));
        r
    }

    /// The first-order low-pass section with the cutoff `fc`. The resonance
    /// has no part in a first-order section.
    pub fn lowpass_1p(fc: LaneVector<S, LANES>, _q: LaneVector<S, LANES>) -> (r: Self)
        ensures
            r.is_lowpass_1p(fc),
    {
        let (one, k, a, a1) = Self::one_pole(fc);
        let b0 = k.over(a);
        let b1 = k.over(a);
        let zero = LaneVector::constant(0);
        let r = BiquadParams { a: [a1, zero], b: [b0, b1, LaneVector::constant(0)] };
        assert(Self::is_one_pole(fc, one, k, a, r.a[0]));
        r
    }

    /// The first-order high-pass section with the cutoff `fc`. The resonance
    /// has no part in a first-order section.
    pub fn highpass_1p(fc: LaneVector<S, LANES>, _q: LaneVector<S, LANES>) -> (r: Self)
        ensures
            r.is_highpass_1p(fc),
    {
        let (one, k, a, a1) = Self::one_pole(fc);
        let b0 = one.over(a);
        let minus_one = one.negated();
        let b1 = minus_one.over(a);
        let zero = LaneVector::constant(0);
        let r = BiquadParams { a: [a1, zero], b: [b0, b1, LaneVector::constant(0)] };
        assert(Self::is_one_pole(fc, one, k, a, r.a[0]) && minus_one.neg_of(one));
        r
    }
}

impl<S: Sample, const LANES: usize> Default for BiquadParams<S, LANES> {
    /// The section that passes its input through.
    fn default() -> (r: Self)
        ensures
            r.is_identity(),
    {
        BiquadParams {
            a: [LaneVector::constant(0), LaneVector::constant(0)],
            b: [LaneVector::constant(1), LaneVector::constant(0), LaneVector::constant(0)],
        }
    }
}

/// A filter section with its state: two history cells per lane, in
/// transposed direct form II.
#[derive(Debug, Copy, Clone)]
pub struct Biquad<S, const LANES: usize> {
    pub params: BiquadParams<S, LANES>,
    pub state: [LaneVector<S, LANES>; 2],
}

impl<S: Sample, const LANES: usize> Default for Biquad<S, LANES> {
    /// The pass-through section at rest.
    fn default() -> (r: Self)
        ensures
            r.params.is_identity(),
            r.is_at_rest(),
    {
        Biquad {
            params: BiquadParams::default(),
            state: [LaneVector::constant(0), LaneVector::constant(0)],
        }
    }
}

impl<S: Sample, const LANES: usize> Biquad<S, LANES> {
    /// Both history cells hold zero.
    pub open spec fn is_at_rest(self) -> bool {
        self.state[0].is_constant(0) && self.state[1].is_constant(0)
    }

    /// `next` and `out` are what one step of the filter `self` gives for
    /// `input`:
    /// `out = state[0] + b[0] input`,
    /// `next.state[0] = state[1] + b[1] input - a[0] out`,
    /// `next.state[1] = b[2] input - a[1] out`,
    /// with the coefficients unchanged.
    pub open spec fn steps(
        self,
        input: LaneVector<S, LANES>,
        next: Self,
        out: LaneVector<S, LANES>,
    ) -> bool {
        exists|
            t0: LaneVector<S, LANES>,
            t1: LaneVector<S, LANES>,
            t2: LaneVector<S, LANES>,
            t3: LaneVector<S, LANES>,
            t4: LaneVector<S, LANES>,
            t5: LaneVector<S, LANES>,
        |
            {
                &&& #[trigger] t0.prod_of(self.params.b[0], input)
                &&& out.sum_of(self.state[0], t0)
                &&& #[trigger] t1.prod_of(self.params.b[1], input)
                &&& #[trigger] t2.sum_of(self.state[1], t1)
                &&& #[trigger] t3.prod_of(self.params.a[0], out)
                &&& next.state[0].diff_of(t2, t3)
                &&& #[trigger] t4.prod_of(self.params.b[2], input)
                &&& #[trigger] t5.prod_of(self.params.a[1], out)
                &&& next.state[1].diff_of(t4, t5)
                &&& next.params == self.params
            }
    }

    /// A filter at rest with the coefficients `params`.
    pub fn new(params: BiquadParams<S, LANES>) -> (r: Self)
        ensures
            r.params == params,
            r.is_at_rest(),
    {
        Biquad { params, state: [LaneVector::constant(0), LaneVector::constant(0)] }
    }

    /// Filters one sample.
    pub fn next_sample(&mut self, input: LaneVector<S, LANES>) -> (out: LaneVector<S, LANES>)
        ensures
            old(self).steps(input, *final(self), out),
    {
        let out = self.state[0].plus(self.params.b[0].times(input));
        let s0 = self.state[1].plus(self.params.b[1].times(input)).minus(
            self.params.a[0].times(out),
        );
        let s1 = self.params.b[2].times(input).minus(self.params.a[1].times(out));
        self.state[0] = s0;
        self.state[1] = s1;
        out
    }

    /// Puts the filter at rest; the coefficients stay.
    pub fn reset(&mut self)
        ensures
            final(self).params == old(self).params,
            final(self).is_at_rest(),
    {
        self.state = [LaneVector::constant(0), LaneVector::constant(0)];
    }
}

} // verus!
