//! One diffusion stage: a delay line read at a modulated depth per lane,
//! then shuffled and mixed.
use crate::delay::{pushed, Delay};
use crate::householder::{is_reflection, transform};
use crate::lane::LaneVector;
use crate::sample::{
    is_count, is_gt, is_index, is_diff, is_neg, is_prod, is_quot, is_ratio, is_sin, is_sum,
    is_tau, ratio, Sample,
};
use vstd::arithmetic::div_mod::{
    lemma_fundamental_div_mod, lemma_fundamental_div_mod_converse, lemma_mod_equivalence,
};
use vstd::arithmetic::power2::is_pow2;
use vstd::prelude::*;

verus! {

/// The stride of the shuffle: lane `n` reads lane
/// `n * SHUFFLE_STRIDE + SHUFFLE_OFFSET` of its input, modulo the width.
pub const SHUFFLE_STRIDE: usize = 187;

/// The offset of the shuffle.
pub const SHUFFLE_OFFSET: usize = 288;

/// The span of a stage in thousandths of its time base: the deepest lane
/// reads this far back at full size.
pub const SPAN_MILLIS: usize = 300;

/// The amplitude of the delay modulation in millionths of the time base.
pub const MOD_AMPLITUDE_MICROS: usize = 1000;

/// The rate of the modulation oscillator in thousandths of a cycle per
/// second.
pub const LFO_MILLIHERTZ: usize = 300;

/// The lane that lane `n` of the shuffle reads, in a vector of `width`
/// lanes.
pub open spec fn shuffle_source(n: int, width: int) -> int {
    (n * SHUFFLE_STRIDE + SHUFFLE_OFFSET) % width
}

/// A power of two divides a multiple of the stride only where it divides
/// the other factor: the stride is odd.
proof fn lemma_stride_is_odd(width: int, d: int)
    requires
        is_pow2(width),
        (SHUFFLE_STRIDE * d) % width == 0,
    ensures
        d % width == 0,
    decreases width,
{
    reveal(is_pow2);
    if width > 1 {
        let half = width / 2;
        let q = (SHUFFLE_STRIDE * d) / width;
        lemma_fundamental_div_mod(SHUFFLE_STRIDE * d, width);
        assert(SHUFFLE_STRIDE * d == 2 * (half * q)) by (nonlinear_arith)
            requires
                SHUFFLE_STRIDE * d == width * q + 0,
                width == 2 * half,
        ;
        let e = d / 2;
        assert(d == 2 * e);
        assert(SHUFFLE_STRIDE * e == half * q) by (nonlinear_arith)
            requires
                SHUFFLE_STRIDE * d == 2 * (half * q),
                d == 2 * e,
        ;
        assert((SHUFFLE_STRIDE * e) % half == 0) by {
            lemma_fundamental_div_mod_converse(SHUFFLE_STRIDE * e, half, q, 0);
        }
        lemma_stride_is_odd(half, e);
        let m = e / half;
        lemma_fundamental_div_mod(e, half);
        assert(d == m * width + 0) by (nonlinear_arith)
            requires
                e == half * m + 0,
                d == 2 * e,
                width == 2 * half,
        ;
        lemma_fundamental_div_mod_converse(d, width, m, 0);
    }
}

/// The shuffle is a permutation where the width is a power of two: no two
/// lanes read the same lane.
pub proof fn lemma_shuffle_is_permutation(a: int, b: int, width: int)
    requires
        is_pow2(width),
        0 <= a < width,
        0 <= b < width,
        shuffle_source(a, width) == shuffle_source(b, width),
    ensures
        a == b,
{
    reveal(is_pow2);
    let x = a * SHUFFLE_STRIDE + SHUFFLE_OFFSET;
    let y = b * SHUFFLE_STRIDE + SHUFFLE_OFFSET;
    lemma_mod_equivalence(x, y, width);
    assert(x - y == SHUFFLE_STRIDE * (a - b)) by (nonlinear_arith)
        requires
            x == a * SHUFFLE_STRIDE + SHUFFLE_OFFSET,
            y == b * SHUFFLE_STRIDE + SHUFFLE_OFFSET,
    ;
    lemma_stride_is_odd(width, a - b);
    if a > b {
        vstd::arithmetic::div_mod::lemma_small_mod((a - b) as nat, width as nat);
    } else if b > a {
        lemma_mod_equivalence(a - b, 0, width);
        lemma_mod_equivalence(0, b - a, width);
        vstd::arithmetic::div_mod::lemma_small_mod((b - a) as nat, width as nat);
        vstd::arithmetic::div_mod::lemma_small_mod(0, width as nat);
    }
}

/// `out` is the shuffle of `inp`: lane `n` holds lane `shuffle_source(n)` of
/// `inp` times one where `n` is even, times minus one where it is odd.
pub open spec fn is_shuffle<S: Sample, const N: usize>(
    inp: LaneVector<S, N>,
    out: LaneVector<S, N>,
) -> bool {
    exists|one: S, minus_one: S|
        {
            &&& #[trigger] is_count(1, one)
            &&& #[trigger] is_neg(one, minus_one)
            &&& forall|n: int|
                0 <= n < N ==> is_prod(
                    inp.lanes[shuffle_source(n, N as int)],
                    if n % 2 == 0 {
                        one
                    } else {
                        minus_one
                    },
                    #[trigger] out.lanes[n],
                )
        }
}

/// The lane that lane `n` of the shuffle reads.
pub fn shuffle_index(n: usize, width: usize) -> (i: usize)
    requires
        n < width,
    ensures
        i == shuffle_source(n as int, width as int),
        i < width,
{
    assert(n * SHUFFLE_STRIDE <= 0xffff_ffff_ffff_ffff * SHUFFLE_STRIDE) by (nonlinear_arith)
        requires
            n <= 0xffff_ffff_ffff_ffff,
    ;
    let wide: u128 = (n as u128) * (SHUFFLE_STRIDE as u128) + (SHUFFLE_OFFSET as u128);
    (wide % (width as u128)) as usize
}

/// Permutes the lanes and flips the sign of every other one, so that the
/// lanes of successive stages do not line up.
pub fn shuffle<S: Sample, const N: usize>(inp: LaneVector<S, N>) -> (out: LaneVector<S, N>)
    ensures
        is_shuffle(inp, out),
{
    let one = S::from_count(1);
    let minus_one = one.negated();
    let mut out = inp;
    let mut n: usize = 0;
    while n < N
        invariant
            n <= N,
            forall|k: int|
                0 <= k < n ==> is_prod(
                    inp.lanes[shuffle_source(k, N as int)],
                    if k % 2 == 0 {
                        one
                    } else {
                        minus_one
                    },
                    #[trigger] out.lanes[k],
                ),
        decreases N - n,
    {
        let i = shuffle_index(n, N);
        let k = if n % 2 == 0 {
            one
        } else {
            minus_one
        };
        out.lanes[n] = inp.lanes[i].times(k);
        n += 1;
    }
    assert(is_count(1, one) && is_neg(one, minus_one));
    out
}

/// The constants that one step of a stage works with, each derived once per
/// step.
pub struct StageWeights<S> {
    /// The number of lanes.
    pub width: S,
    /// `SPAN_MILLIS / 1000`.
    pub span: S,
    /// `MOD_AMPLITUDE_MICROS / 1000000`.
    pub amplitude: S,
    /// One full turn.
    pub tau: S,
    /// One.
    pub one: S,
    /// The advance of the oscillator per sample: `LFO_MILLIHERTZ / 1000`
    /// over the time base.
    pub step: S,
}

impl<S: Sample> StageWeights<S> {
    /// Each field is the constant that it is documented to be, for a stage
    /// of `lanes` lanes and the time base `rate`.
    pub open spec fn valid(self, lanes: usize, rate: S) -> bool {
        &&& is_count(lanes, self.width)
        &&& is_ratio(SPAN_MILLIS, 1000, self.span)
        &&& is_ratio(MOD_AMPLITUDE_MICROS, 1000000, self.amplitude)
        &&& is_tau(self.tau)
        &&& is_count(1, self.one)
        &&& exists|lfo: S| #[trigger]
            is_ratio(LFO_MILLIHERTZ, 1000, lfo) && is_quot(lfo, rate, self.step)
    }

    /// The constants for a stage of `lanes` lanes over the time base `rate`.
    pub fn new(lanes: usize, rate: S) -> (k: Self)
        ensures
            k.valid(lanes, rate),
    {
        let lfo: S = ratio(LFO_MILLIHERTZ, 1000);
        let step = lfo.over(rate);
        assert(is_ratio(LFO_MILLIHERTZ, 1000, lfo) && is_quot(lfo, rate, step));
        StageWeights {
            width: S::from_count(lanes),
            span: ratio(SPAN_MILLIS, 1000),
            amplitude: ratio(MOD_AMPLITUDE_MICROS, 1000000),
            tau: S::tau(),
            one: S::from_count(1),
            step,
        }
    }
}

/// `d` is the depth, in samples, at which lane `i` reads:
/// `rate * (span * (i / width) * size + offset + amplitude * mod_depth * sin(tau * phase))`.
pub open spec fn is_depth<S: Sample>(
    k: StageWeights<S>,
    rate: S,
    i: usize,
    size: S,
    mod_depth: S,
    offset: S,
    phase: S,
    d: S,
) -> bool {
    exists|lane: S, t: S, a: S, b: S, c: S, angle: S, wave: S, g: S, h: S, m: S|
        {
            &&& #[trigger] is_count(i, lane)
            &&& #[trigger] is_quot(lane, k.width, t)
            &&& #[trigger] is_prod(k.span, t, a)
            &&& #[trigger] is_prod(a, size, b)
            &&& #[trigger] is_sum(b, offset, c)
            &&& #[trigger] is_prod(k.tau, phase, angle)
            &&& #[trigger] is_sin(angle, wave)
            &&& #[trigger] is_prod(k.amplitude, mod_depth, g)
            &&& #[trigger] is_prod(g, wave, h)
            &&& #[trigger] is_sum(c, h, m)
            &&& is_prod(rate, m, d)
        }
}

/// `next` is the oscillator phase one sample after `phase`: advanced by the
/// step, and less one as soon as that reaches one, so that a phase stays
/// short of one.
pub open spec fn is_advanced<S: Sample>(k: StageWeights<S>, phase: S, next: S) -> bool {
    exists|raised: S, short: bool|
        {
            &&& #[trigger] is_sum(phase, k.step, raised)
            &&& #[trigger] is_gt(k.one, raised, short)
            &&& if short {
                next == raised
            } else {
                is_diff(raised, k.one, next)
            }
        }
}

/// The read depth of lane `i`.
pub fn depth<S: Sample>(
    k: &StageWeights<S>,
    rate: S,
    i: usize,
    size: S,
    mod_depth: S,
    offset: S,
    phase: S,
) -> (d: S)
    ensures
        is_depth(*k, rate, i, size, mod_depth, offset, phase, d),
{
    let lane = S::from_count(i);
    let t = lane.over(k.width);
    let wave = k.tau.times(phase).sin();
    let swing = k.amplitude.times(mod_depth).times(wave);
    rate.times(k.span.times(t).times(size).plus(offset).plus(swing))
}

/// The oscillator phase one sample on.
pub fn advance<S: Sample>(k: &StageWeights<S>, phase: S) -> (next: S)
    ensures
        is_advanced(*k, phase, next),
{
    let raised = phase.plus(k.step);
    let short = k.one.exceeds(raised);
    if short {
        raised
    } else {
        raised.minus(k.one)
    }
}

/// A diffusion stage.
pub struct Diffusion<S, const L: usize> {
    /// The signal the stage has taken in, newest first.
    pub delay: Delay<LaneVector<S, L>>,
    /// Minus one in the even lanes, one in the odd lanes.
    pub polarity: LaneVector<S, L>,
    /// A fixed jitter per lane, in units of the time base.
    pub offsets: [S; L],
    /// The phase of the modulation oscillator per lane, in cycles.
    pub phases: [S; L],
    /// The time base of the stage, in samples.
    pub samplerate: S,
}

impl<S: Sample, const L: usize> Diffusion<S, L> {
    /// `p` alternates in sign: minus one in the even lanes, one in the odd
    /// lanes.
    pub open spec fn alternates(p: LaneVector<S, L>) -> bool {
        exists|one: S, minus_one: S|
            {
                &&& #[trigger] is_count(1, one)
                &&& #[trigger] is_neg(one, minus_one)
                &&& forall|i: int|
                    0 <= i < L ==> #[trigger] p.lanes[i] == if i % 2 == 0 {
                        minus_one
                    } else {
                        one
                    }
            }
    }

    /// `self` is a silent stage over the time base `samplerate`: its line is
    /// as long as the whole part of `samplerate` and holds zeros, its
    /// polarity alternates, and it has `offsets` and `phases` as given.
    pub open spec fn is_new(self, samplerate: S, offsets: [S; L], phases: [S; L]) -> bool {
        &&& is_index(samplerate, self.delay@.len() as usize)
        &&& forall|i: int| 0 <= i < self.delay@.len() ==> (#[trigger] self.delay@[i]).is_zero()
        &&& Self::alternates(self.polarity)
        &&& self.offsets == offsets
        &&& self.phases == phases
        &&& self.samplerate == samplerate
    }

    /// A silent stage over the time base `samplerate`, which also sets the
    /// length of its line. The jitter and the starting phases come from the
    /// caller, who draws them once.
    pub fn new(samplerate: S, offsets: [S; L], phases: [S; L]) -> (r: Self)
        ensures
            r.is_new(samplerate, offsets, phases),
    {
        let one = S::from_count(1);
        let minus_one = one.negated();
        let mut polarity = LaneVector::splat(one);
        let mut i: usize = 0;
        while i < L
            invariant
                i <= L,
                forall|k: int|
                    0 <= k < i ==> #[trigger] polarity.lanes[k] == if k % 2 == 0 {
                        minus_one
                    } else {
                        one
                    },
            decreases L - i,
        {
            if i % 2 == 0 {
                polarity.lanes[i] = minus_one;
            } else {
                polarity.lanes[i] = one;
            }
            i += 1;
        }
        assert(is_count(1, one) && is_neg(one, minus_one));
        let delay = Delay::new(samplerate.to_count());
        Diffusion { delay, polarity, offsets, phases, samplerate }
    }

    /// `next` and `out` are what one step of the stage `self` gives for
    /// `input`: every lane reads the line at its own depth, the reads are
    /// shuffled, given their polarity and reflected; the line takes `input`
    /// in and every oscillator moves on.
    pub open spec fn steps(
        self,
        size: S,
        mod_depth: S,
        input: LaneVector<S, L>,
        next: Self,
        out: LaneVector<S, L>,
    ) -> bool {
        exists|
            k: StageWeights<S>,
            depths: LaneVector<S, L>,
            taps: LaneVector<S, L>,
            shuffled: LaneVector<S, L>,
            signed: LaneVector<S, L>,
        |
            {
                &&& #[trigger] k.valid(L, self.samplerate)
                &&& forall|i: int|
                    0 <= i < L ==> is_depth(
                        k,
                        self.samplerate,
                        i as usize,
                        size,
                        mod_depth,
                        self.offsets[i],
                        self.phases[i],
                        #[trigger] depths.lanes[i],
                    )
                &&& forall|i: int|
                    0 <= i < L ==> is_advanced(k, self.phases[i], #[trigger] next.phases[i])
                &&& #[trigger] self.delay.gets(depths, taps)
                &&& #[trigger] is_shuffle(taps, shuffled)
                &&& next.delay@ == pushed(self.delay@, input)
                &&& #[trigger] signed.prod_of(self.polarity, shuffled)
                &&& is_reflection(signed, out)
                &&& next.polarity == self.polarity
                &&& next.offsets == self.offsets
                &&& next.samplerate == self.samplerate
            }
    }

    /// Takes one sample in and gives one diffused sample out. `size` scales
    /// the depth of the reads and `mod_depth` their modulation.
    pub fn next_sample(
        &mut self,
        size: S,
        mod_depth: S,
        input: LaneVector<S, L>,
    ) -> (out: LaneVector<S, L>)
        ensures
            old(self).steps(size, mod_depth, input, *final(self), out),
    {
        let k = StageWeights::new(L, self.samplerate);
        let mut depths = self.polarity;
        let mut i: usize = 0;
        while i < L
            invariant
                i <= L,
                *self == *old(self),
                forall|j: int|
                    0 <= j < i ==> is_depth(
                        k,
                        self.samplerate,
                        j as usize,
                        size,
                        mod_depth,
                        self.offsets[j],
                        self.phases[j],
                        #[trigger] depths.lanes[j],
                    ),
            decreases L - i,
        {
            depths.lanes[i] = depth(
                &k,
                self.samplerate,
                i,
                size,
                mod_depth,
                self.offsets[i],
                self.phases[i],
            );
            i += 1;
        }
        let mut i: usize = 0;
        while i < L
            invariant
                i <= L,
                self.delay == old(self).delay,
                self.polarity == old(self).polarity,
                self.offsets == old(self).offsets,
                self.samplerate == old(self).samplerate,
                forall|j: int|
                    0 <= j < i ==> is_advanced(k, old(self).phases[j], #[trigger] self.phases[j]),
                forall|j: int| i <= j < L ==> self.phases[j] == old(self).phases[j],
            decreases L - i,
        {
            self.phases[i] = advance(&k, self.phases[i]);
            i += 1;
        }
        let taps = self.delay.get(depths);
        let shuffled = shuffle(taps);
        self.delay.push_next(input);
        let signed = self.polarity.times(shuffled);
        let out = transform(signed);
        assert(k.valid(L, old(self).samplerate) && old(self).delay.gets(depths, taps) && is_shuffle(
            taps,
            shuffled,
        ) && signed.prod_of(old(self).polarity, shuffled));
        out
    }

    /// The number of samples that a block call works on: as many as all
    /// three slices hold.
    pub open spec fn block_len(
        size: Seq<S>,
        mod_depth: Seq<S>,
        buffer: Seq<LaneVector<S, L>>,
    ) -> nat {
        if size.len() <= mod_depth.len() && size.len() <= buffer.len() {
            size.len()
        } else if mod_depth.len() <= buffer.len() {
            mod_depth.len()
        } else {
            buffer.len()
        }
    }

    /// `next` and `after` are what the stage `self` gives for the block
    /// `before`: sample `j` of `after` is the output of step `j`, taken with
    /// `size[j]` and `mod_depth[j]` on sample `j` of `before`, each step
    /// starting from the state that the one before left. Samples beyond the
    /// shortest of the three slices stay as they are.
    pub open spec fn steps_block(
        self,
        size: Seq<S>,
        mod_depth: Seq<S>,
        before: Seq<LaneVector<S, L>>,
        next: Self,
        after: Seq<LaneVector<S, L>>,
    ) -> bool {
        let n = Self::block_len(size, mod_depth, before);
        &&& after.len() == before.len()
        &&& forall|j: int| n <= j < before.len() ==> #[trigger] after[j] == before[j]
        &&& exists|states: Seq<Self>|
            {
                &&& states.len() == n + 1
                &&& states[0] == self
                &&& states[n as int] == next
                &&& forall|j: int|
                    0 <= j < n ==> (#[trigger] states[j]).steps(
                        size[j],
                        mod_depth[j],
                        before[j],
                        states[j + 1],
                        after[j],
                    )
            }
    }

    /// Runs `next_sample` over a block in place, sample by sample, each with
    /// its own `size` and `mod_depth`.
    pub fn next_block(&mut self, size: &[S], mod_depth: &[S], buffer: &mut [LaneVector<S, L>])
        ensures
            old(self).steps_block(size@, mod_depth@, old(buffer)@, *final(self), final(buffer)@),
    {
        let mut n = size.len();
        if mod_depth.len() < n {
            n = mod_depth.len();
        }
        if buffer.len() < n {
            n = buffer.len();
        }
        let ghost mut states: Seq<Self> = seq![*self];
        let mut j: usize = 0;
        while j < n
            invariant
                j <= n,
                n == Self::block_len(size@, mod_depth@, old(buffer)@),
                buffer@.len() == old(buffer)@.len(),
                forall|i: int| j <= i < buffer@.len() ==> #[trigger] buffer@[i] == old(buffer)@[i],
                states.len() == j + 1,
                states[0] == *old(self),
                states[j as int] == *self,
                forall|i: int|
                    0 <= i < j ==> (#[trigger] states[i]).steps(
                        size@[i],
                        mod_depth@[i],
                        old(buffer)@[i],
                        states[i + 1],
                        buffer@[i],
                    ),
            decreases n - j,
        {
            let out = self.next_sample(size[j], mod_depth[j], buffer[j]);
            buffer[j] = out;
            proof {
                states = states.push(*self);
            }
            j += 1;
        }
    }
}

} // verus!
