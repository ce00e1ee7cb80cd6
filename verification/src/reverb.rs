//! The reverb engine: a feedback delay line whose loop runs through the
//! damping filters, the diffusion cascade, the pitch shifter and a
//! saturator.
use crate::biquad::{Biquad, BiquadParams};
use crate::delay::{pushed, Delay};
use crate::early::Early;
use crate::lane::LaneVector;
use crate::pitch::PitchShifter;
use crate::sample::{
    is_ceil, is_count, is_diff, is_gt, is_index, is_max, is_min, is_prod, is_quot, is_ratio,
    is_sin, is_sum, is_tanh, is_tau, ratio, Sample,
};
use crate::simdmath::simd_f32tanh;
use vstd::prelude::*;

verus! {

/// The advance of the shimmer read position per sample.
pub const PITCH_RATIO: usize = 2;

/// The length of the shimmer line in thousandths of the sample rate.
pub const PITCH_SPAN_MILLIS: usize = 300;

/// The depth of the delay-time modulation at full `mod_depth`, in
/// millionths of a second.
pub const DELAY_MOD_MICROS: usize = 15000;

/// The parameters of one frame, as the host has resolved them for it.
pub struct FrameParams<S> {
    /// The size of the room, from 0 to 1.
    pub size: S,
    /// The gain of the feedback loop, from 0 to 1.25.
    pub feedback: S,
    /// The length of the loop in seconds.
    pub delay_time: S,
    /// The depth of the modulation, from 0 to 1.
    pub mod_depth: S,
    /// The rate of the delay-time modulation in cycles per second.
    pub mod_speed: S,
    /// The cutoff below which the loop is damped, in cycles per second.
    pub damp_low_hz: S,
    /// The cutoff above which the loop is damped, in cycles per second.
    pub damp_high_hz: S,
    /// The share of the pitch-shifted signal in the loop, from 0 to 1.
    pub pitch_amount: S,
}

/// `pos` is the position of the feedback read: `delay * samplerate`, kept
/// between one sample and one sample short of a second.
pub open spec fn is_loop_position<S: Sample>(samplerate: S, delay: S, pos: S) -> bool {
    exists|raw: S, one: S, lifted: S, top: S|
        {
            &&& #[trigger] is_prod(delay, samplerate, raw)
            &&& #[trigger] is_count(1, one)
            &&& #[trigger] is_max(raw, one, lifted)
            &&& #[trigger] is_diff(samplerate, one, top)
            &&& is_min(lifted, top, pos)
        }
}

/// `blended` is `dry * (1 - amount) + wet * amount`.
pub open spec fn is_blend<S: Sample>(
    dry: LaneVector<S, 2>,
    wet: LaneVector<S, 2>,
    amount: S,
    blended: LaneVector<S, 2>,
) -> bool {
    exists|one: S, rest: S, a: LaneVector<S, 2>, b: LaneVector<S, 2>|
        {
            &&& #[trigger] is_count(1, one)
            &&& #[trigger] is_diff(one, amount, rest)
            &&& #[trigger] a.scaled_of(dry, rest)
            &&& #[trigger] b.scaled_of(wet, amount)
            &&& blended.sum_of(a, b)
        }
}

/// `next` is the phase one sample after `phase` at the rate `speed`:
/// advanced by `speed / samplerate`, and less one as soon as that reaches
/// one, so that the phase stays short of one.
pub open spec fn is_ticked<S: Sample>(phase: S, samplerate: S, speed: S, next: S) -> bool {
    exists|step: S, raised: S, one: S, short: bool|
        {
            &&& #[trigger] is_quot(speed, samplerate, step)
            &&& #[trigger] is_sum(phase, step, raised)
            &&& #[trigger] is_count(1, one)
            &&& #[trigger] is_gt(one, raised, short)
            &&& if short {
                next == raised
            } else {
                is_diff(raised, one, next)
            }
        }
}

/// `delay` is the loop length of a frame: `delay_time` plus the modulation
/// `(DELAY_MOD_MICROS / 1000000) * mod_depth * sin(tau * phase)`.
pub open spec fn is_modulated<S: Sample>(delay_time: S, mod_depth: S, phase: S, delay: S) -> bool {
    exists|tau: S, angle: S, wave: S, amplitude: S, g: S, swing: S|
        {
            &&& #[trigger] is_tau(tau)
            &&& #[trigger] is_prod(tau, phase, angle)
            &&& #[trigger] is_sin(angle, wave)
            &&& #[trigger] is_ratio(DELAY_MOD_MICROS, 1000000, amplitude)
            &&& #[trigger] is_prod(amplitude, mod_depth, g)
            &&& #[trigger] is_prod(g, wave, swing)
            &&& is_sum(delay_time, swing, delay)
        }
}

/// `fc` is, in every lane, the cutoff `hz` as a share of the sample rate.
pub open spec fn is_cutoff<S: Sample>(hz: S, samplerate: S, fc: LaneVector<S, 2>) -> bool {
    exists|c: S| #[trigger] is_quot(hz, samplerate, c) && fc.all(c)
}

/// Lane `i` of `wide` is lane `i % 2` of `frame`.
pub open spec fn is_widened<S: Sample>(frame: LaneVector<S, 2>, wide: LaneVector<S, 4>) -> bool {
    forall|i: int| 0 <= i < 4 ==> #[trigger] wide.lanes[i] == frame.lanes[i % 2]
}

/// `frame` holds the first two lanes of `wide`.
pub open spec fn is_narrowed<S: Sample>(wide: LaneVector<S, 4>, frame: LaneVector<S, 2>) -> bool {
    forall|i: int| 0 <= i < 2 ==> #[trigger] frame.lanes[i] == wide.lanes[i]
}

/// The cascade's four lanes from a stereo frame: left, right, left, right.
pub fn widen<S: Sample>(frame: LaneVector<S, 2>) -> (wide: LaneVector<S, 4>)
    ensures
        is_widened(frame, wide),
{
    LaneVector::gather(frame, [0, 1, 0, 1])
}

/// The stereo frame from the cascade's four lanes: the first two.
pub fn narrow<S: Sample>(wide: LaneVector<S, 4>) -> (frame: LaneVector<S, 2>)
    ensures
        is_narrowed(wide, frame),
{
    LaneVector::gather(wide, [0, 1])
}

/// The engine: a stereo feedback loop around a four-lane cascade.
pub struct Reverb<S> {
    /// The early-reflection cascade.
    pub diffusion: Early<S, 4>,
    /// The feedback line: what the loop has put out, newest first.
    pub delay: Delay<LaneVector<S, 2>>,
    /// The filter that damps the low end.
    pub damp_low: Biquad<S, 2>,
    /// The filter that damps the high end.
    pub damp_high: Biquad<S, 2>,
    /// The shimmer path.
    pub pitch: PitchShifter<S, 2>,
    /// The phase of the delay-time modulation, in cycles.
    pub phase: S,
}

impl<S: Sample> Reverb<S> {
    /// `self` is a silent engine for the sample rate `samplerate`: a
    /// feedback line of twice the whole part of the rate (or as long as a
    /// line can be), a new cascade with the given jitter and phases, both
    /// filters passing through and at rest, a shimmer line of
    /// `ceil((PITCH_SPAN_MILLIS / 1000) * samplerate)` samples, and the
    /// modulation at phase zero.
    pub open spec fn is_new(
        self,
        samplerate: S,
        offsets: [[S; 4]; 4],
        phases: [[S; 4]; 4],
    ) -> bool {
        &&& self.diffusion.is_new(samplerate, offsets, phases)
        &&& exists|n: usize|
            #[trigger] is_index(samplerate, n) && self.delay@.len() == if n + n > usize::MAX {
                usize::MAX as int
            } else {
                n + n
            }
        &&& forall|i: int| 0 <= i < self.delay@.len() ==> (#[trigger] self.delay@[i]).is_zero()
        &&& self.damp_low.params.is_identity()
        &&& self.damp_low.is_at_rest()
        &&& self.damp_high.params.is_identity()
        &&& self.damp_high.is_at_rest()
        &&& exists|span: S, scaled: S, up: S|
            {
                &&& #[trigger] is_ratio(PITCH_SPAN_MILLIS, 1000, span)
                &&& #[trigger] is_prod(span, samplerate, scaled)
                &&& #[trigger] is_ceil(scaled, up)
                &&& is_index(up, self.pitch.buffer@.len() as usize)
            }
        &&& forall|i: int|
            0 <= i < self.pitch.buffer@.len() ==> (#[trigger] self.pitch.buffer@[i]).is_zero()
        &&& is_count(0, self.pitch.pos)
        &&& is_count(0, self.phase)
    }

    /// A silent engine for the sample rate `samplerate`. The jitter and the
    /// starting phases of the cascade come from the caller, who draws them
    /// once: stage `i` takes `offsets[i]` and `phases[i]`.
    pub fn new(samplerate: S, offsets: [[S; 4]; 4], phases: [[S; 4]; 4]) -> (r: Self)
        ensures
            r.is_new(samplerate, offsets, phases),
    {
        let n = samplerate.to_count();
        let span: S = ratio(PITCH_SPAN_MILLIS, 1000);
        let scaled = span.times(samplerate);
        let up = scaled.ceil();
        let r = Reverb {
            diffusion: Early::new(samplerate, offsets, phases),
            delay: Delay::new(n.saturating_add(n)),
            damp_low: Biquad::default(),
            damp_high: Biquad::default(),
            pitch: PitchShifter::new(up.to_count()),
            phase: S::from_count(0),
        };
        assert(is_index(samplerate, n));
        assert(is_ratio(PITCH_SPAN_MILLIS, 1000, span) && is_prod(span, samplerate, scaled)
            && is_ceil(scaled, up));
        r
    }

    /// Rebuilds the engine for another sample rate. Every line and filter
    /// starts afresh.
    pub fn reinitialize(&mut self, samplerate: S, offsets: [[S; 4]; 4], phases: [[S; 4]; 4])
        ensures
            final(self).is_new(samplerate, offsets, phases),
    {
        *self = Self::new(samplerate, offsets, phases);
    }

    /// `next` and `out` are what one pass of the loop gives for the frame
    /// `sample`, from the engine `self`:
    /// the feedback line is read at the loop position and mixed into the
    /// input with the gain `feedback`; the mix runs through the high
    /// damping, then the low damping; it is widened to four lanes, diffused
    /// by the cascade and narrowed again; the shimmer path shifts it at
    /// `PITCH_RATIO`, and `pitch_amt` blends the shifted signal in; the
    /// hyperbolic tangent saturates the blend, which goes into the feedback
    /// line and out. The modulation phase stays.
    pub open spec fn steps(
        self,
        samplerate: S,
        size: S,
        feedback: S,
        delay: S,
        mod_depth: S,
        pitch_amt: S,
        sample: LaneVector<S, 2>,
        next: Self,
        out: LaneVector<S, 2>,
    ) -> bool {
        exists|
            pos: S,
            tapped: LaneVector<S, 2>,
            echo: LaneVector<S, 2>,
            fed: LaneVector<S, 2>,
            high: LaneVector<S, 2>,
            low: LaneVector<S, 2>,
            wide: LaneVector<S, 4>,
            dense: LaneVector<S, 4>,
            diffused: LaneVector<S, 2>,
            pace: S,
            shifted: LaneVector<S, 2>,
            blended: LaneVector<S, 2>,
        |
            {
                &&& #[trigger] is_loop_position(samplerate, delay, pos)
                &&& #[trigger] self.delay.taps(pos, tapped)
                &&& #[trigger] echo.scaled_of(tapped, feedback)
                &&& #[trigger] fed.sum_of(sample, echo)
                &&& #[trigger] self.damp_high.steps(fed, next.damp_high, high)
                &&& #[trigger] self.damp_low.steps(high, next.damp_low, low)
                &&& #[trigger] is_widened(low, wide)
                &&& #[trigger] self.diffusion.steps(size, mod_depth, wide, next.diffusion, dense)
                &&& #[trigger] is_narrowed(dense, diffused)
                &&& #[trigger] is_count(PITCH_RATIO, pace)
                &&& #[trigger] self.pitch.steps(pace, diffused, next.pitch, shifted)
                &&& #[trigger] is_blend(diffused, shifted, pitch_amt, blended)
                &&& out.tanh_of(blended)
                &&& next.delay@ == pushed(self.delay@, out)
                &&& next.phase == self.phase
            }
    }

    /// Runs one frame through the loop and gives the frame that leaves it.
    pub fn next_sample(
        &mut self,
        samplerate: S,
        size: S,
        feedback: S,
        delay: S,
        mod_depth: S,
        pitch_amt: S,
        sample: LaneVector<S, 2>,
    ) -> (out: LaneVector<S, 2>)
        ensures
            old(self).steps(
                samplerate,
                size,
                feedback,
                delay,
                mod_depth,
                pitch_amt,
                sample,
                *final(self),
                out,
            ),
    {
        let raw = delay.times(samplerate);
        let one = S::from_count(1);
        let lifted = raw.at_least(one);
        let top = samplerate.minus(one);
        let pos = lifted.at_most(top);
        assert(is_loop_position(samplerate, delay, pos)) by {
            assert(is_prod(delay, samplerate, raw) && is_count(1, one) && is_max(raw, one, lifted)
                && is_diff(samplerate, one, top));
        }
        let tapped = self.delay.tap(pos);
        let echo = tapped.scaled(feedback);
        let fed = sample.plus(echo);
        let high = self.damp_high.next_sample(fed);
        let low = self.damp_low.next_sample(high);
        let wide = widen(low);
        let dense = self.diffusion.next_sample(size, mod_depth, wide);
        let diffused = narrow(dense);
        let pace = S::from_count(PITCH_RATIO);
        let shifted = self.pitch.next_sample(samplerate, pace, diffused);
        let rest = one.minus(pitch_amt);
        let a = diffused.scaled(rest);
        let b = shifted.scaled(pitch_amt);
        let blended = a.plus(b);
        assert(is_blend(diffused, shifted, pitch_amt, blended)) by {
            assert(is_count(1, one) && is_diff(one, pitch_amt, rest) && a.scaled_of(diffused, rest)
                && b.scaled_of(shifted, pitch_amt));
        }
        let out = simd_f32tanh(blended);
        self.delay.push_next(out);
        assert(old(self).delay.taps(pos, tapped) && echo.scaled_of(tapped, feedback) && fed.sum_of(
            sample,
            echo,
        ) && old(self).damp_high.steps(fed, self.damp_high, high) && old(self).damp_low.steps(
            high,
            self.damp_low,
            low,
        ) && is_widened(low, wide) && old(self).diffusion.steps(
            size,
            mod_depth,
            wide,
            self.diffusion,
            dense,
        ) && is_narrowed(dense, diffused) && is_count(PITCH_RATIO, pace) && old(self).pitch.steps(
            pace,
            diffused,
            self.pitch,
            shifted,
        ));
        out
    }

    /// Moves the modulation phase on by one sample at the rate `mod_speed`;
    /// nothing else changes.
    pub fn tick_phase(&mut self, samplerate: S, mod_speed: S)
        ensures
            is_ticked(old(self).phase, samplerate, mod_speed, final(self).phase),
            final(self).diffusion == old(self).diffusion,
            final(self).delay == old(self).delay,
            final(self).damp_low == old(self).damp_low,
            final(self).damp_high == old(self).damp_high,
            final(self).pitch == old(self).pitch,
    {
        let step = mod_speed.over(samplerate);
        let raised = self.phase.plus(step);
        let one = S::from_count(1);
        let short = one.exceeds(raised);
        if short {
            self.phase = raised;
        } else {
            self.phase = raised.minus(one);
        }
        assert(is_quot(mod_speed, samplerate, step) && is_sum(old(self).phase, step, raised)
            && is_count(1, one) && is_gt(one, raised, short));
    }

    /// `next` and `out` are what the engine `self` gives for one frame with
    /// the parameters `p`: the loop length is modulated at the phase of
    /// `self`; the low damping becomes the first-order high-pass at
    /// `damp_low_hz` and the high damping the first-order low-pass at
    /// `damp_high_hz`, both keeping their state; the phase moves on; and
    /// from the engine `tuned` so set up, the frame passes through the loop.
    pub open spec fn processes(
        self,
        samplerate: S,
        p: FrameParams<S>,
        input: LaneVector<S, 2>,
        next: Self,
        out: LaneVector<S, 2>,
    ) -> bool {
        exists|delay: S, low_fc: LaneVector<S, 2>, high_fc: LaneVector<S, 2>, tuned: Self|
            {
                &&& #[trigger] is_modulated(p.delay_time, p.mod_depth, self.phase, delay)
                &&& #[trigger] is_cutoff(p.damp_low_hz, samplerate, low_fc)
                &&& #[trigger] is_cutoff(p.damp_high_hz, samplerate, high_fc)
                &&& tuned.damp_low.params.is_highpass_1p(low_fc)
                &&& tuned.damp_low.state == self.damp_low.state
                &&& tuned.damp_high.params.is_lowpass_1p(high_fc)
                &&& tuned.damp_high.state == self.damp_high.state
                &&& is_ticked(self.phase, samplerate, p.mod_speed, tuned.phase)
                &&& tuned.diffusion == self.diffusion
                &&& tuned.delay == self.delay
                &&& tuned.pitch == self.pitch
                &&& #[trigger] tuned.steps(
                    samplerate,
                    p.size,
                    p.feedback,
                    delay,
                    p.mod_depth,
                    p.pitch_amount,
                    input,
                    next,
                    out,
                )
            }
    }

    /// Processes one frame with the parameters that the host resolved for
    /// it.
    pub fn process_frame(
        &mut self,
        samplerate: S,
        p: &FrameParams<S>,
        input: LaneVector<S, 2>,
    ) -> (out: LaneVector<S, 2>)
        ensures
            old(self).processes(samplerate, *p, input, *final(self), out),
    {
        let tau = S::tau();
        let angle = tau.times(self.phase);
        let wave = angle.sin();
        let amplitude: S = ratio(DELAY_MOD_MICROS, 1000000);
        let g = amplitude.times(p.mod_depth);
        let swing = g.times(wave);
        let delay = p.delay_time.plus(swing);
        assert(is_modulated(p.delay_time, p.mod_depth, old(self).phase, delay)) by {
            assert(is_tau(tau) && is_prod(tau, old(self).phase, angle) && is_sin(angle, wave)
                && is_ratio(DELAY_MOD_MICROS, 1000000, amplitude) && is_prod(
                amplitude,
                p.mod_depth,
                g,
            ) && is_prod(g, wave, swing));
        }
        let low_c = p.damp_low_hz.over(samplerate);
        let low_fc = LaneVector::splat(low_c);
        assert(is_cutoff(p.damp_low_hz, samplerate, low_fc)) by {
            assert(is_quot(p.damp_low_hz, samplerate, low_c) && low_fc.all(low_c));
        }
        self.damp_low.params = BiquadParams::highpass_1p(low_fc, LaneVector::constant(1));
        let high_c = p.damp_high_hz.over(samplerate);
        let high_fc = LaneVector::splat(high_c);
        assert(is_cutoff(p.damp_high_hz, samplerate, high_fc)) by {
            assert(is_quot(p.damp_high_hz, samplerate, high_c) && high_fc.all(high_c));
        }
        self.damp_high.params = BiquadParams::lowpass_1p(high_fc, LaneVector::constant(1));
        self.tick_phase(samplerate, p.mod_speed);
        let ghost tuned = *self;
        let out = self.next_sample(
            samplerate,
            p.size,
            p.feedback,
            delay,
            p.mod_depth,
            p.pitch_amount,
            input,
        );
        assert(tuned.steps(
            samplerate,
            p.size,
            p.feedback,
            delay,
            p.mod_depth,
            p.pitch_amount,
            input,
            *self,
            out,
        ));
        out
    }
}

/// Every lane of what a pass of the loop puts out is an outcome of the
/// saturator. So whatever holds of every hyperbolic tangent that the scalar
/// type gives, a ceiling on its size for instance, holds of the output,
/// whatever the input, the parameters and the state of the engine.
pub proof fn lemma_output_is_saturated<S: Sample>(
    pre: Reverb<S>,
    samplerate: S,
    size: S,
    feedback: S,
    delay: S,
    mod_depth: S,
    pitch_amt: S,
    sample: LaneVector<S, 2>,
    next: Reverb<S>,
    out: LaneVector<S, 2>,
    bounded: spec_fn(S) -> bool,
)
    requires
        pre.steps(samplerate, size, feedback, delay, mod_depth, pitch_amt, sample, next, out),
        forall|x: S, y: S| is_tanh(x, y) ==> bounded(y),
    ensures
        forall|i: int| 0 <= i < 2 ==> bounded(#[trigger] out.lanes[i]),
{
    let blended = choose|blended: LaneVector<S, 2>| out.tanh_of(blended);
    assert forall|i: int| 0 <= i < 2 implies bounded(#[trigger] out.lanes[i]) by {
        assert(is_tanh(blended.lanes[i], out.lanes[i]));
    }
}

/// The feedback line holds nothing that the saturator would not let
/// through: where every sample in it is bounded before a pass of the loop,
/// every sample in it is bounded after. From a silent engine on, the loop
/// therefore stays under one ceiling however long it runs.
pub proof fn lemma_loop_stays_bounded<S: Sample>(
    pre: Reverb<S>,
    samplerate: S,
    size: S,
    feedback: S,
    delay: S,
    mod_depth: S,
    pitch_amt: S,
    sample: LaneVector<S, 2>,
    next: Reverb<S>,
    out: LaneVector<S, 2>,
    bounded: spec_fn(S) -> bool,
)
    requires
        pre.steps(samplerate, size, feedback, delay, mod_depth, pitch_amt, sample, next, out),
        forall|x: S, y: S| is_tanh(x, y) ==> bounded(y),
        forall|j: int, i: int|
            0 <= j < pre.delay@.len() && 0 <= i < 2 ==> bounded(#[trigger] pre.delay@[j].lanes[i]),
    ensures
        next.delay@.len() == pre.delay@.len(),
        forall|j: int, i: int|
            0 <= j < next.delay@.len() && 0 <= i < 2 ==> bounded(
                #[trigger] next.delay@[j].lanes[i],
            ),
{
    lemma_output_is_saturated(
        pre,
        samplerate,
        size,
        feedback,
        delay,
        mod_depth,
        pitch_amt,
        sample,
        next,
        out,
        bounded,
    );
    assert(next.delay@ == pushed(pre.delay@, out));
    assert forall|j: int, i: int| 0 <= j < next.delay@.len() && 0 <= i < 2 implies bounded(
        #[trigger] next.delay@[j].lanes[i],
    ) by {
        if j == 0 {
            assert(next.delay@[0] == out);
        } else {
            assert(next.delay@[j] == pre.delay@[j - 1]);
        }
    }
}

/// What holds of a pass of the loop holds of a whole frame: every lane of
/// the frame that the engine gives back is an outcome of the saturator.
pub proof fn lemma_frame_is_saturated<S: Sample>(
    pre: Reverb<S>,
    samplerate: S,
    p: FrameParams<S>,
    input: LaneVector<S, 2>,
    next: Reverb<S>,
    out: LaneVector<S, 2>,
    bounded: spec_fn(S) -> bool,
)
    requires
        pre.processes(samplerate, p, input, next, out),
        forall|x: S, y: S| is_tanh(x, y) ==> bounded(y),
    ensures
        forall|i: int| 0 <= i < 2 ==> bounded(#[trigger] out.lanes[i]),
{
    let (delay, tuned) = choose|delay: S, tuned: Reverb<S>| #[trigger]
        tuned.steps(
            samplerate,
            p.size,
            p.feedback,
            delay,
            p.mod_depth,
            p.pitch_amount,
            input,
            next,
            out,
        );
    lemma_output_is_saturated(
        tuned,
        samplerate,
        p.size,
        p.feedback,
        delay,
        p.mod_depth,
        p.pitch_amount,
        input,
        next,
        out,
        bounded,
    );
}

} // verus!
