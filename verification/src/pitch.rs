//! The pitch shifter: a delay line read by a pointer that moves at its own
//! pace.
use crate::delay::{pushed, Delay};
use crate::lane::LaneVector;
use crate::sample::{is_count, is_gt, is_rem, is_sum, Sample};
use vstd::prelude::*;

verus! {

/// A pitch shifter over `N` lanes.
pub struct PitchShifter<S, const N: usize> {
    /// The signal taken in, newest first.
    pub buffer: Delay<LaneVector<S, N>>,
    /// The read position, in samples behind the newest.
    pub pos: S,
}

impl<S: Sample, const N: usize> PitchShifter<S, N> {
    /// A silent shifter over a line of `max_delay` samples, reading at
    /// position zero.
    pub fn new(max_delay: usize) -> (r: Self)
        ensures
            r.buffer@.len() == max_delay,
            forall|i: int| 0 <= i < max_delay ==> (#[trigger] r.buffer@[i]).is_zero(),
            is_count(0, r.pos),
    {
        PitchShifter { buffer: Delay::new(max_delay), pos: S::from_count(0) }
    }

    /// `next` and `out` are what one step of the shifter `self` gives for
    /// `input`: `out` is the read at the position of `self`; the position
    /// moves on by `pitch`, and is taken modulo the length of the line as
    /// soon as that reaches the length, so that it stays within the line;
    /// the line takes `input` in.
    pub open spec fn steps(
        self,
        pitch: S,
        input: LaneVector<S, N>,
        next: Self,
        out: LaneVector<S, N>,
    ) -> bool {
        exists|raised: S, len: S, within: bool|
            {
                &&& self.buffer.taps(self.pos, out)
                &&& #[trigger] is_sum(self.pos, pitch, raised)
                &&& #[trigger] is_count(self.buffer@.len() as usize, len)
                &&& #[trigger] is_gt(len, raised, within)
                &&& if within {
                    next.pos == raised
                } else {
                    is_rem(raised, len, next.pos)
                }
                &&& next.buffer@ == pushed(self.buffer@, input)
            }
    }

    /// Takes one sample in and gives one shifted sample out. `pitch` is the
    /// advance of the read position per sample. The sample rate has no part
    /// in the step.
    pub fn next_sample(
        &mut self,
        _samplerate: S,
        pitch: S,
        input: LaneVector<S, N>,
    ) -> (out: LaneVector<S, N>)
        ensures
            old(self).steps(pitch, input, *final(self), out),
    {
        let out = self.buffer.tap(self.pos);
        let raised = self.pos.plus(pitch);
        let len = S::from_count(self.buffer.len());
        let within = len.exceeds(raised);
        if within {
            self.pos = raised;
        } else {
            self.pos = raised.modulo(len);
        }
        self.buffer.push_next(input);
        assert(is_sum(old(self).pos, pitch, raised));
        assert(is_count(old(self).buffer@.len() as usize, len) && is_gt(len, raised, within));
        out
    }
}

} // verus!
