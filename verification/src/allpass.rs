//! All-pass delay sections and chains of them.
use crate::delay::{pushed, Delay};
use crate::lane::LaneVector;
use crate::sample::{is_ceil, is_count, is_diff, is_index, is_max, is_min, is_prod, is_sum, Sample};
use vstd::prelude::*;

verus! {

/// An all-pass section: a delay line with equal feed-forward and feedback
/// gain.
#[derive(Debug, Clone)]
pub struct Allpass<S, const LANES: usize> {
    /// The signal fed into the line, newest first.
    pub delay: Delay<LaneVector<S, LANES>>,
}

impl<S: Sample, const LANES: usize> Allpass<S, LANES> {
    /// Silences the line; its length stays.
    pub fn reset(&mut self)
        ensures
            final(self).delay@.len() == old(self).delay@.len(),
            forall|i: int|
                0 <= i < final(self).delay@.len() ==> (#[trigger] final(self).delay@[i]).is_zero(),
    {
        self.delay.reset();
    }

    /// `self` is a silent section for the delay `del`: its line holds zeros
    /// and is as long as `del` rounded up.
    pub open spec fn is_new_for(self, del: S) -> bool {
        &&& exists|up: S| #[trigger] is_ceil(del, up) && is_index(up, self.delay@.len() as usize)
        &&& forall|j: int| 0 <= j < self.delay@.len() ==> (#[trigger] self.delay@[j]).is_zero()
    }

    /// A silent section over a line of `max_samples` samples.
    pub fn new(max_samples: usize) -> (r: Self)
        ensures
            r.delay@.len() == max_samples,
            forall|i: int| 0 <= i < max_samples ==> (#[trigger] r.delay@[i]).is_zero(),
    {
        Allpass { delay: Delay::new(max_samples) }
    }

    /// `next` and `out` are what one step of the section `self` gives for
    /// `input`: with `fb` the read of the line at `pos`, the line takes in
    /// `input + fb * gain` and `out` is `fb + input * gain`.
    pub open spec fn steps(
        self,
        gain: LaneVector<S, LANES>,
        pos: S,
        input: LaneVector<S, LANES>,
        next: Self,
        out: LaneVector<S, LANES>,
    ) -> bool {
        exists|
            fb: LaneVector<S, LANES>,
            back: LaneVector<S, LANES>,
            fed: LaneVector<S, LANES>,
            forward: LaneVector<S, LANES>,
        |
            {
                &&& #[trigger] self.delay.taps(pos, fb)
                &&& #[trigger] back.prod_of(fb, gain)
                &&& #[trigger] fed.sum_of(input, back)
                &&& next.delay@ == pushed(self.delay@, fed)
                &&& #[trigger] forward.prod_of(input, gain)
                &&& out.sum_of(fb, forward)
            }
    }

    /// Takes one sample in and gives one out, reading the line at `pos`.
    pub fn next_sample(
        &mut self,
        gain: LaneVector<S, LANES>,
        pos: S,
        input: LaneVector<S, LANES>,
    ) -> (out: LaneVector<S, LANES>)
        ensures
            old(self).steps(gain, pos, input, *final(self), out),
    {
        let fb = self.delay.tap(pos);
        let back = fb.times(gain);
        let fed = input.plus(back);
        self.delay.push_next(fed);
        let forward = input.times(gain);
        let out = fb.plus(forward);
        assert(old(self).delay.taps(pos, fb) && back.prod_of(fb, gain) && fed.sum_of(input, back)
            && forward.prod_of(input, gain));
        out
    }
}

/// What a chain is in contracts: its sections, first to last, and the delay
/// of each, in samples.
pub struct AllpassLineView<S, const N: usize, const L: usize> {
    pub sections: Seq<Allpass<S, L>>,
    pub delays: [S; N],
}

/// A chain of `N` all-pass sections, each with its own delay.
#[derive(Debug)]
pub struct AllpassLine<S, const N: usize, const L: usize> {
    ap: Vec<Allpass<S, L>>,
    delays: [S; N],
}

impl<S, const N: usize, const L: usize> View for AllpassLine<S, N, L> {
    type V = AllpassLineView<S, N, L>;

    closed spec fn view(&self) -> AllpassLineView<S, N, L> {
        AllpassLineView { sections: self.ap@, delays: self.delays }
    }
}

impl<S, const N: usize, const L: usize> AllpassLine<S, N, L> {
    #[verifier::type_invariant]
    spec fn has_all_sections(self) -> bool {
        self.ap@.len() == N
    }
}

impl<S: Clone, const N: usize, const L: usize> Clone for AllpassLine<S, N, L> {
    /// A chain of as many sections, each a clone of its counterpart.
    fn clone(&self) -> (r: Self)
        ensures
            r@.sections.len() == self@.sections.len(),
    {
        proof {
            use_type_invariant(self);
        }
        AllpassLine { ap: self.ap.clone(), delays: self.delays.clone() }
    }
}

/// `pos` is the read position of a section with the delay `del`:
/// `del * k + offset * (1 - k)`.
pub open spec fn is_section_position<S: Sample>(del: S, offset: S, k: S, pos: S) -> bool {
    exists|a: S, one: S, rest: S, b: S|
        {
            &&& #[trigger] is_prod(del, k, a)
            &&& #[trigger] is_count(1, one)
            &&& #[trigger] is_diff(one, k, rest)
            &&& #[trigger] is_prod(offset, rest, b)
            &&& is_sum(a, b, pos)
        }
}

/// `k` is `size` kept between zero and one.
pub open spec fn is_unit_clamped<S: Sample>(size: S, k: S) -> bool {
    exists|zero: S, lifted: S, one: S|
        {
            &&& #[trigger] is_count(0, zero)
            &&& #[trigger] is_max(size, zero, lifted)
            &&& #[trigger] is_count(1, one)
            &&& is_min(lifted, one, k)
        }
}

impl<S: Sample, const N: usize, const L: usize> AllpassLine<S, N, L> {
    /// A silent chain. Section `i` has the delay `delays[i]` and a line of
    /// that many samples, rounded up.
    pub fn new(delays: [S; N]) -> (r: Self)
        ensures
            r@.sections.len() == N,
            r@.delays == delays,
            forall|i: int| 0 <= i < N ==> (#[trigger] r@.sections[i]).is_new_for(delays[i]),
    {
        let mut ap: Vec<Allpass<S, L>> = Vec::new();
        let mut i: usize = 0;
        while i < N
            invariant
                i <= N,
                ap@.len() == i,
                forall|k: int| 0 <= k < i ==> (#[trigger] ap@[k]).is_new_for(delays[k]),
            decreases N - i,
        {
            let up = delays[i].ceil();
            let section = Allpass::new(up.to_count());
            assert(section.is_new_for(delays[i as int])) by {
                assert(is_ceil(delays[i as int], up));
                assert(is_index(up, section.delay@.len() as usize));
            }
            ap.push(section);
            i += 1;
        }
        AllpassLine { ap, delays }
    }

    /// Silences every section.
    pub fn reset(&mut self)
        ensures
            final(self)@.sections.len() == N,
            old(self)@.sections.len() == N,
            final(self)@.delays == old(self)@.delays,
            forall|i: int|
                0 <= i < N ==> {
                    &&& (#[trigger] final(self)@.sections[i]).delay@.len()
                        == old(self)@.sections[i].delay@.len()
                    &&& forall|j: int|
                        0 <= j < final(self)@.sections[i].delay@.len() ==> (
                        #[trigger] final(self)@.sections[i].delay@[j]).is_zero()
                },
    {
        proof {
            use_type_invariant(&*self);
        }
        let mut i: usize = 0;
        while i < N
            invariant
                i <= N,
                self.ap@.len() == N,
                old(self).ap@.len() == N,
                self.delays == old(self).delays,
                forall|k: int|
                    0 <= k < i ==> {
                        &&& (#[trigger] self.ap@[k]).delay@.len() == old(self).ap@[k].delay@.len()
                        &&& forall|j: int|
                            0 <= j < self.ap@[k].delay@.len() ==> (
                            #[trigger] self.ap@[k].delay@[j]).is_zero()
                    },
                forall|k: int| i <= k < N ==> self.ap@[k] == old(self).ap@[k],
            decreases N - i,
        {
            self.ap[i].reset();
            i += 1;
        }
    }

    /// `next` and `out` are what the chain `self` gives for `input` when
    /// section `i` reads at `delays[i] * k + offset * (1 - k)`: the input
    /// passes through every section in turn.
    pub open spec fn runs(
        self,
        k: S,
        offset: S,
        gain: LaneVector<S, L>,
        input: LaneVector<S, L>,
        next: Self,
        out: LaneVector<S, L>,
    ) -> bool {
        exists|pos: Seq<S>, signal: Seq<LaneVector<S, L>>|
            {
                &&& pos.len() == N
                &&& signal.len() == N + 1
                &&& signal[0] == input
                &&& signal[N as int] == out
                &&& forall|i: int|
                    0 <= i < N ==> is_section_position(
                        self@.delays[i],
                        offset,
                        k,
                        #[trigger] pos[i],
                    )
                &&& forall|i: int|
                    0 <= i < N ==> (#[trigger] self@.sections[i]).steps(
                        gain,
                        pos[i],
                        signal[i],
                        next@.sections[i],
                        signal[i + 1],
                    )
            }
    }

    /// `next` and `out` are what one step of the chain `self` gives for
    /// `input`: the chain runs with `size` kept between zero and one.
    pub open spec fn steps(
        self,
        size: S,
        offset: S,
        gain: LaneVector<S, L>,
        input: LaneVector<S, L>,
        next: Self,
        out: LaneVector<S, L>,
    ) -> bool {
        &&& self@.sections.len() == N
        &&& next@.sections.len() == N
        &&& next@.delays == self@.delays
        &&& exists|k: S| #[trigger]
            is_unit_clamped(size, k) && self.runs(k, offset, gain, input, next, out)
    }

    /// Takes one sample in and gives one out.
    pub fn next_sample(
        &mut self,
        size: S,
        offset: S,
        gain: LaneVector<S, L>,
        input: LaneVector<S, L>,
    ) -> (out: LaneVector<S, L>)
        ensures
            old(self).steps(size, offset, gain, input, *final(self), out),
    {
        proof {
            use_type_invariant(&*self);
        }
        let zero = S::from_count(0);
        let lifted = size.at_least(zero);
        let one = S::from_count(1);
        let k = lifted.at_most(one);
        assert(is_unit_clamped(size, k)) by {
            assert(is_count(0, zero) && is_max(size, zero, lifted) && is_count(1, one));
        }
        let mut s = input;
        let ghost mut signal: Seq<LaneVector<S, L>> = seq![input];
        let ghost mut pos: Seq<S> = Seq::empty();
        let mut i: usize = 0;
        while i < N
            invariant
                i <= N,
                self.ap@.len() == N,
                old(self).ap@.len() == N,
                self.delays == old(self).delays,
                signal.len() == i + 1,
                pos.len() == i,
                signal[0] == input,
                signal[i as int] == s,
                forall|j: int|
                    0 <= j < i ==> is_section_position(
                        old(self).delays[j],
                        offset,
                        k,
                        #[trigger] pos[j],
                    ),
                forall|j: int|
                    0 <= j < i ==> (#[trigger] old(self).ap@[j]).steps(
                        gain,
                        pos[j],
                        signal[j],
                        self.ap@[j],
                        signal[j + 1],
                    ),
                forall|j: int| i <= j < N ==> self.ap@[j] == old(self).ap@[j],
            decreases N - i,
        {
            let a = self.delays[i].times(k);
            let unit = S::from_count(1);
            let rest = unit.minus(k);
            let b = offset.times(rest);
            let p = a.plus(b);
            assert(is_section_position(old(self).delays[i as int], offset, k, p)) by {
                assert(is_prod(old(self).delays[i as int], k, a) && is_count(1, unit) && is_diff(
                    unit,
                    k,
                    rest,
                ) && is_prod(offset, rest, b));
            }
            s = self.ap[i].next_sample(gain, p, s);
            proof {
                signal = signal.push(s);
                pos = pos.push(p);
            }
            i += 1;
        }
        assert(old(self).runs(k, offset, gain, input, *self, s));
        s
    }
}

} // verus!
