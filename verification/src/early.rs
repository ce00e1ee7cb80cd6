//! The early-reflection cascade: a chain of diffusion stages, each over a
//! longer time base than the one before.
use crate::diffusion::Diffusion;
use crate::lane::LaneVector;
use crate::sample::{is_count, is_prod, is_quot, is_ratio, is_sum, ratio, Sample};
use vstd::prelude::*;

verus! {

/// The time base of the first stage in thousandths of the sample rate.
pub const CASCADE_SPAN_MILLIS: usize = 400;

/// `r` is the time base of stage `i` of `width`, at the sample rate
/// `samplerate`: `span * samplerate * (1 + (i / width)^2)`, with `span` the
/// constant `CASCADE_SPAN_MILLIS / 1000`.
pub open spec fn is_stage_rate<S: Sample>(samplerate: S, i: usize, width: usize, r: S) -> bool {
    exists|span: S, base: S, lane: S, lanes: S, t: S, square: S, one: S, grown: S|
        {
            &&& #[trigger] is_ratio(CASCADE_SPAN_MILLIS, 1000, span)
            &&& #[trigger] is_prod(span, samplerate, base)
            &&& #[trigger] is_count(i, lane)
            &&& #[trigger] is_count(width, lanes)
            &&& #[trigger] is_quot(lane, lanes, t)
            &&& #[trigger] is_prod(t, t, square)
            &&& #[trigger] is_count(1, one)
            &&& #[trigger] is_sum(one, square, grown)
            &&& is_prod(base, grown, r)
        }
}

/// The time base of stage `i` of `width`.
pub fn stage_rate<S: Sample>(samplerate: S, i: usize, width: usize) -> (r: S)
    ensures
        is_stage_rate(samplerate, i, width, r),
{
    let span: S = ratio(CASCADE_SPAN_MILLIS, 1000);
    let base = span.times(samplerate);
    let lane = S::from_count(i);
    let lanes = S::from_count(width);
    let t = lane.over(lanes);
    let square = t.times(t);
    let one = S::from_count(1);
    let grown = one.plus(square);
    let r = base.times(grown);
    assert(is_ratio(CASCADE_SPAN_MILLIS, 1000, span) && is_prod(span, samplerate, base)
        && is_count(i, lane) && is_count(width, lanes) && is_quot(lane, lanes, t) && is_prod(
        t,
        t,
        square,
    ) && is_count(1, one) && is_sum(one, square, grown));
    r
}

/// `post` and `out` are what the stages `pre`, run in turn, give for
/// `input`: the output of one stage is the input of the next.
pub open spec fn chain_steps<S: Sample, const L: usize>(
    pre: Seq<Diffusion<S, L>>,
    size: S,
    mod_depth: S,
    input: LaneVector<S, L>,
    post: Seq<Diffusion<S, L>>,
    out: LaneVector<S, L>,
) -> bool {
    &&& pre.len() == L
    &&& post.len() == L
    &&& exists|signal: Seq<LaneVector<S, L>>|
        {
            &&& signal.len() == L + 1
            &&& signal[0] == input
            &&& signal[L as int] == out
            &&& forall|i: int|
                0 <= i < L ==> (#[trigger] pre[i]).steps(
                    size,
                    mod_depth,
                    signal[i],
                    post[i],
                    signal[i + 1],
                )
        }
}

/// `post` and `after` are what the stages `pre` give for the block
/// `before`, stage by stage: the whole block passes through the first stage,
/// then through the second, and so on.
pub open spec fn chain_steps_block<S: Sample, const L: usize>(
    pre: Seq<Diffusion<S, L>>,
    size: Seq<S>,
    mod_depth: Seq<S>,
    before: Seq<LaneVector<S, L>>,
    post: Seq<Diffusion<S, L>>,
    after: Seq<LaneVector<S, L>>,
) -> bool {
    &&& pre.len() == L
    &&& post.len() == L
    &&& exists|blocks: Seq<Seq<LaneVector<S, L>>>|
        {
            &&& blocks.len() == L + 1
            &&& blocks[0] == before
            &&& blocks[L as int] == after
            &&& forall|i: int|
                0 <= i < L ==> (#[trigger] pre[i]).steps_block(
                    size,
                    mod_depth,
                    blocks[i],
                    post[i],
                    blocks[i + 1],
                )
        }
}

/// `post` and `after` are what the stages `pre` give for the block
/// `before`, sample by sample: each sample passes through all stages before
/// the next sample is taken in. Samples beyond the shortest of the three
/// sequences stay as they are.
pub open spec fn chain_steps_each<S: Sample, const L: usize>(
    pre: Seq<Diffusion<S, L>>,
    size: Seq<S>,
    mod_depth: Seq<S>,
    before: Seq<LaneVector<S, L>>,
    post: Seq<Diffusion<S, L>>,
    after: Seq<LaneVector<S, L>>,
) -> bool {
    let n = Diffusion::<S, L>::block_len(size, mod_depth, before);
    &&& after.len() == before.len()
    &&& forall|j: int| n <= j < before.len() ==> #[trigger] after[j] == before[j]
    &&& exists|rows: Seq<Seq<Diffusion<S, L>>>|
        {
            &&& rows.len() == n + 1
            &&& rows[0] == pre
            &&& rows[n as int] == post
            &&& forall|j: int|
                0 <= j < n ==> chain_steps(
                    #[trigger] rows[j],
                    size[j],
                    mod_depth[j],
                    before[j],
                    rows[j + 1],
                    after[j],
                )
        }
}

/// A cascade of as many diffusion stages as there are lanes. The view is the
/// sequence of its stages, first to last.
pub struct Early<S, const LANES: usize> {
    ap: Vec<Diffusion<S, LANES>>,
}

impl<S, const LANES: usize> View for Early<S, LANES> {
    type V = Seq<Diffusion<S, LANES>>;

    closed spec fn view(&self) -> Seq<Diffusion<S, LANES>> {
        self.ap@
    }
}

impl<S, const LANES: usize> Early<S, LANES> {
    #[verifier::type_invariant]
    spec fn has_all_stages(self) -> bool {
        self.ap@.len() == LANES
    }
}

impl<S: Sample, const LANES: usize> Early<S, LANES> {
    /// `self` is a silent cascade for the sample rate `samplerate`: stage
    /// `i` is a new stage over its own time base, with `offsets[i]` and
    /// `phases[i]`.
    pub open spec fn is_new(
        self,
        samplerate: S,
        offsets: [[S; LANES]; LANES],
        phases: [[S; LANES]; LANES],
    ) -> bool {
        &&& self@.len() == LANES
        &&& forall|i: int|
            0 <= i < LANES ==> {
                &&& is_stage_rate(samplerate, i as usize, LANES, (#[trigger] self@[i]).samplerate)
                &&& self@[i].is_new(self@[i].samplerate, offsets[i], phases[i])
            }
    }

    /// A silent cascade for the sample rate `samplerate`. Stage `i` takes
    /// its jitter from `offsets[i]` and its starting phases from
    /// `phases[i]`.
    pub fn new(
        samplerate: S,
        offsets: [[S; LANES]; LANES],
        phases: [[S; LANES]; LANES],
    ) -> (r: Self)
        ensures
            r.is_new(samplerate, offsets, phases),
    {
        let mut ap: Vec<Diffusion<S, LANES>> = Vec::new();
        let mut i: usize = 0;
        while i < LANES
            invariant
                i <= LANES,
                ap@.len() == i,
                forall|k: int|
                    0 <= k < i ==> {
                        &&& is_stage_rate(
                            samplerate,
                            k as usize,
                            LANES,
                            (#[trigger] ap@[k]).samplerate,
                        )
                        &&& ap@[k].is_new(ap@[k].samplerate, offsets[k], phases[k])
                    },
            decreases LANES - i,
        {
            let rate = stage_rate(samplerate, i, LANES);
            let stage = Diffusion::new(rate, offsets[i], phases[i]);
            ap.push(stage);
            i += 1;
        }
        Early { ap }
    }

    /// `next` and `out` are what one step of the cascade `self` gives for
    /// `input`: the input passes through every stage in turn, the output of
    /// one being the input of the next.
    pub open spec fn steps(
        self,
        size: S,
        mod_depth: S,
        input: LaneVector<S, LANES>,
        next: Self,
        out: LaneVector<S, LANES>,
    ) -> bool {
        chain_steps(self@, size, mod_depth, input, next@, out)
    }

    /// Takes one sample in and gives one diffused sample out.
    pub fn next_sample(
        &mut self,
        size: S,
        mod_depth: S,
        input: LaneVector<S, LANES>,
    ) -> (out: LaneVector<S, LANES>)
        ensures
            old(self).steps(size, mod_depth, input, *final(self), out),
    {
        proof {
            use_type_invariant(&*self);
        }
        let mut s = input;
        let ghost mut signal: Seq<LaneVector<S, LANES>> = seq![input];
        let mut i: usize = 0;
        while i < LANES
            invariant
                i <= LANES,
                self.ap@.len() == LANES,
                old(self).ap@.len() == LANES,
                signal.len() == i + 1,
                signal[0] == input,
                signal[i as int] == s,
                forall|k: int|
                    0 <= k < i ==> (#[trigger] old(self).ap@[k]).steps(
                        size,
                        mod_depth,
                        signal[k],
                        self.ap@[k],
                        signal[k + 1],
                    ),
                forall|k: int| i <= k < LANES ==> self.ap@[k] == old(self).ap@[k],
            decreases LANES - i,
        {
            s = self.ap[i].next_sample(size, mod_depth, s);
            proof {
                signal = signal.push(s);
            }
            i += 1;
        }
        s
    }

    /// `next` and `after` are what the cascade `self` gives for the block
    /// `before`: the whole block passes through every stage in turn.
    pub open spec fn steps_block(
        self,
        size: Seq<S>,
        mod_depth: Seq<S>,
        before: Seq<LaneVector<S, LANES>>,
        next: Self,
        after: Seq<LaneVector<S, LANES>>,
    ) -> bool {
        chain_steps_block(self@, size, mod_depth, before, next@, after)
    }

    /// Runs a block through the cascade in place. Sample `j` is processed
    /// with `size[j]` and `mod_depth[j]`; samples beyond the shortest of the
    /// three slices stay as they are.
    pub fn next_block(&mut self, size: &[S], mod_depth: &[S], buffer: &mut [LaneVector<S, LANES>])
        ensures
            old(self).steps_block(size@, mod_depth@, old(buffer)@, *final(self), final(buffer)@),
    {
        proof {
            use_type_invariant(&*self);
        }
        let ghost mut blocks: Seq<Seq<LaneVector<S, LANES>>> = seq![buffer@];
        let mut i: usize = 0;
        while i < LANES
            invariant
                i <= LANES,
                self.ap@.len() == LANES,
                old(self).ap@.len() == LANES,
                blocks.len() == i + 1,
                blocks[0] == old(buffer)@,
                blocks[i as int] == buffer@,
                forall|k: int|
                    0 <= k < i ==> (#[trigger] old(self).ap@[k]).steps_block(
                        size@,
                        mod_depth@,
                        blocks[k],
                        self.ap@[k],
                        blocks[k + 1],
                    ),
                forall|k: int| i <= k < LANES ==> self.ap@[k] == old(self).ap@[k],
            decreases LANES - i,
        {
            self.ap[i].next_block(size, mod_depth, buffer);
            proof {
                blocks = blocks.push(buffer@);
            }
            i += 1;
        }
    }
}

/// Every block of a stage-by-stage run is as long as the first, and equals
/// it beyond the samples that the run works on.
proof fn lemma_blocks_keep_their_shape<S: Sample, const L: usize>(
    pre: Seq<Diffusion<S, L>>,
    size: Seq<S>,
    mod_depth: Seq<S>,
    post: Seq<Diffusion<S, L>>,
    blocks: Seq<Seq<LaneVector<S, L>>>,
    i: int,
)
    requires
        pre.len() == L,
        post.len() == L,
        blocks.len() == L + 1,
        0 <= i <= L,
        forall|k: int|
            0 <= k < L ==> (#[trigger] pre[k]).steps_block(
                size,
                mod_depth,
                blocks[k],
                post[k],
                blocks[k + 1],
            ),
    ensures
        blocks[i].len() == blocks[0].len(),
        forall|j: int|
            Diffusion::<S, L>::block_len(size, mod_depth, blocks[0]) <= j < blocks[0].len()
                ==> #[trigger] blocks[i][j] == blocks[0][j],
    decreases i,
{
    if i > 0 {
        lemma_blocks_keep_their_shape(pre, size, mod_depth, post, blocks, i - 1);
        assert(pre[i - 1].steps_block(
            size,
            mod_depth,
            blocks[i - 1],
            post[i - 1],
            blocks[i - 1 + 1],
        ));
    }
}

/// The states that stage `i` of a stage-by-stage run goes through, one
/// before each sample and one after the last.
spec fn stage_states<S: Sample, const L: usize>(
    pre: Seq<Diffusion<S, L>>,
    size: Seq<S>,
    mod_depth: Seq<S>,
    post: Seq<Diffusion<S, L>>,
    blocks: Seq<Seq<LaneVector<S, L>>>,
    i: int,
) -> Seq<Diffusion<S, L>> {
    let n = Diffusion::<S, L>::block_len(size, mod_depth, blocks[i]);
    choose|states: Seq<Diffusion<S, L>>|
        {
            &&& states.len() == n + 1
            &&& states[0] == pre[i]
            &&& states[n as int] == post[i]
            &&& forall|j: int|
                0 <= j < n ==> (#[trigger] states[j]).steps(
                    size[j],
                    mod_depth[j],
                    blocks[i][j],
                    states[j + 1],
                    blocks[i + 1][j],
                )
        }
}

/// Running a block through the cascade stage by stage gives what running it
/// sample by sample gives: a block call is a loop over the samples, not
/// another algorithm.
pub proof fn lemma_block_is_sample_by_sample<S: Sample, const L: usize>(
    pre: Seq<Diffusion<S, L>>,
    size: Seq<S>,
    mod_depth: Seq<S>,
    before: Seq<LaneVector<S, L>>,
    post: Seq<Diffusion<S, L>>,
    after: Seq<LaneVector<S, L>>,
)
    requires
        chain_steps_block(pre, size, mod_depth, before, post, after),
    ensures
        chain_steps_each(pre, size, mod_depth, before, post, after),
{
    let n = Diffusion::<S, L>::block_len(size, mod_depth, before);
    let blocks = choose|blocks: Seq<Seq<LaneVector<S, L>>>|
        {
            &&& blocks.len() == L + 1
            &&& blocks[0] == before
            &&& blocks[L as int] == after
            &&& forall|i: int|
                0 <= i < L ==> (#[trigger] pre[i]).steps_block(
                    size,
                    mod_depth,
                    blocks[i],
                    post[i],
                    blocks[i + 1],
                )
        };
    assert forall|i: int| 0 <= i <= L implies {
        &&& (#[trigger] blocks[i]).len() == before.len()
        &&& Diffusion::<S, L>::block_len(size, mod_depth, blocks[i]) == n
        &&& forall|j: int| n <= j < before.len() ==> blocks[i][j] == before[j]
    } by {
        lemma_blocks_keep_their_shape(pre, size, mod_depth, post, blocks, i);
    }
    let rows = Seq::new(
        n + 1,
        |j: int|
            Seq::new(L as nat, |i: int| stage_states(pre, size, mod_depth, post, blocks, i)[j]),
    );
    assert forall|i: int| 0 <= i < L implies {
        let states = #[trigger] stage_states(pre, size, mod_depth, post, blocks, i);
        &&& states.len() == n + 1
        &&& states[0] == pre[i]
        &&& states[n as int] == post[i]
        &&& forall|j: int|
            0 <= j < n ==> (#[trigger] states[j]).steps(
                size[j],
                mod_depth[j],
                blocks[i][j],
                states[j + 1],
                blocks[i + 1][j],
            )
    } by {
        assert(pre[i].steps_block(size, mod_depth, blocks[i], post[i], blocks[i + 1]));
    }
    assert(rows[0] =~= pre);
    assert(rows[n as int] =~= post);
    assert forall|j: int| 0 <= j < n implies chain_steps(
        #[trigger] rows[j],
        size[j],
        mod_depth[j],
        before[j],
        rows[j + 1],
        after[j],
    ) by {
        let signal = Seq::new((L + 1) as nat, |i: int| blocks[i][j]);
        assert(signal.len() == L + 1);
        assert(signal[0] == before[j]);
        assert(signal[L as int] == after[j]);
        assert forall|i: int| 0 <= i < L implies (#[trigger] rows[j][i]).steps(
            size[j],
            mod_depth[j],
            signal[i],
            rows[j + 1][i],
            signal[i + 1],
        ) by {
            let states = stage_states(pre, size, mod_depth, post, blocks, i);
            assert(states[j].steps(
                size[j],
                mod_depth[j],
                blocks[i][j],
                states[j + 1],
                blocks[i + 1][j],
            ));
        }
    }
    assert(blocks[L as int].len() == before.len());
    assert forall|j: int| n <= j < before.len() implies #[trigger] after[j] == before[j] by {
        assert(blocks[L as int][j] == before[j]);
    }
    assert(rows.len() == n + 1 && rows[0] == pre && rows[n as int] == post);
}

} // verus!
