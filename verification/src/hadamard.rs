//! The fast Walsh-Hadamard transform: a mix of the lanes by sums and
//! differences of pairs, at strides that double from stage to stage.
use crate::lane::LaneVector;
use crate::sample::{is_diff, is_sum, Sample};
use vstd::arithmetic::power2::{is_pow2, lemma_pow2_pos, lemma_pow2_unfold, pow2};
use vstd::prelude::*;

verus! {

/// `after` is one butterfly stage of `before` at the stride `h`. The lanes
/// fall into blocks of `2 h`; a lane `j` in the lower half of its block
/// becomes `before[j] + before[j + h]`, and its partner in the upper half
/// becomes `before[j] - before[j + h]`.
pub open spec fn is_butterfly<S: Sample, const L: usize>(
    h: int,
    before: LaneVector<S, L>,
    after: LaneVector<S, L>,
) -> bool {
    forall|j: int|
        0 <= j < L ==> if (j / h) % 2 == 0 {
            is_sum(before.lanes[j], before.lanes[j + h], #[trigger] after.lanes[j])
        } else {
            is_diff(before.lanes[j - h], before.lanes[j], after.lanes[j])
        }
}

/// `r` is the transform of `a`: the last of a run of butterfly stages that
/// starts from `a`, with the strides 1, 2, 4 and so on, for as long as the
/// stride is less than the number of lanes.
pub open spec fn is_fwht<S: Sample, const L: usize>(
    a: LaneVector<S, L>,
    r: LaneVector<S, L>,
) -> bool {
    exists|stages: Seq<LaneVector<S, L>>|
        {
            &&& stages.len() > 0
            &&& #[trigger] stages[0] == a
            &&& stages.last() == r
            &&& forall|k: int|
                0 <= k < stages.len() - 1 ==> is_butterfly(
                    pow2(k as nat) as int,
                    stages[k],
                    #[trigger] stages[k + 1],
                )
            &&& pow2((stages.len() - 1) as nat) >= L
            &&& stages.len() >= 2 ==> pow2((stages.len() - 2) as nat) < L
        }
}

/// In a vector whose width is a multiple of `2 h`, the partner of a lane
/// lies in the vector too: `h` above a lane in the lower half of its block,
/// `h` below one in the upper half.
pub proof fn lemma_partner_in_range(j: int, h: int, n: int, width: int)
    requires
        0 < h,
        0 <= j < width,
        width == 2 * h * n,
    ensures
        (j / h) % 2 == 0 ==> j + h < width,
        (j / h) % 2 != 0 ==> j - h >= 0,
{
    let q = j / h;
    let r = j % h;
    assert(j == h * q + r && 0 <= r < h) by {
        vstd::arithmetic::div_mod::lemma_fundamental_div_mod(j, h);
        vstd::arithmetic::div_mod::lemma_mod_bound(j, h);
    }
    assert(q >= 0) by {
        vstd::arithmetic::div_mod::lemma_div_pos_is_pos(j, h);
    }
    if q % 2 == 0 {
        let m = q / 2;
        assert(q == 2 * m);
        assert(m < n) by (nonlinear_arith)
            requires
                j == h * q + r,
                q == 2 * m,
                0 <= r,
                0 < h,
                j < 2 * h * n,
        ;
        assert(j + h < 2 * h * n) by (nonlinear_arith)
            requires
                j == h * q + r,
                q == 2 * m,
                r < h,
                0 < h,
                m + 1 <= n,
        ;
    } else {
        assert(q >= 1);
        assert(j - h >= 0) by (nonlinear_arith)
            requires
                j == h * q + r,
                q >= 1,
                0 <= r,
                0 < h,
        ;
    }
}

/// Transforms `a` in `log2(L)` butterfly stages. The width has to be a power
/// of two; a vector without lanes is left as it is.
pub fn fwht<S: Sample, const L: usize>(a: LaneVector<S, L>) -> (r: LaneVector<S, L>)
    requires
        L == 0 || is_pow2(L as int),
    ensures
        is_fwht(a, r),
{
    let mut a = a;
    let ghost first = a;
    let ghost mut stages: Seq<LaneVector<S, L>> = seq![a];
    let ghost mut k: nat = 0;
    let ghost mut m: int = L as int;
    let mut h: usize = 1;
    proof {
        vstd::arithmetic::power2::lemma2_to64();
    }
    while h < L
        invariant
            h >= 1,
            h == pow2(k),
            L == 0 || (L == h * m && is_pow2(m)),
            stages.len() == k + 1,
            stages[0] == first,
            stages.last() == a,
            forall|i: int|
                0 <= i < stages.len() - 1 ==> is_butterfly(
                    pow2(i as nat) as int,
                    stages[i],
                    #[trigger] stages[i + 1],
                ),
            k >= 1 ==> pow2((k - 1) as nat) < L,
        decreases L - h,
    {
        proof {
            reveal(is_pow2);
            assert(m > 1) by (nonlinear_arith)
                requires
                    L == h * m,
                    h < L,
                    h >= 1,
            ;
            assert(L == 2 * h * (m / 2)) by (nonlinear_arith)
                requires
                    L == h * m,
                    m % 2 == 0,
            ;
        }
        let before = a;
        let mut j: usize = 0;
        while j < L
            invariant
                j <= L,
                h >= 1,
                L == 2 * h * (m / 2),
                forall|i: int|
                    0 <= i < j ==> if (i / h as int) % 2 == 0 {
                        is_sum(before.lanes[i], before.lanes[i + h], #[trigger] a.lanes[i])
                    } else {
                        is_diff(before.lanes[i - h], before.lanes[i], a.lanes[i])
                    },
            decreases L - j,
        {
            proof {
                lemma_partner_in_range(j as int, h as int, m / 2, L as int);
            }
            if (j / h) % 2 == 0 {
                a.lanes[j] = before.lanes[j].plus(before.lanes[j + h]);
            } else {
                a.lanes[j] = before.lanes[j - h].minus(before.lanes[j]);
            }
            j += 1;
        }
        proof {
            assert(is_butterfly(h as int, before, a));
            stages = stages.push(a);
            lemma_pow2_unfold(k + 1);
            k = k + 1;
            m = m / 2;
            assert(is_pow2(m) && m >= 1);
            assert(L == (2 * h) * m && 2 * h <= L) by (nonlinear_arith)
                requires
                    L == 2 * h * m,
                    m >= 1,
                    h >= 1,
            ;
        }
        h = h * 2;
    }
    proof {
        lemma_pow2_pos(k);
    }
    a
}

} // verus!
