use nih_reverb::delay::{cubic, cubic_lane, wrap, CubicWeights, Delay};
use nih_reverb::lane::LaneVector;
use nih_reverb::sample::{ratio, Sample};

#[derive(Clone, Copy, Debug, PartialEq)]
struct F(f32);

impl Sample for F {
    fn from_count(n: usize) -> Self {
        F(n as f32)
    }
    fn to_count(self) -> usize {
        self.0 as usize
    }
    fn tau() -> Self {
        F(std::f32::consts::TAU)
    }
    fn plus(self, rhs: Self) -> Self {
        F(self.0 + rhs.0)
    }
    fn minus(self, rhs: Self) -> Self {
        F(self.0 - rhs.0)
    }
    fn times(self, rhs: Self) -> Self {
        F(self.0 * rhs.0)
    }
    fn over(self, rhs: Self) -> Self {
        F(self.0 / rhs.0)
    }
    fn modulo(self, rhs: Self) -> Self {
        F(self.0 % rhs.0)
    }
    fn negated(self) -> Self {
        F(-self.0)
    }
    fn floor(self) -> Self {
        F(self.0.floor())
    }
    fn ceil(self) -> Self {
        F(self.0.ceil())
    }
    fn fract(self) -> Self {
        F(self.0.fract())
    }
    fn sin(self) -> Self {
        F(self.0.sin())
    }
    fn cos(self) -> Self {
        F(self.0.cos())
    }
    fn tan(self) -> Self {
        F(self.0.tan())
    }
    fn tanh(self) -> Self {
        F(self.0.tanh())
    }
    fn exceeds(self, rhs: Self) -> bool {
        self.0 > rhs.0
    }
    fn at_least(self, floor: Self) -> Self {
        F(self.0.max(floor.0))
    }
    fn at_most(self, ceiling: Self) -> Self {
        F(self.0.min(ceiling.0))
    }
}

fn lanes<const L: usize>(v: [f32; L]) -> LaneVector<F, L> {
    LaneVector { lanes: v.map(F) }
}

fn plain<const L: usize>(v: LaneVector<F, L>) -> [f32; L] {
    v.lanes.map(|x| x.0)
}

fn line_of(samples: &[f32]) -> Delay<LaneVector<F, 1>> {
    let mut line = Delay::new(samples.len());
    for s in samples.iter().rev() {
        line.push_next(lanes([*s]));
    }
    line
}

#[test]
fn new_line_is_silent() {
    let line: Delay<u32> = Delay::new(5);
    assert_eq!(line.len(), 5);
    for i in 0..8 {
        assert_eq!(line.sample(i), 0);
    }
}

#[test]
fn new_line_of_lane_vectors_is_silent() {
    let line: Delay<LaneVector<F, 3>> = Delay::new(4);
    assert_eq!(line.len(), 4);
    for i in 0..4 {
        assert_eq!(plain(line.sample(i)), [0.0, 0.0, 0.0]);
    }
}

#[test]
fn push_moves_samples_back() {
    let mut line: Delay<u32> = Delay::new(3);
    line.push_next(1);
    line.push_next(2);
    assert_eq!(line.len(), 3);
    assert_eq!(line.sample(0), 2);
    assert_eq!(line.sample(1), 1);
    assert_eq!(line.sample(2), 0);
    line.push_next(3);
    line.push_next(4);
    assert_eq!(line.len(), 3);
    assert_eq!(line.sample(0), 4);
    assert_eq!(line.sample(1), 3);
    assert_eq!(line.sample(2), 2);
}

#[test]
fn sample_clamps_beyond_the_oldest() {
    let mut line: Delay<u32> = Delay::new(3);
    line.push_next(7);
    line.push_next(8);
    line.push_next(9);
    assert_eq!(line.sample(2), 7);
    assert_eq!(line.sample(3), 7);
    assert_eq!(line.sample(usize::MAX), 7);
}

#[test]
fn line_without_capacity_stays_empty() {
    let mut line: Delay<u32> = Delay::new(0);
    line.push_next(5);
    line.push_next(6);
    assert_eq!(line.len(), 0);
    assert_eq!(line.sample(0), 0);
    assert_eq!(line.anchors(3), [0, 0, 0, 0]);
}

#[test]
fn reset_silences_and_keeps_the_length() {
    let mut line: Delay<u32> = Delay::new(4);
    for i in 1..10 {
        line.push_next(i);
    }
    line.reset();
    assert_eq!(line.len(), 4);
    for i in 0..4 {
        assert_eq!(line.sample(i), 0);
    }
}

#[test]
fn line_holds_the_last_pushes_newest_first() {
    let mut line: Delay<u32> = Delay::new(4);
    for i in 1..=11 {
        line.push_next(i);
    }
    assert_eq!(line.sample(0), 11);
    assert_eq!(line.sample(1), 10);
    assert_eq!(line.sample(2), 9);
    assert_eq!(line.sample(3), 8);
}

#[test]
fn anchors_surround_the_position() {
    let mut line: Delay<u32> = Delay::new(6);
    for i in (10..16).rev() {
        line.push_next(i);
    }
    // content: 10 11 12 13 14 15
    assert_eq!(line.anchors(3), [11, 12, 13, 14]);
    assert_eq!(line.anchors(0), [10, 10, 10, 11]);
    assert_eq!(line.anchors(1), [10, 10, 11, 12]);
    assert_eq!(line.anchors(5), [13, 14, 15, 15]);
    assert_eq!(line.anchors(usize::MAX), [15, 15, 15, 15]);
}

#[test]
fn cubic_is_exact_at_both_ends() {
    let p = [lanes([3.0, -1.0]), lanes([5.0, 2.0]), lanes([-7.0, 4.0]), lanes([11.0, 8.0])];
    assert_eq!(plain(cubic(F(0.0), p)), [5.0, 2.0]);
    assert_eq!(plain(cubic(F(1.0), p)), [-7.0, 4.0]);
}

#[test]
fn cubic_through_a_straight_line_is_linear() {
    let p = [lanes([0.0]), lanes([1.0]), lanes([2.0]), lanes([3.0])];
    assert_eq!(plain(cubic(F(0.5), p)), [1.5]);
    assert_eq!(plain(cubic(F(0.25), p)), [1.25]);
}

#[test]
fn cubic_midpoint_of_a_bump() {
    // x1 + 0.5 t (x2 - x0 + t (2 x0 - 5 x1 + 4 x2 - x3 + t (3 (x1 - x2) + x3 - x0)))
    // with p = 0 1 1 0 and t = 0.5: 1 + 0.25 (1 + 0.5 (-1 + 0)) = 1.125
    let k: CubicWeights<F> = CubicWeights::new();
    assert_eq!(cubic_lane(&k, F(0.5), F(0.0), F(1.0), F(1.0), F(0.0)), F(1.125));
}

#[test]
fn cubic_weights_are_the_constants() {
    let k: CubicWeights<F> = CubicWeights::new();
    assert_eq!(k.half, F(0.5));
    assert_eq!(k.two, F(2.0));
    assert_eq!(k.three, F(3.0));
    assert_eq!(k.four, F(4.0));
    assert_eq!(k.five, F(5.0));
}

#[test]
fn ratio_matches_the_decimal_constant() {
    assert_eq!(ratio::<F>(3, 10), F(0.3));
    assert_eq!(ratio::<F>(1000, 1000000), F(1e-3));
    assert_eq!(ratio::<F>(15000, 1000000), F(15e-3));
    assert_eq!(ratio::<F>(400, 1000), F(400e-3));
}

#[test]
fn tap_at_position_zero_is_the_newest_sample() {
    let line = line_of(&[1.0, 2.0, 3.0, 4.0]);
    assert_eq!(plain(line.tap(F(0.0))), [1.0]);
}

#[test]
fn tap_at_a_whole_position_is_a_stored_sample() {
    // At a whole position the interpolation returns its second anchor,
    // the sample one position before.
    let line = line_of(&[1.0, 2.0, 3.0, 4.0]);
    assert_eq!(plain(line.tap(F(1.0))), [1.0]);
    assert_eq!(plain(line.tap(F(2.0))), [2.0]);
    assert_eq!(plain(line.tap(F(3.0))), [3.0]);
}

#[test]
fn tap_on_a_constant_line_is_exact_everywhere() {
    let line = line_of(&[2.5, 2.5, 2.5, 2.5, 2.5]);
    for k in 0..5 {
        assert_eq!(plain(line.tap(F(k as f32))), [2.5]);
    }
    assert_eq!(plain(line.tap(F(1.75))), [2.5]);
}

#[test]
fn tap_between_positions_interpolates() {
    let line = line_of(&[0.0, 1.0, 2.0, 3.0, 4.0, 5.0]);
    // position 3.5: anchors 1 2 3 4, halfway between 2 and 3
    assert_eq!(plain(line.tap(F(3.5))), [2.5]);
}

#[test]
fn tap_wraps_positions_outside_the_line() {
    let line = line_of(&[1.0, 2.0, 3.0, 4.0]);
    // 6 wraps to 2, -1 wraps to 3
    assert_eq!(plain(line.tap(F(6.0))), plain(line.tap(F(2.0))));
    assert_eq!(plain(line.tap(F(-1.0))), plain(line.tap(F(3.0))));
    // below minus the length the position is wrapped once more
    assert_eq!(plain(line.tap(F(-5.0))), plain(line.tap(F(3.0))));
    assert_eq!(plain(line.tap(F(-9.5))), plain(line.tap(F(2.5))));
    assert_eq!(plain(line.tap(F(-4.0))), plain(line.tap(F(0.0))));
    // far outside: still a value of the line
    let far = plain(line.tap(F(1.0e9)))[0];
    assert!(far >= 1.0 && far <= 4.0);
    let below = plain(line.tap(F(-1.0e9)))[0];
    assert!(below >= 1.0 && below <= 4.0);
}

#[test]
fn wrap_lands_within_the_line() {
    for len in [1.0f32, 3.0, 4.0, 1000.0] {
        for pos in [-1.0e9f32, -2500.75, -9.5, -4.0, -0.25, 0.0, 0.5, 3.999, 4.0, 17.25, 1.0e9] {
            let w = wrap(F(pos), F(len)).0;
            assert!(w >= 0.0 && w < len);
        }
    }
    assert_eq!(wrap(F(2.5), F(4.0)), F(2.5));
    assert_eq!(wrap(F(6.5), F(4.0)), F(2.5));
    assert_eq!(wrap(F(-1.5), F(4.0)), F(2.5));
    assert_eq!(wrap(F(-9.5), F(4.0)), F(2.5));
}

#[test]
fn tap_on_an_empty_line_does_not_fail() {
    let line: Delay<LaneVector<F, 2>> = Delay::new(0);
    let r = line.tap(F(3.0));
    assert_eq!(r.lanes.len(), 2);
}

#[test]
fn get_reads_each_lane_at_its_own_position() {
    let mut line: Delay<LaneVector<F, 2>> = Delay::new(4);
    for v in [[4.0, 40.0], [3.0, 30.0], [2.0, 20.0], [1.0, 10.0]] {
        line.push_next(lanes(v));
    }
    // content: (1,10) (2,20) (3,30) (4,40)
    let r = line.get(lanes([1.0, 3.0]));
    assert_eq!(plain(r), [1.0, 30.0]);
    let r = line.get(lanes([2.0, 2.0]));
    assert_eq!(plain(r), plain(line.tap(F(2.0))));
}

#[test]
fn impulse_decays_from_a_silent_line() {
    for capacity in [1usize, 2, 5, 64] {
        let mut line: Delay<LaneVector<F, 2>> = Delay::new(capacity);
        line.push_next(lanes([1.0, 1.0]));
        for _ in 0..capacity {
            line.push_next(lanes([0.0, 0.0]));
        }
        for k in 0..capacity {
            assert_eq!(plain(line.tap(F(k as f32))), [0.0, 0.0]);
            assert_eq!(plain(line.tap(F(k as f32 + 0.5))), [0.0, 0.0]);
        }
    }
}

#[test]
fn impulse_is_still_there_one_push_earlier() {
    let mut line: Delay<LaneVector<F, 1>> = Delay::new(3);
    line.push_next(lanes([1.0]));
    line.push_next(lanes([0.0]));
    line.push_next(lanes([0.0]));
    assert_eq!(plain(line.sample(2)), [1.0]);
    line.push_next(lanes([0.0]));
    assert_eq!(plain(line.sample(2)), [0.0]);
}

#[test]
fn tap_with_an_undefined_position_does_not_fail() {
    let line = line_of(&[1.0, 2.0, 3.0]);
    let r = line.tap(F(f32::NAN));
    assert_eq!(r.lanes.len(), 1);
    let r = line.tap(F(f32::INFINITY));
    assert_eq!(r.lanes.len(), 1);
    let r = line.get(lanes([f32::NEG_INFINITY]));
    assert_eq!(r.lanes.len(), 1);
}
