use nih_reverb::allpass::{Allpass, AllpassLine};
use nih_reverb::biquad::{Biquad, BiquadParams};
use nih_reverb::lane::LaneVector;
use nih_reverb::sample::Sample;

#[derive(Clone, Copy, Debug, PartialEq)]
struct F(f32);

impl Sample for F {
    fn from_count(n: usize) -> Self {
        F(n as f32)
    }
    fn to_count(self) -> usize {
        self.0 as usize
    }
    fn tau() -> Self {
        F(std::f32::consts::TAU)
    }
    fn plus(self, rhs: Self) -> Self {
        F(self.0 + rhs.0)
    }
    fn minus(self, rhs: Self) -> Self {
        F(self.0 - rhs.0)
    }
    fn times(self, rhs: Self) -> Self {
        F(self.0 * rhs.0)
    }
    fn over(self, rhs: Self) -> Self {
        F(self.0 / rhs.0)
    }
    fn modulo(self, rhs: Self) -> Self {
        F(self.0 % rhs.0)
    }
    fn negated(self) -> Self {
        F(-self.0)
    }
    fn floor(self) -> Self {
        F(self.0.floor())
    }
    fn ceil(self) -> Self {
        F(self.0.ceil())
    }
    fn fract(self) -> Self {
        F(self.0.fract())
    }
    fn sin(self) -> Self {
        F(self.0.sin())
    }
    fn cos(self) -> Self {
        F(self.0.cos())
    }
    fn tan(self) -> Self {
        F(self.0.tan())
    }
    fn tanh(self) -> Self {
        F(self.0.tanh())
    }
    fn exceeds(self, rhs: Self) -> bool {
        self.0 > rhs.0
    }
    fn at_least(self, floor: Self) -> Self {
        F(self.0.max(floor.0))
    }
    fn at_most(self, ceiling: Self) -> Self {
        F(self.0.min(ceiling.0))
    }
}

fn lanes<const L: usize>(v: [f32; L]) -> LaneVector<F, L> {
    LaneVector { lanes: v.map(F) }
}

fn plain<const L: usize>(v: LaneVector<F, L>) -> [f32; L] {
    v.lanes.map(|x| x.0)
}

fn test_unit(params: BiquadParams<F, 1>, steady: f32) {
    let mut biquad = Biquad::new(params);
    let steady_actual = std::iter::repeat(0.)
        .take(10)
        .chain(std::iter::repeat(1.))
        .map(|v| biquad.next_sample(lanes([v])).lanes[0].0)
        .take(5000)
        .last()
        .unwrap();
    assert!((steady - steady_actual).abs() <= f32::EPSILON);
}

#[test]
fn step_highpass_1p() {
    test_unit(BiquadParams::highpass_1p(lanes([0.3]), lanes([1.])), 0.);
}

#[test]
fn step_lowpass_1p() {
    // b0 = b1 = k / a and a1 = -(1 - fc) / a give the gain
    // (b0 + b1) / (1 + a1) = 2 k / (k + fc) at rest, with k = tan(fc / 2).
    let k = (0.3f32 / 2.).tan();
    test_unit(BiquadParams::lowpass_1p(lanes([0.3]), lanes([1.])), 2. * k / (k + 0.3));
}

#[test]
fn default_params_pass_through() {
    let p: BiquadParams<F, 2> = BiquadParams::default();
    assert_eq!(plain(p.a[0]), [0.0, 0.0]);
    assert_eq!(plain(p.a[1]), [0.0, 0.0]);
    assert_eq!(plain(p.b[0]), [1.0, 1.0]);
    assert_eq!(plain(p.b[1]), [0.0, 0.0]);
    assert_eq!(plain(p.b[2]), [0.0, 0.0]);
    let mut f: Biquad<F, 2> = Biquad::default();
    for v in [[1.0, -2.0], [0.5, 0.25], [0.0, 7.0]] {
        assert_eq!(plain(f.next_sample(lanes(v))), v);
    }
}

#[test]
fn bandpass_coefficients() {
    let (fc, q) = (0.1f32, 0.75f32);
    let w0 = std::f32::consts::TAU * fc;
    let alpha = w0.sin() / (2.0 * q);
    let a0 = 1.0 + alpha;
    let p = BiquadParams::<F, 1>::bandpass(lanes([fc]), lanes([q]));
    assert_eq!(plain(p.b[0]), [alpha / a0]);
    assert_eq!(plain(p.b[1]), [0.0]);
    assert_eq!(plain(p.b[2]), [-alpha / a0]);
    assert_eq!(plain(p.a[0]), [(-2.0 * w0.cos()) / a0]);
    assert_eq!(plain(p.a[1]), [(1.0 - alpha) / a0]);
    // the three feed-forward coefficients cancel: no gain for a constant
    assert_eq!(p.b[0].lanes[0].0 + p.b[1].lanes[0].0 + p.b[2].lanes[0].0, 0.0);
}

#[test]
fn bandpass_passes_its_centre_at_unit_gain() {
    // normalised by a0, the section has gain one at the centre frequency
    let fc = 0.125f32;
    let mut f = Biquad::new(BiquadParams::<F, 1>::bandpass(lanes([fc]), lanes([2.0])));
    let mut peak = 0.0f32;
    for n in 0..4000 {
        let x = (std::f32::consts::TAU * fc * n as f32).sin();
        let y = f.next_sample(lanes([x])).lanes[0].0;
        if n >= 3000 {
            peak = peak.max(y.abs());
        }
    }
    assert!((peak - 1.0).abs() < 1e-3);
}

#[test]
fn allpass_coefficients() {
    let (fc, q) = (0.2f32, 1.5f32);
    let w0 = std::f32::consts::TAU * fc;
    let alpha = w0.sin() / (2.0 * q);
    let a0 = 1.0 + alpha;
    let p = BiquadParams::<F, 1>::allpass(lanes([fc]), lanes([q]));
    assert_eq!(plain(p.b[0]), [(1.0 - alpha) / a0]);
    assert_eq!(plain(p.b[1]), [(-2.0 * w0.cos()) / a0]);
    assert_eq!(plain(p.b[2]), [1.0]);
    assert_eq!(plain(p.a[0]), plain(p.b[1]));
    assert_eq!(plain(p.a[1]), plain(p.b[0]));
}

#[test]
fn lowpass_1p_coefficients() {
    let fc = 0.3f32;
    let k = (fc / 2.0).tan();
    let a = 1.0 + k;
    let p = BiquadParams::<F, 1>::lowpass_1p(lanes([fc]), lanes([9.0]));
    assert_eq!(plain(p.a[0]), [-(1.0 - fc) / a]);
    assert_eq!(plain(p.a[1]), [0.0]);
    assert_eq!(plain(p.b[0]), [k / a]);
    assert_eq!(plain(p.b[1]), [k / a]);
    assert_eq!(plain(p.b[2]), [0.0]);
}

#[test]
fn highpass_1p_coefficients() {
    let fc = 0.05f32;
    let k = (fc / 2.0).tan();
    let a = 1.0 + k;
    let p = BiquadParams::<F, 1>::highpass_1p(lanes([fc]), lanes([9.0]));
    assert_eq!(plain(p.a[0]), [-(1.0 - fc) / a]);
    assert_eq!(plain(p.a[1]), [0.0]);
    assert_eq!(plain(p.b[0]), [1.0 / a]);
    assert_eq!(plain(p.b[1]), [-1.0 / a]);
    assert_eq!(plain(p.b[2]), [0.0]);
}

#[test]
fn coefficients_are_per_lane() {
    let p = BiquadParams::<F, 2>::lowpass_1p(lanes([0.1, 0.4]), lanes([1.0, 1.0]));
    let one = BiquadParams::<F, 1>::lowpass_1p(lanes([0.1]), lanes([1.0]));
    let other = BiquadParams::<F, 1>::lowpass_1p(lanes([0.4]), lanes([1.0]));
    assert_eq!(p.b[0].lanes[0], one.b[0].lanes[0]);
    assert_eq!(p.b[0].lanes[1], other.b[0].lanes[0]);
    assert_eq!(p.a[0].lanes[0], one.a[0].lanes[0]);
    assert_eq!(p.a[0].lanes[1], other.a[0].lanes[0]);
}

#[test]
fn filter_step_follows_the_update_rule() {
    let params = BiquadParams {
        a: [lanes([0.5]), lanes([0.25])],
        b: [lanes([2.0]), lanes([1.0]), lanes([4.0])],
    };
    let mut f = Biquad::new(params);
    // y = s0 + b0 x; s0' = s1 + b1 x - a1 y; s1' = b2 x - a2 y
    // x = 1: y = 2; s0 = 0 + 1 - 1 = 0; s1 = 4 - 0.5 = 3.5
    assert_eq!(plain(f.next_sample(lanes([1.0]))), [2.0]);
    assert_eq!(plain(f.state[0]), [0.0]);
    assert_eq!(plain(f.state[1]), [3.5]);
    // x = 0: y = 0; s0 = 3.5; s1 = 0
    assert_eq!(plain(f.next_sample(lanes([0.0]))), [0.0]);
    assert_eq!(plain(f.state[0]), [3.5]);
    assert_eq!(plain(f.state[1]), [0.0]);
    // x = -1: y = 3.5 - 2 = 1.5; s0 = 0 - 1 - 0.75 = -1.75; s1 = -4 - 0.375
    assert_eq!(plain(f.next_sample(lanes([-1.0]))), [1.5]);
    assert_eq!(plain(f.state[0]), [-1.75]);
    assert_eq!(plain(f.state[1]), [-4.375]);
}

#[test]
fn reset_puts_the_filter_at_rest() {
    let params = BiquadParams::<F, 1>::bandpass(lanes([0.1]), lanes([2.0]));
    let mut f = Biquad::new(params);
    let first = plain(f.next_sample(lanes([1.0])));
    f.next_sample(lanes([0.5]));
    f.reset();
    assert_eq!(plain(f.state[0]), [0.0]);
    assert_eq!(plain(f.state[1]), [0.0]);
    assert_eq!(plain(f.params.b[0]), plain(params.b[0]));
    assert_eq!(plain(f.next_sample(lanes([1.0]))), first);
}

#[test]
fn bandpass_rejects_a_constant() {
    let mut f = Biquad::new(BiquadParams::<F, 1>::bandpass(lanes([0.1]), lanes([1.0])));
    let mut last = 1.0;
    for _ in 0..5000 {
        last = f.next_sample(lanes([1.0])).lanes[0].0;
    }
    assert!(last.abs() < 1e-4);
}

#[test]
fn allpass_section_mixes_input_and_feedback() {
    let mut ap: Allpass<F, 1> = Allpass::new(4);
    let gain = lanes([0.5]);
    // the line is silent, so the first output is input * gain
    assert_eq!(plain(ap.next_sample(gain, F(0.0), lanes([1.0]))), [0.5]);
    // the line now holds 1 in front: fb = 1, out = 1 + 0 * 0.5
    assert_eq!(plain(ap.next_sample(gain, F(0.0), lanes([0.0]))), [1.0]);
    // the line took in 0 + 1 * 0.5
    assert_eq!(plain(ap.delay.sample(0)), [0.5]);
    assert_eq!(plain(ap.delay.sample(1)), [1.0]);
    ap.reset();
    assert_eq!(ap.delay.len(), 4);
    assert_eq!(plain(ap.delay.sample(0)), [0.0]);
    assert_eq!(plain(ap.delay.sample(1)), [0.0]);
}

#[test]
fn allpass_line_chains_its_sections() {
    let mut line: AllpassLine<F, 2, 1> = AllpassLine::new([F(2.5), F(4.0)]);
    let mut a: Allpass<F, 1> = Allpass::new(3);
    let mut b: Allpass<F, 1> = Allpass::new(4);
    let gain = lanes([0.25]);
    let (size, offset) = (0.5f32, 1.0f32);
    for x in [1.0f32, 0.0, -0.5, 0.25, 0.0, 0.0, 2.0] {
        let out = line.next_sample(F(size), F(offset), gain, lanes([x]));
        let mid = a.next_sample(gain, F(2.5 * size + offset * (1.0 - size)), lanes([x]));
        let expected = b.next_sample(gain, F(4.0 * size + offset * (1.0 - size)), mid);
        assert_eq!(plain(out), plain(expected));
    }
    line.reset();
    let out = line.next_sample(F(size), F(offset), gain, lanes([1.0]));
    assert_eq!(plain(out), [0.25 * 0.25]);
}

#[test]
fn allpass_line_clamps_the_size() {
    let mut wide: AllpassLine<F, 1, 1> = AllpassLine::new([F(3.0)]);
    let mut unit: AllpassLine<F, 1, 1> = AllpassLine::new([F(3.0)]);
    let gain = lanes([0.5]);
    for x in [1.0f32, 2.0, 3.0, 4.0, 5.0] {
        let a = wide.next_sample(F(7.0), F(1.0), gain, lanes([x]));
        let b = unit.next_sample(F(1.0), F(1.0), gain, lanes([x]));
        assert_eq!(plain(a), plain(b));
    }
}
