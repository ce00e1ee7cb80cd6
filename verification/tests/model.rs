use nih_reverb::biquad::BiquadParams;
use nih_reverb::lane::LaneVector;
use nih_reverb::reverb::{FrameParams, Reverb};
use nih_reverb::sample::Sample;
use rand::rngs::StdRng;
use rand::{Rng, SeedableRng};
use std::collections::VecDeque;
use std::f32::consts::TAU;

#[derive(Clone, Copy, Debug, PartialEq)]
struct F(f32);

impl Sample for F {
    fn from_count(n: usize) -> Self {
        F(n as f32)
    }
    fn to_count(self) -> usize {
        self.0 as usize
    }
    fn tau() -> Self {
        F(std::f32::consts::TAU)
    }
    fn plus(self, rhs: Self) -> Self {
        F(self.0 + rhs.0)
    }
    fn minus(self, rhs: Self) -> Self {
        F(self.0 - rhs.0)
    }
    fn times(self, rhs: Self) -> Self {
        F(self.0 * rhs.0)
    }
    fn over(self, rhs: Self) -> Self {
        F(self.0 / rhs.0)
    }
    fn modulo(self, rhs: Self) -> Self {
        F(self.0 % rhs.0)
    }
    fn negated(self) -> Self {
        F(-self.0)
    }
    fn floor(self) -> Self {
        F(self.0.floor())
    }
    fn ceil(self) -> Self {
        F(self.0.ceil())
    }
    fn fract(self) -> Self {
        F(self.0.fract())
    }
    fn sin(self) -> Self {
        F(self.0.sin())
    }
    fn cos(self) -> Self {
        F(self.0.cos())
    }
    fn tan(self) -> Self {
        F(self.0.tan())
    }
    fn tanh(self) -> Self {
        F(self.0.tanh())
    }
    fn exceeds(self, rhs: Self) -> bool {
        self.0 > rhs.0
    }
    fn at_least(self, floor: Self) -> Self {
        F(self.0.max(floor.0))
    }
    fn at_most(self, ceiling: Self) -> Self {
        F(self.0.min(ceiling.0))
    }
}

fn lanes<const L: usize>(v: [f32; L]) -> LaneVector<F, L> {
    LaneVector { lanes: v.map(F) }
}

fn plain<const L: usize>(v: LaneVector<F, L>) -> [f32; L] {
    v.lanes.map(|x| x.0)
}

// A plain `f32` model of the engine, written with operators on arrays, to
// hold the library's results against.

struct Line<const L: usize> {
    buffer: VecDeque<[f32; L]>,
}

impl<const L: usize> Line<L> {
    fn new(len: usize) -> Self {
        Line { buffer: std::iter::repeat([0.0; L]).take(len).collect() }
    }

    fn push(&mut self, x: [f32; L]) {
        if !self.buffer.is_empty() {
            self.buffer.pop_back();
            self.buffer.push_front(x);
        }
    }

    fn sample(&self, i: usize) -> [f32; L] {
        if self.buffer.is_empty() {
            return [0.0; L];
        }
        self.buffer[i.min(self.buffer.len() - 1)]
    }

    fn tap(&self, pos: f32) -> [f32; L] {
        let len = self.buffer.len() as f32;
        let mut pos = (pos + len) % len;
        if pos < 0. {
            pos = (pos + len) % len;
        }
        let ix = pos.floor() as usize;
        let t = pos.fract();
        let p = [
            self.sample(ix.saturating_sub(2)),
            self.sample(ix.saturating_sub(1)),
            self.sample(ix),
            self.sample(ix.saturating_add(1)),
        ];
        let mut r = [0.0; L];
        for i in 0..L {
            r[i] = p[1][i]
                + 0.5
                    * t
                    * (p[2][i] - p[0][i]
                        + t * (2. * p[0][i] - 5. * p[1][i] + 4. * p[2][i] - p[3][i]
                            + t * (3. * (p[1][i] - p[2][i]) + p[3][i] - p[0][i])));
        }
        r
    }
}

struct Stage<const L: usize> {
    line: Line<L>,
    offsets: [f32; L],
    phases: [f32; L],
    rate: f32,
}

impl<const L: usize> Stage<L> {
    fn new(rate: f32, offsets: [f32; L], phases: [f32; L]) -> Self {
        Stage { line: Line::new(rate as usize), offsets, phases, rate }
    }

    fn next(&mut self, size: f32, mod_depth: f32, input: [f32; L]) -> [f32; L] {
        let mut taps = [0.0; L];
        for i in 0..L {
            let t = i as f32 / L as f32;
            let d = self.rate
                * (300e-3 * t * size
                    + self.offsets[i]
                    + 1e-3 * mod_depth * f32::sin(TAU * self.phases[i]));
            taps[i] = self.line.tap(d)[i];
        }
        for p in self.phases.iter_mut() {
            *p += 0.3 / self.rate;
            if !(*p < 1.) {
                *p -= 1.;
            }
        }
        let mut mixed = [0.0; L];
        for n in 0..L {
            let k = if n % 2 == 0 { 1. } else { -1. };
            let polarity = if n % 2 == 0 { -1. } else { 1. };
            mixed[n] = polarity * (taps[(n * 187 + 288) % L] * k);
        }
        self.line.push(input);
        let mut total = 0.0;
        for v in mixed {
            total += v;
        }
        let s = total * (-2.0 / L as f32);
        mixed.map(|v| v + s)
    }
}

struct Section {
    a: [f32; 2],
    b: [f32; 3],
    state: [f32; 2],
}

impl Section {
    fn pass() -> Self {
        Section { a: [0., 0.], b: [1., 0., 0.], state: [0., 0.] }
    }

    fn lowpass(&mut self, fc: f32) {
        let k = (fc / 2.).tan();
        let a = 1. + k;
        self.a = [-(1. - fc) / a, 0.];
        self.b = [k / a, k / a, 0.];
    }

    fn highpass(&mut self, fc: f32) {
        let k = (fc / 2.).tan();
        let a = 1. + k;
        self.a = [-(1. - fc) / a, 0.];
        self.b = [1. / a, -1. / a, 0.];
    }

    fn next(&mut self, x: f32) -> f32 {
        let y = self.state[0] + self.b[0] * x;
        self.state[0] = self.state[1] + self.b[1] * x - self.a[0] * y;
        self.state[1] = self.b[2] * x - self.a[1] * y;
        y
    }
}

struct Model {
    stages: Vec<Stage<4>>,
    line: Line<2>,
    low: [Section; 2],
    high: [Section; 2],
    shimmer: Line<2>,
    pos: f32,
    phase: f32,
    rate: f32,
}

impl Model {
    fn new(rate: f32, offsets: [[f32; 4]; 4], phases: [[f32; 4]; 4]) -> Self {
        let stages = (0..4)
            .map(|i| {
                let t = i as f32 / 4.;
                Stage::new(400e-3 * rate * (1. + t * t), offsets[i], phases[i])
            })
            .collect();
        Model {
            stages,
            line: Line::new(rate as usize * 2),
            low: [Section::pass(), Section::pass()],
            high: [Section::pass(), Section::pass()],
            shimmer: Line::new((300e-3 * rate).ceil() as usize),
            pos: 0.,
            phase: 0.,
            rate,
        }
    }

    fn pass(
        &mut self,
        size: f32,
        feedback: f32,
        delay: f32,
        mod_depth: f32,
        pitch_amt: f32,
        input: [f32; 2],
    ) -> [f32; 2] {
        let tapped = self.line.tap((delay * self.rate).max(1.).min(self.rate - 1.));
        let mut damped = [0.0; 2];
        for c in 0..2 {
            let fed = input[c] + tapped[c] * feedback;
            damped[c] = self.low[c].next(self.high[c].next(fed));
        }
        let mut wide = [damped[0], damped[1], damped[0], damped[1]];
        for stage in self.stages.iter_mut() {
            wide = stage.next(size, mod_depth, wide);
        }
        let diffused = [wide[0], wide[1]];
        let shifted = self.shimmer.tap(self.pos);
        self.pos += 2.;
        if !(self.pos < self.shimmer.buffer.len() as f32) {
            self.pos %= self.shimmer.buffer.len() as f32;
        }
        self.shimmer.push(diffused);
        let mut out = [0.0; 2];
        for c in 0..2 {
            out[c] = (diffused[c] * (1. - pitch_amt) + shifted[c] * pitch_amt).tanh();
        }
        self.line.push(out);
        out
    }

    fn frame(&mut self, p: &[f32; 8], input: [f32; 2]) -> [f32; 2] {
        let [size, feedback, delay_time, mod_depth, mod_speed, low_hz, high_hz, pitch_amt] = *p;
        let delay = delay_time + 15e-3 * mod_depth * f32::sin(TAU * self.phase);
        for c in 0..2 {
            self.low[c].highpass(low_hz / self.rate);
            self.high[c].lowpass(high_hz / self.rate);
        }
        self.phase += mod_speed / self.rate;
        if !(self.phase < 1.) {
            self.phase -= 1.;
        }
        self.pass(size, feedback, delay, mod_depth, pitch_amt, input)
    }
}

fn jitter(seed: u64) -> ([[f32; 4]; 4], [[f32; 4]; 4]) {
    let mut rng = StdRng::seed_from_u64(seed);
    let mut offsets = [[0.0; 4]; 4];
    let mut phases = [[0.0; 4]; 4];
    for i in 0..4 {
        for j in 0..4 {
            offsets[i][j] = rng.gen_range(-1e-2f32..1e-2f32);
            phases[i][j] = rng.gen::<f32>();
        }
    }
    (offsets, phases)
}

fn engine(rate: f32, offsets: [[f32; 4]; 4], phases: [[f32; 4]; 4]) -> Reverb<F> {
    Reverb::new(F(rate), offsets.map(|r| r.map(F)), phases.map(|r| r.map(F)))
}

fn signal(n: usize) -> [f32; 2] {
    let x = n as f32;
    if n % 700 == 0 {
        [1.0, -0.5]
    } else {
        [0.3 * (x * 0.021).sin(), 0.2 * (x * 0.013).cos()]
    }
}

#[test]
fn loop_matches_the_plain_model() {
    let rate = 3000.0f32;
    let (offsets, phases) = jitter(77);
    let mut lib = engine(rate, offsets, phases);
    let mut model = Model::new(rate, offsets, phases);
    for n in 0..6000 {
        let input = signal(n);
        let out = plain(lib.next_sample(
            F(rate),
            F(0.6),
            F(0.8),
            F(0.15),
            F(0.5),
            F(0.35),
            lanes(input),
        ));
        let expected = model.pass(0.6, 0.8, 0.15, 0.5, 0.35, input);
        assert_eq!(out, expected);
    }
}

#[test]
fn frames_match_the_plain_model() {
    let rate = 2500.0f32;
    let (offsets, phases) = jitter(78);
    let mut lib = engine(rate, offsets, phases);
    let mut model = Model::new(rate, offsets, phases);
    for n in 0..6000 {
        let sweep = n as f32 / 6000.0;
        let p = [
            0.2 + 0.6 * sweep,
            0.9,
            0.05 + 0.3 * sweep,
            1.0 - sweep,
            2.5,
            20.0 + 100.0 * sweep,
            800.0 - 300.0 * sweep,
            0.5 * sweep,
        ];
        let params = FrameParams {
            size: F(p[0]),
            feedback: F(p[1]),
            delay_time: F(p[2]),
            mod_depth: F(p[3]),
            mod_speed: F(p[4]),
            damp_low_hz: F(p[5]),
            damp_high_hz: F(p[6]),
            pitch_amount: F(p[7]),
        };
        let input = signal(n);
        let out = plain(lib.process_frame(F(rate), &params, lanes(input)));
        let expected = model.frame(&p, input);
        assert_eq!(out, expected);
    }
    assert_eq!(lib.phase.0, model.phase);
    assert_eq!(lib.pitch.pos.0, model.pos);
}

#[test]
fn damping_coefficients_match_the_plain_model() {
    let mut s = Section::pass();
    s.lowpass(0.12);
    let p = BiquadParams::<F, 1>::lowpass_1p(lanes([0.12]), lanes([1.0]));
    assert_eq!([p.a[0].lanes[0].0, p.a[1].lanes[0].0], s.a);
    assert_eq!([p.b[0].lanes[0].0, p.b[1].lanes[0].0, p.b[2].lanes[0].0], s.b);
    s.highpass(0.02);
    let p = BiquadParams::<F, 1>::highpass_1p(lanes([0.02]), lanes([1.0]));
    assert_eq!([p.a[0].lanes[0].0, p.a[1].lanes[0].0], s.a);
    assert_eq!([p.b[0].lanes[0].0, p.b[1].lanes[0].0, p.b[2].lanes[0].0], s.b);
}
