//! The detector driven by its signal chain, on synthetic traces.
use yamete::detector::{
    count_votes, tier_for, Candidate, Derived, Detection, Detector, Readings, Scores, Tier,
};
use yamete::scalar::{Scalar, Scalar64};
use yamete::tuning::{Config, GyroMode, Thresholds, Tiers};

const RATE: f32 = 805.0;

fn s(x: f32) -> Scalar {
    Scalar { bits: x.to_bits() }
}

fn s64(x: f64) -> Scalar64 {
    Scalar64 { bits: x.to_bits() }
}

fn f(x: Scalar) -> f32 {
    f32::from_bits(x.bits)
}

#[derive(Debug, Clone, Copy)]
struct Frame {
    t: f64,
    x: f32,
    y: f32,
    z: f32,
}

struct HighPass {
    a: f32,
    prev_in: f32,
    prev_out: f32,
    primed: bool,
}

impl HighPass {
    fn new(cutoff_hz: f32, rate_hz: f32) -> Self {
        HighPass {
            a: (-2.0 * std::f32::consts::PI * cutoff_hz / rate_hz).exp(),
            prev_in: 0.0,
            prev_out: 0.0,
            primed: false,
        }
    }

    fn push(&mut self, x: f32) -> f32 {
        if !self.primed {
            self.prev_in = x;
            self.primed = true;
            return 0.0;
        }
        let y = self.a * (self.prev_out + x - self.prev_in);
        self.prev_in = x;
        self.prev_out = y;
        y
    }
}

struct Ema {
    alpha: f32,
    value: f32,
    primed: bool,
}

impl Ema {
    fn new(tau_s: f32, rate_hz: f32) -> Self {
        Ema { alpha: 1.0 - (-1.0 / (tau_s * rate_hz)).exp(), value: 0.0, primed: false }
    }

    fn push(&mut self, x: f32) -> f32 {
        if !self.primed {
            self.value = x;
            self.primed = true;
        } else {
            self.value += self.alpha * (x - self.value);
        }
        self.value
    }
}

fn samples_for(seconds: f32, rate_hz: f32) -> usize {
    ((seconds * rate_hz).round() as usize).max(1)
}

fn intensity_for(peak_g: f32, full_scale_g: f32) -> f32 {
    let t = (peak_g / full_scale_g.max(1e-6)).clamp(0.0, 1.0);
    ((1.0 + t * 99.0).ln() / 100f32.ln()).clamp(0.0, 1.0)
}

/// The tuning with the slider folded into its gates.
fn effective(c: Config) -> Config {
    let k = 10f32.powf(-(f(c.sensitivity).clamp(0.0, 1.0) - 0.5) * 2.0 * 1.2 / 2.0);
    let times = |x: Scalar, k: f32| s(f(x) * k);
    Config {
        thresholds: Thresholds {
            highpass_g: times(c.thresholds.highpass_g, k),
            sta_lta: times(c.thresholds.sta_lta, k.sqrt()),
            peak_mad: times(c.thresholds.peak_mad, k.sqrt()),
            ..c.thresholds
        },
        tiers: Tiers {
            major_g: times(c.tiers.major_g, k),
            medium_g: times(c.tiers.medium_g, k),
            micro_g: times(c.tiers.micro_g, k),
        },
        gyro_ratio_min: times(c.gyro_ratio_min, k),
        gyro_peak_min: times(c.gyro_peak_min, k),
        sensitivity: s(0.5),
        ..c
    }
}

fn lengths(cfg: &Config) -> (usize, usize, u32) {
    let rate = f(cfg.rate_hz);
    (
        samples_for(f(cfg.peak_hold_s), rate),
        samples_for(f(cfg.gyro_window_s), rate),
        samples_for(f(cfg.lta_tau) * 2.0, rate) as u32,
    )
}

/// The filters in front of the detector.
struct Chain {
    detector: Detector,
    hp: [HighPass; 3],
    sta: [Ema; 3],
    lta: Ema,
    mean: Ema,
    dev: Ema,
    m1: Ema,
    m2: Ema,
    m4: Ema,
    cusum: f32,
    gyro_hp: [HighPass; 3],
    gyro_sta: Ema,
    gyro_lta: Ema,
}

fn ratio(a: f32, b: f32) -> f32 {
    if b > 1e-9 {
        a / b
    } else {
        0.0
    }
}

impl Chain {
    fn new(cfg: Config) -> Self {
        let cfg = effective(cfg);
        let rate = f(cfg.rate_hz);
        let (hold, gyro, warmup) = lengths(&cfg);
        let hp = || HighPass::new(f(cfg.highpass_hz), rate);
        let long = || Ema::new(f(cfg.lta_tau), rate);
        let short = |i: usize| Ema::new(f(cfg.sta_taus[i]), rate);
        Chain {
            detector: Detector::new(cfg, hold, gyro, warmup),
            hp: [hp(), hp(), hp()],
            sta: [short(0), short(1), short(2)],
            lta: long(),
            mean: long(),
            dev: long(),
            m1: long(),
            m2: long(),
            m4: long(),
            cusum: 0.0,
            gyro_hp: [hp(), hp(), hp()],
            gyro_sta: short(0),
            gyro_lta: long(),
        }
    }

    fn push_gyro(&mut self, g: Frame) {
        let v = [
            self.gyro_hp[0].push(g.x),
            self.gyro_hp[1].push(g.y),
            self.gyro_hp[2].push(g.z),
        ];
        let mag = (v[0] * v[0] + v[1] * v[1] + v[2] * v[2]).sqrt();
        let sta = self.gyro_sta.push(mag);
        let lta = self.gyro_lta.push(mag);
        self.detector.push_gyro(s(mag), s(ratio(sta, lta)));
    }

    fn push_accel(&mut self, a: Frame) -> Option<Detection> {
        let v = [self.hp[0].push(a.x), self.hp[1].push(a.y), self.hp[2].push(a.z)];
        let mag = (v[0] * v[0] + v[1] * v[1] + v[2] * v[2]).sqrt();

        let mean = self.mean.push(mag);
        let scale = 1.4826 * self.dev.push((mag - mean).abs());
        let lta = self.lta.push(mag);
        let mut sta_lta = 0.0f32;
        for e in self.sta.iter_mut() {
            sta_lta = sta_lta.max(ratio(e.push(mag), lta));
        }
        let leak = f(self.detector.config().cusum_leak).clamp(0.0, 1.0);
        if scale > 1e-9 {
            self.cusum = (self.cusum * leak + (mag - mean) / scale - 1.0).max(0.0);
        }
        let m = self.m1.push(mag);
        let d2 = (mag - m) * (mag - m);
        let var = self.m2.push(d2);
        let fourth = self.m4.push(d2 * d2);
        let kurtosis = if var <= 1e-12 { 0.0 } else { (fourth / (var * var)) - 3.0 };

        let readings = Readings {
            envelope: s(mag),
            sta_lta: s(sta_lta),
            cusum: s(self.cusum),
            kurtosis: s(kurtosis),
            peak_mad: s(ratio(mag - mean, scale)),
        };
        let elapsed = match self.detector.last_fire_t {
            Some(last) => a.t - f64::from_bits(last.bits),
            None => 0.0,
        };
        let c = self.detector.push_accel(readings, s64(elapsed))?;
        let norm = if mag > 1e-9 { 1.0 / mag } else { 0.0 };
        let full_scale = f(self.detector.config().full_scale_g);
        let derived = Derived {
            quotient: s(f(c.gyro_peak) / f(c.peak_g)),
            intensity: s(intensity_for(f(c.peak_g), full_scale)),
            axis: [s(v[0] * norm), s(v[1] * norm), s(v[2] * norm)],
        };
        let fired = self.detector.confirm(&c, s64(a.t), &derived);
        if fired.is_some() {
            self.cusum = 0.0;
        }
        fired
    }

    fn set_config(&mut self, cfg: Config) {
        let next = effective(cfg);
        let (hold, gyro, warmup) = lengths(&next);
        let mut detector = Detector::new(next, 1, 1, 0);
        detector.set_config(next, hold, gyro, warmup);
        *self = Chain::new(cfg);
        self.detector = detector;
    }
}

/// `n` seconds of a laptop sitting still: 1 g down plus a little sensor noise.
fn quiet(secs: f64, start_t: f64) -> Vec<Frame> {
    let n = (secs * f64::from(RATE)) as usize;
    (0..n)
        .map(|i| {
            let p = (i as f32 * 12.9898).sin() * 43758.547;
            let noise = (p - p.floor() - 0.5) * 0.002;
            Frame {
                t: start_t + i as f64 / f64::from(RATE),
                x: noise,
                y: noise * 0.7,
                z: -1.0 + noise,
            }
        })
        .collect()
}

/// A decaying oscillation on top of gravity, as an impact looks: the chassis rings and
/// the ringing dies away.
fn impact(at: f64, amplitude: f32, secs: f64) -> Vec<Frame> {
    let n = (secs * f64::from(RATE)) as usize;
    (0..n)
        .map(|i| {
            let dt = i as f32 / RATE;
            let env = amplitude * (-dt * 120.0).exp();
            let osc = (dt * 2.0 * std::f32::consts::PI * 180.0).sin();
            let v = env * osc;
            Frame { t: at + f64::from(dt), x: v * 0.3, y: v * 0.2, z: -1.0 + v }
        })
        .collect()
}

fn accel_only() -> Config {
    Config { gyro_mode: GyroMode::Annotate, ..Config::default() }
}

fn run(frames: &[Frame], cfg: Config) -> Vec<Detection> {
    let mut d = Chain::new(cfg);
    frames.iter().filter_map(|f| d.push_accel(*f)).collect()
}

#[test]
fn quiet_machine_never_fires() {
    let hits = run(&quiet(6.0, 0.0), accel_only());
    assert!(hits.is_empty(), "false positives while idle: {hits:?}");
}

#[test]
fn warmup_suppresses_the_startup_transient() {
    // The very first samples arrive with every filter unprimed; without a warmup guard
    // that alone reads as a large impact.
    let mut frames = vec![Frame { t: 0.0, x: 0.0, y: 0.0, z: -1.0 }];
    frames.extend(quiet(0.2, 0.001));
    assert!(run(&frames, accel_only()).is_empty());
}

#[test]
fn detects_a_solid_impact() {
    let mut frames = quiet(2.0, 0.0);
    frames.extend(impact(2.0, 0.6, 0.5));
    let hits = run(&frames, accel_only());
    assert_eq!(hits.len(), 1, "expected exactly one detection, got {hits:?}");
    assert_eq!(hits[0].tier, Tier::Major);
    assert!(hits[0].votes >= 4, "votes = {}", hits[0].votes);
    assert!(f(hits[0].intensity) > 0.5, "intensity = {}", f(hits[0].intensity));
}

#[test]
fn cooldown_collapses_ringing_into_one_detection() {
    // Three impacts 100 ms apart, well inside the 750 ms cooldown.
    let mut frames = quiet(2.0, 0.0);
    for k in 0..3 {
        frames.extend(impact(2.0 + f64::from(k) * 0.1, 0.6, 0.1));
    }
    frames.extend(quiet(1.0, 2.4));
    assert_eq!(run(&frames, accel_only()).len(), 1);
}

#[test]
fn separate_slaps_past_the_cooldown_both_fire() {
    let mut frames = quiet(2.0, 0.0);
    frames.extend(impact(2.0, 0.6, 0.9));
    frames.extend(impact(2.9, 0.6, 0.9));
    assert_eq!(run(&frames, accel_only()).len(), 2);
}

#[test]
fn tiers_track_impact_strength() {
    let tier_of = |amp: f32| {
        let mut frames = quiet(2.0, 0.0);
        frames.extend(impact(2.0, amp, 0.5));
        run(&frames, accel_only()).first().map(|d| d.tier)
    };
    assert_eq!(tier_of(0.8), Some(Tier::Major));
    // A tap far below every tier's amplitude floor must not register at all.
    assert_eq!(tier_of(0.0008), None);
}

#[test]
fn sensitivity_factor_changes_what_registers() {
    let mut frames = quiet(2.0, 0.0);
    frames.extend(impact(2.0, 0.02, 0.3));

    // Too small to clear the default micro floor of 0.04 g at the midpoint.
    assert!(run(&frames, accel_only()).is_empty());
    // Pushing the slider up lowers every gate until it registers.
    assert!(!run(&frames, accel_only().with_sensitivity(s(1.0))).is_empty());
    // ...and pulling it down keeps it out.
    assert!(run(&frames, accel_only().with_sensitivity(s(0.0))).is_empty());
}

#[test]
fn gyro_require_suppresses_uncorroborated_impacts() {
    let mut frames = quiet(2.0, 0.0);
    frames.extend(impact(2.0, 0.6, 0.5));

    let cfg = Config { gyro_mode: GyroMode::Require, ..Config::default() };
    // No gyro samples were ever pushed, so nothing can corroborate.
    assert!(run(&frames, cfg).is_empty());

    // The same signal in annotate mode fires, but honestly reports no corroboration.
    let hits = run(&frames, accel_only());
    assert_eq!(hits.len(), 1);
    assert!(!hits[0].gyro_confirmed);
}

#[test]
fn gyro_corroboration_is_reported_when_present() {
    let accel = {
        let mut f = quiet(2.0, 0.0);
        f.extend(impact(2.0, 0.6, 0.5));
        f
    };
    // Rotation about the hinge, simultaneous with the linear impact.
    let gyro = {
        let mut f: Vec<Frame> =
            quiet(2.0, 0.0).into_iter().map(|f| Frame { z: 0.0, ..f }).collect();
        f.extend(impact(2.0, 40.0, 0.5).into_iter().map(|f| Frame { z: f.z + 1.0, ..f }));
        f
    };

    let cfg = Config { gyro_mode: GyroMode::Require, ..Config::default() };
    let mut d = Chain::new(cfg);
    let mut hits = Vec::new();
    for (a, g) in accel.iter().zip(gyro.iter()) {
        d.push_gyro(*g);
        if let Some(hit) = d.push_accel(*a) {
            hits.push(hit);
        }
    }
    assert_eq!(hits.len(), 1, "gyro should have corroborated this impact");
    assert!(hits[0].gyro_confirmed);
}

/// Severity must track how hard the machine was hit, not how many statistics agreed.
#[test]
fn tiers_band_by_amplitude_across_a_real_session() {
    let cfg = Config::default();
    let session = [
        (0.0632, Some(Tier::Micro)),
        (0.0544, Some(Tier::Micro)),
        (0.2806, Some(Tier::Medium)),
        (0.3513, Some(Tier::Major)),
        (0.4122, Some(Tier::Major)),
        (0.6187, Some(Tier::Major)),
        (0.0100, None), // below the floor entirely
    ];
    for (peak, expected) in session {
        assert_eq!(tier_for(&cfg.tiers, s(peak)), expected, "peak {peak} g classified wrongly");
    }

    // And the bands must actually be ordered, or the chain silently collapses.
    assert!(cfg.tiers.micro_g.lt(cfg.tiers.medium_g));
    assert!(cfg.tiers.medium_g.lt(cfg.tiers.major_g));
}

#[test]
fn min_votes_gates_firing_without_touching_severity() {
    let mut frames = quiet(2.0, 0.0);
    frames.extend(impact(2.0, 0.6, 0.5));

    // A hard impact is major regardless of how many detectors happened to agree...
    let hits = run(&frames, accel_only());
    assert_eq!(hits.len(), 1);
    assert_eq!(hits[0].tier, Tier::Major);

    // ...but demanding all five detectors suppresses it entirely.
    let strict = Config { min_votes: 5, ..accel_only() };
    assert!(run(&frames, strict).is_empty());
}

#[test]
fn axis_reports_impact_direction_as_a_unit_vector() {
    let mut frames = quiet(2.0, 0.0);
    frames.extend(impact(2.0, 0.6, 0.5));
    let hits = run(&frames, accel_only());
    let a = [f(hits[0].axis[0]), f(hits[0].axis[1]), f(hits[0].axis[2])];
    let len = (a[0] * a[0] + a[1] * a[1] + a[2] * a[2]).sqrt();
    assert!((len - 1.0).abs() < 1e-3, "axis not normalised: {len}");
}

#[test]
fn retuning_restarts_cleanly_without_spurious_hits() {
    let mut d = Chain::new(accel_only());
    for f in quiet(2.0, 0.0) {
        d.push_accel(f);
    }
    d.set_config(accel_only().with_sensitivity(s(0.5)));
    assert!(d.detector.is_warming_up());
    let hits: Vec<Detection> =
        quiet(2.0, 2.0).into_iter().filter_map(|f| d.push_accel(f)).collect();
    assert!(hits.is_empty(), "retune produced false positives: {hits:?}");
}

// ---------------------------------------------------------------------------------
// Single decisions
// ---------------------------------------------------------------------------------

/// Statistics of which exactly the envelope and the peak reach the default thresholds.
fn two_votes() -> Readings {
    Readings {
        envelope: s(0.5),
        sta_lta: s(14.9),
        cusum: s(199.0),
        kurtosis: s(1099.0),
        peak_mad: s(25.0),
    }
}

fn derived(quotient: f32) -> Derived {
    Derived { quotient: s(quotient), intensity: s(0.75), axis: [s(0.0), s(0.6), s(-0.8)] }
}

#[test]
fn each_statistic_has_one_vote() {
    let th = Thresholds::default();
    let r = two_votes();
    assert_eq!(count_votes(&th, &r), 2);
    assert_eq!(count_votes(&th, &Readings { sta_lta: s(15.0), ..r }), 3);
    assert_eq!(count_votes(&th, &Readings { cusum: s(200.0), ..r }), 3);
    assert_eq!(count_votes(&th, &Readings { kurtosis: s(1100.0), ..r }), 3);
    assert_eq!(count_votes(&th, &Readings { peak_mad: s(24.0), ..r }), 1);
    assert_eq!(count_votes(&th, &Readings { envelope: s(0.034), ..r }), 1);
    assert_eq!(count_votes(&th, &Readings { envelope: s(f32::NAN), ..r }), 1);
}

#[test]
fn warmup_counts_down_and_is_silent() {
    let mut d = Detector::new(accel_only(), 5, 24, 2);
    assert!(d.is_warming_up());
    assert_eq!(d.push_accel(two_votes(), s64(0.0)), None);
    assert_eq!(d.push_accel(two_votes(), s64(0.0)), None);
    assert!(!d.is_warming_up());
    let c = d.push_accel(two_votes(), s64(0.0));
    assert_eq!(
        c,
        Some(Candidate { tier: Tier::Major, peak_g: s(0.5), votes: 2, gyro_peak: s(0.0) })
    );
}

#[test]
fn a_detection_starts_a_cooldown_that_ends() {
    let mut d = Detector::new(accel_only(), 5, 24, 0);
    let c = d.push_accel(two_votes(), s64(0.0)).unwrap();
    assert!(d.confirm(&c, s64(10.0), &derived(0.0)).is_some());
    assert_eq!(d.last_fire_t, Some(s64(10.0)));

    assert_eq!(d.push_accel(two_votes(), s64(0.749)), None);
    assert!(d.scores().in_cooldown);
    assert!(d.push_accel(two_votes(), s64(0.75)).is_some());
    assert!(!d.scores().in_cooldown);
}

#[test]
fn too_few_votes_are_not_heard() {
    let mut d = Detector::new(accel_only(), 5, 24, 0);
    let one = Readings { peak_mad: s(0.0), ..two_votes() };
    assert_eq!(d.push_accel(one, s64(0.0)), None);
    assert_eq!(d.scores().votes, 1);
}

#[test]
fn lower_gates_report_what_higher_ones_do() {
    let high = accel_only();
    let mut low = accel_only();
    low.thresholds.sta_lta = s(14.0);
    low.tiers = Tiers { micro_g: s(0.01), medium_g: s(0.02), major_g: s(0.03) };
    let soft = Readings { envelope: s(0.05), ..two_votes() };
    let a = Detector::new(high, 5, 24, 0).push_accel(soft, s64(0.0)).unwrap();
    let b = Detector::new(low, 5, 24, 0).push_accel(soft, s64(0.0)).unwrap();
    assert_eq!((a.tier, a.votes), (Tier::Micro, 2));
    assert_eq!((b.tier, b.votes), (Tier::Major, 3));
}

#[test]
fn the_peak_is_held_for_a_window() {
    let mut d = Detector::new(accel_only(), 2, 24, 0);
    d.push_accel(two_votes(), s64(0.0));
    let soft = Readings { envelope: s(0.05), ..two_votes() };
    assert_eq!(d.push_accel(soft, s64(0.0)).unwrap().peak_g, s(0.5));
    assert_eq!(d.push_accel(soft, s64(0.0)).unwrap().peak_g, s(0.05));
}

#[test]
fn either_gyro_rule_confirms() {
    let require = Config { gyro_mode: GyroMode::Require, ..Config::default() };
    let c = Candidate { tier: Tier::Major, peak_g: s(0.5), votes: 2, gyro_peak: s(3.0) };

    let mut d = Detector::new(require, 5, 24, 0);
    assert_eq!(d.confirm(&c, s64(1.0), &derived(174.9)), None);
    assert_eq!(d.last_fire_t, None);
    let hit = d.confirm(&c, s64(1.0), &derived(175.0)).unwrap();
    assert!(hit.gyro_confirmed);
    assert_eq!(hit.gyro_ratio, s(175.0));
    assert_eq!(hit.intensity, s(0.75));
    assert_eq!(hit.axis, [s(0.0), s(0.6), s(-0.8)]);

    let violent = Candidate { gyro_peak: s(15.0), ..c };
    assert!(d.confirm(&violent, s64(2.0), &derived(0.0)).unwrap().gyro_confirmed);

    // Too small a peak has no ratio, whatever the quotient says.
    let faint = Candidate { peak_g: s(1e-6), ..c };
    assert_eq!(d.confirm(&faint, s64(3.0), &derived(f32::INFINITY)), None);
}

#[test]
fn the_gyroscope_only_annotates_unless_it_is_required() {
    let mut still = Detector::new(accel_only(), 5, 24, 0);
    let mut turning = Detector::new(accel_only(), 5, 24, 0);
    turning.push_gyro(s(90.0), s(12.0));
    let a = still.push_accel(two_votes(), s64(0.0)).unwrap();
    let b = turning.push_accel(two_votes(), s64(0.0)).unwrap();
    let x = still.confirm(&a, s64(1.0), &derived(0.0)).unwrap();
    let y = turning.confirm(&b, s64(1.0), &derived(180.0)).unwrap();
    assert!(!x.gyro_confirmed && y.gyro_confirmed);
    assert_eq!(y.gyro_peak, s(90.0));
    assert_eq!(y.gyro_ratio, s(180.0));
    assert_eq!(
        x,
        Detection {
            gyro_confirmed: x.gyro_confirmed,
            gyro_peak: x.gyro_peak,
            gyro_ratio: x.gyro_ratio,
            ..y
        }
    );
}

#[test]
fn an_ignored_gyroscope_never_confirms() {
    let off = Config { gyro_mode: GyroMode::Off, ..Config::default() };
    let c = Candidate { tier: Tier::Micro, peak_g: s(0.05), votes: 2, gyro_peak: s(50.0) };
    let hit = Detector::new(off, 5, 24, 0).confirm(&c, s64(1.0), &derived(1000.0)).unwrap();
    assert!(!hit.gyro_confirmed);
    assert_eq!(hit.gyro_ratio, s(1000.0));
}

#[test]
fn gyro_samples_show_in_the_scores_and_age_out() {
    let mut d = Detector::new(accel_only(), 5, 2, 0);
    d.push_gyro(s(9.0), s(3.0));
    assert_eq!(d.scores().gyro, s(3.0));
    assert_eq!(d.scores().gyro_peak, s(9.0));
    d.push_gyro(s(1.0), s(1.0));
    d.push_gyro(s(2.0), s(0.5));
    assert_eq!(d.scores().gyro, s(1.0));
    assert_eq!(d.scores().gyro_peak, s(2.0));
}

#[test]
fn a_reset_detector_has_seen_nothing() {
    let mut d = Detector::new(accel_only(), 5, 2, 1);
    d.push_gyro(s(9.0), s(3.0));
    d.push_accel(two_votes(), s64(0.0));
    let c = d.push_accel(two_votes(), s64(0.0)).unwrap();
    d.confirm(&c, s64(1.0), &derived(0.0));
    d.reset();
    assert_eq!(d.scores(), Scores::default());
    assert_eq!(d.last_fire_t, None);
    assert!(d.is_warming_up());
    d.push_accel(two_votes(), s64(0.0));
    assert_eq!(d.push_accel(two_votes(), s64(0.0)).unwrap().gyro_peak, s(0.0));
}

#[test]
fn tiers_have_names() {
    assert_eq!(Tier::Micro.as_str(), "micro");
    assert_eq!(Tier::Medium.as_str(), "medium");
    assert_eq!(Tier::Major.as_str(), "major");
}
