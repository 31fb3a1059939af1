//! The slap detector: a five-way vote over the accelerometer, corroborated by the gyroscope.
//!
//! No single statistic separates "someone hit this laptop" from "someone typed hard" — each
//! is sensitive to a different aspect of an impact, and requiring several to agree is what
//! keeps the false-positive rate down.
//!
//! The signal chain that turns samples into statistics is arithmetic on measurements and
//! stands outside. What is here is every decision taken on its results: which statistics
//! vote, when a vote is heard, how hard the hit was, and whether the rotation that came
//! with it makes it a slap.
use vstd::prelude::*;

use crate::filters::{maximum, maximum_bounds, unseen, window_len, RollingMax};
use crate::scalar::{magnitude_order, Scalar, Scalar64, NEG_INFINITY, ZERO};
use crate::tuning::{Config, GyroMode, Thresholds, Tiers};

verus! {

/// 1e-6 g: below this peak there is no ratio to speak of.
pub const RATIO_FLOOR: u32 = 0x3586_37bd;

/// Severity of a detected impact.
#[derive(Debug, Clone, Copy, PartialEq, Eq, Structural)]
pub enum Tier {
    Micro,
    Medium,
    Major,
}

impl Tier {
    /// The tier's name.
    pub open spec fn name(self) -> Seq<char> {
        match self {
            Tier::Micro => "micro"@,
            Tier::Medium => "medium"@,
            Tier::Major => "major"@,
        }
    }

    /// Tiers from the softest to the hardest.
    pub open spec fn rank(self) -> int {
        match self {
            Tier::Micro => 1,
            Tier::Medium => 2,
            Tier::Major => 3,
        }
    }

    /// The tier's name.
    pub fn as_str(self) -> (r: &'static str)
        ensures
            r@ == self.name(),
            r@ == "micro"@ <==> self == Tier::Micro,
            r@ == "medium"@ <==> self == Tier::Medium,
            r@ == "major"@ <==> self == Tier::Major,
    {
        proof {
            reveal_strlit("micro");
            reveal_strlit("medium");
            reveal_strlit("major");
            assert("micro"@[2] != "major"@[2]);
        }
        match self {
            Tier::Micro => "micro",
            Tier::Medium => "medium",
            Tier::Major => "major",
        }
    }
}

/// The five statistics of one accelerometer sample.
#[derive(Debug, Clone, Copy, PartialEq, Eq, Structural)]
pub struct Readings {
    /// High-passed acceleration magnitude, in g.
    pub envelope: Scalar,
    /// Best STA/LTA ratio across the three timescales.
    pub sta_lta: Scalar,
    pub cusum: Scalar,
    pub kurtosis: Scalar,
    pub peak_mad: Scalar,
}

/// Live detector state, for the tuning UI.
#[derive(Debug, Clone, Copy, PartialEq, Eq, Structural)]
pub struct Scores {
    /// High-passed acceleration magnitude, in g.
    pub envelope: Scalar,
    /// Best STA/LTA ratio across the three timescales.
    pub sta_lta: Scalar,
    pub cusum: Scalar,
    pub kurtosis: Scalar,
    pub peak_mad: Scalar,
    /// Gyro STA/LTA over its corroboration window.
    pub gyro: Scalar,
    /// Peak high-passed angular rate over the corroboration window, in deg/s.
    pub gyro_peak: Scalar,
    pub votes: u8,
    /// True while the cooldown is suppressing detections.
    pub in_cooldown: bool,
}

/// Scores before any sample.
pub open spec fn no_scores() -> Scores {
    let zero = Scalar { bits: ZERO };
    Scores {
        envelope: zero,
        sta_lta: zero,
        cusum: zero,
        kurtosis: zero,
        peak_mad: zero,
        gyro: zero,
        gyro_peak: zero,
        votes: 0,
        in_cooldown: false,
    }
}

impl Default for Scores {
    fn default() -> (r: Scores)
        ensures
            r == no_scores(),
    {
        let zero = Scalar { bits: ZERO };
        Scores {
            envelope: zero,
            sta_lta: zero,
            cusum: zero,
            kurtosis: zero,
            peak_mad: zero,
            gyro: zero,
            gyro_peak: zero,
            votes: 0,
            in_cooldown: false,
        }
    }
}

/// An impact that the accelerometer vouches for, before the gyroscope is asked.
#[derive(Debug, Clone, Copy, PartialEq, Eq, Structural)]
pub struct Candidate {
    pub tier: Tier,
    /// Peak high-passed acceleration, in g.
    pub peak_g: Scalar,
    /// How many of the five detectors agreed.
    pub votes: u8,
    /// Peak angular rate accompanying the impact, in deg/s.
    pub gyro_peak: Scalar,
}

/// What arithmetic makes of a candidate: its quotient, loudness and direction.
#[derive(Debug, Clone, Copy, PartialEq, Eq)]
pub struct Derived {
    /// Angular rate over peak acceleration.
    pub quotient: Scalar,
    /// Log-scaled 0..1, suitable for driving playback volume.
    pub intensity: Scalar,
    /// Direction of the impact, as the unit high-passed acceleration vector.
    pub axis: [Scalar; 3],
}

/// A detected slap.
#[derive(Debug, Clone, Copy, PartialEq, Eq)]
pub struct Detection {
    /// Seconds since the stream started.
    pub t: Scalar64,
    pub tier: Tier,
    /// Peak high-passed acceleration, in g.
    pub peak_g: Scalar,
    /// Log-scaled 0..1, suitable for driving playback volume.
    pub intensity: Scalar,
    /// How many of the five detectors agreed.
    pub votes: u8,
    /// Whether the gyroscope saw matching angular rate.
    pub gyro_confirmed: bool,
    /// Peak angular rate accompanying the impact, in deg/s.
    pub gyro_peak: Scalar,
    /// Angular rate per unit linear acceleration, in deg/s per g.
    ///
    /// This is the discriminator that actually works: striking the lid applies a torque
    /// about the hinge, while a knock transmitted through the desk mostly translates the
    /// whole machine.
    pub gyro_ratio: Scalar,
    /// Direction of the impact, as the unit high-passed acceleration vector.
    pub axis: [Scalar; 3],
}

// ---------------------------------------------------------------------------------
// The rules
// ---------------------------------------------------------------------------------

/// One vote where `x` reaches its threshold.
pub open spec fn vote(x: Scalar, threshold: Scalar) -> nat {
    if x.at_least(threshold) {
        1
    } else {
        0
    }
}

/// How many of the five statistics reach their thresholds.
pub open spec fn votes_of(th: Thresholds, r: Readings) -> nat {
    vote(r.sta_lta, th.sta_lta) + vote(r.cusum, th.cusum) + vote(r.kurtosis, th.kurtosis) + vote(
        r.peak_mad,
        th.peak_mad,
    ) + vote(r.envelope, th.highpass_g)
}

/// The band a peak falls into, or none below the softest.
pub open spec fn tier_of(tiers: Tiers, peak: Scalar) -> Option<Tier> {
    if peak.at_least(tiers.major_g) {
        Some(Tier::Major)
    } else if peak.at_least(tiers.medium_g) {
        Some(Tier::Medium)
    } else if peak.at_least(tiers.micro_g) {
        Some(Tier::Micro)
    } else {
        None
    }
}

/// Whether a time span is shorter than the cooldown.
pub open spec fn within(elapsed: Scalar64, cooldown: Scalar) -> bool {
    !elapsed.nan() && !cooldown.nan() && elapsed.value() < cooldown.wide_value()
}

/// The rotation ratio that counts: none where the peak is too small to divide by.
pub open spec fn ratio_of(peak_g: Scalar, quotient: Scalar) -> Scalar {
    if (Scalar { bits: RATIO_FLOOR }).below(peak_g) {
        quotient
    } else {
        Scalar { bits: ZERO }
    }
}

/// Either a large rotation relative to translation, or a large rotation outright.
pub open spec fn corroborated(cfg: Config, ratio: Scalar, gyro_peak: Scalar) -> bool {
    ratio.at_least(cfg.gyro_ratio_min) || gyro_peak.at_least(cfg.gyro_peak_min)
}

/// One vote where `x` reaches its threshold.
fn count_vote(x: Scalar, threshold: Scalar) -> (r: u8)
    ensures
        r == vote(x, threshold),
{
    if x.ge(threshold) {
        1
    } else {
        0
    }
}

/// How many of the five statistics reach their thresholds.
pub fn count_votes(th: &Thresholds, r: &Readings) -> (n: u8)
    ensures
        n == votes_of(*th, *r),
        n <= 5,
        n == (if r.sta_lta.at_least(th.sta_lta) {
            1int
        } else {
            0
        }) + (if r.cusum.at_least(th.cusum) {
            1int
        } else {
            0
        }) + (if r.kurtosis.at_least(th.kurtosis) {
            1int
        } else {
            0
        }) + (if r.peak_mad.at_least(th.peak_mad) {
            1int
        } else {
            0
        }) + (if r.envelope.at_least(th.highpass_g) {
            1int
        } else {
            0
        }),
{
    count_vote(r.sta_lta, th.sta_lta) + count_vote(r.cusum, th.cusum) + count_vote(
        r.kurtosis,
        th.kurtosis,
    ) + count_vote(r.peak_mad, th.peak_mad) + count_vote(r.envelope, th.highpass_g)
}

/// The severity of a peak. Amplitude is all it depends on.
pub fn tier_for(tiers: &Tiers, peak: Scalar) -> (r: Option<Tier>)
    ensures
        r == tier_of(*tiers, peak),
        r == Some(Tier::Major) <==> peak.at_least(tiers.major_g),
        r == Some(Tier::Medium) <==> peak.at_least(tiers.medium_g) && !peak.at_least(tiers.major_g),
        r is None <==> !peak.at_least(tiers.major_g) && !peak.at_least(tiers.medium_g)
            && !peak.at_least(tiers.micro_g),
{
    if peak.ge(tiers.major_g) {
        Some(Tier::Major)
    } else if peak.ge(tiers.medium_g) {
        Some(Tier::Medium)
    } else if peak.ge(tiers.micro_g) {
        Some(Tier::Micro)
    } else {
        None
    }
}

// ---------------------------------------------------------------------------------
// The detector
// ---------------------------------------------------------------------------------

/// Streaming slap detector.
///
/// Statistics of accelerometer samples go to [`Detector::push_accel`], which returns a
/// [`Candidate`] on the sample where the accelerometer vouches for an impact;
/// [`Detector::confirm`] then decides whether it fires. Gyroscope samples go to
/// [`Detector::push_gyro`] and only affect corroboration.
#[derive(Debug)]
pub struct Detector {
    /// The tuning, with the sensitivity slider already folded into the thresholds.
    pub cfg: Config,
    /// Recent envelopes.
    pub peak_hold: RollingMax,
    /// Recent STA/LTA ratios of the angular rate.
    pub window: RollingMax,
    /// Recent angular rates, in deg/s.
    pub amp_window: RollingMax,
    pub scores: Scores,
    pub last_fire_t: Option<Scalar64>,
    /// Suppresses detections until the filters have seen enough data to have a meaningful
    /// background estimate — otherwise startup transients read as a slap.
    pub warmup_remaining: u32,
    /// The length of the warmup, in samples.
    pub warmup: u32,
}

/// Whether the detector is silent because it fired a moment ago.
pub open spec fn cooling(d: Detector, elapsed: Scalar64) -> bool {
    d.last_fire_t is Some && within(elapsed, d.cfg.cooldown_s)
}

/// Two detectors that agree on everything but what the gyroscope said.
pub open spec fn same_but_gyro(d: Detector, e: Detector) -> bool {
    &&& d.cfg == e.cfg
    &&& d.peak_hold@ == e.peak_hold@
    &&& d.last_fire_t == e.last_fire_t
    &&& d.warmup_remaining == e.warmup_remaining
    &&& d.warmup == e.warmup
}

/// Two detections that agree on everything but what the gyroscope said.
pub open spec fn detected_alike(x: Detection, y: Detection) -> bool {
    y == (Detection {
        gyro_confirmed: y.gyro_confirmed,
        gyro_peak: y.gyro_peak,
        gyro_ratio: y.gyro_ratio,
        ..x
    })
}

/// The peak that a sample is judged by: the largest recent envelope, itself included.
pub open spec fn peak_of(d: Detector, r: Readings) -> Scalar {
    maximum(d.peak_hold@.drop_first().push(r.envelope)).larger(r.envelope)
}

/// What the accelerometer says of a sample.
pub open spec fn screened(d: Detector, r: Readings, elapsed: Scalar64) -> Option<Candidate> {
    let votes = votes_of(d.cfg.thresholds, r);
    let peak_g = peak_of(d, r);
    if d.warmup_remaining > 0 || cooling(d, elapsed) || votes < d.cfg.min_votes {
        None
    } else {
        match tier_of(d.cfg.tiers, peak_g) {
            Some(tier) => Some(
                Candidate {
                    tier,
                    peak_g,
                    votes: votes as u8,
                    gyro_peak: maximum(d.amp_window@).larger(Scalar { bits: ZERO }),
                },
            ),
            None => None,
        }
    }
}

/// What becomes of a candidate once the gyroscope has been asked.
pub open spec fn judged(cfg: Config, c: Candidate, t: Scalar64, derived: Derived) -> Option<
    Detection,
> {
    let ratio = ratio_of(c.peak_g, derived.quotient);
    let confirmed = corroborated(cfg, ratio, c.gyro_peak);
    if cfg.gyro_mode == GyroMode::Require && !confirmed {
        None
    } else {
        Some(
            Detection {
                t,
                tier: c.tier,
                peak_g: c.peak_g,
                intensity: derived.intensity,
                votes: c.votes,
                gyro_confirmed: cfg.gyro_mode != GyroMode::Off && confirmed,
                gyro_peak: c.gyro_peak,
                gyro_ratio: ratio,
                axis: derived.axis,
            },
        )
    }
}

impl Detector {
    /// The windows are valid.
    pub open spec fn valid(self) -> bool {
        &&& self.peak_hold.valid()
        &&& self.window.valid()
        &&& self.amp_window.valid()
    }

    /// A detector that has seen nothing.
    pub open spec fn fresh(self) -> bool {
        &&& self.valid()
        &&& self.peak_hold@ == unseen(self.peak_hold@.len())
        &&& self.window@ == unseen(self.window@.len())
        &&& self.amp_window@ == unseen(self.amp_window@.len())
        &&& self.scores == no_scores()
        &&& self.last_fire_t is None
        &&& self.warmup_remaining == self.warmup
    }

    /// A detector with the given tuning, whose windows span `hold` accelerometer and
    /// `gyro` gyroscope samples, and which stays silent for `warmup` samples.
    pub fn new(cfg: Config, hold: usize, gyro: usize, warmup: u32) -> (r: Detector)
        ensures
            r.fresh(),
            r.cfg == cfg,
            r.peak_hold@.len() == window_len(hold),
            r.window@.len() == window_len(gyro),
            r.amp_window@.len() == window_len(gyro),
            r.warmup == warmup,
    {
        Detector {
            cfg,
            peak_hold: RollingMax::new(hold),
            window: RollingMax::new(gyro),
            amp_window: RollingMax::new(gyro),
            scores: Scores::default(),
            last_fire_t: None,
            warmup_remaining: warmup,
            warmup,
        }
    }

    /// The tuning in force.
    pub fn config(&self) -> (r: &Config)
        ensures
            *r == self.cfg,
    {
        &self.cfg
    }

    /// Replace the tuning parameters, rebuilding every window.
    ///
    /// Retunes take effect on the next sample, at the cost of another warmup period —
    /// the alternative would be reinterpreting an old background estimate under new
    /// time constants, which produces a burst of spurious detections.
    pub fn set_config(&mut self, cfg: Config, hold: usize, gyro: usize, warmup: u32)
        ensures
            final(self).fresh(),
            final(self).cfg == cfg,
            final(self).peak_hold@.len() == window_len(hold),
            final(self).window@.len() == window_len(gyro),
            final(self).amp_window@.len() == window_len(gyro),
            final(self).warmup == warmup,
    {
        *self = Detector::new(cfg, hold, gyro, warmup);
    }

    /// Current detector state, for live display.
    pub fn scores(&self) -> (r: Scores)
        ensures
            r == self.scores,
    {
        self.scores
    }

    /// Whether the detector is still building its background estimate.
    pub fn is_warming_up(&self) -> (r: bool)
        ensures
            r == (self.warmup_remaining > 0),
    {
        self.warmup_remaining > 0
    }

    /// Feed one gyroscope sample: its high-passed angular rate and STA/LTA ratio.
    pub fn push_gyro(&mut self, rate: Scalar, ratio: Scalar)
        requires
            old(self).valid(),
        ensures
            final(self).valid(),
            same_but_gyro(*old(self), *final(self)),
            final(self).window@ == old(self).window@.drop_first().push(ratio),
            final(self).amp_window@ == old(self).amp_window@.drop_first().push(rate),
            final(self).scores == (Scores {
                gyro: maximum(final(self).window@),
                gyro_peak: maximum(final(self).amp_window@),
                ..old(self).scores
            }),
            final(self).cfg == old(self).cfg,
            final(self).peak_hold == old(self).peak_hold,
            final(self).last_fire_t == old(self).last_fire_t,
            final(self).warmup_remaining == old(self).warmup_remaining,
            final(self).warmup == old(self).warmup,
    {
        self.window.push(ratio);
        self.amp_window.push(rate);
        self.scores.gyro = self.window.max();
        self.scores.gyro_peak = self.amp_window.max();
    }

    /// Feed the statistics of one accelerometer sample; `elapsed` is the time since the
    /// last detection, where there was one. Returns an impact the accelerometer vouches
    /// for.
    pub fn push_accel(&mut self, r: Readings, elapsed: Scalar64) -> (c: Option<Candidate>)
        requires
            old(self).valid(),
        ensures
            c == screened(*old(self), r, elapsed),
            final(self).valid(),
            final(self).peak_hold@ == old(self).peak_hold@.drop_first().push(r.envelope),
            final(self).scores == (Scores {
                envelope: r.envelope,
                sta_lta: r.sta_lta,
                cusum: r.cusum,
                kurtosis: r.kurtosis,
                peak_mad: r.peak_mad,
                gyro: old(self).scores.gyro,
                gyro_peak: old(self).scores.gyro_peak,
                votes: votes_of(old(self).cfg.thresholds, r) as u8,
                in_cooldown: old(self).warmup_remaining == 0 && cooling(*old(self), elapsed),
            }),
            final(self).scores.in_cooldown <==> old(self).warmup_remaining == 0 && old(
                self,
            ).last_fire_t is Some && !elapsed.nan() && !old(self).cfg.cooldown_s.nan()
                && elapsed.value() < old(self).cfg.cooldown_s.wide_value(),
            c matches Some(x) ==> x.votes == final(self).scores.votes,
            final(self).warmup_remaining == (if old(self).warmup_remaining > 0 {
                old(self).warmup_remaining - 1
            } else {
                0
            }),
            final(self).cfg == old(self).cfg,
            final(self).window == old(self).window,
            final(self).amp_window == old(self).amp_window,
            final(self).last_fire_t == old(self).last_fire_t,
            final(self).warmup == old(self).warmup,
    {
        self.peak_hold.push(r.envelope);
        let votes: u8 = count_votes(&self.cfg.thresholds, &r);
        self.scores = Scores {
            envelope: r.envelope,
            sta_lta: r.sta_lta,
            cusum: r.cusum,
            kurtosis: r.kurtosis,
            peak_mad: r.peak_mad,
            gyro: self.scores.gyro,
            gyro_peak: self.scores.gyro_peak,
            votes,
            in_cooldown: false,
        };

        if self.warmup_remaining > 0 {
            self.warmup_remaining = self.warmup_remaining - 1;
            return None;
        }

        // One slap rings the chassis for a while, and we want one sound per hit.
        if self.last_fire_t.is_some() && elapsed.lt(self.cfg.cooldown_s.widen()) {
            self.scores.in_cooldown = true;
            return None;
        }

        // Confidence and severity are separate questions. The vote count answers "is this
        // an impact rather than noise?"; the amplitude answers "how hard?".
        if votes < self.cfg.min_votes {
            return None;
        }

        let peak_g: Scalar = self.peak_hold.max().max(r.envelope);
        match tier_for(&self.cfg.tiers, peak_g) {
            Some(tier) => Some(
                Candidate {
                    tier,
                    peak_g,
                    votes,
                    gyro_peak: self.amp_window.max().max(Scalar { bits: ZERO }),
                },
            ),
            None => None,
        }
    }

    /// Decides whether a candidate at time `t` fires, and remembers when it did.
    pub fn confirm(&mut self, c: &Candidate, t: Scalar64, derived: &Derived) -> (r: Option<
        Detection,
    >)
        ensures
            r == judged(old(self).cfg, *c, t, *derived),
            *final(self) == (Detector {
                last_fire_t: if r is Some {
                    Some(t)
                } else {
                    old(self).last_fire_t
                },
                ..*old(self)
            }),
    {
        let ratio: Scalar = if (Scalar { bits: RATIO_FLOOR }).lt(c.peak_g) {
            derived.quotient
        } else {
            Scalar { bits: ZERO }
        };
        // Either a large rotation relative to translation, or a large rotation outright.
        let confirmed: bool = ratio.ge(self.cfg.gyro_ratio_min) || c.gyro_peak.ge(
            self.cfg.gyro_peak_min,
        );
        if self.cfg.gyro_mode == GyroMode::Require && !confirmed {
            return None;
        }
        self.last_fire_t = Some(t);
        Some(
            Detection {
                t,
                tier: c.tier,
                peak_g: c.peak_g,
                intensity: derived.intensity,
                votes: c.votes,
                gyro_confirmed: self.cfg.gyro_mode != GyroMode::Off && confirmed,
                gyro_peak: c.gyro_peak,
                gyro_ratio: ratio,
                axis: derived.axis,
            },
        )
    }

    /// Clear every window and restart the warmup.
    pub fn reset(&mut self)
        requires
            old(self).valid(),
        ensures
            final(self).fresh(),
            final(self).cfg == old(self).cfg,
            final(self).peak_hold@.len() == old(self).peak_hold@.len(),
            final(self).window@.len() == old(self).window@.len(),
            final(self).amp_window@.len() == old(self).amp_window@.len(),
            final(self).warmup == old(self).warmup,
    {
        self.peak_hold.reset();
        self.window.reset();
        self.amp_window.reset();
        self.scores = Scores::default();
        self.last_fire_t = None;
        self.warmup_remaining = self.warmup;
    }
}

// ---------------------------------------------------------------------------------
// Laws
// ---------------------------------------------------------------------------------

/// While the background estimate is being built nothing is reported, whatever the
/// statistics say.
pub proof fn warmup_is_silent(d: Detector, r: Readings, elapsed: Scalar64)
    requires
        d.warmup_remaining > 0,
    ensures
        screened(d, r, elapsed) is None,
{
}

/// Within the cooldown after a detection nothing is reported, so one slap gives one
/// detection however long the chassis rings.
pub proof fn cooldown_is_silent(d: Detector, r: Readings, elapsed: Scalar64)
    requires
        d.last_fire_t is Some,
        within(elapsed, d.cfg.cooldown_s),
    ensures
        screened(d, r, elapsed) is None,
{
}

/// Fewer votes than required report nothing, however hard the hit; and no sample can
/// collect more than five.
pub proof fn too_few_votes_are_silent(d: Detector, r: Readings, elapsed: Scalar64)
    ensures
        votes_of(d.cfg.thresholds, r) <= 5,
        votes_of(d.cfg.thresholds, r) < d.cfg.min_votes ==> screened(d, r, elapsed) is None,
        d.cfg.min_votes > 5 ==> screened(d, r, elapsed) is None,
{
}

/// Severity is amplitude only: two impacts with the same peak have the same tier, however
/// many statistics agreed on either.
pub proof fn severity_is_amplitude(
    d: Detector,
    e: Detector,
    r: Readings,
    s: Readings,
    elapsed: Scalar64,
    since: Scalar64,
)
    requires
        d.cfg.tiers == e.cfg.tiers,
        peak_of(d, r) == peak_of(e, s),
        screened(d, r, elapsed) is Some,
        screened(e, s, since) is Some,
    ensures
        screened(d, r, elapsed)->0.tier == screened(e, s, since)->0.tier,
        Some(screened(d, r, elapsed)->0.tier) == tier_of(d.cfg.tiers, peak_of(d, r)),
{
}

/// A harder hit is never put in a softer tier, and never goes unreported where the softer
/// one is reported.
pub proof fn harder_is_not_softer(tiers: Tiers, soft: Scalar, hard: Scalar)
    requires
        hard.at_least(soft),
        tiers.major_g.at_least(tiers.medium_g),
        tiers.medium_g.at_least(tiers.micro_g),
        tier_of(tiers, soft) is Some,
    ensures
        tier_of(tiers, hard) is Some,
        tier_of(tiers, hard)->0.rank() >= tier_of(tiers, soft)->0.rank(),
{
}

/// Every gate of `b` lies no higher than that of `a`, and nothing else differs that
/// decides whether an impact is reported.
pub open spec fn gates_lower(a: Config, b: Config) -> bool {
    &&& a.thresholds.sta_lta.at_least(b.thresholds.sta_lta)
    &&& a.thresholds.cusum.at_least(b.thresholds.cusum)
    &&& a.thresholds.kurtosis.at_least(b.thresholds.kurtosis)
    &&& a.thresholds.peak_mad.at_least(b.thresholds.peak_mad)
    &&& a.thresholds.highpass_g.at_least(b.thresholds.highpass_g)
    &&& a.tiers.micro_g.at_least(b.tiers.micro_g)
    &&& a.tiers.medium_g.at_least(b.tiers.medium_g)
    &&& a.tiers.major_g.at_least(b.tiers.major_g)
    &&& a.gyro_ratio_min.at_least(b.gyro_ratio_min)
    &&& a.gyro_peak_min.at_least(b.gyro_peak_min)
    &&& a.min_votes >= b.min_votes
    &&& a.gyro_mode == b.gyro_mode
    &&& a.cooldown_s == b.cooldown_s
}

/// A more sensitive tuning loses nothing: what is reported with the higher gates is
/// reported with the lower ones too, with as many votes and in no softer a tier.
pub proof fn lower_gates_lose_nothing(
    d: Detector,
    e: Detector,
    r: Readings,
    elapsed: Scalar64,
    t: Scalar64,
    derived: Derived,
)
    requires
        gates_lower(d.cfg, e.cfg),
        e == (Detector { cfg: e.cfg, ..d }),
        screened(d, r, elapsed) is Some,
        judged(d.cfg, screened(d, r, elapsed)->0, t, derived) is Some,
    ensures
        screened(e, r, elapsed) is Some,
        screened(e, r, elapsed)->0.votes >= screened(d, r, elapsed)->0.votes,
        screened(e, r, elapsed)->0.tier.rank() >= screened(d, r, elapsed)->0.tier.rank(),
        judged(e.cfg, screened(e, r, elapsed)->0, t, derived) is Some,
{
}

/// Where corroboration is required, everything reported was corroborated; where the
/// gyroscope is off, it suppresses nothing and vouches for nothing.
pub proof fn gyro_mode_decides(cfg: Config, c: Candidate, t: Scalar64, derived: Derived)
    ensures
        cfg.gyro_mode == GyroMode::Require && judged(cfg, c, t, derived) is Some ==> judged(
            cfg,
            c,
            t,
            derived,
        )->0.gyro_confirmed,
        cfg.gyro_mode != GyroMode::Require ==> judged(cfg, c, t, derived) is Some,
        cfg.gyro_mode == GyroMode::Off ==> !judged(cfg, c, t, derived)->0.gyro_confirmed,
        judged(cfg, c, t, derived) is Some ==> judged(cfg, c, t, derived)->0.tier == c.tier,
{
}

/// Unless corroboration is required, the gyroscope only annotates: whatever it said, the
/// same samples are reported, and a report differs in nothing but what it says of the
/// rotation.
pub proof fn gyro_only_annotates(
    d: Detector,
    e: Detector,
    r: Readings,
    elapsed: Scalar64,
    t: Scalar64,
    p: Derived,
    q: Derived,
)
    requires
        same_but_gyro(d, e),
        d.cfg.gyro_mode != GyroMode::Require,
        p.intensity == q.intensity,
        p.axis == q.axis,
    ensures
        screened(d, r, elapsed) is Some <==> screened(e, r, elapsed) is Some,
        screened(d, r, elapsed) is Some ==> {
            let x = judged(d.cfg, screened(d, r, elapsed)->0, t, p);
            let y = judged(e.cfg, screened(e, r, elapsed)->0, t, q);
            x is Some && y is Some && detected_alike(x->0, y->0)
        },
{
}

/// Without a single gyroscope sample nothing can be corroborated, so where corroboration
/// is required nothing is reported.
pub proof fn no_rotation_no_report(
    d: Detector,
    r: Readings,
    elapsed: Scalar64,
    t: Scalar64,
    derived: Derived,
)
    requires
        d.amp_window@ == unseen(d.amp_window@.len()),
        d.cfg.gyro_mode == GyroMode::Require,
        (Scalar { bits: ZERO }).below(d.cfg.gyro_peak_min),
        derived.quotient.below(d.cfg.gyro_ratio_min),
        (Scalar { bits: ZERO }).below(d.cfg.gyro_ratio_min),
        screened(d, r, elapsed) is Some,
    ensures
        screened(d, r, elapsed)->0.gyro_peak.bits == ZERO,
        judged(d.cfg, screened(d, r, elapsed)->0, t, derived) is None,
{
    crate::filters::maximum_bounds(d.amp_window@);
    let m = maximum(d.amp_window@);
    assert(m.bits == crate::scalar::NEG_INFINITY);
    crate::scalar::magnitude_order(0, m.magnitude(), 0x80_0000);
    assert(m.below(Scalar { bits: ZERO }));
}

/// An impact is reported exactly when the warmup is over, no detection lies within the
/// cooldown, at least `min_votes` of the five statistics reach their thresholds, and the
/// held peak reaches a band. What was reported before matters only through the cooldown.
pub proof fn reported_exactly_when(d: Detector, r: Readings, elapsed: Scalar64)
    ensures
        ({
            let th = d.cfg.thresholds;
            let agreeing = (if r.sta_lta.at_least(th.sta_lta) {
                1int
            } else {
                0
            }) + (if r.cusum.at_least(th.cusum) {
                1int
            } else {
                0
            }) + (if r.kurtosis.at_least(th.kurtosis) {
                1int
            } else {
                0
            }) + (if r.peak_mad.at_least(th.peak_mad) {
                1int
            } else {
                0
            }) + (if r.envelope.at_least(th.highpass_g) {
                1int
            } else {
                0
            });
            let recent = d.last_fire_t is Some && !elapsed.nan() && !d.cfg.cooldown_s.nan()
                && elapsed.value() < d.cfg.cooldown_s.wide_value();
            let peak = peak_of(d, r);
            let major = peak.at_least(d.cfg.tiers.major_g);
            let medium = peak.at_least(d.cfg.tiers.medium_g);
            let micro = peak.at_least(d.cfg.tiers.micro_g);
            &&& screened(d, r, elapsed) is Some <==> d.warmup_remaining == 0 && !recent
                && agreeing >= d.cfg.min_votes && (micro || medium || major)
            &&& screened(d, r, elapsed) matches Some(c) ==> {
                &&& c.votes == agreeing
                &&& c.peak_g == peak
                &&& c.tier == Tier::Major <==> major
                &&& c.tier == Tier::Medium <==> medium && !major
                &&& c.tier == Tier::Micro <==> !medium && !major
            }
        }),
{
}

/// The peak an impact is judged by is the largest number of the held window, the sample
/// itself included; and the rotation that goes with it is the largest of its window, or
/// none.
pub proof fn peaks_are_the_largest(d: Detector, r: Readings, elapsed: Scalar64)
    requires
        d.peak_hold@.len() > 0,
    ensures
        ({
            let held = d.peak_hold@.drop_first().push(r.envelope);
            let peak = peak_of(d, r);
            &&& !peak.nan()
            &&& held.contains(peak) || peak.bits == 0xff80_0000
            &&& forall|i: int| 0 <= i < held.len() ==> !peak.below(#[trigger] held[i])
            &&& screened(d, r, elapsed) matches Some(c) ==> {
                &&& d.amp_window@.contains(c.gyro_peak) || c.gyro_peak.bits == 0
                &&& c.gyro_peak.at_least(Scalar { bits: 0 })
                &&& forall|i: int|
                    0 <= i < d.amp_window@.len() ==> !c.gyro_peak.below(#[trigger] d.amp_window@[i])
            }
        }),
{
    let held = d.peak_hold@.drop_first().push(r.envelope);
    maximum_bounds(held);
    maximum_bounds(d.amp_window@);
    assert(held[held.len() - 1] == r.envelope);
    let m = maximum(d.amp_window@);
    if m.bits == NEG_INFINITY {
        magnitude_order(0, m.magnitude(), 0x80_0000);
        assert(m.below(Scalar { bits: ZERO }));
    }
}

/// Two detectors that hold the same windows report the same, whatever each of them fired
/// before, once both are past their cooldown.
pub proof fn past_detections_only_cool(
    d: Detector,
    e: Detector,
    r: Readings,
    elapsed: Scalar64,
    since: Scalar64,
)
    requires
        d.cfg == e.cfg,
        d.peak_hold@ == e.peak_hold@,
        d.amp_window@ == e.amp_window@,
        d.warmup_remaining == e.warmup_remaining,
        d.last_fire_t is None || elapsed.value() >= d.cfg.cooldown_s.wide_value(),
        e.last_fire_t is None || since.value() >= e.cfg.cooldown_s.wide_value(),
    ensures
        screened(d, r, elapsed) == screened(e, r, since),
{
}

/// A detection says what was measured: it is withheld just where corroboration is required
/// and neither the rotation nor its ratio to the peak reaches its minimum, and otherwise
/// carries the candidate and what was made of it unchanged.
pub proof fn detection_says_what_was_measured(
    cfg: Config,
    c: Candidate,
    t: Scalar64,
    derived: Derived,
)
    ensures
        ({
            let ratio = if (Scalar { bits: 0x3586_37bd }).below(c.peak_g) {
                derived.quotient
            } else {
                Scalar { bits: 0 }
            };
            let turned = ratio.at_least(cfg.gyro_ratio_min) || c.gyro_peak.at_least(
                cfg.gyro_peak_min,
            );
            &&& judged(cfg, c, t, derived) is None <==> cfg.gyro_mode == GyroMode::Require
                && !turned
            &&& judged(cfg, c, t, derived) matches Some(x) ==> {
                &&& x.t == t
                &&& x.tier == c.tier
                &&& x.peak_g == c.peak_g
                &&& x.votes == c.votes
                &&& x.intensity == derived.intensity
                &&& x.axis == derived.axis
                &&& x.gyro_peak == c.gyro_peak
                &&& x.gyro_ratio == ratio
                &&& x.gyro_confirmed <==> turned && cfg.gyro_mode != GyroMode::Off
            }
        }),
{
}

/// A fresh detector has seen nothing: its windows hold negative infinity throughout, its
/// scores are zero, it has fired never, and its whole warmup is ahead of it.
pub proof fn fresh_has_seen_nothing(d: Detector, i: int)
    requires
        d.fresh(),
    ensures
        0 <= i < d.peak_hold@.len() ==> d.peak_hold@[i].bits == 0xff80_0000,
        0 <= i < d.window@.len() ==> d.window@[i].bits == 0xff80_0000,
        0 <= i < d.amp_window@.len() ==> d.amp_window@[i].bits == 0xff80_0000,
        d.scores.envelope.bits == 0,
        d.scores.sta_lta.bits == 0,
        d.scores.cusum.bits == 0,
        d.scores.kurtosis.bits == 0,
        d.scores.peak_mad.bits == 0,
        d.scores.gyro.bits == 0,
        d.scores.gyro_peak.bits == 0,
        d.scores.votes == 0,
        !d.scores.in_cooldown,
        d.last_fire_t is None,
        d.warmup_remaining == d.warmup,
        d.peak_hold.valid() && d.window.valid() && d.amp_window.valid(),
{
}

} // verus!
