//! Detector tuning parameters.
//!
//! Every threshold here was derived from measurement on real hardware, not adopted from
//! anywhere. That is worth stating because the obvious-sounding numbers do not work: a
//! micro-shock floor of 0.005 g or an STA/LTA ratio of 4 both sit *below* a machine's noise
//! floor, where the envelope alone reaches 0.0159 g at rest and STA/LTA touches 8.3 while
//! the laptop is untouched. Either would produce a detector that fires on nothing but
//! noise.
use vstd::arithmetic::power2::lemma2_to64;
use vstd::prelude::*;

use crate::scalar::{against_one, rounds, Scalar, HALF, ONE, ZERO};

verus! {

/// How the gyroscope is allowed to influence detection.
///
/// A slap on the lid imparts angular rate about the hinge; typing, trackpad clicks and desk
/// bumps largely produce linear acceleration without it. It is the only feature that
/// separates a slap from a knock on the desk, so `Require` is the default.
#[derive(Debug, Clone, Copy, PartialEq, Eq, Structural)]
pub enum GyroMode {
    /// Ignore the gyroscope entirely.
    Off,
    /// Report whether the gyro corroborated, but never suppress on its absence.
    Annotate,
    /// Suppress accelerometer triggers the gyroscope does not corroborate.
    Require,
}

impl Default for GyroMode {
    fn default() -> (r: GyroMode)
        ensures
            r == GyroMode::Require,
    {
        GyroMode::Require
    }
}

/// Thresholds for the five accelerometer detectors.
#[derive(Debug, Clone, Copy, PartialEq, Eq, Structural)]
pub struct Thresholds {
    /// STA/LTA ratio above which a timescale is considered triggered.
    pub sta_lta: Scalar,
    /// CUSUM accumulator level, in units of the running robust scale.
    pub cusum: Scalar,
    /// Excess kurtosis above which the signal counts as impulsive.
    pub kurtosis: Scalar,
    /// Peak over robust scale (a modified z-score).
    pub peak_mad: Scalar,
    /// Absolute high-passed magnitude, in g.
    pub highpass_g: Scalar,
}

/// The measured thresholds: 15, 200, 1100, 25 and 0.035 g.
pub open spec fn standard_thresholds() -> Thresholds {
    Thresholds {
        sta_lta: Scalar { bits: 0x4170_0000 },
        cusum: Scalar { bits: 0x4348_0000 },
        kurtosis: Scalar { bits: 0x4489_8000 },
        peak_mad: Scalar { bits: 0x41c8_0000 },
        highpass_g: Scalar { bits: 0x3d0f_5c29 },
    }
}

impl Default for Thresholds {
    fn default() -> (r: Thresholds)
        ensures
            r == standard_thresholds(),
    {
        Thresholds {
            sta_lta: Scalar { bits: 0x4170_0000 },
            cusum: Scalar { bits: 0x4348_0000 },
            kurtosis: Scalar { bits: 0x4489_8000 },
            peak_mad: Scalar { bits: 0x41c8_0000 },
            highpass_g: Scalar { bits: 0x3d0f_5c29 },
        }
    }
}

/// Peak amplitude bands for each severity tier.
///
/// Severity is amplitude alone. The detectors answer "is this an impact at all?", not "how
/// hard was it", so confidence lives in [`Config::min_votes`] and the bands in here.
#[derive(Debug, Clone, Copy, PartialEq, Eq, Structural)]
pub struct Tiers {
    /// A deliberate, hard hit.
    pub major_g: Scalar,
    /// A normal slap.
    pub medium_g: Scalar,
    /// The softest impact worth reporting.
    pub micro_g: Scalar,
}

/// The measured bands: 0.30 g, 0.12 g and 0.04 g.
pub open spec fn standard_tiers() -> Tiers {
    Tiers {
        major_g: Scalar { bits: 0x3e99_999a },
        medium_g: Scalar { bits: 0x3df5_c28f },
        micro_g: Scalar { bits: 0x3d23_d70a },
    }
}

impl Default for Tiers {
    fn default() -> (r: Tiers)
        ensures
            r == standard_tiers(),
    {
        Tiers {
            major_g: Scalar { bits: 0x3e99_999a },
            medium_g: Scalar { bits: 0x3df5_c28f },
            micro_g: Scalar { bits: 0x3d23_d70a },
        }
    }
}

/// The tuning of one detector.
#[derive(Debug, Clone, Copy, PartialEq, Eq)]
pub struct Config {
    /// Nominal sample rate. The hardware delivers ~805 Hz.
    pub rate_hz: Scalar,
    /// Gravity-strip corner frequency, in Hz.
    pub highpass_hz: Scalar,
    /// The three short-term averaging windows, in seconds.
    pub sta_taus: [Scalar; 3],
    /// Long-term averaging window, in seconds — the "background" level.
    pub lta_tau: Scalar,
    pub thresholds: Thresholds,
    pub tiers: Tiers,
    /// Minimum gap between detections, in seconds. Prevents one slap firing repeatedly
    /// as the machine rings.
    pub cooldown_s: Scalar,
    /// Window over which the reported peak is held, in seconds.
    pub peak_hold_s: Scalar,
    /// Per-sample retention of the CUSUM accumulator.
    pub cusum_leak: Scalar,
    pub gyro_mode: GyroMode,
    /// Minimum angular rate per unit linear acceleration, in deg/s per g, for an impact
    /// to count as a strike on the machine rather than a knock transmitted through it.
    pub gyro_ratio_min: Scalar,
    /// Absolute peak angular rate, in deg/s, that on its own confirms a strike.
    pub gyro_peak_min: Scalar,
    /// How far back to look for gyro corroboration, in seconds.
    pub gyro_window_s: Scalar,
    /// How many of the five detectors must agree before an impact counts at all.
    pub min_votes: u8,
    /// Peak amplitude mapped to intensity 1.0, in g.
    pub full_scale_g: Scalar,
    /// The user-facing sensitivity slider, 0.0 to 1.0.
    pub sensitivity: Scalar,
}

impl Config {
    /// The calibrated tuning.
    pub open spec fn standard(self) -> bool {
        &&& self.rate_hz.bits == 0x4449_4000
        &&& self.highpass_hz.bits == 0x40a0_0000
        &&& self.sta_taus@ == seq![
            Scalar { bits: 0x3ba3_d70a },
            Scalar { bits: 0x3c75_c28f },
            Scalar { bits: 0x3d23_d70a },
        ]
        &&& self.lta_tau.bits == HALF
        &&& self.thresholds == standard_thresholds()
        &&& self.tiers == standard_tiers()
        &&& self.cooldown_s.bits == 0x3f40_0000
        &&& self.peak_hold_s.bits == 0x3bc4_9ba6
        &&& self.cusum_leak.bits == 0x3f73_3333
        &&& self.gyro_mode == GyroMode::Require
        &&& self.gyro_ratio_min.bits == 0x432f_0000
        &&& self.gyro_peak_min.bits == 0x4170_0000
        &&& self.gyro_window_s.bits == 0x3cf5_c28f
        &&& self.min_votes == 2
        &&& self.full_scale_g.bits == ONE
        &&& self.sensitivity.bits == HALF
    }

    /// Set the sensitivity slider, clamped to 0.0..=1.0.
    pub fn with_sensitivity(self, sensitivity: Scalar) -> (r: Config)
        ensures
            r == (Config { sensitivity: slider(sensitivity), ..self }),
            sensitivity.nan() ==> r.sensitivity == sensitivity,
            sensitivity.at_least(Scalar { bits: 0 }) && (Scalar { bits: 0x3f80_0000 }).at_least(
                sensitivity,
            ) ==> r.sensitivity == sensitivity,
            sensitivity.below(Scalar { bits: 0 }) ==> r.sensitivity.bits == 0,
            (Scalar { bits: 0x3f80_0000 }).below(sensitivity) ==> r.sensitivity.bits == 0x3f80_0000,
    {
        proof {
            crate::scalar::magnitude_order(0, ONE as int, 0x80_0000);
        }
        let mut c = self;
        c.sensitivity = sensitivity.clamp(Scalar { bits: ZERO }, Scalar { bits: ONE });
        c
    }
}

/// A slider position restricted to its travel.
pub open spec fn slider(position: Scalar) -> Scalar {
    position.clamped(Scalar { bits: ZERO }, Scalar { bits: ONE })
}

impl Default for Config {
    fn default() -> (r: Config)
        ensures
            r.standard(),
    {
        Config {
            rate_hz: Scalar { bits: 0x4449_4000 },
            highpass_hz: Scalar { bits: 0x40a0_0000 },
            sta_taus: [
                Scalar { bits: 0x3ba3_d70a },
                Scalar { bits: 0x3c75_c28f },
                Scalar { bits: 0x3d23_d70a },
            ],
            lta_tau: Scalar { bits: HALF },
            thresholds: Thresholds::default(),
            tiers: Tiers::default(),
            cooldown_s: Scalar { bits: 0x3f40_0000 },
            peak_hold_s: Scalar { bits: 0x3bc4_9ba6 },
            cusum_leak: Scalar { bits: 0x3f73_3333 },
            gyro_mode: GyroMode::default(),
            gyro_ratio_min: Scalar { bits: 0x432f_0000 },
            gyro_peak_min: Scalar { bits: 0x4170_0000 },
            gyro_window_s: Scalar { bits: 0x3cf5_c28f },
            min_votes: 2,
            full_scale_g: Scalar { bits: ONE },
            sensitivity: Scalar { bits: HALF },
        }
    }
}

/// However far the slider is pushed, it stays within its travel, and a position within the
/// travel is kept.
pub proof fn slider_stays_in_range(position: Scalar)
    requires
        !position.nan(),
    ensures
        slider(position).at_least(Scalar { bits: ZERO }),
        (Scalar { bits: ONE }).at_least(slider(position)),
        position.at_least(Scalar { bits: ZERO }) && (Scalar { bits: ONE }).at_least(position)
            ==> slider(position) == position,
        slider(slider(position)) == slider(position),
{
    crate::scalar::magnitude_order(0, ONE as int, 0x80_0000);
}

/// The calibrated tuning, in plain figures: rates in Hz, times in seconds, accelerations in
/// g, angular rates in degrees per second.
pub proof fn standard_in_plain_figures(c: Config)
    requires
        c.standard(),
    ensures
        rounds(c.rate_hz, 805, 1),
        rounds(c.highpass_hz, 5, 1),
        rounds(c.sta_taus@[0], 5, 1000),
        rounds(c.sta_taus@[1], 15, 1000),
        rounds(c.sta_taus@[2], 40, 1000),
        rounds(c.lta_tau, 1, 2),
        rounds(c.thresholds.sta_lta, 15, 1),
        rounds(c.thresholds.cusum, 200, 1),
        rounds(c.thresholds.kurtosis, 1100, 1),
        rounds(c.thresholds.peak_mad, 25, 1),
        rounds(c.thresholds.highpass_g, 35, 1000),
        rounds(c.tiers.major_g, 30, 100),
        rounds(c.tiers.medium_g, 12, 100),
        rounds(c.tiers.micro_g, 4, 100),
        rounds(c.cooldown_s, 3, 4),
        rounds(c.peak_hold_s, 6, 1000),
        rounds(c.cusum_leak, 95, 100),
        rounds(c.gyro_ratio_min, 175, 1),
        rounds(c.gyro_peak_min, 15, 1),
        rounds(c.gyro_window_s, 30, 1000),
        rounds(c.full_scale_g, 1, 1),
        rounds(c.sensitivity, 1, 2),
        c.min_votes == 2,
        c.gyro_mode is Require,
{
    lemma2_to64();
    against_one(c.rate_hz, 136, 0x494000, 512);
    against_one(c.highpass_hz, 129, 0x200000, 4);
    against_one(c.sta_taus@[0], 119, 0x23d70a, 256);
    against_one(c.sta_taus@[1], 120, 0x75c28f, 128);
    against_one(c.sta_taus@[2], 122, 0x23d70a, 32);
    against_one(c.lta_tau, 126, 0x0, 2);
    against_one(c.thresholds.sta_lta, 130, 0x700000, 8);
    against_one(c.thresholds.cusum, 134, 0x480000, 128);
    against_one(c.thresholds.kurtosis, 137, 0x98000, 1024);
    against_one(c.thresholds.peak_mad, 131, 0x480000, 16);
    against_one(c.thresholds.highpass_g, 122, 0xf5c29, 32);
    against_one(c.tiers.major_g, 125, 0x19999a, 4);
    against_one(c.tiers.medium_g, 123, 0x75c28f, 16);
    against_one(c.tiers.micro_g, 122, 0x23d70a, 32);
    against_one(c.cooldown_s, 126, 0x400000, 2);
    against_one(c.peak_hold_s, 119, 0x449ba6, 256);
    against_one(c.cusum_leak, 126, 0x733333, 2);
    against_one(c.gyro_ratio_min, 134, 0x2f0000, 128);
    against_one(c.gyro_peak_min, 130, 0x700000, 8);
    against_one(c.gyro_window_s, 121, 0x75c28f, 64);
    against_one(c.full_scale_g, 127, 0x0, 1);
    against_one(c.sensitivity, 126, 0x0, 2);
}

} // verus!
