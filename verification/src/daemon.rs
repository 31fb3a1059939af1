//! The detector loop: what each sample and each moment brings about.
//!
//! The loop itself polls a lock-free ring at ~805 Hz and sleeps in between. What it holds
//! on to between polls, and what it hands out, is decided here. Times are in nanoseconds on
//! one clock.
use vstd::prelude::*;

use crate::config::{Action, DaemonConfig};
use crate::detector::{Detection, Scores, Tier};
use crate::protocol::{slap_of, Slap, Status, StatusModel, Telemetry};
use crate::scalar::{clamping_stays_in_range, magnitude_order, Scalar, Scalar64, ONE, ZERO};

verus! {

/// How often telemetry frames are emitted, when anyone is listening.
pub const TELEMETRY_INTERVAL: u64 = 16_000_000;

/// Cap on a single telemetry frame, so a stalled loop cannot produce an enormous one.
pub const MAX_TELEMETRY_SAMPLES: usize = 64;

/// How often the status snapshot is refreshed.
///
/// Deliberately far slower than the poll loop: nothing reads status faster than a UI
/// refresh.
pub const STATUS_INTERVAL: u64 = 500_000_000;

/// Event fan-out capacity. Slow clients lag and drop rather than blocking the detector.
pub const EVENT_CAPACITY: usize = 256;

/// What the detector loop keeps between polls.
#[derive(Debug, PartialEq, Eq)]
pub struct Watch {
    pub config: DaemonConfig,
    /// Slaps reported since the start.
    pub slaps: u64,
    /// Whether anyone receives telemetry, as of this poll.
    pub want_telemetry: bool,
    pub last_telemetry: u64,
    /// When the status was last published; never before the first time.
    pub last_status: Option<u64>,
    pub envelope: Vec<Scalar>,
    pub gyro_trace: Vec<Scalar>,
    /// The time of the latest sample.
    pub last_t: Scalar64,
}

/// A trace with one more sample, as far as there is room and anyone cares.
pub open spec fn traced(trace: Seq<Scalar>, wanted: bool, x: Scalar) -> Seq<Scalar> {
    if wanted && trace.len() < MAX_TELEMETRY_SAMPLES {
        trace.push(x)
    } else {
        trace
    }
}

/// Whether at least `interval` has passed.
pub open spec fn elapsed(since: u64, now: u64, interval: u64) -> bool {
    now - since >= interval
}

/// The synthetic slap of a preview.
pub open spec fn preview_of(intensity: Scalar, axis: [Scalar; 3]) -> Slap {
    Slap {
        t: Scalar64 { bits: 0 },
        tier: Tier::Major,
        peak_g: Scalar { bits: 0x3e80_0000 },
        intensity: intensity.clamped(Scalar { bits: ZERO }, Scalar { bits: ONE }),
        votes: 4,
        gyro_confirmed: true,
        gyro_peak: Scalar { bits: 0x4220_0000 },
        gyro_ratio: Scalar { bits: 0x43c8_0000 },
        axis,
    }
}

/// The direction of a preview: straight down.
pub open spec fn downward(axis: [Scalar; 3]) -> bool {
    axis@ == seq![Scalar { bits: ZERO }, Scalar { bits: ZERO }, Scalar { bits: 0xbf80_0000 }]
}

/// A synthetic slap for previewing an action from the UI: a hard hit from above, so that it
/// satisfies every filter a user could reasonably set.
pub fn preview_slap(intensity: Scalar) -> (r: Slap)
    ensures
        r == preview_of(intensity, r.axis),
        downward(r.axis),
        r.axis@[0].bits == 0,
        r.axis@[1].bits == 0,
        r.axis@[2].bits == 0xbf80_0000,
{
    Slap {
        t: Scalar64 { bits: 0 },
        tier: Tier::Major,
        peak_g: Scalar { bits: 0x3e80_0000 },
        intensity: intensity.clamp(Scalar { bits: ZERO }, Scalar { bits: ONE }),
        votes: 4,
        gyro_confirmed: true,
        gyro_peak: Scalar { bits: 0x4220_0000 },
        gyro_ratio: Scalar { bits: 0x43c8_0000 },
        axis: [Scalar { bits: ZERO }, Scalar { bits: ZERO }, Scalar { bits: 0xbf80_0000 }],
    }
}

impl Watch {
    /// No trace is longer than a frame may be.
    pub open spec fn valid(self) -> bool {
        self.envelope@.len() <= MAX_TELEMETRY_SAMPLES && self.gyro_trace@.len()
            <= MAX_TELEMETRY_SAMPLES
    }

    /// At the start, with the status due at once.
    pub fn new(config: DaemonConfig, now: u64) -> (r: Watch)
        ensures
            r.valid(),
            r.config == config,
            r.slaps == 0,
            !r.want_telemetry,
            r.last_telemetry == now,
            r.last_status is None,
            r.envelope@.len() == 0,
            r.gyro_trace@.len() == 0,
            r.last_t.bits == 0,
    {
        Watch {
            config,
            slaps: 0,
            want_telemetry: false,
            last_telemetry: now,
            last_status: None,
            envelope: Vec::new(),
            gyro_trace: Vec::new(),
            last_t: Scalar64 { bits: 0 },
        }
    }

    /// Takes over a new configuration. Says whether the sensors must be reopened: the
    /// report rate is a property of the device, so changing it means closing it first.
    pub fn reload(&mut self, config: DaemonConfig) -> (reopen: bool)
        ensures
            *final(self) == (Watch { config, ..*old(self) }),
            reopen == (config.report_interval_us != old(self).config.report_interval_us),
    {
        let reopen: bool = config.report_interval_us != self.config.report_interval_us;
        self.config = config;
        reopen
    }

    /// The action and slap of a requested preview; none where the action has gone.
    pub fn preview(&self, id: &str, intensity: Scalar) -> (r: Option<(&Action, Slap)>)
        ensures
            match r {
                Some((a, slap)) => exists|i: int|
                    {
                        &&& 0 <= i < self.config.actions@.len()
                        &&& *a == #[trigger] self.config.actions@[i]
                        &&& a.id@ == id@
                        &&& forall|j: int|
                            0 <= j < i ==> (#[trigger] self.config.actions@[j]).id@ != id@
                        &&& slap == preview_of(intensity, slap.axis)
                        &&& downward(slap.axis)
                    },
                None => forall|i: int|
                    0 <= i < self.config.actions@.len() ==> (#[trigger] self.config.actions@[i]).id@
                        != id@,
            },
    {
        match self.config.action(id) {
            Some(a) => Some((a, preview_slap(intensity))),
            None => None,
        }
    }

    /// Begins a poll; `subscribers` is how many connections want telemetry.
    pub fn poll(&mut self, subscribers: usize)
        ensures
            *final(self) == (Watch { want_telemetry: subscribers > 0, ..*old(self) }),
    {
        self.want_telemetry = subscribers > 0;
    }

    /// A gyroscope sample was fed to the detector.
    pub fn on_gyro(&mut self, t: Scalar64, scores: &Scores)
        requires
            old(self).valid(),
        ensures
            final(self).valid(),
            final(self).gyro_trace@ == traced(
                old(self).gyro_trace@,
                old(self).want_telemetry,
                scores.gyro_peak,
            ),
            final(self).last_t == t,
            final(self).gyro_trace@ == (if old(self).want_telemetry
                && old(self).gyro_trace@.len() < 64 {
                old(self).gyro_trace@.push(scores.gyro_peak)
            } else {
                old(self).gyro_trace@
            }),
            *final(self) == (Watch {
                gyro_trace: final(self).gyro_trace,
                last_t: t,
                ..*old(self)
            }),
    {
        self.last_t = t;
        if self.want_telemetry && self.gyro_trace.len() < MAX_TELEMETRY_SAMPLES {
            self.gyro_trace.push(scores.gyro_peak);
        }
    }

    /// An accelerometer sample was fed to the detector, which made `detection` of it.
    /// Returns the slap to report and act on.
    ///
    /// The detector is fed while disabled too, so its background estimate stays current
    /// and re-enabling doesn't need another warmup.
    pub fn on_accel(&mut self, t: Scalar64, scores: &Scores, detection: Option<Detection>) -> (r:
        Option<Slap>)
        requires
            old(self).valid(),
            old(self).slaps < u64::MAX,
        ensures
            final(self).valid(),
            r == (match detection {
                Some(d) => if old(self).config.enabled {
                    Some(slap_of(d))
                } else {
                    None
                },
                None => None,
            }),
            final(self).slaps == old(self).slaps + (if r is Some {
                1int
            } else {
                0int
            }),
            final(self).envelope@ == traced(
                old(self).envelope@,
                old(self).want_telemetry,
                scores.envelope,
            ),
            final(self).envelope@ == (if old(self).want_telemetry && old(self).envelope@.len() < 64 {
                old(self).envelope@.push(scores.envelope)
            } else {
                old(self).envelope@
            }),
            r is Some <==> detection is Some && old(self).config.enabled,
            r matches Some(slap) ==> {
                &&& slap.t == detection->0.t
                &&& slap.tier == detection->0.tier
                &&& slap.peak_g == detection->0.peak_g
                &&& slap.intensity == detection->0.intensity
                &&& slap.votes == detection->0.votes
                &&& slap.gyro_confirmed == detection->0.gyro_confirmed
                &&& slap.gyro_peak == detection->0.gyro_peak
                &&& slap.gyro_ratio == detection->0.gyro_ratio
                &&& slap.axis == detection->0.axis
            },
            *final(self) == (Watch {
                envelope: final(self).envelope,
                slaps: final(self).slaps,
                last_t: t,
                ..*old(self)
            }),
    {
        self.last_t = t;
        if self.want_telemetry && self.envelope.len() < MAX_TELEMETRY_SAMPLES {
            self.envelope.push(scores.envelope);
        }
        match detection {
            Some(d) => {
                if self.config.enabled {
                    self.slaps = self.slaps + 1;
                    Some(Slap::from(d))
                } else {
                    None
                }
            },
            None => None,
        }
    }

    /// Ends a poll: the telemetry frame to send, when one is due and wanted. Once nobody
    /// wants telemetry, an envelope that was kept is dropped, and the gyroscope's trace with
    /// it.
    pub fn telemetry(&mut self, now: u64, scores: &Scores, dropped: u64) -> (r: Option<Telemetry>)
        requires
            old(self).valid(),
        ensures
            final(self).valid(),
            (r is Some) == (old(self).want_telemetry && elapsed(
                old(self).last_telemetry,
                now,
                TELEMETRY_INTERVAL,
            )),
            r is Some <==> old(self).want_telemetry && now - old(self).last_telemetry >= 16_000_000,
            match r {
                Some(f) => {
                    &&& f.t == old(self).last_t
                    &&& f.envelope@ == old(self).envelope@
                    &&& f.gyro@ == old(self).gyro_trace@
                    &&& f.scores == *scores
                    &&& f.dropped == dropped
                    &&& final(self).envelope@.len() == 0
                    &&& final(self).gyro_trace@.len() == 0
                    &&& final(self).last_telemetry == now
                },
                None => {
                    &&& final(self).last_telemetry == old(self).last_telemetry
                    &&& if !old(self).want_telemetry && old(self).envelope@.len() > 0 {
                        final(self).envelope@.len() == 0 && final(self).gyro_trace@.len() == 0
                    } else {
                        final(self).envelope@ == old(self).envelope@ && final(self).gyro_trace@
                            == old(self).gyro_trace@
                    }
                },
            },
            *final(self) == (Watch {
                envelope: final(self).envelope,
                gyro_trace: final(self).gyro_trace,
                last_telemetry: final(self).last_telemetry,
                ..*old(self)
            }),
    {
        if self.want_telemetry && now >= self.last_telemetry && now - self.last_telemetry
            >= TELEMETRY_INTERVAL {
            self.last_telemetry = now;
            let mut envelope: Vec<Scalar> = Vec::new();
            let mut gyro: Vec<Scalar> = Vec::new();
            std::mem::swap(&mut envelope, &mut self.envelope);
            std::mem::swap(&mut gyro, &mut self.gyro_trace);
            return Some(Telemetry { t: self.last_t, envelope, gyro, scores: *scores, dropped });
        }
        if !self.want_telemetry && self.envelope.len() > 0 {
            self.envelope.clear();
            self.gyro_trace.clear();
        }
        None
    }

    /// The status to publish, when it is due.
    pub fn status(
        &mut self,
        now: u64,
        version: &String,
        has_gyro: bool,
        uptime_s: Scalar64,
        rate_hz: Scalar,
        warming_up: bool,
        subscribers: usize,
    ) -> (r: Option<Status>)
        ensures
            (r is Some) == (match old(self).last_status {
                Some(last) => elapsed(last, now, STATUS_INTERVAL),
                None => true,
            }),
            old(self).last_status is None ==> r is Some,
            old(self).last_status matches Some(last) ==> (r is Some <==> now - last >= 500_000_000),
            r matches Some(s) ==> s@ == (StatusModel {
                enabled: old(self).config.enabled,
                version: version@,
                has_gyro,
                uptime_s,
                slaps: old(self).slaps,
                rate_hz,
                warming_up,
                telemetry_subscribers: subscribers,
            }),
            *final(self) == (Watch {
                last_status: if r is Some {
                    Some(now)
                } else {
                    old(self).last_status
                },
                ..*old(self)
            }),
    {
        let due: bool = match self.last_status {
            Some(last) => now >= last && now - last >= STATUS_INTERVAL,
            None => true,
        };
        if !due {
            return None;
        }
        self.last_status = Some(now);
        Some(
            Status {
                enabled: self.config.enabled,
                version: version.clone(),
                has_gyro,
                uptime_s,
                slaps: self.slaps,
                rate_hz,
                warming_up,
                telemetry_subscribers: subscribers,
            },
        )
    }
}

// ---------------------------------------------------------------------------------
// Laws
// ---------------------------------------------------------------------------------

/// A trace after a run of samples, all within one frame.
pub open spec fn trace_of(samples: Seq<Scalar>, wanted: bool) -> Seq<Scalar>
    decreases samples.len(),
{
    if samples.len() == 0 {
        Seq::empty()
    } else {
        traced(trace_of(samples.drop_last(), wanted), wanted, samples.last())
    }
}

/// However long the loop stalls, a frame is bounded; it holds the first samples of its
/// span, and while nobody listens none at all.
pub proof fn frames_are_bounded(samples: Seq<Scalar>, wanted: bool)
    ensures
        trace_of(samples, wanted).len() <= MAX_TELEMETRY_SAMPLES,
        !wanted ==> trace_of(samples, wanted).len() == 0,
        wanted && samples.len() <= MAX_TELEMETRY_SAMPLES ==> trace_of(samples, wanted) == samples,
        wanted && samples.len() > MAX_TELEMETRY_SAMPLES ==> trace_of(samples, wanted)
            == samples.take(MAX_TELEMETRY_SAMPLES as int),
    decreases samples.len(),
{
    if samples.len() > 0 {
        let rest = samples.drop_last();
        frames_are_bounded(rest, wanted);
        if wanted && samples.len() <= MAX_TELEMETRY_SAMPLES {
            assert(samples =~= rest.push(samples.last()));
        } else if wanted {
            assert(rest.take(MAX_TELEMETRY_SAMPLES as int) =~= samples.take(
                MAX_TELEMETRY_SAMPLES as int,
            ));
            assert(rest.len() == MAX_TELEMETRY_SAMPLES ==> rest.take(
                MAX_TELEMETRY_SAMPLES as int,
            ) =~= rest);
        }
    } else {
        assert(trace_of(samples, wanted) =~= samples);
    }
}

/// A preview is a hard, confirmed hit of the intensity asked for: it lies between zero and
/// one, and is that very intensity where that already does.
pub proof fn a_preview_is_a_hard_hit(intensity: Scalar, axis: [Scalar; 3])
    ensures
        ({
            let slap = preview_of(intensity, axis);
            let one = (Scalar { bits: 0x3f80_0000 }).value();
            &&& slap.t.bits == 0
            &&& slap.tier is Major
            &&& slap.votes == 4
            &&& slap.gyro_confirmed
            &&& slap.axis == axis
            &&& slap.peak_g.bits == 0x3e80_0000
            &&& slap.gyro_peak.bits == 0x4220_0000
            &&& slap.gyro_ratio.bits == 0x43c8_0000
            &&& intensity.nan() ==> slap.intensity == intensity
            &&& !intensity.nan() ==> 0 <= slap.intensity.value() <= one
            &&& !intensity.nan() && 0 <= intensity.value() <= one ==> slap.intensity == intensity
            &&& !intensity.nan() && intensity.value() < 0 ==> slap.intensity.value() == 0
            &&& !intensity.nan() && intensity.value() > one ==> slap.intensity.value() == one
        }),
{
    let zero = Scalar { bits: 0 };
    let one = Scalar { bits: 0x3f80_0000 };
    assert(zero.magnitude() == 0);
    assert(zero.value() == 0);
    magnitude_order(0, one.magnitude(), 0x80_0000);
    clamping_stays_in_range(intensity, zero, one);
}

} // verus!
