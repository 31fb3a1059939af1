//! The 22-byte input report of the inertial sensors.
//!
//! The HID report descriptor for these devices is an opaque blob, so the layout below is
//! empirical:
//!
//! ```text
//! off  size  field
//! 0    2     u16 LE  sequence counter, +1 per report, wraps at 0xFFFF
//! 2    4     always zero (likely the high bits of a u48 counter)
//! 6    4     i32 LE  X  IOFixed 16.16
//! 10   4     i32 LE  Y
//! 14   4     i32 LE  Z
//! 18   4     i32 LE  die temperature °C, IOFixed 16.16
//! ```
//!
//! Bytes 18..22 are *not* a timestamp: the value is non-monotonic and is bit-identical
//! between the accel and gyro devices sampled at the same instant, which is what you'd
//! expect from a shared die-temperature reading.
use vstd::prelude::*;

verus! {

/// Every report from these devices is exactly this long.
pub const REPORT_LEN: usize = 22;

/// One decoded sensor report.
///
/// The axes and the temperature are Q16.16 fixed point: units of 1/65536. The unit is g
/// for the accelerometer and deg/s for the gyroscope — the wire format is identical, only
/// the interpretation differs.
#[derive(Debug, Clone, Copy, PartialEq, Eq, Structural)]
pub struct Sample {
    /// Hardware sequence counter. Increments by exactly 1 per report and wraps at
    /// `u16::MAX`; a gap means the consumer fell behind and reports were dropped.
    pub seq: u16,
    /// `mach_absolute_time` at which the kernel timestamped the report.
    pub host_time: u64,
    pub x: i32,
    pub y: i32,
    pub z: i32,
    /// Die temperature in °C.
    pub temp_c: i32,
}

/// The unsigned number in four little-endian bytes.
pub open spec fn unsigned_at(b: Seq<u8>, at: int) -> int {
    b[at] + 0x100 * b[at + 1] + 0x1_0000 * b[at + 2] + 0x100_0000 * b[at + 3]
}

/// The two's complement number in four little-endian bytes.
pub open spec fn fixed_at(b: Seq<u8>, at: int) -> int {
    let u = unsigned_at(b, at);
    if u < 0x8000_0000 {
        u
    } else {
        u - 0x1_0000_0000
    }
}

/// What a report says.
pub open spec fn decoded(b: Seq<u8>, host_time: u64) -> Option<Sample> {
    if b.len() != REPORT_LEN {
        None
    } else {
        Some(
            Sample {
                seq: (b[0] + 0x100 * b[1]) as u16,
                host_time,
                x: fixed_at(b, 6) as i32,
                y: fixed_at(b, 10) as i32,
                z: fixed_at(b, 14) as i32,
                temp_c: fixed_at(b, 18) as i32,
            },
        )
    }
}

fn fixed16_16(b: &[u8], at: usize) -> (r: i32)
    requires
        at + 4 <= b@.len(),
    ensures
        r == fixed_at(b@, at as int),
{
    let u: u32 = b[at] as u32 + 0x100 * (b[at + 1] as u32) + 0x1_0000 * (b[at + 2] as u32)
        + 0x100_0000 * (b[at + 3] as u32);
    if u < 0x8000_0000 {
        u as i32
    } else {
        let below: i32 = (0xffff_ffffu32 - u) as i32;
        -1 - below
    }
}

/// Decode a raw input report. Returns `None` if the report is not the expected length.
pub fn parse(buf: &[u8], host_time: u64) -> (r: Option<Sample>)
    ensures
        r == decoded(buf@, host_time),
{
    if buf.len() != REPORT_LEN {
        return None;
    }
    Some(
        Sample {
            seq: buf[0] as u16 + 0x100 * (buf[1] as u16),
            host_time,
            x: fixed16_16(buf, 6),
            y: fixed16_16(buf, 10),
            z: fixed16_16(buf, 14),
            temp_c: fixed16_16(buf, 18),
        },
    )
}

/// Reports between two sequence counter values, both left out.
pub open spec fn missed(prev: u16, next: u16) -> int {
    (next - prev - 1) % 0x1_0000
}

/// Number of reports lost between two sequence counter values, accounting for wraparound.
pub fn gap(prev: u16, next: u16) -> (r: u32)
    ensures
        r == missed(prev, next),
{
    if next > prev {
        (next - prev - 1) as u32
    } else {
        0xffff - (prev - next) as u32
    }
}

/// A counter that went on by `lost + 1`, wrapping where it must, shows exactly `lost`
/// missing reports; one that went on by one shows none.
pub proof fn gap_counts_what_was_lost(prev: u16, lost: int)
    requires
        0 <= lost < 0x1_0000,
    ensures
        missed(prev, ((prev + lost + 1) % 0x1_0000) as u16) == lost,
{
    let next = (prev + lost + 1) % 0x1_0000;
    assert(next == prev + lost + 1 || next == prev + lost + 1 - 0x1_0000);
}

// ---------------------------------------------------------------------------------
// Streams
// ---------------------------------------------------------------------------------

/// The producing end of a lock-free ring, shared with the thread that drains it.
#[verifier::external_type_specification]
#[verifier::external_body]
#[verifier::reject_recursive_types(T)]
pub struct ExProducer<T>(rtrb::Producer<T>);

/// Health counters for one sensor stream.
#[derive(Debug, Clone, Copy, PartialEq, Eq, Structural)]
pub struct Stats {
    /// Reports delivered by the kernel and successfully parsed.
    pub received: u64,
    /// Reports the hardware produced but we never saw, inferred from sequence gaps.
    pub dropped: u64,
    /// Samples discarded because the consumer wasn't draining the ring fast enough.
    pub overruns: u64,
    /// Reports whose length wasn't 22 bytes.
    pub malformed: u64,
}

impl Default for Stats {
    fn default() -> (r: Stats)
        ensures
            r == (Stats { received: 0, dropped: 0, overruns: 0, malformed: 0 }),
    {
        Stats { received: 0, dropped: 0, overruns: 0, malformed: 0 }
    }
}

/// One sensor's stream of reports.
#[derive(Debug, Clone, Copy, PartialEq, Eq, Structural)]
pub struct Stream {
    pub last_seq: Option<u16>,
    pub stats: Stats,
}

/// A count that wraps after 64 bits.
pub open spec fn counted(n: u64, by: int) -> u64 {
    ((n + by) % 0x1_0000_0000_0000_0000) as u64
}

/// Reports missing before one with the given sequence counter.
pub open spec fn missed_since(last: Option<u16>, seq: u16) -> int {
    match last {
        Some(prev) => missed(prev, seq),
        None => 0,
    }
}

/// A stream after a report arrived, before its sample went into the ring.
pub open spec fn accounted(s: Stream, sample: Option<Sample>) -> Stream {
    match sample {
        None => Stream {
            stats: Stats { malformed: counted(s.stats.malformed, 1), ..s.stats },
            ..s
        },
        Some(sample) => Stream {
            last_seq: Some(sample.seq),
            stats: Stats {
                received: counted(s.stats.received, 1),
                dropped: counted(s.stats.dropped, missed_since(s.last_seq, sample.seq)),
                ..s.stats
            },
        },
    }
}

/// A stream whose sample did not fit into the ring.
pub open spec fn overrun(s: Stream) -> Stream {
    Stream { stats: Stats { overruns: counted(s.stats.overruns, 1), ..s.stats }, ..s }
}

/// The samples a producer has put into its ring so far, oldest first.
pub uninterp spec fn stored(ring: rtrb::Producer<Sample>) -> Seq<Sample>;

/// How many samples the ring has room for, as it was made.
pub uninterp spec fn limit(ring: rtrb::Producer<Sample>) -> nat;

/// `rtrb::Producer::push`: puts the sample at the end of the ring, or leaves the ring as it
/// is where there is no room. It refuses only where all its slots are occupied, so never
/// before as many samples as it has room for were stored; from then on it depends on what
/// the thread at the other end has taken, and no more is claimed. The room stays the same.
#[verifier::external_body]
fn push(ring: &mut rtrb::Producer<Sample>, sample: Sample) -> (fits: bool)
    ensures
        stored(*final(ring)) == (if fits {
            stored(*old(ring)).push(sample)
        } else {
            stored(*old(ring))
        }),
        stored(*old(ring)).len() < limit(*old(ring)) ==> fits,
        limit(*final(ring)) == limit(*old(ring)),
{
    ring.push(sample).is_ok()
}

/// What becomes of a stream and its ring, from `s` and `before` to `t` and `after`, when a
/// report arrives: its sample is stored, or counted as overrun.
pub open spec fn reported(
    s: Stream,
    before: Seq<Sample>,
    sample: Option<Sample>,
    t: Stream,
    after: Seq<Sample>,
) -> bool {
    match sample {
        None => t == accounted(s, None) && after == before,
        Some(x) => {
            ||| t == accounted(s, sample) && after == before.push(x)
            ||| t == overrun(accounted(s, sample)) && after == before
        },
    }
}

impl Stream {
    /// A stream that has delivered nothing.
    pub fn new() -> (r: Stream)
        ensures
            r == (Stream {
                last_seq: None,
                stats: Stats { received: 0, dropped: 0, overruns: 0, malformed: 0 },
            }),
    {
        Stream { last_seq: None, stats: Stats::default() }
    }

    /// Takes in a report: decodes it and keeps the counters.
    pub fn accept(&mut self, report: &[u8], timestamp: u64) -> (r: Option<Sample>)
        ensures
            r == decoded(report@, timestamp),
            *final(self) == accounted(*old(self), r),
    {
        match parse(report, timestamp) {
            None => {
                self.stats.malformed = self.stats.malformed.wrapping_add(1);
                None
            },
            Some(sample) => {
                match self.last_seq {
                    Some(prev) => {
                        let lost: u32 = gap(prev, sample.seq);
                        self.stats.dropped = self.stats.dropped.wrapping_add(lost as u64);
                    },
                    None => {},
                }
                self.last_seq = Some(sample.seq);
                self.stats.received = self.stats.received.wrapping_add(1);
                Some(sample)
            },
        }
    }

    /// Counts a sample that did, or did not, fit into the ring.
    pub fn settle(&mut self, fits: bool)
        ensures
            *final(self) == (if fits {
                *old(self)
            } else {
                overrun(*old(self))
            }),
    {
        if !fits {
            self.stats.overruns = self.stats.overruns.wrapping_add(1);
        }
    }

    /// The input report callback: decodes a report and hands the sample on.
    ///
    /// This runs at ~805 Hz, so it does the minimum possible. Dropping on a full ring is
    /// deliberate: a stalled consumer must never apply backpressure to the kernel's
    /// callback thread.
    pub fn on_report(
        &mut self,
        report: &[u8],
        timestamp: u64,
        ring: &mut rtrb::Producer<Sample>,
    )
        ensures
            reported(
                *old(self),
                stored(*old(ring)),
                decoded(report@, timestamp),
                *final(self),
                stored(*final(ring)),
            ),
            decoded(report@, timestamp) is Some && stored(*old(ring)).len() < limit(*old(ring))
                ==> stored(*final(ring)) == stored(*old(ring)).push(
                decoded(report@, timestamp)->0,
            ),
            limit(*final(ring)) == limit(*old(ring)),
    {
        match self.accept(report, timestamp) {
            None => {},
            Some(sample) => {
                let fits: bool = push(ring, sample);
                self.settle(fits);
            },
        }
    }
}

/// Every report is counted exactly once: as received or as malformed.
pub proof fn every_report_is_counted(s: Stream, sample: Option<Sample>)
    requires
        s.stats.received < u64::MAX,
        s.stats.malformed < u64::MAX,
    ensures
        accounted(s, sample).stats.received + accounted(s, sample).stats.malformed
            == s.stats.received + s.stats.malformed + 1,
        accounted(s, sample).stats.overruns == s.stats.overruns,
{
}

/// Nothing is lost silently: what was received is in the ring or counted as overrun. If
/// that holds before a report arrives, it holds after.
pub proof fn stored_or_overrun(
    s: Stream,
    before: Seq<Sample>,
    sample: Option<Sample>,
    t: Stream,
    after: Seq<Sample>,
)
    requires
        reported(s, before, sample, t, after),
        s.stats.received == before.len() + s.stats.overruns,
        s.stats.received < u64::MAX,
    ensures
        t.stats.received == after.len() + t.stats.overruns,
{
}

/// A report is decoded exactly when it has its 22 bytes. Each figure is the little-endian,
/// two's complement number in its own bytes, and the time is the one it was stamped with.
pub proof fn report_layout(b: Seq<u8>, t: u64)
    ensures
        decoded(b, t) is Some <==> b.len() == 22,
        decoded(b, t) matches Some(s) ==> {
            &&& s.host_time == t
            &&& s.seq == b[0] + 256 * b[1]
            &&& (s.x - (b[6] + 256 * b[7] + 65536 * b[8] + 16777216 * b[9])) % 4294967296 == 0
            &&& (s.y - (b[10] + 256 * b[11] + 65536 * b[12] + 16777216 * b[13])) % 4294967296 == 0
            &&& (s.z - (b[14] + 256 * b[15] + 65536 * b[16] + 16777216 * b[17])) % 4294967296 == 0
            &&& (s.temp_c - (b[18] + 256 * b[19] + 65536 * b[20] + 16777216 * b[21])) % 4294967296
                == 0
        },
{
    fixed_is_congruent(b, 6);
    fixed_is_congruent(b, 10);
    fixed_is_congruent(b, 14);
    fixed_is_congruent(b, 18);
}

proof fn fixed_is_congruent(b: Seq<u8>, at: int)
    ensures
        -0x8000_0000 <= fixed_at(b, at) < 0x8000_0000,
        (fixed_at(b, at) - (b[at] + 256 * b[at + 1] + 65536 * b[at + 2] + 16777216 * b[at + 3]))
            % 4294967296 == 0,
{
}

/// The four bytes behind the counter say nothing: two reports that differ only there decode
/// alike.
pub proof fn padding_says_nothing(a: Seq<u8>, b: Seq<u8>, t: u64)
    requires
        a.len() == b.len(),
        forall|i: int| 0 <= i < a.len() && !(2 <= i < 6) ==> #[trigger] a[i] == b[i],
    ensures
        decoded(a, t) == decoded(b, t),
{
}

/// A report that cannot be decoded adds to the malformed ones and touches nothing else. One
/// that can adds to those received, is remembered as the last, and adds the gap since the one
/// before it to those dropped; the first of a stream has no gap.
pub proof fn a_report_moves_its_own_counters(s: Stream, sample: Option<Sample>)
    requires
        s.stats.received < u64::MAX,
        s.stats.malformed < u64::MAX,
        s.stats.overruns < u64::MAX,
        s.stats.dropped < u64::MAX - 0x1_0000,
    ensures
        sample is None ==> {
            let t = accounted(s, sample);
            &&& t.last_seq == s.last_seq
            &&& t.stats.malformed == s.stats.malformed + 1
            &&& t.stats.received == s.stats.received
            &&& t.stats.dropped == s.stats.dropped
            &&& t.stats.overruns == s.stats.overruns
        },
        sample matches Some(x) ==> {
            let t = accounted(s, sample);
            &&& t.last_seq == Some(x.seq)
            &&& t.stats.received == s.stats.received + 1
            &&& t.stats.malformed == s.stats.malformed
            &&& t.stats.overruns == s.stats.overruns
            &&& s.last_seq is None ==> t.stats.dropped == s.stats.dropped
            &&& s.last_seq matches Some(prev) ==> 0 <= t.stats.dropped - s.stats.dropped < 0x1_0000
                && (prev + 1 + t.stats.dropped - s.stats.dropped - x.seq) % 0x1_0000 == 0
        },
        ({
            let t = overrun(s);
            &&& t.last_seq == s.last_seq
            &&& t.stats.overruns == s.stats.overruns + 1
            &&& t.stats.received == s.stats.received
            &&& t.stats.dropped == s.stats.dropped
            &&& t.stats.malformed == s.stats.malformed
        }),
{
    if let Some(x) = sample {
        if let Some(prev) = s.last_seq {
            let m = missed(prev, x.seq);
            assert(m == x.seq - prev - 1 || m == x.seq - prev - 1 + 0x1_0000);
        }
    }
}

/// A report that can be decoded leaves its sample at the end of the ring, or is counted as
/// overrun and leaves the ring as it was. One that cannot leaves the ring as it was too.
pub proof fn a_sample_is_stored_or_counted(
    s: Stream,
    before: Seq<Sample>,
    sample: Option<Sample>,
    t: Stream,
    after: Seq<Sample>,
)
    requires
        reported(s, before, sample, t, after),
        s.stats.received < u64::MAX,
        s.stats.malformed < u64::MAX,
        s.stats.overruns < u64::MAX,
    ensures
        sample is None ==> {
            &&& after == before
            &&& t.last_seq == s.last_seq
            &&& t.stats.malformed == s.stats.malformed + 1
            &&& t.stats.received == s.stats.received
            &&& t.stats.overruns == s.stats.overruns
        },
        sample matches Some(x) ==> {
            &&& t.last_seq == Some(x.seq)
            &&& t.stats.received == s.stats.received + 1
            &&& t.stats.malformed == s.stats.malformed
            &&& {
                ||| after == before.push(x) && t.stats.overruns == s.stats.overruns
                ||| after == before && t.stats.overruns == s.stats.overruns + 1
            }
        },
{
}

} // verus!
