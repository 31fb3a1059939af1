//! The distribution of the statistics in a recording.
//!
//! A threshold is only meaningful relative to what the machine does when untouched: a
//! micro-shock floor of 0.005 g is useless if the idle noise floor is already 0.006 g.
use vstd::prelude::*;

use crate::detector::Scores;
use crate::scalar::{Scalar, ZERO};
use crate::sensor::Error;
use crate::text::owned;
use crate::tuning::Thresholds;

verus! {

/// Every per-sample statistic of a recording.
#[derive(Debug, PartialEq, Eq)]
pub struct Traces {
    pub envelope: Vec<Scalar>,
    pub sta_lta: Vec<Scalar>,
    pub cusum: Vec<Scalar>,
    pub kurtosis: Vec<Scalar>,
    pub peak_mad: Vec<Scalar>,
    pub gyro: Vec<Scalar>,
}

impl Traces {
    /// With nothing recorded.
    pub fn new() -> (r: Traces)
        ensures
            r.envelope@.len() == 0,
            r.sta_lta@.len() == 0,
            r.cusum@.len() == 0,
            r.kurtosis@.len() == 0,
            r.peak_mad@.len() == 0,
            r.gyro@.len() == 0,
    {
        Traces {
            envelope: Vec::new(),
            sta_lta: Vec::new(),
            cusum: Vec::new(),
            kurtosis: Vec::new(),
            peak_mad: Vec::new(),
            gyro: Vec::new(),
        }
    }

    /// Notes the scores after an accelerometer sample. Skips the warmup, where the
    /// background estimate is still converging and the scores are not representative of
    /// anything.
    pub fn on_accel(&mut self, warming_up: bool, s: &Scores)
        ensures
            final(self).gyro@ == old(self).gyro@,
            if warming_up {
                *final(self) == *old(self)
            } else {
                &&& final(self).envelope@ == old(self).envelope@.push(s.envelope)
                &&& final(self).sta_lta@ == old(self).sta_lta@.push(s.sta_lta)
                &&& final(self).cusum@ == old(self).cusum@.push(s.cusum)
                &&& final(self).kurtosis@ == old(self).kurtosis@.push(s.kurtosis)
                &&& final(self).peak_mad@ == old(self).peak_mad@.push(s.peak_mad)
            },
    {
        if !warming_up {
            self.envelope.push(s.envelope);
            self.sta_lta.push(s.sta_lta);
            self.cusum.push(s.cusum);
            self.kurtosis.push(s.kurtosis);
            self.peak_mad.push(s.peak_mad);
        }
    }

    /// Notes the score after a gyroscope sample.
    pub fn on_gyro(&mut self, warming_up: bool, s: &Scores)
        ensures
            final(self).gyro@ == (if warming_up {
                old(self).gyro@
            } else {
                old(self).gyro@.push(s.gyro)
            }),
            final(self).envelope == old(self).envelope,
            final(self).sta_lta == old(self).sta_lta,
            final(self).cusum == old(self).cusum,
            final(self).kurtosis == old(self).kurtosis,
            final(self).peak_mad == old(self).peak_mad,
    {
        if !warming_up {
            self.gyro.push(s.gyro);
        }
    }
}

// ---------------------------------------------------------------------------------
// Ranks
// ---------------------------------------------------------------------------------

/// Numbers from the smallest to the largest.
pub open spec fn ascending(s: Seq<Scalar>) -> bool {
    forall|i: int, j: int| 0 <= i < j < s.len() ==> (#[trigger] s[i]).value() <= (
    #[trigger] s[j]).value()
}

/// Whether every entry is a number.
pub open spec fn all_numbers(s: Seq<Scalar>) -> bool {
    forall|i: int| 0 <= i < s.len() ==> !(#[trigger] s[i]).nan()
}

/// Puts measurements in ascending order.
pub fn sort(values: &mut Vec<Scalar>)
    ensures
        final(values)@.to_multiset() == old(values)@.to_multiset(),
        final(values)@.len() == old(values)@.len(),
        all_numbers(old(values)@) ==> ascending(final(values)@) && all_numbers(final(values)@),
        (forall|i: int| 0 <= i < old(values)@.len() ==> !(#[trigger] old(values)@[i]).nan())
            ==> forall|i: int, j: int|
            0 <= i < j < final(values)@.len() ==> (#[trigger] final(values)@[i]).value() <= (
            #[trigger] final(values)@[j]).value(),
{
    let n: usize = values.len();
    let mut r: Vec<Scalar> = Vec::new();
    let mut i: usize = 0;
    proof {
        assert(r@ =~= values@.take(0));
    }
    while i < n
        invariant
            i <= n,
            n == values@.len(),
            values@ == old(values)@,
            r@.len() == i,
            r@.to_multiset() == values@.take(i as int).to_multiset(),
            all_numbers(values@) ==> ascending(r@) && all_numbers(r@),
        decreases n - i,
    {
        let x: Scalar = values[i];
        let mut at: usize = r.len();
        while at > 0 && x.lt(r[at - 1])
            invariant
                at <= r@.len(),
                forall|k: int| at <= k < r@.len() ==> x.below(#[trigger] r@[k]),
            decreases at,
        {
            at = at - 1;
        }
        let ghost was = r@;
        r.insert(at, x);
        proof {
            broadcast use vstd::seq_lib::group_to_multiset_ensures;

            vstd::seq_lib::to_multiset_insert(was, at as int, x);
            assert(values@.take(i as int + 1) =~= values@.take(i as int).push(x));
            assert(r@.to_multiset() =~= values@.take(i as int + 1).to_multiset());
            if all_numbers(values@) {
                insert_keeps_ascending(was, at as int, x);
            }
        }
        i = i + 1;
    }
    proof {
        assert(values@.take(n as int) =~= values@);
    }
    *values = r;
}

proof fn insert_keeps_ascending(s: Seq<Scalar>, at: int, x: Scalar)
    requires
        ascending(s),
        all_numbers(s),
        !x.nan(),
        0 <= at <= s.len(),
        forall|k: int| at <= k < s.len() ==> x.below(#[trigger] s[k]),
        at > 0 ==> !x.below(s[at - 1]),
    ensures
        ascending(s.insert(at, x)),
        all_numbers(s.insert(at, x)),
{
    let r = s.insert(at, x);
    assert forall|i: int, j: int| 0 <= i < j < r.len() implies (#[trigger] r[i]).value() <= (
    #[trigger] r[j]).value() by {
        if j < at {
            assert(s[i].value() <= s[j].value());
        } else if j == at {
            assert(!s[at - 1].nan());
            if i < at - 1 {
                assert(s[i].value() <= s[at - 1].value());
            }
        } else if i < at {
            assert(s[i].value() <= s[j - 1].value());
        } else if i == at {
            assert(x.below(s[j - 1]));
        } else {
            assert(s[i - 1].value() <= s[j - 1].value());
        }
    }
}

/// The entry at a rank: the last one beyond the end, zero where there is none.
pub open spec fn ranked(sorted: Seq<Scalar>, rank: int) -> Scalar {
    if sorted.len() == 0 {
        Scalar { bits: ZERO }
    } else if rank >= sorted.len() {
        sorted.last()
    } else {
        sorted[rank]
    }
}

/// Percentile of sorted measurements, by nearest rank.
pub fn percentile(sorted: &Vec<Scalar>, rank: usize) -> (r: Scalar)
    ensures
        r == ranked(sorted@, rank as int),
{
    let n: usize = sorted.len();
    if n == 0 {
        Scalar { bits: ZERO }
    } else if rank >= n {
        sorted[n - 1]
    } else {
        sorted[rank]
    }
}

/// The largest of sorted measurements, or zero.
pub fn worst(sorted: &Vec<Scalar>) -> (r: Scalar)
    ensures
        r == ranked(sorted@, sorted@.len() as int),
{
    percentile(sorted, sorted.len())
}

// ---------------------------------------------------------------------------------
// Thresholds
// ---------------------------------------------------------------------------------

/// How many of the first `n` measurements reach a threshold.
pub open spec fn reaching(values: Seq<Scalar>, threshold: Scalar, n: int) -> nat
    decreases n,
{
    if n <= 0 {
        0
    } else {
        reaching(values, threshold, n - 1) + (if values[n - 1].at_least(threshold) {
            1nat
        } else {
            0nat
        })
    }
}

/// How many measurements reach a threshold.
pub fn count_reaching(values: &Vec<Scalar>, threshold: Scalar) -> (r: usize)
    ensures
        r == reaching(values@, threshold, values@.len() as int),
        r <= values@.len(),
{
    let n: usize = values.len();
    let mut count: usize = 0;
    for i in 0..n
        invariant
            n == values@.len(),
            count == reaching(values@, threshold, i as int),
            count <= i,
    {
        if values[i].ge(threshold) {
            count = count + 1;
        }
    }
    count
}

/// Whether a statistic reaches its threshold in less than a quarter of real slaps, and so
/// effectively never votes.
pub fn rarely_votes(reached: usize, of: usize) -> (r: bool)
    ensures
        r == (reached * 4 < of),
{
    (reached as u128) * 4 < of as u128
}

/// Whether a threshold lies at or under what idle noise reaches, so that the statistic
/// votes on nothing but noise.
///
/// For a recording known to contain no slaps, every statistic's maximum is a hard lower
/// bound on the corresponding threshold.
pub fn votes_on_noise(configured: Scalar, idle_max: Scalar) -> (r: bool)
    ensures
        r == idle_max.at_least(configured),
{
    idle_max.ge(configured)
}

/// Which of the five thresholds lie under the noise of a recording without slaps, in the
/// order envelope, STA/LTA, CUSUM, kurtosis, peak over scale. The traces are sorted.
pub fn flagged(t: &Traces, th: &Thresholds) -> (r: Vec<bool>)
    ensures
        r@ == seq![
            ranked(t.envelope@, t.envelope@.len() as int).at_least(th.highpass_g),
            ranked(t.sta_lta@, t.sta_lta@.len() as int).at_least(th.sta_lta),
            ranked(t.cusum@, t.cusum@.len() as int).at_least(th.cusum),
            ranked(t.kurtosis@, t.kurtosis@.len() as int).at_least(th.kurtosis),
            ranked(t.peak_mad@, t.peak_mad@.len() as int).at_least(th.peak_mad),
        ],
{
    let mut r: Vec<bool> = Vec::new();
    r.push(votes_on_noise(th.highpass_g, worst(&t.envelope)));
    r.push(votes_on_noise(th.sta_lta, worst(&t.sta_lta)));
    r.push(votes_on_noise(th.cusum, worst(&t.cusum)));
    r.push(votes_on_noise(th.kurtosis, worst(&t.kurtosis)));
    r.push(votes_on_noise(th.peak_mad, worst(&t.peak_mad)));
    r
}

/// Whether a recording is known to contain slaps, so that its detections say something
/// about real ones.
pub fn holds_slaps(expect: Option<usize>) -> (r: bool)
    ensures
        r == (expect is Some && expect->0 > 0),
{
    match expect {
        Some(n) => n > 0,
        None => false,
    }
}

/// The scores at a list of detections, statistic by statistic, as one would need them to
/// ask how often each reaches its threshold. No detection is in a warmup, so every one
/// counts; without any there is nothing to ask.
pub fn at_detections(rows: &Vec<Scores>) -> (r: Result<Traces, Error>)
    ensures
        match r {
            Ok(t) => {
                &&& rows@.len() > 0
                &&& t.envelope@ == rows@.map_values(|s: Scores| s.envelope)
                &&& t.sta_lta@ == rows@.map_values(|s: Scores| s.sta_lta)
                &&& t.cusum@ == rows@.map_values(|s: Scores| s.cusum)
                &&& t.kurtosis@ == rows@.map_values(|s: Scores| s.kurtosis)
                &&& t.peak_mad@ == rows@.map_values(|s: Scores| s.peak_mad)
                &&& t.gyro@.len() == 0
            },
            Err(e) => {
                &&& rows@.len() == 0
                &&& e matches Error::Iokit(why)
                &&& why@ == "no detections in the given fixtures"@
            },
        },
{
    let n: usize = rows.len();
    if n == 0 {
        return Err(Error::Iokit(owned("no detections in the given fixtures")));
    }
    let mut t: Traces = Traces::new();
    for i in 0..n
        invariant
            n == rows@.len(),
            t.envelope@ == rows@.take(i as int).map_values(|s: Scores| s.envelope),
            t.sta_lta@ == rows@.take(i as int).map_values(|s: Scores| s.sta_lta),
            t.cusum@ == rows@.take(i as int).map_values(|s: Scores| s.cusum),
            t.kurtosis@ == rows@.take(i as int).map_values(|s: Scores| s.kurtosis),
            t.peak_mad@ == rows@.take(i as int).map_values(|s: Scores| s.peak_mad),
            t.gyro@.len() == 0,
    {
        t.on_accel(false, &rows[i]);
        proof {
            assert(rows@.take(i as int + 1) =~= rows@.take(i as int).push(rows@[i as int]));
        }
    }
    proof {
        assert(rows@.take(n as int) =~= rows@);
    }
    Ok(t)
}

/// The sum of the votes over the first `n` detections.
pub open spec fn vote_sum(rows: Seq<Scores>, n: int) -> nat
    decreases n,
{
    if n <= 0 {
        0
    } else {
        vote_sum(rows, n - 1) + rows[n - 1].votes as nat
    }
}

/// The sum of the votes over all detections.
pub fn total_votes(rows: &Vec<Scores>) -> (r: u128)
    ensures
        r == vote_sum(rows@, rows@.len() as int),
{
    let n: usize = rows.len();
    let mut sum: u128 = 0;
    for i in 0..n
        invariant
            n == rows@.len(),
            sum == vote_sum(rows@, i as int),
            sum <= i * 255,
    {
        sum = sum + rows[i].votes as u128;
    }
    sum
}

/// The last of sorted measurements is at least every one of them.
pub proof fn worst_is_the_largest(sorted: Seq<Scalar>, i: int)
    requires
        ascending(sorted),
        all_numbers(sorted),
        0 <= i < sorted.len(),
    ensures
        ranked(sorted, sorted.len() as int).at_least(sorted[i]),
{
    assert(!sorted[sorted.len() - 1].nan());
    if i < sorted.len() - 1 {
        assert(sorted[i].value() <= sorted[sorted.len() - 1].value());
    }
}

/// A percentile is the entry at its rank, the last entry beyond the end, and zero of nothing.
pub proof fn percentiles_are_entries(sorted: Seq<Scalar>, rank: int)
    ensures
        0 <= rank < sorted.len() ==> ranked(sorted, rank) == sorted[rank],
        rank >= sorted.len() > 0 ==> ranked(sorted, rank) == sorted[sorted.len() - 1],
        sorted.len() == 0 ==> ranked(sorted, rank).bits == 0,
{
}

/// One more measurement is one more that reaches a threshold exactly when it is a number at
/// least as large.
pub proof fn each_measurement_counts_for_itself(values: Seq<Scalar>, x: Scalar, threshold: Scalar)
    ensures
        reaching(Seq::<Scalar>::empty(), threshold, 0) == 0,
        reaching(values.push(x), threshold, values.len() as int + 1) == reaching(
            values,
            threshold,
            values.len() as int,
        ) + (if !x.nan() && !threshold.nan() && x.value() >= threshold.value() {
            1int
        } else {
            0int
        }),
{
    reaching_of_prefix(values, values.push(x), threshold, values.len() as int);
}

proof fn reaching_of_prefix(a: Seq<Scalar>, b: Seq<Scalar>, threshold: Scalar, n: int)
    requires
        0 <= n <= a.len(),
        n <= b.len(),
        forall|i: int| 0 <= i < n ==> a[i] == b[i],
    ensures
        reaching(a, threshold, n) == reaching(b, threshold, n),
    decreases n,
{
    if n > 0 {
        reaching_of_prefix(a, b, threshold, n - 1);
        assert(a[n - 1] == b[n - 1]);
    }
}

/// One more detection adds its own votes.
pub proof fn each_detection_adds_its_votes(rows: Seq<Scores>, row: Scores)
    ensures
        vote_sum(Seq::<Scores>::empty(), 0) == 0,
        vote_sum(rows.push(row), rows.len() as int + 1) == vote_sum(rows, rows.len() as int)
            + row.votes,
{
    votes_of_prefix(rows, rows.push(row), rows.len() as int);
}

proof fn votes_of_prefix(a: Seq<Scores>, b: Seq<Scores>, n: int)
    requires
        0 <= n <= a.len(),
        n <= b.len(),
        forall|i: int| 0 <= i < n ==> a[i] == b[i],
    ensures
        vote_sum(a, n) == vote_sum(b, n),
    decreases n,
{
    if n > 0 {
        votes_of_prefix(a, b, n - 1);
        assert(a[n - 1] == b[n - 1]);
    }
}

} // verus!
