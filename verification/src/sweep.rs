//! Picking a threshold by scoring it against a whole corpus.
//!
//! Reading detection lists and eyeballing a cutoff is how you end up overfitting to the
//! two examples you happened to look at. Every candidate value is scored against every
//! recorded fixture, so the choice is visible and the cost of moving it in either
//! direction is explicit.
use vstd::arithmetic::power2::lemma2_to64;
use vstd::prelude::*;

use crate::numeral::{decimal, write_count};
use crate::replay::{extra_of, hits_of};
use crate::scalar::{against_one, rounds, Scalar, ONE};
use crate::text::{chars, put, put_chars, string, texts};
use crate::tuning::{Config, Thresholds, Tiers};

verus! {

/// Which knob to sweep.
#[derive(Debug, Clone, Copy, PartialEq, Eq, Structural)]
pub enum Knob {
    /// Minimum angular rate per unit acceleration, in deg/s per g.
    GyroRatio,
    /// Micro-tier amplitude floor, in g.
    MicroG,
    /// Minimum detector votes required to fire at all.
    MinVotes,
    /// Absolute angular rate that confirms on its own, in deg/s.
    GyroPeak,
    /// Backward window over which gyro corroboration is looked for, in seconds.
    GyroWindow,
    /// The user-facing sensitivity slider, 0.0 to 1.0.
    Sensitivity,
    /// Excess-kurtosis threshold.
    Kurtosis,
    /// STA/LTA ratio threshold.
    StaLta,
    /// Peak-over-robust-scale threshold.
    PeakMad,
}

/// The candidate values of a knob: whole multiples of a unit.
#[derive(Debug, Clone, Copy, PartialEq, Eq, Structural)]
pub struct Span {
    pub first: u32,
    pub last: u32,
    pub unit: Scalar,
}

/// A tuning with one knob turned.
pub open spec fn turned(knob: Knob, cfg: Config, v: Scalar) -> Config {
    match knob {
        Knob::GyroRatio => Config { gyro_ratio_min: v, ..cfg },
        Knob::MicroG => Config { tiers: Tiers { micro_g: v, ..cfg.tiers }, ..cfg },
        Knob::MinVotes => Config { min_votes: v.whole() as u8, ..cfg },
        Knob::GyroPeak => Config { gyro_peak_min: v, ..cfg },
        Knob::GyroWindow => Config { gyro_window_s: v, ..cfg },
        Knob::Sensitivity => Config { sensitivity: v, ..cfg },
        Knob::Kurtosis => Config {
            thresholds: Thresholds { kurtosis: v, ..cfg.thresholds },
            ..cfg
        },
        Knob::StaLta => Config { thresholds: Thresholds { sta_lta: v, ..cfg.thresholds }, ..cfg },
        Knob::PeakMad => Config { thresholds: Thresholds { peak_mad: v, ..cfg.thresholds }, ..cfg },
    }
}

/// The candidate values of a knob.
pub open spec fn span_of(knob: Knob) -> Span {
    match knob {
        // 0 to 500 in steps of 25.
        Knob::GyroRatio => Span { first: 0, last: 20, unit: Scalar { bits: 0x41c8_0000 } },
        // 0.005 to 0.1.
        Knob::MicroG => Span { first: 1, last: 20, unit: Scalar { bits: 0x3ba3_d70a } },
        Knob::MinVotes => Span { first: 1, last: 5, unit: Scalar { bits: ONE } },
        // 0 to 60 in steps of 2.5.
        Knob::GyroPeak => Span { first: 0, last: 24, unit: Scalar { bits: 0x4020_0000 } },
        // 0.005 to 0.08.
        Knob::GyroWindow => Span { first: 1, last: 16, unit: Scalar { bits: 0x3ba3_d70a } },
        // 0 to 1 in steps of 0.05.
        Knob::Sensitivity => Span { first: 0, last: 20, unit: Scalar { bits: 0x3d4c_cccd } },
        // 100 to 2000.
        Knob::Kurtosis => Span { first: 1, last: 20, unit: Scalar { bits: 0x42c8_0000 } },
        // 2.5 to 50.
        Knob::StaLta => Span { first: 1, last: 20, unit: Scalar { bits: 0x4020_0000 } },
        Knob::PeakMad => Span { first: 1, last: 20, unit: Scalar { bits: 0x4020_0000 } },
    }
}

impl Knob {
    /// The candidate values.
    pub fn values(self) -> (r: Span)
        ensures
            r == span_of(self),
    {
        match self {
            Knob::GyroRatio => Span { first: 0, last: 20, unit: Scalar { bits: 0x41c8_0000 } },
            Knob::MicroG => Span { first: 1, last: 20, unit: Scalar { bits: 0x3ba3_d70a } },
            Knob::MinVotes => Span { first: 1, last: 5, unit: Scalar { bits: ONE } },
            Knob::GyroPeak => Span { first: 0, last: 24, unit: Scalar { bits: 0x4020_0000 } },
            Knob::GyroWindow => Span { first: 1, last: 16, unit: Scalar { bits: 0x3ba3_d70a } },
            Knob::Sensitivity => Span { first: 0, last: 20, unit: Scalar { bits: 0x3d4c_cccd } },
            Knob::Kurtosis => Span { first: 1, last: 20, unit: Scalar { bits: 0x42c8_0000 } },
            Knob::StaLta => Span { first: 1, last: 20, unit: Scalar { bits: 0x4020_0000 } },
            Knob::PeakMad => Span { first: 1, last: 20, unit: Scalar { bits: 0x4020_0000 } },
        }
    }

    /// Turns the knob.
    pub fn apply(self, cfg: &mut Config, v: Scalar)
        ensures
            *final(cfg) == turned(self, *old(cfg), v),
    {
        match self {
            Knob::GyroRatio => {
                cfg.gyro_ratio_min = v;
            },
            Knob::MicroG => {
                cfg.tiers.micro_g = v;
            },
            Knob::MinVotes => {
                cfg.min_votes = v.to_u8();
            },
            Knob::GyroPeak => {
                cfg.gyro_peak_min = v;
            },
            Knob::GyroWindow => {
                cfg.gyro_window_s = v;
            },
            Knob::Sensitivity => {
                cfg.sensitivity = v;
            },
            Knob::Kurtosis => {
                cfg.thresholds.kurtosis = v;
            },
            Knob::StaLta => {
                cfg.thresholds.sta_lta = v;
            },
            Knob::PeakMad => {
                cfg.thresholds.peak_mad = v;
            },
        }
    }

    /// The knob's name.
    pub fn label(self) -> (r: &'static str)
        ensures
            r@ == (match self {
                Knob::GyroRatio => "gyro_ratio_min"@,
                Knob::MicroG => "micro_g"@,
                Knob::MinVotes => "min_votes"@,
                Knob::GyroPeak => "gyro_peak_min"@,
                Knob::GyroWindow => "gyro_window_s"@,
                Knob::Sensitivity => "sensitivity"@,
                Knob::Kurtosis => "kurtosis"@,
                Knob::StaLta => "sta_lta"@,
                Knob::PeakMad => "peak_mad"@,
            }),
    {
        match self {
            Knob::GyroRatio => "gyro_ratio_min",
            Knob::MicroG => "micro_g",
            Knob::MinVotes => "min_votes",
            Knob::GyroPeak => "gyro_peak_min",
            Knob::GyroWindow => "gyro_window_s",
            Knob::Sensitivity => "sensitivity",
            Knob::Kurtosis => "kurtosis",
            Knob::StaLta => "sta_lta",
            Knob::PeakMad => "peak_mad",
        }
    }
}

// ---------------------------------------------------------------------------------
// Scores
// ---------------------------------------------------------------------------------

/// One annotated fixture, and how many slaps one candidate found in it.
#[derive(Debug, PartialEq, Eq)]
pub struct Tried {
    pub label: String,
    /// None of them is there in a negative, where any detection is a false positive.
    pub expected: usize,
    pub detected: usize,
}

/// Slaps that were there and not found.
pub open spec fn missed_of(t: Tried) -> nat {
    if t.detected < t.expected {
        (t.expected - t.detected) as nat
    } else {
        0
    }
}

/// How a fixture is named when it went wrong: with what it found too much, or too little.
pub open spec fn offence(t: Tried) -> Option<Seq<char>> {
    if t.expected == 0 && t.detected > 0 {
        Some(t.label@ + "+"@ + decimal(t.detected as nat))
    } else if t.detected < t.expected {
        Some(t.label@ + "-"@ + decimal(missed_of(t)))
    } else {
        None
    }
}

/// Found, over the first `n`.
pub open spec fn sum_hits(t: Seq<Tried>, n: int) -> nat
    decreases n,
{
    if n <= 0 {
        0
    } else {
        sum_hits(t, n - 1) + hits_of(Some(t[n - 1].expected), t[n - 1].detected)
    }
}

/// Missed, over the first `n`.
pub open spec fn sum_missed(t: Seq<Tried>, n: int) -> nat
    decreases n,
{
    if n <= 0 {
        0
    } else {
        sum_missed(t, n - 1) + missed_of(t[n - 1])
    }
}

/// False positives, over the first `n`. Over-detection inside a positive fixture is still a
/// false positive.
pub open spec fn sum_extra(t: Seq<Tried>, n: int) -> nat
    decreases n,
{
    if n <= 0 {
        0
    } else {
        sum_extra(t, n - 1) + extra_of(Some(t[n - 1].expected), t[n - 1].detected)
    }
}

/// The fixtures that went wrong, among the first `n`.
pub open spec fn offenders_of(t: Seq<Tried>, n: int) -> Seq<Seq<char>>
    decreases n,
{
    if n <= 0 {
        Seq::empty()
    } else {
        match offence(t[n - 1]) {
            Some(o) => offenders_of(t, n - 1).push(o),
            None => offenders_of(t, n - 1),
        }
    }
}

/// How well one candidate did.
#[derive(Debug, PartialEq, Eq)]
pub struct Score {
    pub hits: usize,
    pub missed: usize,
    pub false_pos: usize,
    pub offenders: Vec<String>,
}

/// Scores one candidate over the corpus.
pub fn score(tried: &Vec<Tried>) -> (r: Score)
    requires
        sum_hits(tried@, tried@.len() as int) <= usize::MAX,
        sum_missed(tried@, tried@.len() as int) <= usize::MAX,
        sum_extra(tried@, tried@.len() as int) <= usize::MAX,
    ensures
        r.hits == sum_hits(tried@, tried@.len() as int),
        r.missed == sum_missed(tried@, tried@.len() as int),
        r.false_pos == sum_extra(tried@, tried@.len() as int),
        texts(r.offenders@) == offenders_of(tried@, tried@.len() as int),
{
    let n: usize = tried.len();
    let mut hits: usize = 0;
    let mut missed: usize = 0;
    let mut false_pos: usize = 0;
    let mut offenders: Vec<String> = Vec::new();
    proof {
        assert(texts(offenders@) =~= Seq::<Seq<char>>::empty());
    }
    for i in 0..n
        invariant
            n == tried@.len(),
            sum_hits(tried@, n as int) <= usize::MAX,
            sum_missed(tried@, n as int) <= usize::MAX,
            sum_extra(tried@, n as int) <= usize::MAX,
            hits == sum_hits(tried@, i as int),
            missed == sum_missed(tried@, i as int),
            false_pos == sum_extra(tried@, i as int),
            texts(offenders@) == offenders_of(tried@, i as int),
    {
        proof {
            sums_grow(tried@, i as int + 1, n as int);
        }
        let ghost was = texts(offenders@);
        let e: usize = tried[i].expected;
        let d: usize = tried[i].detected;
        if d < e {
            hits = hits + d;
            missed = missed + (e - d);
            let mut name: Vec<char> = chars(tried[i].label.as_str());
            put(&mut name, "-");
            let digits: Vec<char> = write_count((e - d) as u64);
            put_chars(&mut name, digits.as_slice());
            offenders.push(string(name.as_slice()));
            proof {
                assert(texts(offenders@) =~= was.push(name@));
            }
        } else {
            hits = hits + e;
            false_pos = false_pos + (d - e);
            if e == 0 && d > 0 {
                let mut name: Vec<char> = chars(tried[i].label.as_str());
                put(&mut name, "+");
                let digits: Vec<char> = write_count(d as u64);
                put_chars(&mut name, digits.as_slice());
                offenders.push(string(name.as_slice()));
                proof {
                    assert(texts(offenders@) =~= was.push(name@));
                }
            }
        }
    }
    Score { hits, missed, false_pos, offenders }
}

proof fn sums_grow(t: Seq<Tried>, i: int, n: int)
    requires
        0 <= i <= n,
    ensures
        sum_hits(t, i) <= sum_hits(t, n),
        sum_missed(t, i) <= sum_missed(t, n),
        sum_extra(t, i) <= sum_extra(t, n),
    decreases n - i,
{
    if i < n {
        sums_grow(t, i, n - 1);
    }
}

// ---------------------------------------------------------------------------------
// The best one
// ---------------------------------------------------------------------------------

/// All errors of a candidate.
pub open spec fn errors(s: Score) -> int {
    s.missed + s.false_pos
}

/// Whether one candidate beats another: fewer errors in all, or as many with fewer false
/// positives — a detector that fires when you didn't hit it is more annoying than one that
/// occasionally misses a gentle tap.
pub open spec fn beats(a: Score, b: Score) -> bool {
    errors(a) < errors(b) || (errors(a) == errors(b) && a.false_pos < b.false_pos)
}

/// The first candidate that no other beats.
pub fn best(scores: &Vec<Score>) -> (r: Option<usize>)
    requires
        forall|i: int| 0 <= i < scores@.len() ==> errors(#[trigger] scores@[i]) <= usize::MAX,
    ensures
        match r {
            None => scores@.len() == 0,
            Some(b) => {
                &&& b < scores@.len()
                &&& forall|i: int|
                    0 <= i < scores@.len() ==> !beats(#[trigger] scores@[i], scores@[b as int])
                &&& forall|i: int| 0 <= i < b ==> beats(scores@[b as int], #[trigger] scores@[i])
                &&& forall|i: int|
                    0 <= i < scores@.len() ==> {
                        let mine = scores@[b as int].missed + scores@[b as int].false_pos;
                        let other = (#[trigger] scores@[i]).missed + scores@[i].false_pos;
                        &&& mine <= other
                        &&& mine == other ==> scores@[b as int].false_pos <= scores@[i].false_pos
                        &&& i < b && mine == other ==> scores@[b as int].false_pos
                            < scores@[i].false_pos
                    }
            },
        },
{
    let n: usize = scores.len();
    if n == 0 {
        return None;
    }
    let mut b: usize = 0;
    let mut i: usize = 1;
    while i < n
        invariant
            1 <= i <= n,
            n == scores@.len(),
            b < i,
            forall|k: int| 0 <= k < scores@.len() ==> errors(#[trigger] scores@[k]) <= usize::MAX,
            forall|k: int| 0 <= k < i ==> !beats(#[trigger] scores@[k], scores@[b as int]),
            forall|k: int| 0 <= k < b ==> beats(scores@[b as int], #[trigger] scores@[k]),
        decreases n - i,
    {
        proof {
            assert(errors(scores@[i as int]) <= usize::MAX);
            assert(errors(scores@[b as int]) <= usize::MAX);
        }
        let mine: usize = scores[i].missed + scores[i].false_pos;
        let theirs: usize = scores[b].missed + scores[b].false_pos;
        if mine < theirs || (mine == theirs && scores[i].false_pos < scores[b].false_pos) {
            b = i;
        }
        i = i + 1;
    }
    Some(b)
}

/// How many slaps a corpus holds, over the first `n` fixtures.
pub open spec fn sum_expected(expected: Seq<usize>, n: int) -> nat
    decreases n,
{
    if n <= 0 {
        0
    } else {
        sum_expected(expected, n - 1) + expected[n - 1] as nat
    }
}

/// The annotated fixtures of a corpus, by position: the others cannot be scored.
pub open spec fn annotated_among(expects: Seq<Option<usize>>, n: int) -> Seq<usize>
    decreases n,
{
    if n <= 0 {
        Seq::empty()
    } else if expects[n - 1] is Some {
        annotated_among(expects, n - 1).push((n - 1) as usize)
    } else {
        annotated_among(expects, n - 1)
    }
}

/// The annotated fixtures of a corpus, by position; an error where there is none.
pub fn annotated(expects: &Vec<Option<usize>>) -> (r: Result<Vec<usize>, String>)
    ensures
        match r {
            Ok(v) => v@ == annotated_among(expects@, expects@.len() as int) && v@.len() > 0,
            Err(e) => annotated_among(expects@, expects@.len() as int).len() == 0 && e@
                == "no annotated fixtures to sweep against"@,
        },
{
    let n: usize = expects.len();
    let mut r: Vec<usize> = Vec::new();
    for i in 0..n
        invariant
            n == expects@.len(),
            r@ == annotated_among(expects@, i as int),
    {
        if expects[i].is_some() {
            r.push(i);
        }
    }
    if r.len() == 0 {
        Err(crate::text::owned("no annotated fixtures to sweep against"))
    } else {
        Ok(r)
    }
}

/// Every slap of a corpus is found or missed, whatever the candidate.
pub proof fn found_or_missed(t: Seq<Tried>, n: int)
    requires
        0 <= n <= t.len(),
    ensures
        sum_hits(t, n) + sum_missed(t, n) == sum_expected(
            Seq::new(t.len(), |i: int| t[i].expected),
            n,
        ),
    decreases n,
{
    if n > 0 {
        found_or_missed(t, n - 1);
    }
}

/// One candidate beats another exactly when it makes fewer errors in all, misses and false
/// positives alike, or as many with fewer false positives.
pub proof fn fewest_errors_win(a: Score, b: Score)
    ensures
        a.missed + a.false_pos < b.missed + b.false_pos ==> beats(a, b) && !beats(b, a),
        a.missed + a.false_pos == b.missed + b.false_pos ==> (beats(a, b) <==> a.false_pos
            < b.false_pos),
{
}

/// Each fixture adds to a score on its own: what it found of what was there, what it missed
/// of it, and what it found beyond.
pub proof fn each_fixture_adds_its_own(t: Seq<Tried>, x: Tried)
    ensures
        ({
            let n = t.len() as int;
            let all = t.push(x);
            &&& x.detected <= x.expected ==> {
                &&& sum_hits(all, n + 1) == sum_hits(t, n) + x.detected
                &&& sum_missed(all, n + 1) == sum_missed(t, n) + x.expected - x.detected
                &&& sum_extra(all, n + 1) == sum_extra(t, n)
            }
            &&& x.detected >= x.expected ==> {
                &&& sum_hits(all, n + 1) == sum_hits(t, n) + x.expected
                &&& sum_missed(all, n + 1) == sum_missed(t, n)
                &&& sum_extra(all, n + 1) == sum_extra(t, n) + x.detected - x.expected
            }
            &&& n == 0 ==> sum_hits(t, n) == 0 && sum_missed(t, n) == 0 && sum_extra(t, n) == 0
            &&& offenders_of(all, n + 1) == (if x.detected < x.expected {
                offenders_of(t, n).push(
                    x.label@ + "-"@ + decimal((x.expected - x.detected) as nat),
                )
            } else if x.expected == 0 && x.detected > 0 {
                offenders_of(t, n).push(x.label@ + "+"@ + decimal(x.detected as nat))
            } else {
                offenders_of(t, n)
            })
        }),
{
    sums_of_prefix(t, x, t.len() as int);
}

proof fn sums_of_prefix(t: Seq<Tried>, x: Tried, n: int)
    requires
        0 <= n <= t.len(),
    ensures
        sum_hits(t.push(x), n) == sum_hits(t, n),
        sum_missed(t.push(x), n) == sum_missed(t, n),
        sum_extra(t.push(x), n) == sum_extra(t, n),
        offenders_of(t.push(x), n) == offenders_of(t, n),
    decreases n,
{
    if n > 0 {
        sums_of_prefix(t, x, n - 1);
        assert(t.push(x)[n - 1] == t[n - 1]);
    }
}

/// A knob turns one setting of the tuning, and no other.
pub proof fn a_knob_turns_one_setting(knob: Knob, cfg: Config, v: Scalar)
    ensures
        ({
            let c = turned(knob, cfg, v);
            &&& c.gyro_ratio_min == if knob == Knob::GyroRatio { v } else { cfg.gyro_ratio_min }
            &&& c.tiers.micro_g == if knob == Knob::MicroG { v } else { cfg.tiers.micro_g }
            &&& knob != Knob::MinVotes ==> c.min_votes == cfg.min_votes
            &&& knob == Knob::MinVotes ==> c.min_votes == v.whole()
            &&& c.gyro_peak_min == if knob == Knob::GyroPeak { v } else { cfg.gyro_peak_min }
            &&& c.gyro_window_s == if knob == Knob::GyroWindow { v } else { cfg.gyro_window_s }
            &&& c.sensitivity == if knob == Knob::Sensitivity { v } else { cfg.sensitivity }
            &&& c.thresholds.kurtosis == if knob == Knob::Kurtosis {
                v
            } else {
                cfg.thresholds.kurtosis
            }
            &&& c.thresholds.sta_lta == if knob == Knob::StaLta {
                v
            } else {
                cfg.thresholds.sta_lta
            }
            &&& c.thresholds.peak_mad == if knob == Knob::PeakMad {
                v
            } else {
                cfg.thresholds.peak_mad
            }
            &&& c.thresholds.cusum == cfg.thresholds.cusum
            &&& c.thresholds.highpass_g == cfg.thresholds.highpass_g
            &&& c.tiers.medium_g == cfg.tiers.medium_g
            &&& c.tiers.major_g == cfg.tiers.major_g
            &&& c.rate_hz == cfg.rate_hz
            &&& c.highpass_hz == cfg.highpass_hz
            &&& c.sta_taus == cfg.sta_taus
            &&& c.lta_tau == cfg.lta_tau
            &&& c.cooldown_s == cfg.cooldown_s
            &&& c.peak_hold_s == cfg.peak_hold_s
            &&& c.cusum_leak == cfg.cusum_leak
            &&& c.gyro_mode == cfg.gyro_mode
            &&& c.full_scale_g == cfg.full_scale_g
        }),
{
    vstd::arithmetic::power2::lemma_pow2_pos(149);
    if v.value() > 0 {
        vstd::arithmetic::div_mod::lemma_div_pos_is_pos(
            v.value(),
            vstd::arithmetic::power2::pow2(149) as int,
        );
    }
}

/// The annotated fixtures are found by position, each once and in order, and none is left
/// out.
pub proof fn annotated_are_all_there(expects: Seq<Option<usize>>, n: int)
    requires
        0 <= n <= expects.len() <= usize::MAX,
    ensures
        ({
            let v = annotated_among(expects, n);
            &&& forall|k: int|
                0 <= k < v.len() ==> (#[trigger] v[k]) < n && expects[v[k] as int] is Some
            &&& forall|j: int, k: int| 0 <= j < k < v.len() ==> #[trigger] v[j] < #[trigger] v[k]
            &&& forall|i: int|
                0 <= i < n && (#[trigger] expects[i]) is Some ==> v.contains(i as usize)
        }),
    decreases n,
{
    if n > 0 {
        annotated_are_all_there(expects, n - 1);
        let rest = annotated_among(expects, n - 1);
        let v = annotated_among(expects, n);
        assert forall|i: int| 0 <= i < n && (#[trigger] expects[i]) is Some implies v.contains(
            i as usize,
        ) by {
            if i < n - 1 {
                assert(rest.contains(i as usize));
                let k = choose|k: int| 0 <= k < rest.len() && rest[k] == i as usize;
                assert(v[k] == i as usize);
            } else {
                assert(v[v.len() - 1] == i as usize);
            }
        }
    }
}

/// The candidates of each knob, in plain figures: from, to, and the step between them.
pub proof fn candidates_in_plain_figures(knob: Knob)
    ensures
        ({
            let s = span_of(knob);
            match knob {
                Knob::GyroRatio => s.first == 0 && s.last == 20 && rounds(s.unit, 25, 1),
                Knob::MicroG => s.first == 1 && s.last == 20 && rounds(s.unit, 5, 1000),
                Knob::MinVotes => s.first == 1 && s.last == 5 && rounds(s.unit, 1, 1),
                Knob::GyroPeak => s.first == 0 && s.last == 24 && rounds(s.unit, 5, 2),
                Knob::GyroWindow => s.first == 1 && s.last == 16 && rounds(s.unit, 5, 1000),
                Knob::Sensitivity => s.first == 0 && s.last == 20 && rounds(s.unit, 5, 100),
                Knob::Kurtosis => s.first == 1 && s.last == 20 && rounds(s.unit, 100, 1),
                Knob::StaLta => s.first == 1 && s.last == 20 && rounds(s.unit, 5, 2),
                Knob::PeakMad => s.first == 1 && s.last == 20 && rounds(s.unit, 5, 2),
            }
        }),
{
    lemma2_to64();
    against_one(Scalar { bits: 0x41c80000 }, 131, 0x480000, 16);
    against_one(Scalar { bits: 0x3ba3d70a }, 119, 0x23d70a, 256);
    against_one(Scalar { bits: 0x3f800000 }, 127, 0x0, 1);
    against_one(Scalar { bits: 0x40200000 }, 128, 0x200000, 2);
    against_one(Scalar { bits: 0x3d4ccccd }, 122, 0x4ccccd, 32);
    against_one(Scalar { bits: 0x42c80000 }, 133, 0x480000, 64);
}

/// One more fixture adds what it holds to what a corpus holds.
pub proof fn each_fixture_adds_what_it_holds(expected: Seq<usize>, e: usize)
    ensures
        sum_expected(Seq::<usize>::empty(), 0) == 0,
        sum_expected(expected.push(e), expected.len() as int + 1) == sum_expected(
            expected,
            expected.len() as int,
        ) + e,
{
    expected_of_prefix(expected, e, expected.len() as int);
}

proof fn expected_of_prefix(expected: Seq<usize>, e: usize, n: int)
    requires
        0 <= n <= expected.len(),
    ensures
        sum_expected(expected.push(e), n) == sum_expected(expected, n),
    decreases n,
{
    if n > 0 {
        expected_of_prefix(expected, e, n - 1);
        assert(expected.push(e)[n - 1] == expected[n - 1]);
    }
}

} // verus!
