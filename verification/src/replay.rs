//! Running the detector over recorded fixtures: what counts as a hit.
use vstd::prelude::*;

use crate::fixture::{rows_of, Fixture, Row, Trace};

verus! {

/// Result of replaying one fixture.
#[derive(Debug, PartialEq, Eq)]
pub struct Outcome {
    pub label: String,
    pub expected: Option<usize>,
    pub detected: usize,
}

impl Outcome {
    /// Whether the detection count matched the annotation. Unannotated fixtures pass.
    pub fn passed(&self) -> (r: bool)
        ensures
            r == (self.expected is None || self.expected == Some(self.detected)),
    {
        match self.expected {
            Some(e) => e == self.detected,
            None => true,
        }
    }
}

/// How many of `detected` are slaps that were there.
pub open spec fn hits_of(expected: Option<usize>, detected: usize) -> nat {
    match expected {
        Some(e) => if detected < e {
            detected as nat
        } else {
            e as nat
        },
        None => 0,
    }
}

/// How many of `detected` are slaps that were not there.
pub open spec fn extra_of(expected: Option<usize>, detected: usize) -> nat {
    match expected {
        Some(e) => if detected > e {
            (detected - e) as nat
        } else {
            0
        },
        None => 0,
    }
}

/// How many slaps were there.
pub open spec fn expected_of(expected: Option<usize>) -> nat {
    match expected {
        Some(e) => e as nat,
        None => 0,
    }
}

/// The slaps that were there, in the first `n` outcomes.
pub open spec fn total_expected(o: Seq<Outcome>, n: int) -> nat
    decreases n,
{
    if n <= 0 {
        0
    } else {
        total_expected(o, n - 1) + expected_of(o[n - 1].expected)
    }
}

/// The slaps that were found, in the first `n` outcomes.
pub open spec fn total_hits(o: Seq<Outcome>, n: int) -> nat
    decreases n,
{
    if n <= 0 {
        0
    } else {
        total_hits(o, n - 1) + hits_of(o[n - 1].expected, o[n - 1].detected)
    }
}

/// The false positives, in the first `n` outcomes.
pub open spec fn total_extra(o: Seq<Outcome>, n: int) -> nat
    decreases n,
{
    if n <= 0 {
        0
    } else {
        total_extra(o, n - 1) + extra_of(o[n - 1].expected, o[n - 1].detected)
    }
}

/// The tally over a whole corpus.
#[derive(Debug, Clone, Copy, PartialEq, Eq, Structural)]
pub struct Tally {
    pub expected: usize,
    pub hits: usize,
    pub false_pos: usize,
}

/// The tally of a corpus, over its annotated fixtures.
pub fn tally(outcomes: &Vec<Outcome>) -> (r: Tally)
    requires
        total_expected(outcomes@, outcomes@.len() as int) <= usize::MAX,
        total_extra(outcomes@, outcomes@.len() as int) <= usize::MAX,
    ensures
        r.expected == total_expected(outcomes@, outcomes@.len() as int),
        r.hits == total_hits(outcomes@, outcomes@.len() as int),
        r.false_pos == total_extra(outcomes@, outcomes@.len() as int),
{
    let n: usize = outcomes.len();
    let mut expected: usize = 0;
    let mut hits: usize = 0;
    let mut false_pos: usize = 0;
    for i in 0..n
        invariant
            n == outcomes@.len(),
            total_expected(outcomes@, n as int) <= usize::MAX,
            total_extra(outcomes@, n as int) <= usize::MAX,
            expected == total_expected(outcomes@, i as int),
            hits == total_hits(outcomes@, i as int),
            hits <= expected,
            false_pos == total_extra(outcomes@, i as int),
    {
        proof {
            totals_grow(outcomes@, i as int + 1, n as int);
        }
        let d: usize = outcomes[i].detected;
        match outcomes[i].expected {
            Some(e) => {
                expected = expected + e;
                if d < e {
                    hits = hits + d;
                } else {
                    hits = hits + e;
                    false_pos = false_pos + (d - e);
                }
            },
            None => {},
        }
    }
    Tally { expected, hits, false_pos }
}

proof fn totals_grow(o: Seq<Outcome>, i: int, n: int)
    requires
        0 <= i <= n,
    ensures
        total_expected(o, i) <= total_expected(o, n),
        total_extra(o, i) <= total_extra(o, n),
    decreases n - i,
{
    if i < n {
        totals_grow(o, i, n - 1);
    }
}

/// Every detection in an annotated fixture is either a hit or a false positive, and no more
/// slaps are found than were there.
pub proof fn detections_are_hits_or_extra(expected: usize, detected: usize)
    ensures
        hits_of(Some(expected), detected) + extra_of(Some(expected), detected) == detected,
        hits_of(Some(expected), detected) <= expected,
        hits_of(Some(expected), detected) == expected && extra_of(Some(expected), detected) == 0
            <==> expected == detected,
{
}

// ---------------------------------------------------------------------------------
// Slower sensors
// ---------------------------------------------------------------------------------

/// How many are left of `len` when every `n`th is kept.
pub open spec fn kept(len: nat, n: int) -> nat {
    ((len + n - 1) / n) as nat
}

/// Every `n`th of a sequence, from the first.
pub open spec fn every_nth<T>(s: Seq<T>, n: int) -> Seq<T> {
    Seq::new(kept(s.len(), n), |i: int| s[i * n])
}

/// The trace of a sensor that reports every `n`th sample.
pub open spec fn decimated(trace: Trace, n: usize) -> Trace {
    if n <= 1 {
        trace
    } else {
        Trace {
            accel: every_nth(trace.accel, n as int),
            gyro: every_nth(trace.gyro, n as int),
            ..trace
        }
    }
}

fn copy_row(row: &Row) -> (r: Row)
    ensures
        r@ == row@,
{
    Row { t: row.t.clone(), x: row.x.clone(), y: row.y.clone(), z: row.z.clone() }
}

proof fn next_kept(len: nat, n: int, k: int, i: int)
    requires
        n >= 1,
        0 <= k,
        i == k * n,
    ensures
        i < len ==> k < kept(len, n),
        i >= len ==> k >= kept(len, n),
        (k + 1) * n == i + n,
{
    vstd::arithmetic::div_mod::lemma_fundamental_div_mod(len + n - 1, n);
    let q = (len + n - 1) / n;
    assert((k + 1) * n == k * n + n) by (nonlinear_arith);
    if i < len {
        assert(k < q) by (nonlinear_arith)
            requires
                k * n < len,
                len + n - 1 == n * q + (len + n - 1) % n,
                0 <= (len + n - 1) % n < n,
                n >= 1,
        ;
    } else {
        assert(k >= q) by (nonlinear_arith)
            requires
                k * n >= len,
                len + n - 1 == n * q + (len + n - 1) % n,
                0 <= (len + n - 1) % n < n,
                n >= 1,
        ;
    }
}

fn keep_rows(rows: &Vec<Row>, n: usize) -> (r: Vec<Row>)
    requires
        n >= 1,
    ensures
        rows_of(r@) == every_nth(rows_of(rows@), n as int),
{
    let len: usize = rows.len();
    let mut r: Vec<Row> = Vec::new();
    let mut i: usize = 0;
    let ghost all = rows_of(rows@);
    proof {
        next_kept(len as nat, n as int, 0, 0);
        assert(r@.len() * n == 0) by (nonlinear_arith)
            requires
                r@.len() == 0,
        ;
    }
    while i < len
        invariant
            n >= 1,
            len == rows@.len(),
            all == rows_of(rows@),
            i == r@.len() * n || (i == usize::MAX && r@.len() * n >= len),
            r@.len() <= kept(len as nat, n as int),
            forall|k: int| 0 <= k < r@.len() ==> (#[trigger] r@[k])@ == all[k * n],
        decreases kept(len as nat, n as int) - r@.len(),
    {
        proof {
            next_kept(len as nat, n as int, r@.len() as int, i as int);
        }
        r.push(copy_row(&rows[i]));
        proof {
            next_kept(len as nat, n as int, r@.len() as int, i + n);
        }
        i = if i <= usize::MAX - n {
            i + n
        } else {
            usize::MAX
        };
    }
    proof {
        next_kept(len as nat, n as int, r@.len() as int, r@.len() * n);
        assert(rows_of(r@) =~= every_nth(all, n as int));
    }
    r
}

/// Keep every `n`th sample, as if the sensor had been configured to report more slowly.
///
/// Used to answer "could we halve the report rate and still detect slaps?" without having
/// to re-record the whole corpus at each candidate rate.
pub fn decimate(fixture: &Fixture, n: usize) -> (r: Fixture)
    ensures
        r@ == decimated(fixture@, n),
{
    let step: usize = if n <= 1 {
        1
    } else {
        n
    };
    let r = Fixture {
        label: fixture.label.clone(),
        expect: fixture.expect,
        meta: fixture.meta.clone(),
        accel: keep_rows(&fixture.accel, step),
        gyro: keep_rows(&fixture.gyro, step),
    };
    proof {
        if n <= 1 {
            assert(every_nth(fixture@.accel, 1) =~= fixture@.accel);
            assert(every_nth(fixture@.gyro, 1) =~= fixture@.gyro);
        }
        assert(r@ =~= decimated(fixture@, n));
    }
    r
}

/// Each outcome adds to the tally on its own: an annotated one what was there, what was
/// found of it and what was found beyond, an unannotated one nothing.
pub proof fn each_outcome_adds_its_own(o: Seq<Outcome>, x: Outcome)
    ensures
        ({
            let n = o.len() as int;
            let all = o.push(x);
            &&& x.expected is None ==> {
                &&& total_expected(all, n + 1) == total_expected(o, n)
                &&& total_hits(all, n + 1) == total_hits(o, n)
                &&& total_extra(all, n + 1) == total_extra(o, n)
            }
            &&& x.expected matches Some(e) ==> {
                &&& total_expected(all, n + 1) == total_expected(o, n) + e
                &&& x.detected <= e ==> total_hits(all, n + 1) == total_hits(o, n) + x.detected
                    && total_extra(all, n + 1) == total_extra(o, n)
                &&& x.detected >= e ==> total_hits(all, n + 1) == total_hits(o, n) + e
                    && total_extra(all, n + 1) == total_extra(o, n) + x.detected - e
            }
            &&& n == 0 ==> total_expected(o, n) == 0 && total_hits(o, n) == 0 && total_extra(o, n)
                == 0
        }),
{
    totals_of_prefix(o, x, o.len() as int);
}

proof fn totals_of_prefix(o: Seq<Outcome>, x: Outcome, n: int)
    requires
        0 <= n <= o.len(),
    ensures
        total_expected(o.push(x), n) == total_expected(o, n),
        total_hits(o.push(x), n) == total_hits(o, n),
        total_extra(o.push(x), n) == total_extra(o, n),
    decreases n,
{
    if n > 0 {
        totals_of_prefix(o, x, n - 1);
        assert(o.push(x)[n - 1] == o[n - 1]);
    }
}

/// A slower sensor keeps the first sample and every `n`th after it, of both streams, and
/// nothing else of the recording changes.
pub proof fn slower_keeps_every_nth(trace: Trace, n: usize, i: int)
    requires
        n >= 1,
        0 <= i,
    ensures
        ({
            let d = decimated(trace, n);
            &&& d.label == trace.label && d.expect == trace.expect && d.meta == trace.meta
            &&& i < d.accel.len() <==> i * n < trace.accel.len()
            &&& i < d.accel.len() ==> d.accel[i] == trace.accel[i * n]
            &&& i < d.gyro.len() <==> i * n < trace.gyro.len()
            &&& i < d.gyro.len() ==> d.gyro[i] == trace.gyro[i * n]
        }),
{
    next_kept(trace.accel.len(), n as int, i, i * n);
    next_kept(trace.gyro.len(), n as int, i, i * n);
    if n == 1 {
        assert(i * n == i);
    }
}

} // verus!
