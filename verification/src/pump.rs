//! Draining the sensor rings into one time-ordered stream.
//!
//! The two sensors are independent devices with independent rings, but the detector needs
//! their samples interleaved in time so gyroscope corroboration lines up with the
//! accelerometer trigger it is corroborating. A single shared [`Timebase`] gives both
//! streams a common origin; this module merges them in timestamp order.
use vstd::prelude::*;

use crate::report::Sample;

verus! {

/// The consuming end of a lock-free ring, shared with the thread that fills it.
#[verifier::external_type_specification]
#[verifier::external_body]
#[verifier::reject_recursive_types(T)]
pub struct ExConsumer<T>(rtrb::Consumer<T>);

/// Ticks since the first host time shown.
#[derive(Debug, Clone, Copy, PartialEq, Eq, Structural)]
pub struct Timebase {
    pub origin: Option<u64>,
}

impl Timebase {
    /// Without an origin yet.
    pub fn new() -> (r: Timebase)
        ensures
            r.origin is None,
    {
        Timebase { origin: None }
    }

    /// Ticks since the first host time this instance was shown, which it takes as the
    /// origin. A report stamped fractionally before the origin is at zero.
    pub fn ticks_since_start(&mut self, host_time: u64) -> (r: u64)
        ensures
            final(self).origin == Some(
                match old(self).origin {
                    Some(o) => o,
                    None => host_time,
                },
            ),
            r == (if host_time >= final(self).origin->0 {
                host_time - final(self).origin->0
            } else {
                0
            }),
    {
        let origin: u64 = match self.origin {
            Some(o) => o,
            None => host_time,
        };
        self.origin = Some(origin);
        if host_time >= origin {
            host_time - origin
        } else {
            0
        }
    }

    /// Whether an origin has been established yet.
    pub fn is_started(&self) -> (r: bool)
        ensures
            r == self.origin is Some,
    {
        self.origin.is_some()
    }
}

/// Which sensor a merged frame came from.
#[derive(Debug, Clone, Copy, PartialEq, Eq, Structural)]
pub enum Source {
    Accel,
    Gyro,
}

/// The older of two waiting samples; the accelerometer's on a tie. When only one stream
/// has data it is not held back for a sample that may never come.
pub open spec fn older(accel: Option<Sample>, gyro: Option<Sample>) -> Option<(Source, Sample)> {
    match (accel, gyro) {
        (Some(a), Some(g)) => if a.host_time <= g.host_time {
            Some((Source::Accel, a))
        } else {
            Some((Source::Gyro, g))
        },
        (Some(a), None) => Some((Source::Accel, a)),
        (None, Some(g)) => Some((Source::Gyro, g)),
        (None, None) => None,
    }
}

/// What the accelerometer has waiting once the older sample was taken.
pub open spec fn accel_left(accel: Option<Sample>, gyro: Option<Sample>) -> Option<Sample> {
    match older(accel, gyro) {
        Some((Source::Accel, _)) => None,
        _ => accel,
    }
}

/// What the gyroscope has waiting once the older sample was taken.
pub open spec fn gyro_left(accel: Option<Sample>, gyro: Option<Sample>) -> Option<Sample> {
    match older(accel, gyro) {
        Some((Source::Gyro, _)) => None,
        _ => gyro,
    }
}

/// Merges the two sensor streams into one time-ordered sequence of samples.
#[derive(Debug, Clone, Copy, PartialEq, Eq, Structural)]
pub struct Pump {
    /// A gyro sample already popped but not yet emitted, because the accelerometer had an
    /// earlier one waiting.
    pub pending_gyro: Option<Sample>,
    pub pending_accel: Option<Sample>,
}

/// The samples a consumer has taken from its ring so far, oldest first.
pub uninterp spec fn taken(ring: rtrb::Consumer<Sample>) -> Seq<Sample>;

/// How many samples a consumer knows to be waiting in its ring: those between its own copies
/// of the two indices. More may have arrived since it last looked.
pub uninterp spec fn known(ring: rtrb::Consumer<Sample>) -> nat;

/// `rtrb::Consumer::pop`: takes the sample it returns, or leaves the ring as it is where
/// that is empty. It does not fail while a sample is known to be waiting, and then one less
/// is; where none is known it looks again, and finds none only where there is none. What
/// has arrived by then depends on the thread at the other end, so no more is claimed.
#[verifier::external_body]
fn pop(ring: &mut rtrb::Consumer<Sample>) -> (r: Option<Sample>)
    ensures
        taken(*final(ring)) == (match r {
            Some(s) => taken(*old(ring)).push(s),
            None => taken(*old(ring)),
        }),
        known(*old(ring)) > 0 ==> r is Some && known(*final(ring)) == known(*old(ring)) - 1,
        r is None ==> known(*final(ring)) == 0,
{
    ring.pop().ok()
}

/// The samples taken so far from a ring that may not be there.
pub open spec fn taken_of(ring: Option<rtrb::Consumer<Sample>>) -> Seq<Sample> {
    match ring {
        Some(r) => taken(r),
        None => Seq::empty(),
    }
}

/// How many samples are known to be waiting in a ring that may not be there.
pub open spec fn known_of(ring: Option<rtrb::Consumer<Sample>>) -> nat {
    match ring {
        Some(r) => known(r),
        None => 0,
    }
}

/// What a sensor has waiting, `now`, once its ring was asked where nothing was: the ring
/// went from `before` to `after`.
pub open spec fn fetched(
    pending: Option<Sample>,
    before: Seq<Sample>,
    after: Seq<Sample>,
    now: Option<Sample>,
) -> bool {
    match (pending, now) {
        (Some(_), _) => now == pending && after == before,
        (None, Some(s)) => after == before.push(s),
        (None, None) => after == before,
    }
}

/// What one step of draining may do to a pump, from `p` to `q`, and to the rings: `r` is
/// the older of what each sensor has waiting.
pub open spec fn drained(
    p: Pump,
    accel: (Seq<Sample>, Seq<Sample>),
    gyro: (Seq<Sample>, Seq<Sample>),
    r: Option<(Source, Sample)>,
    q: Pump,
) -> bool {
    exists|a: Option<Sample>, g: Option<Sample>|
        {
            &&& fetched(p.pending_accel, accel.0, accel.1, a)
            &&& fetched(p.pending_gyro, gyro.0, gyro.1, g)
            &&& r == #[trigger] older(a, g)
            &&& q.pending_accel == accel_left(a, g)
            &&& q.pending_gyro == gyro_left(a, g)
        }
}

impl Pump {
    /// With nothing waiting.
    pub fn new() -> (r: Pump)
        ensures
            r == (Pump { pending_gyro: None, pending_accel: None }),
    {
        Pump { pending_gyro: None, pending_accel: None }
    }

    /// Takes the older of the waiting samples.
    pub fn take(&mut self) -> (r: Option<(Source, Sample)>)
        ensures
            r == older(old(self).pending_accel, old(self).pending_gyro),
            final(self).pending_accel == accel_left(
                old(self).pending_accel,
                old(self).pending_gyro,
            ),
            final(self).pending_gyro == gyro_left(old(self).pending_accel, old(self).pending_gyro),
    {
        match (self.pending_accel, self.pending_gyro) {
            (Some(a), Some(g)) => {
                if a.host_time <= g.host_time {
                    self.pending_accel = None;
                    Some((Source::Accel, a))
                } else {
                    self.pending_gyro = None;
                    Some((Source::Gyro, g))
                }
            },
            (Some(a), None) => {
                self.pending_accel = None;
                Some((Source::Accel, a))
            },
            (None, Some(g)) => {
                self.pending_gyro = None;
                Some((Source::Gyro, g))
            },
            (None, None) => None,
        }
    }

    /// The next sample in timestamp order of what is currently buffered, or `None` once
    /// both rings have run dry. This never blocks: a drain calls it until it gives
    /// nothing.
    pub fn drain(
        &mut self,
        accel: &mut rtrb::Consumer<Sample>,
        gyro: &mut Option<rtrb::Consumer<Sample>>,
    ) -> (r: Option<(Source, Sample)>)
        ensures
            drained(
                *old(self),
                (taken(*old(accel)), taken(*final(accel))),
                (taken_of(*old(gyro)), taken_of(*final(gyro))),
                r,
                *final(self),
            ),
            (*final(gyro) is Some) == (*old(gyro) is Some),
            old(self).pending_accel is None && known(*old(accel)) > 0 ==> taken(
                *final(accel),
            ).len() == taken(*old(accel)).len() + 1,
            old(self).pending_gyro is None && known_of(*old(gyro)) > 0 ==> taken_of(
                *final(gyro),
            ).len() == taken_of(*old(gyro)).len() + 1,
            r is None ==> known(*final(accel)) == 0 && known_of(*final(gyro)) == 0,
            r is None ==> final(self).pending_accel is None && final(self).pending_gyro is None,
    {
        if self.pending_accel.is_none() {
            self.pending_accel = pop(accel);
        }
        if self.pending_gyro.is_none() {
            match gyro {
                Some(ring) => {
                    self.pending_gyro = pop(ring);
                },
                None => {},
            }
        }
        let ghost a = self.pending_accel;
        let ghost g = self.pending_gyro;
        proof {
            assert(fetched(old(self).pending_accel, taken(*old(accel)), taken(*accel), a));
            assert(fetched(old(self).pending_gyro, taken_of(*old(gyro)), taken_of(*gyro), g));
        }
        let r = self.take();
        proof {
            assert(r == older(a, g));
        }
        r
    }
}

// ---------------------------------------------------------------------------------
// Laws
// ---------------------------------------------------------------------------------

/// A sample that may be waiting, as a list.
pub open spec fn waiting(pending: Option<Sample>) -> Seq<Sample> {
    match pending {
        Some(s) => seq![s],
        None => Seq::empty(),
    }
}

/// A list of samples with what one step gave, where it is from the given sensor.
pub open spec fn given(
    out: Seq<Sample>,
    r: Option<(Source, Sample)>,
    source: Source,
) -> Seq<Sample> {
    match r {
        Some((s, x)) => if s == source {
            out.push(x)
        } else {
            out
        },
        None => out,
    }
}

/// Draining loses no sample, makes none up and reorders none: what a sensor's ring gave is
/// what came out of it so far, with what is waiting at the end. If that holds before a
/// step, it holds after.
pub proof fn draining_conserves(
    p: Pump,
    accel: (Seq<Sample>, Seq<Sample>),
    gyro: (Seq<Sample>, Seq<Sample>),
    r: Option<(Source, Sample)>,
    q: Pump,
    out_accel: Seq<Sample>,
    out_gyro: Seq<Sample>,
)
    requires
        drained(p, accel, gyro, r, q),
        accel.0 == out_accel + waiting(p.pending_accel),
        gyro.0 == out_gyro + waiting(p.pending_gyro),
    ensures
        accel.1 == given(out_accel, r, Source::Accel) + waiting(q.pending_accel),
        gyro.1 == given(out_gyro, r, Source::Gyro) + waiting(q.pending_gyro),
{
    assert(accel.1 =~= given(out_accel, r, Source::Accel) + waiting(q.pending_accel));
    assert(gyro.1 =~= given(out_gyro, r, Source::Gyro) + waiting(q.pending_gyro));
}

/// The head of what a ring holds.
pub open spec fn head(ring: Seq<Sample>) -> Option<Sample> {
    if ring.len() > 0 {
        Some(ring.first())
    } else {
        None
    }
}

/// The samples of two rings in the order in which they are taken, while nothing more
/// arrives.
pub open spec fn merged(accel: Seq<Sample>, gyro: Seq<Sample>) -> Seq<(Source, Sample)>
    decreases accel.len() + gyro.len(),
{
    match older(head(accel), head(gyro)) {
        Some((Source::Accel, s)) => seq![(Source::Accel, s)] + merged(accel.drop_first(), gyro),
        Some((Source::Gyro, s)) => seq![(Source::Gyro, s)] + merged(accel, gyro.drop_first()),
        None => Seq::empty(),
    }
}

/// What is left of a list once its head was taken, or not.
pub open spec fn left(list: Seq<Sample>, source: Source, r: Option<(Source, Sample)>) -> Seq<
    Sample,
> {
    match r {
        Some((s, _)) => if s == source && list.len() > 0 {
            list.drop_first()
        } else {
            list
        },
        None => list,
    }
}

/// Taking the older of the heads of two lists takes the first of their merge, and the rest
/// of it is the merge of what is left.
pub proof fn taking_follows_merge(accel: Seq<Sample>, gyro: Seq<Sample>)
    ensures
        ({
            let all = merged(accel, gyro);
            let r = older(head(accel), head(gyro));
            &&& r is Some <==> all.len() > 0
            &&& r is Some ==> r->0 == all.first() && all.drop_first() == merged(
                left(accel, Source::Accel, r),
                left(gyro, Source::Gyro, r),
            )
        }),
{
    let all = merged(accel, gyro);
    let r = older(head(accel), head(gyro));
    if r is Some {
        let rest = merged(left(accel, Source::Accel, r), left(gyro, Source::Gyro, r));
        assert(all =~= seq![r->0] + rest);
        assert(all.drop_first() =~= rest);
    }
}

/// A ring that gives what it holds: where nothing is waiting, its first sample is taken.
pub open spec fn gives(pending: Option<Sample>, held: Seq<Sample>) -> Seq<Sample> {
    if pending is None && held.len() > 0 {
        seq![held.first()]
    } else {
        Seq::empty()
    }
}

/// While nothing more arrives, draining walks the merge of what is waiting and what the
/// rings hold: a step gives its first sample, or nothing once it is empty, and leaves the
/// rest of it to the steps that follow.
pub proof fn draining_follows_merge(
    p: Pump,
    accel: (Seq<Sample>, Seq<Sample>),
    gyro: (Seq<Sample>, Seq<Sample>),
    r: Option<(Source, Sample)>,
    q: Pump,
    held_accel: Seq<Sample>,
    held_gyro: Seq<Sample>,
)
    requires
        drained(p, accel, gyro, r, q),
        accel.1 == accel.0 + gives(p.pending_accel, held_accel),
        gyro.1 == gyro.0 + gives(p.pending_gyro, held_gyro),
    ensures
        ({
            let all = merged(
                waiting(p.pending_accel) + held_accel,
                waiting(p.pending_gyro) + held_gyro,
            );
            let rest = merged(
                waiting(q.pending_accel) + held_accel.skip(
                    gives(p.pending_accel, held_accel).len() as int,
                ),
                waiting(q.pending_gyro) + held_gyro.skip(
                    gives(p.pending_gyro, held_gyro).len() as int,
                ),
            );
            &&& r is Some <==> all.len() > 0
            &&& r is Some ==> r->0 == all.first() && rest == all.drop_first()
            &&& r is None ==> rest.len() == 0
        }),
{
    let a_all = waiting(p.pending_accel) + held_accel;
    let g_all = waiting(p.pending_gyro) + held_gyro;
    let (a, g) = choose|a: Option<Sample>, g: Option<Sample>|
        {
            &&& fetched(p.pending_accel, accel.0, accel.1, a)
            &&& fetched(p.pending_gyro, gyro.0, gyro.1, g)
            &&& r == #[trigger] older(a, g)
            &&& q.pending_accel == accel_left(a, g)
            &&& q.pending_gyro == gyro_left(a, g)
        };
    fetched_is_head(p.pending_accel, accel.0, accel.1, a, held_accel);
    fetched_is_head(p.pending_gyro, gyro.0, gyro.1, g, held_gyro);
    taking_follows_merge(a_all, g_all);
    let a_left = waiting(q.pending_accel) + held_accel.skip(
        gives(p.pending_accel, held_accel).len() as int,
    );
    let g_left = waiting(q.pending_gyro) + held_gyro.skip(
        gives(p.pending_gyro, held_gyro).len() as int,
    );
    assert(a_left =~= left(a_all, Source::Accel, r));
    assert(g_left =~= left(g_all, Source::Gyro, r));
}

/// A drain: the pump and what was taken from each ring before every step and at the end,
/// and what each step gave.
#[verifier::ext_equal]
pub struct Run {
    pub pumps: Seq<Pump>,
    pub accel: Seq<Seq<Sample>>,
    pub gyro: Seq<Seq<Sample>>,
    pub given: Seq<Option<(Source, Sample)>>,
}

impl Run {
    /// What a ring that held `held` at the start holds before step `i`.
    pub open spec fn accel_held(self, held: Seq<Sample>, i: int) -> Seq<Sample> {
        held.skip(self.accel[i].len() - self.accel[0].len())
    }

    /// What a ring that held `held` at the start holds before step `i`.
    pub open spec fn gyro_held(self, held: Seq<Sample>, i: int) -> Seq<Sample> {
        held.skip(self.gyro[i].len() - self.gyro[0].len())
    }

    /// Step `i` drains rings to which nothing more arrives.
    pub open spec fn quiet_step(self, accel: Seq<Sample>, gyro: Seq<Sample>, i: int) -> bool {
        let p = self.pumps[i];
        &&& drained(
            p,
            (self.accel[i], self.accel[i + 1]),
            (self.gyro[i], self.gyro[i + 1]),
            self.given[i],
            self.pumps[i + 1],
        )
        &&& self.accel[i + 1] == self.accel[i] + gives(p.pending_accel, self.accel_held(accel, i))
        &&& self.gyro[i + 1] == self.gyro[i] + gives(p.pending_gyro, self.gyro_held(gyro, i))
    }

    /// Every step drains rings that held `accel` and `gyro` at the start, and to which
    /// nothing more arrives.
    pub open spec fn quiet(self, accel: Seq<Sample>, gyro: Seq<Sample>) -> bool {
        &&& self.pumps.len() == self.given.len() + 1
        &&& self.accel.len() == self.given.len() + 1
        &&& self.gyro.len() == self.given.len() + 1
        &&& forall|i: int| 0 <= i < self.given.len() ==> #[trigger] self.quiet_step(accel, gyro, i)
    }

    /// What is still to come before step `i`, in order.
    pub open spec fn to_come(self, accel: Seq<Sample>, gyro: Seq<Sample>, i: int) -> Seq<
        (Source, Sample),
    > {
        merged(
            waiting(self.pumps[i].pending_accel) + self.accel_held(accel, i),
            waiting(self.pumps[i].pending_gyro) + self.gyro_held(gyro, i),
        )
    }
}

/// While nothing more arrives, a whole drain gives the merge of what was waiting and what
/// the rings held, in order: step `i` gives its sample `i`, and gives nothing exactly when
/// the merge is used up.
pub proof fn drain_is_the_merge(run: Run, accel: Seq<Sample>, gyro: Seq<Sample>, i: int)
    requires
        run.quiet(accel, gyro),
        0 <= i < run.given.len(),
    ensures
        ({
            let all = merged(
                waiting(run.pumps[0].pending_accel) + accel,
                waiting(run.pumps[0].pending_gyro) + gyro,
            );
            run.given[i] == (if i < all.len() {
                Some(all[i])
            } else {
                None
            })
        }),
{
    let all = run.to_come(accel, gyro, 0);
    assert(accel.skip(0) =~= accel);
    assert(gyro.skip(0) =~= gyro);
    steps_walk_the_merge(run, accel, gyro, i);
    let rest = run.to_come(accel, gyro, i);
    assert(run.quiet_step(accel, gyro, i));
    draining_follows_merge(
        run.pumps[i],
        (run.accel[i], run.accel[i + 1]),
        (run.gyro[i], run.gyro[i + 1]),
        run.given[i],
        run.pumps[i + 1],
        run.accel_held(accel, i),
        run.gyro_held(gyro, i),
    );
    if i < all.len() {
        assert(rest.first() == all[i]);
    }
}

/// Before step `i` of a quiet drain, its first `i` samples have left the merge.
proof fn steps_walk_the_merge(run: Run, accel: Seq<Sample>, gyro: Seq<Sample>, i: int)
    requires
        run.quiet(accel, gyro),
        0 <= i <= run.given.len(),
    ensures
        0 <= run.accel[i].len() - run.accel[0].len() <= accel.len(),
        0 <= run.gyro[i].len() - run.gyro[0].len() <= gyro.len(),
        ({
            let all = run.to_come(accel, gyro, 0);
            run.to_come(accel, gyro, i) == all.skip(
                if i < all.len() {
                    i
                } else {
                    all.len() as int
                },
            )
        }),
    decreases i,
{
    let all = run.to_come(accel, gyro, 0);
    if i == 0 {
        assert(all.skip(0) =~= all);
    } else {
        let j = i - 1;
        steps_walk_the_merge(run, accel, gyro, j);
        assert(run.quiet_step(accel, gyro, j));
        let p = run.pumps[j];
        let a = run.accel_held(accel, j);
        let g = run.gyro_held(gyro, j);
        draining_follows_merge(
            p,
            (run.accel[j], run.accel[i]),
            (run.gyro[j], run.gyro[i]),
            run.given[j],
            run.pumps[i],
            a,
            g,
        );
        assert(run.accel_held(accel, i) =~= a.skip(gives(p.pending_accel, a).len() as int));
        assert(run.gyro_held(gyro, i) =~= g.skip(gives(p.pending_gyro, g).len() as int));
        let rest = run.to_come(accel, gyro, j);
        let next = run.to_come(accel, gyro, i);
        if j < all.len() {
            assert(next =~= all.skip(i));
        } else {
            assert(next =~= all.skip(all.len() as int));
        }
    }
}

/// What is fetched from a ring that gives what it holds is the oldest there is.
proof fn fetched_is_head(
    pending: Option<Sample>,
    before: Seq<Sample>,
    after: Seq<Sample>,
    now: Option<Sample>,
    held: Seq<Sample>,
)
    requires
        fetched(pending, before, after, now),
        after == before + gives(pending, held),
    ensures
        now == head(waiting(pending) + held),
{
    if pending is None {
        assert(waiting(pending) + held =~= held);
        if held.len() > 0 {
            assert(after.len() == before.len() + 1);
            assert(after.last() == held.first());
        } else {
            assert(after.len() == before.len());
        }
    } else {
        assert((waiting(pending) + held).first() == pending->0);
    }
}

/// Samples in the order of their times.
pub open spec fn in_order(s: Seq<Sample>) -> bool {
    forall|i: int, j: int| 0 <= i <= j < s.len() ==> (#[trigger] s[i]).host_time <= (
    #[trigger] s[j]).host_time
}

/// Merging loses nothing and adds nothing.
pub proof fn merge_conserves(accel: Seq<Sample>, gyro: Seq<Sample>)
    ensures
        merged(accel, gyro).len() == accel.len() + gyro.len(),
        merged(accel, gyro).to_multiset() =~= accel.map_values(
            |s: Sample| (Source::Accel, s),
        ).to_multiset().add(gyro.map_values(|s: Sample| (Source::Gyro, s)).to_multiset()),
    decreases accel.len() + gyro.len(),
{
    broadcast use vstd::seq_lib::group_to_multiset_ensures;

    let fa = |s: Sample| (Source::Accel, s);
    let fg = |s: Sample| (Source::Gyro, s);
    let a = accel.map_values(fa);
    let g = gyro.map_values(fg);
    match older(head(accel), head(gyro)) {
        Some((Source::Accel, s)) => {
            merge_conserves(accel.drop_first(), gyro);
            let rest = merged(accel.drop_first(), gyro);
            let tail = accel.drop_first().map_values(fa);
            assert(a =~= seq![(Source::Accel, s)] + tail);
            vstd::seq_lib::lemma_multiset_commutative(seq![(Source::Accel, s)], tail);
            vstd::seq_lib::lemma_multiset_commutative(seq![(Source::Accel, s)], rest);
        },
        Some((Source::Gyro, s)) => {
            merge_conserves(accel, gyro.drop_first());
            let rest = merged(accel, gyro.drop_first());
            let tail = gyro.drop_first().map_values(fg);
            assert(g =~= seq![(Source::Gyro, s)] + tail);
            vstd::seq_lib::lemma_multiset_commutative(seq![(Source::Gyro, s)], tail);
            vstd::seq_lib::lemma_multiset_commutative(seq![(Source::Gyro, s)], rest);
        },
        None => {
            assert(a =~= Seq::empty());
            assert(g =~= Seq::empty());
        },
    }
}

/// Where each sensor's samples are in order, so is what comes out.
pub proof fn merge_is_in_order(accel: Seq<Sample>, gyro: Seq<Sample>)
    requires
        in_order(accel),
        in_order(gyro),
    ensures
        forall|i: int, j: int|
            0 <= i <= j < merged(accel, gyro).len() ==> (#[trigger] merged(
                accel,
                gyro,
            )[i]).1.host_time <= (#[trigger] merged(accel, gyro)[j]).1.host_time,
    decreases accel.len() + gyro.len(),
{
    let all = merged(accel, gyro);
    if let Some((source, s)) = older(head(accel), head(gyro)) {
        let (a, g) = match source {
            Source::Accel => (accel.drop_first(), gyro),
            Source::Gyro => (accel, gyro.drop_first()),
        };
        rest_in_order(accel, a);
        rest_in_order(gyro, g);
        merge_is_in_order(a, g);
        let tail = merged(a, g);
        assert(all =~= seq![(source, s)] + tail);
        assert forall|i: int, j: int| 0 <= i <= j < all.len() implies (
        #[trigger] all[i]).1.host_time <= (#[trigger] all[j]).1.host_time by {
            if i > 0 {
                assert(tail[i - 1].1.host_time <= tail[j - 1].1.host_time);
            } else if j > 0 {
                merge_takes_members(a, g, j - 1);
                let t = tail[j - 1].1;
                if a.contains(t) {
                    let m = choose|m: int| 0 <= m < a.len() && a[m] == t;
                    assert(accel[0].host_time <= accel[m + accel.len() - a.len()].host_time);
                } else {
                    let m = choose|m: int| 0 <= m < g.len() && g[m] == t;
                    assert(gyro[0].host_time <= gyro[m + gyro.len() - g.len()].host_time);
                }
            }
        }
    }
}

/// The rest of a list in order is in order.
proof fn rest_in_order(s: Seq<Sample>, rest: Seq<Sample>)
    requires
        in_order(s),
        rest == s || (s.len() > 0 && rest == s.drop_first()),
    ensures
        in_order(rest),
{
    let o: int = s.len() - rest.len();
    assert forall|i: int, j: int| 0 <= i <= j < rest.len() implies (#[trigger] rest[i]).host_time
        <= (#[trigger] rest[j]).host_time by {
        assert(s[i + o].host_time <= s[j + o].host_time);
    }
}

/// What comes out went in.
proof fn merge_takes_members(accel: Seq<Sample>, gyro: Seq<Sample>, k: int)
    requires
        0 <= k < merged(accel, gyro).len(),
    ensures
        accel.contains(merged(accel, gyro)[k].1) || gyro.contains(merged(accel, gyro)[k].1),
    decreases accel.len() + gyro.len(),
{
    let t = merged(accel, gyro)[k].1;
    match older(head(accel), head(gyro)) {
        Some((Source::Accel, s)) => {
            if k == 0 {
                assert(accel[0] == t);
            } else {
                let rest = accel.drop_first();
                merge_takes_members(rest, gyro, k - 1);
                if rest.contains(t) {
                    let m = choose|m: int| 0 <= m < rest.len() && rest[m] == t;
                    assert(accel[m + 1] == t);
                }
            }
        },
        Some((Source::Gyro, s)) => {
            if k == 0 {
                assert(gyro[0] == t);
            } else {
                let rest = gyro.drop_first();
                merge_takes_members(accel, rest, k - 1);
                if rest.contains(t) {
                    let m = choose|m: int| 0 <= m < rest.len() && rest[m] == t;
                    assert(gyro[m + 1] == t);
                }
            }
        },
        None => {},
    }
}

/// What is taken is the older of the two samples that wait, the accelerometer's where they
/// are as old as each other, and nothing only where neither waits. The other one stays.
pub proof fn the_older_goes_first(accel: Option<Sample>, gyro: Option<Sample>)
    ensures
        older(accel, gyro) is None <==> accel is None && gyro is None,
        older(accel, gyro) matches Some((source, s)) ==> match source {
            Source::Accel => {
                &&& accel == Some(s)
                &&& gyro is Some ==> s.host_time <= gyro->0.host_time
                &&& accel_left(accel, gyro) is None
                &&& gyro_left(accel, gyro) == gyro
            },
            Source::Gyro => {
                &&& gyro == Some(s)
                &&& accel is Some ==> s.host_time < accel->0.host_time
                &&& gyro_left(accel, gyro) is None
                &&& accel_left(accel, gyro) == accel
            },
        },
{
}

/// Waiting samples are not passed over: a step asks a ring only where nothing of its sensor
/// waits, and takes at most one sample from it.
pub proof fn a_step_takes_at_most_one(
    p: Pump,
    accel: (Seq<Sample>, Seq<Sample>),
    gyro: (Seq<Sample>, Seq<Sample>),
    r: Option<(Source, Sample)>,
    q: Pump,
)
    requires
        drained(p, accel, gyro, r, q),
    ensures
        p.pending_accel is Some ==> accel.1 == accel.0,
        p.pending_gyro is Some ==> gyro.1 == gyro.0,
        accel.0.len() <= accel.1.len() <= accel.0.len() + 1,
        gyro.0.len() <= gyro.1.len() <= gyro.0.len() + 1,
        r is None ==> accel.1 == accel.0 && gyro.1 == gyro.0 && p.pending_accel is None
            && p.pending_gyro is None,
        q.pending_accel is None || q.pending_gyro is None,
{
}

} // verus!
