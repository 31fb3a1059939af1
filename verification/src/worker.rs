//! When jobs run.
//!
//! Jobs wait here until they come due, in the order of their due times. The audio device is
//! opened on demand and released when nothing has played for a while: an open output
//! stream runs its render callback continuously whether or not anything is playing, which
//! is unacceptable for something meant to sit in the menu bar all day.
//!
//! All times are in nanoseconds on one clock.
use vstd::prelude::*;

use crate::actions::{Job, Scheduled};

verus! {

/// How long the audio device stays open after the last sound.
pub const AUDIO_IDLE_TIMEOUT: u64 = 30_000_000_000;

/// How often the worker wakes to check whether the device has gone idle.
pub const AUDIO_IDLE_POLL: u64 = 5_000_000_000;

/// Longest a due job may be held up by the poll granularity.
pub const SCHEDULER_TICK: u64 = 5_000_000;

/// In the order of their due times.
pub open spec fn by_due(pending: Seq<Scheduled>) -> bool {
    forall|i: int, j: int|
        0 <= i <= j < pending.len() ==> (#[trigger] pending[i]).due <= (#[trigger] pending[j]).due
}

/// How many jobs at the front have come due.
pub open spec fn due_count(pending: Seq<Scheduled>, now: u64) -> int
    decreases pending.len(),
{
    if pending.len() > 0 && pending.first().due <= now {
        1 + due_count(pending.drop_first(), now)
    } else {
        0
    }
}

/// Where a job with the given due time belongs: behind those due before it.
pub open spec fn slot(pending: Seq<Scheduled>, due: u64) -> int
    decreases pending.len(),
{
    if pending.len() > 0 && pending.first().due < due {
        1 + slot(pending.drop_first(), due)
    } else {
        0
    }
}

/// What becomes of a new job.
#[derive(Debug, PartialEq, Eq)]
pub enum Received {
    /// It is due already.
    Run(Job),
    /// It waits. Where `prewarm` says so, the audio device is opened during the wait
    /// rather than after it: opening takes long enough to make the response late by an
    /// amount that varies run to run.
    Queued { prewarm: bool },
}

/// The waiting jobs.
#[derive(Debug, PartialEq, Eq)]
pub struct Worker {
    /// Kept sorted by due time.
    pub pending: Vec<Scheduled>,
    /// When a sound last played.
    pub last_sound: u64,
}

impl Worker {
    /// The jobs are in order.
    pub open spec fn valid(self) -> bool {
        by_due(self.pending@)
    }

    /// With nothing waiting.
    pub fn new(now: u64) -> (r: Worker)
        ensures
            r.valid(),
            r.pending@.len() == 0,
            r.last_sound == now,
    {
        Worker { pending: Vec::new(), last_sound: now }
    }

    /// Takes everything that has come due, in order.
    pub fn take_due(&mut self, now: u64) -> (r: Vec<Job>)
        requires
            old(self).valid(),
        ensures
            final(self).valid(),
            final(self).last_sound == old(self).last_sound,
            r@.len() == due_count(old(self).pending@, now),
            r@.len() <= old(self).pending@.len(),
            forall|i: int| 0 <= i < r@.len() ==> #[trigger] r@[i] == old(self).pending@[i].job,
            forall|i: int| 0 <= i < r@.len() ==> (#[trigger] old(self).pending@[i]).due <= now,
            forall|i: int|
                0 <= i < final(self).pending@.len() ==> (#[trigger] final(self).pending@[i]).due
                    > now,
            final(self).pending@ == old(self).pending@.skip(r@.len() as int),
    {
        let mut r: Vec<Job> = Vec::new();
        let ghost all = self.pending@;
        proof {
            assert(all.skip(0) =~= all);
        }
        while self.pending.len() > 0 && self.pending[0].due <= now
            invariant
                self.last_sound == old(self).last_sound,
                all == old(self).pending@,
                by_due(all),
                r@.len() <= all.len(),
                self.pending@ == all.skip(r@.len() as int),
                r@.len() + due_count(self.pending@, now) == due_count(all, now),
                forall|i: int| 0 <= i < r@.len() ==> #[trigger] r@[i] == all[i].job,
            decreases self.pending@.len(),
        {
            let ghost rest = self.pending@;
            let s: Scheduled = self.pending.remove(0);
            proof {
                assert(rest.remove(0) =~= rest.drop_first());
                assert(rest.drop_first() =~= all.skip(r@.len() as int + 1));
                assert(s == all[r@.len() as int]);
            }
            r.push(s.job);
        }
        proof {
            let k = r@.len() as int;
            taken_is_what_is_due(all, now);
            assert forall|i: int| 0 <= i < self.pending@.len() implies (
            #[trigger] self.pending@[i]).due > now by {
                assert(all[i + k].due > now);
            }
            assert forall|i: int, j: int| 0 <= i <= j < self.pending@.len() implies (
            #[trigger] self.pending@[i]).due <= (#[trigger] self.pending@[j]).due by {
                assert(all[i + k].due <= all[j + k].due);
            }
        }
        r
    }

    /// How long to sleep: until the next job is due or the next idle check, whichever comes
    /// first, but not for less than a tick.
    pub fn wait(&self, now: u64) -> (r: u64)
        ensures
            r == (if self.pending@.len() == 0 {
                AUDIO_IDLE_POLL as int
            } else {
                let left = if self.pending@[0].due > now {
                    self.pending@[0].due - now
                } else {
                    0
                };
                if left < SCHEDULER_TICK {
                    SCHEDULER_TICK as int
                } else if left > AUDIO_IDLE_POLL {
                    AUDIO_IDLE_POLL as int
                } else {
                    left
                }
            }),
            5_000_000 <= r <= 5_000_000_000,
            self.pending@.len() == 0 ==> r == 5_000_000_000,
            self.pending@.len() > 0 ==> now + r <= self.pending@[0].due || r == 5_000_000,
            self.pending@.len() > 0 && 5_000_000 <= self.pending@[0].due - now <= 5_000_000_000
                ==> now + r == self.pending@[0].due,
            self.pending@.len() > 0 && self.pending@[0].due - now > 5_000_000_000 ==> r
                == 5_000_000_000,
    {
        if self.pending.len() == 0 {
            return AUDIO_IDLE_POLL;
        }
        let due: u64 = self.pending[0].due;
        let left: u64 = if due > now {
            due - now
        } else {
            0
        };
        if left < SCHEDULER_TICK {
            SCHEDULER_TICK
        } else if left > AUDIO_IDLE_POLL {
            AUDIO_IDLE_POLL
        } else {
            left
        }
    }

    /// Takes in a new job.
    pub fn receive(&mut self, s: Scheduled, now: u64) -> (r: Received)
        requires
            old(self).valid(),
        ensures
            final(self).valid(),
            final(self).last_sound == old(self).last_sound,
            match r {
                Received::Run(job) => s.due <= now && job == s.job && final(self).pending@ == old(
                    self,
                ).pending@,
                Received::Queued { prewarm } => {
                    &&& s.due > now
                    &&& prewarm == (s.job is Sound)
                    &&& 0 <= slot(old(self).pending@, s.due) <= old(self).pending@.len()
                    &&& final(self).pending@ == old(self).pending@.insert(
                        slot(old(self).pending@, s.due),
                        s,
                    )
                },
            },
    {
        if s.due <= now {
            return Received::Run(s.job);
        }
        let prewarm: bool = match &s.job {
            Job::Sound { .. } => true,
            _ => false,
        };
        let n: usize = self.pending.len();
        let mut at: usize = 0;
        let ghost all = self.pending@;
        proof {
            assert(all.skip(0) =~= all);
        }
        while at < n && self.pending[at].due < s.due
            invariant
                at <= n,
                n == self.pending@.len(),
                self.pending@ == all,
                by_due(all),
                slot(all, s.due) == at + slot(all.skip(at as int), s.due),
                at > 0 ==> all[at - 1].due < s.due,
            decreases n - at,
        {
            proof {
                assert(all.skip(at as int).drop_first() =~= all.skip(at as int + 1));
            }
            at = at + 1;
        }
        proof {
            insert_keeps_order(all, at as int, s);
        }
        self.pending.insert(at, s);
        Received::Queued { prewarm }
    }

    /// Notes that a sound is about to play.
    pub fn sounded(&mut self, now: u64)
        ensures
            final(self).last_sound == now,
            final(self).pending@ == old(self).pending@,
    {
        self.last_sound = now;
    }

    /// Whether to release the audio device, when no job has arrived for a while.
    pub fn releases(&self, audio_open: bool, now: u64) -> (r: bool)
        ensures
            r == (audio_open && now - self.last_sound > AUDIO_IDLE_TIMEOUT
                && self.pending@.len() == 0),
            r <==> audio_open && now - self.last_sound > 30_000_000_000 && self.pending@.len() == 0,
    {
        audio_open && now > self.last_sound && now - self.last_sound > AUDIO_IDLE_TIMEOUT
            && self.pending.len() == 0
    }
}

proof fn insert_keeps_order(pending: Seq<Scheduled>, at: int, s: Scheduled)
    requires
        by_due(pending),
        0 <= at <= pending.len(),
        at > 0 ==> pending[at - 1].due < s.due,
        at < pending.len() ==> s.due <= pending[at].due,
    ensures
        by_due(pending.insert(at, s)),
{
    let r = pending.insert(at, s);
    assert forall|i: int, j: int| 0 <= i <= j < r.len() implies (#[trigger] r[i]).due <= (
    #[trigger] r[j]).due by {
        let a = if i < at {
            i
        } else {
            i - 1
        };
        let b = if j < at {
            j
        } else {
            j - 1
        };
        if i != at && j != at {
            assert(pending[a].due <= pending[b].due);
        } else if i == at && j > at {
            assert(pending[at].due <= pending[j - 1].due);
        } else if j == at && i < at {
            assert(pending[i].due <= pending[at - 1].due);
        }
    }
}

// ---------------------------------------------------------------------------------
// Laws
// ---------------------------------------------------------------------------------

/// What is taken at a moment is exactly what is due by then: everything taken was due, and
/// nothing left behind was.
pub proof fn taken_is_what_is_due(pending: Seq<Scheduled>, now: u64)
    requires
        by_due(pending),
    ensures
        0 <= due_count(pending, now) <= pending.len(),
        forall|i: int| 0 <= i < due_count(pending, now) ==> (#[trigger] pending[i]).due <= now,
        forall|i: int|
            due_count(pending, now) <= i < pending.len() ==> (#[trigger] pending[i]).due > now,
    decreases pending.len(),
{
    if pending.len() > 0 && pending.first().due <= now {
        let rest = pending.drop_first();
        assert(by_due(rest)) by {
            assert forall|i: int, j: int| 0 <= i <= j < rest.len() implies (
            #[trigger] rest[i]).due <= (#[trigger] rest[j]).due by {
                assert(pending[i + 1].due <= pending[j + 1].due);
            }
        }
        taken_is_what_is_due(rest, now);
        assert forall|i: int| 0 <= i < due_count(pending, now) implies (#[trigger] pending[i]).due
            <= now by {
            if i > 0 {
                assert(rest[i - 1].due <= now);
            }
        }
        assert forall|i: int| due_count(pending, now) <= i < pending.len() implies (
        #[trigger] pending[i]).due > now by {
            assert(rest[i - 1].due > now);
        }
    } else {
        assert forall|i: int| 0 <= i < pending.len() implies (#[trigger] pending[i]).due > now by {
            assert(pending[0].due <= pending[i].due);
        }
    }
}

/// Whatever the order in which jobs arrive, they wait in the order of their due times, and
/// none is lost.
pub proof fn arrival_order_does_not_matter(pending: Seq<Scheduled>, s: Scheduled)
    requires
        by_due(pending),
    ensures
        0 <= slot(pending, s.due) <= pending.len(),
        by_due(pending.insert(slot(pending, s.due), s)),
        pending.insert(slot(pending, s.due), s).to_multiset() == pending.to_multiset().insert(s),
{
    slot_separates(pending, s.due);
    let at = slot(pending, s.due);
    insert_keeps_order(pending, at, s);
    vstd::seq_lib::to_multiset_insert(pending, at, s);
    assert(pending.insert(at, s).to_multiset() =~= pending.to_multiset().insert(s));
}

proof fn slot_separates(pending: Seq<Scheduled>, due: u64)
    ensures
        0 <= slot(pending, due) <= pending.len(),
        slot(pending, due) > 0 ==> pending[slot(pending, due) - 1].due < due,
        slot(pending, due) < pending.len() ==> due <= pending[slot(pending, due)].due,
    decreases pending.len(),
{
    if pending.len() > 0 && pending.first().due < due {
        slot_separates(pending.drop_first(), due);
    }
}

/// A job waits behind everything due before it, and ahead of everything due with it or after.
pub proof fn waits_behind_the_earlier(pending: Seq<Scheduled>, due: u64)
    requires
        by_due(pending),
    ensures
        0 <= slot(pending, due) <= pending.len(),
        forall|i: int| 0 <= i < slot(pending, due) ==> (#[trigger] pending[i]).due < due,
        forall|i: int|
            slot(pending, due) <= i < pending.len() ==> (#[trigger] pending[i]).due >= due,
{
    slot_separates(pending, due);
    let at = slot(pending, due);
    assert forall|i: int| 0 <= i < at implies (#[trigger] pending[i]).due < due by {
        assert(pending[i].due <= pending[at - 1].due);
    }
    assert forall|i: int| at <= i < pending.len() implies (#[trigger] pending[i]).due >= due by {
        assert(pending[at].due <= pending[i].due);
    }
}

} // verus!
