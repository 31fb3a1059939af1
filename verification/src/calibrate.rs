//! Recording a raw sensor trace: the rhythm, and where it came from.
use vstd::prelude::*;

use crate::meta::{insert_then_lookup, inserted, lookup, Entries, Meta};
use crate::scalar::Scalar64;
use crate::text::{chars, maybe, owned, put, string, trim, trimmed};

verus! {

/// How long a beat stays on screen, in nanoseconds.
pub const FLASH: u64 = 600_000_000;

/// A metronome for takes that need a known number of slaps.
///
/// Counting your own slaps while watching a terminal is exactly the kind of thing people
/// get wrong, and the count *is* the test assertion — so the recorder beats out the rhythm
/// and the person just follows it.
#[derive(Debug, Clone, Copy, PartialEq, Eq, Structural)]
pub struct Cue {
    pub count: usize,
}

/// The cue of a recording that expects slaps; none for one that expects none.
pub fn cue_for(expect: Option<usize>) -> (r: Option<Cue>)
    ensures
        r == (match expect {
            Some(n) => if n > 0 {
                Some(Cue { count: n })
            } else {
                None
            },
            None => None,
        }),
{
    match expect {
        Some(n) => if n > 0 {
            Some(Cue { count: n })
        } else {
            None
        },
        None => None,
    }
}

/// What the status line of a recording says.
#[derive(Debug, Clone, Copy, PartialEq, Eq, Structural)]
pub enum Line {
    /// There is no rhythm to follow.
    Prompt,
    /// A beat just struck.
    SlapNow,
    /// The next beat is still to come.
    NextBeat,
    /// Every beat has struck.
    Done,
}

/// Where a recording stands in its rhythm.
#[derive(Debug, Clone, Copy, PartialEq, Eq, Structural)]
pub struct Metronome {
    /// How many beats have struck.
    pub next_beat: usize,
    /// Until when the last beat stays on screen, in nanoseconds.
    pub flash_until: Option<u64>,
}

impl Metronome {
    /// Before the first beat.
    pub fn new() -> (r: Metronome)
        ensures
            r == (Metronome { next_beat: 0, flash_until: None }),
    {
        Metronome { next_beat: 0, flash_until: None }
    }

    /// Whether the next beat strikes: `elapsed` is the time into the recording in seconds,
    /// `now` the clock in nanoseconds.
    pub fn tick(&mut self, beats: &Vec<Scalar64>, elapsed: Scalar64, now: u64) -> (strikes: bool)
        requires
            now + FLASH <= u64::MAX,
        ensures
            strikes == (old(self).next_beat < beats@.len() && beats@[old(
                self,
            ).next_beat as int].at_most(elapsed)),
            *final(self) == (if strikes {
                Metronome {
                    next_beat: (old(self).next_beat + 1) as usize,
                    flash_until: Some((now + FLASH) as u64),
                }
            } else {
                *old(self)
            }),
            strikes ==> final(self).flash_until == Some((now + 600_000_000) as u64),
            strikes <==> old(self).next_beat < beats@.len() && !elapsed.nan() && !beats@[old(
                self,
            ).next_beat as int].nan() && beats@[old(self).next_beat as int].value()
                <= elapsed.value(),
    {
        if self.next_beat < beats.len() && beats[self.next_beat].le(elapsed) {
            self.next_beat = self.next_beat + 1;
            self.flash_until = Some(now + FLASH);
            true
        } else {
            false
        }
    }

    /// What the status line says.
    pub fn line(&self, beats: usize, now: u64) -> (r: Line)
        ensures
            r == (if beats == 0 {
                Line::Prompt
            } else if self.flash_until is Some && self.flash_until->0 > now {
                Line::SlapNow
            } else if self.next_beat < beats {
                Line::NextBeat
            } else {
                Line::Done
            }),
    {
        if beats == 0 {
            return Line::Prompt;
        }
        match self.flash_until {
            Some(t) => if t > now {
                return Line::SlapNow;
            },
            None => {},
        }
        if self.next_beat < beats {
            Line::NextBeat
        } else {
            Line::Done
        }
    }
}

/// The value a system query printed, if it printed any.
pub fn sysctl_value(printed: Option<&str>) -> (r: Option<String>)
    ensures
        maybe(r) == (match printed {
            Some(s) => if trimmed(s@).len() > 0 {
                Some(trimmed(s@))
            } else {
                None
            },
            None => None,
        }),
{
    match printed {
        Some(s) => {
            let v: Vec<char> = chars(s);
            let t = trim(v.as_slice());
            if t.len() > 0 {
                Some(string(t))
            } else {
                None
            }
        },
        None => None,
    }
}

/// A table with a value under a name, where there is a value.
pub open spec fn noted(m: Entries, name: Seq<char>, value: Option<Seq<char>>) -> Entries {
    match value {
        Some(v) => inserted(m, name, v),
        None => m,
    }
}

/// Provenance for the fixture header, so a trace recorded on one machine is identifiable
/// when it later fails on another.
pub fn machine_metadata(model: Option<String>, cpu: Option<String>) -> (r: Meta)
    ensures
        r@ == noted(noted(Entries::empty(), "model"@, maybe(model)), "cpu"@, maybe(cpu)),
        r.valid(),
        lookup(r@, "model"@) == maybe(model),
        lookup(r@, "cpu"@) == maybe(cpu),
        forall|name: Seq<char>| name != "model"@ && name != "cpu"@ ==> lookup(r@, name) is None,
{
    proof {
        reveal_strlit("model");
        reveal_strlit("cpu");
        assert("model"@.len() != "cpu"@.len());
        let none = Entries::empty();
        let first = noted(none, "model"@, maybe(model));
        if let Some(v) = maybe(model) {
            insert_then_lookup(none, "model"@, v, "cpu"@);
        }
        if let Some(v) = maybe(cpu) {
            insert_then_lookup(first, "cpu"@, v, "model"@);
        }
        assert forall|name: Seq<char>| name != "model"@ && name != "cpu"@ implies lookup(
            noted(first, "cpu"@, maybe(cpu)),
            name,
        ) is None by {
            if let Some(v) = maybe(model) {
                insert_then_lookup(none, "model"@, v, name);
            }
            if let Some(v) = maybe(cpu) {
                insert_then_lookup(first, "cpu"@, v, name);
            }
        }
    }
    let mut meta: Meta = Meta::new();
    match model {
        Some(v) => {
            meta.insert(owned("model"), v);
        },
        None => {},
    }
    match cpu {
        Some(v) => {
            meta.insert(owned("cpu"), v);
        },
        None => {},
    }
    meta
}

/// Where a recording goes when no place is named.
pub fn default_out(label: &str) -> (r: String)
    ensures
        r@ == "fixtures/"@ + label@ + ".fixture.gz"@,
{
    let mut out: Vec<char> = chars("fixtures/");
    put(&mut out, label);
    put(&mut out, ".fixture.gz");
    string(out.as_slice())
}

} // verus!
