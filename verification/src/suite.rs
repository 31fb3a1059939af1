//! The fixture corpus: what is recorded, and what each recording should contain.
//!
//! The detector is only as good as the negatives it was tested against. Positives are easy
//! to come by; what actually determines whether this is usable is whether typing, trackpad
//! clicks and setting a mug down next to the laptop stay silent.
use vstd::prelude::*;

use crate::paths::{join, joined};
use crate::text::{
    chars, contains, eq_ignoring_case, holds, occurs_at, put, same_ignoring_case, string, trim,
    trimmed,
};

verus! {

/// How long every recording is, in seconds.
pub const TAKE_SECS: u32 = 30;

/// One recording in the corpus.
#[derive(Debug, Clone, Copy, PartialEq, Eq)]
pub struct Take {
    pub label: &'static str,
    /// How many slaps this take should contain — 0 for every negative.
    pub expect: usize,
    pub prompt: &'static str,
}

/// The labels of the corpus with what each expects and asks for. Negatives first: it is more useful to
/// discover the detector fires on typing before spending effort on how well it catches
/// slaps.
pub open spec fn corpus() -> Seq<(Seq<char>, usize, Seq<char>)> {
    seq![
        (
            "idle"@,
            0usize,
            "Don't touch the laptop at all."@,
        ),
        (
            "typing"@,
            0usize,
            "Type normally on the built-in keyboard, including some hard keypresses."@,
        ),
        (
            "trackpad"@,
            0usize,
            "Click and force-click the trackpad, scroll, drag."@,
        ),
        (
            "desk-bump"@,
            0usize,
            "Bump the DESK (not the laptop): set a mug down, knock the surface nearby."@,
        ),
        (
            "lid-and-ports"@,
            0usize,
            "Adjust the screen angle, plug/unplug a cable, nudge the laptop's position."@,
        ),
        (
            "spank-gentle"@,
            10usize,
            "Spank the lid GENTLY 10 times, about one every 3 seconds."@,
        ),
        (
            "spank-medium"@,
            10usize,
            "Spank the lid at NORMAL strength 10 times, about one every 3 seconds."@,
        ),
        (
            "spank-hard"@,
            10usize,
            "Spank the lid HARD 10 times, about one every 3 seconds."@,
        ),
        (
            "spank-side"@,
            10usize,
            "Spank the SIDE / palm rest 10 times, about one every 3 seconds."@,
        ),
    ]
}

/// The labels of a list of takes with what each expects and asks for.
pub open spec fn labels_of(takes: Seq<Take>) -> Seq<(Seq<char>, usize, Seq<char>)> {
    Seq::new(takes.len(), |i: int| (takes[i].label@, takes[i].expect, takes[i].prompt@))
}

/// Every recording in the corpus.
pub fn all_takes() -> (r: Vec<Take>)
    ensures
        labels_of(r@) == corpus(),
        r@.len() == 9,
        r@[0].label@ == "idle"@ && r@[0].expect == 0,
        r@[1].label@ == "typing"@ && r@[1].expect == 0,
        r@[2].label@ == "trackpad"@ && r@[2].expect == 0,
        r@[3].label@ == "desk-bump"@ && r@[3].expect == 0,
        r@[4].label@ == "lid-and-ports"@ && r@[4].expect == 0,
        r@[5].label@ == "spank-gentle"@ && r@[5].expect == 10,
        r@[6].label@ == "spank-medium"@ && r@[6].expect == 10,
        r@[7].label@ == "spank-hard"@ && r@[7].expect == 10,
        r@[8].label@ == "spank-side"@ && r@[8].expect == 10,
{
    let mut r: Vec<Take> = Vec::new();
    r.push(Take { label: "idle", expect: 0, prompt: "Don't touch the laptop at all." });
    r.push(
        Take {
            label: "typing",
            expect: 0,
            prompt: "Type normally on the built-in keyboard, including some hard keypresses.",
        },
    );
    r.push(
        Take {
            label: "trackpad",
            expect: 0,
            prompt: "Click and force-click the trackpad, scroll, drag.",
        },
    );
    r.push(
        Take {
            label: "desk-bump",
            expect: 0,
            prompt: "Bump the DESK (not the laptop): set a mug down, knock the surface nearby.",
        },
    );
    r.push(
        Take {
            label: "lid-and-ports",
            expect: 0,
            prompt: "Adjust the screen angle, plug/unplug a cable, nudge the laptop's position.",
        },
    );
    r.push(
        Take {
            label: "spank-gentle",
            expect: 10,
            prompt: "Spank the lid GENTLY 10 times, about one every 3 seconds.",
        },
    );
    r.push(
        Take {
            label: "spank-medium",
            expect: 10,
            prompt: "Spank the lid at NORMAL strength 10 times, about one every 3 seconds.",
        },
    );
    r.push(
        Take {
            label: "spank-hard",
            expect: 10,
            prompt: "Spank the lid HARD 10 times, about one every 3 seconds.",
        },
    );
    r.push(
        Take {
            label: "spank-side",
            expect: 10,
            prompt: "Spank the SIDE / palm rest 10 times, about one every 3 seconds.",
        },
    );
    proof {
        assert(labels_of(r@) =~= corpus());
    }
    r
}

/// Whether a label is asked for.
pub open spec fn asked_for(label: Seq<char>, only: Option<&str>) -> bool {
    match only {
        Some(o) => contains(label, o@),
        None => true,
    }
}

/// The takes asked for, among the first `n` of the corpus.
pub open spec fn chosen(takes: Seq<(Seq<char>, usize, Seq<char>)>, only: Option<&str>, n: int) -> Seq<
    (Seq<char>, usize, Seq<char>),
>
    decreases n,
{
    if n <= 0 {
        Seq::empty()
    } else if asked_for(takes[n - 1].0, only) {
        chosen(takes, only, n - 1).push(takes[n - 1])
    } else {
        chosen(takes, only, n - 1)
    }
}

/// The first `n` labels, separated by commas.
pub open spec fn listed(takes: Seq<(Seq<char>, usize, Seq<char>)>, n: int) -> Seq<char>
    decreases n,
{
    if n <= 0 {
        Seq::empty()
    } else if n == 1 {
        takes[0].0
    } else {
        listed(takes, n - 1) + ", "@ + takes[n - 1].0
    }
}

/// The takes whose label contains `only`, or all of them; an error that lists what there is
/// where none does.
pub fn takes(only: Option<&str>) -> (r: Result<Vec<Take>, String>)
    ensures
        match r {
            Ok(t) => labels_of(t@) == chosen(corpus(), only, 9) && t@.len() > 0,
            Err(e) => chosen(corpus(), only, 9).len() == 0 && e@ == "no take matches `"@ + (
            match only {
                Some(o) => o@,
                None => Seq::empty(),
            }) + "`. Available: "@ + listed(corpus(), 9),
        },
{
    let all: Vec<Take> = all_takes();
    let n: usize = all.len();
    let mut r: Vec<Take> = Vec::new();
    proof {
        assert(corpus().len() == 9);
        assert(labels_of(all@).len() == 9);
        assert(labels_of(r@) =~= Seq::<(Seq<char>, usize, Seq<char>)>::empty());
    }
    for i in 0..n
        invariant
            n == all@.len(),
            n == 9,
            labels_of(all@) == corpus(),
            labels_of(r@) == chosen(corpus(), only, i as int),
    {
        proof {
            assert(labels_of(all@)[i as int] == (
                all@[i as int].label@,
                all@[i as int].expect,
                all@[i as int].prompt@,
            ));
        }
        let keep: bool = match only {
            Some(o) => holds(all[i].label, o),
            None => true,
        };
        if keep {
            let ghost was = labels_of(r@);
            r.push(all[i]);
            proof {
                assert(labels_of(r@) =~= was.push(corpus()[i as int]));
            }
        }
    }
    if r.len() > 0 {
        return Ok(r);
    }
    let mut out: Vec<char> = chars("no take matches `");
    match only {
        Some(o) => {
            put(&mut out, o);
        },
        None => {},
    }
    proof {
        assert(out@ =~= "no take matches `"@ + (match only {
            Some(o) => o@,
            None => Seq::empty(),
        }));
    }
    put(&mut out, "`. Available: ");
    let ghost head = out@;
    proof {
        assert(head + listed(corpus(), 0) =~= head);
    }
    for i in 0..n
        invariant
            n == all@.len(),
            n == 9,
            labels_of(all@) == corpus(),
            out@ == head + listed(corpus(), i as int),
    {
        let ghost before = out@;
        proof {
            assert(labels_of(all@)[i as int] == (
                all@[i as int].label@,
                all@[i as int].expect,
                all@[i as int].prompt@,
            ));
        }
        if i > 0 {
            put(&mut out, ", ");
        }
        put(&mut out, all[i].label);
        proof {
            assert(out@ =~= head + listed(corpus(), i as int + 1));
        }
    }
    Err(string(out.as_slice()))
}

/// Whether the answer to "ready?" means go: anything but an `s` to skip.
pub fn ready(line: &str) -> (r: bool)
    ensures
        r == !same_ignoring_case(trimmed(line@), "s"@),
{
    let v: Vec<char> = chars(line);
    let s: Vec<char> = chars("s");
    !eq_ignoring_case(trim(v.as_slice()), s.as_slice())
}

/// Where a take is recorded to.
pub fn take_path(dir: &str, label: &str) -> (r: String)
    ensures
        r@ == joined(dir@, label@ + ".fixture.gz"@),
{
    let mut name: Vec<char> = chars(label);
    put(&mut name, ".fixture.gz");
    let name: String = string(name.as_slice());
    join(dir, name.as_str())
}

/// Asking for nothing in particular records the whole corpus.
pub proof fn without_filter_all(n: int)
    requires
        0 <= n <= 9,
    ensures
        chosen(corpus(), None, n) == corpus().take(n),
    decreases n,
{
    if n > 0 {
        without_filter_all(n - 1);
        assert(corpus().take(n) =~= corpus().take(n - 1).push(corpus()[n - 1]));
    } else {
        assert(corpus().take(0) =~= Seq::<(Seq<char>, usize, Seq<char>)>::empty());
    }
}

/// Nine recordings: five that hold no slap, and after them four that hold ten each.
pub proof fn negatives_come_first(i: int)
    ensures
        corpus().len() == 9,
        0 <= i < 5 ==> corpus()[i].1 == 0,
        5 <= i < 9 ==> corpus()[i].1 == 10,
{
}

/// A recording is chosen exactly when its label holds what is asked for, and the chosen ones
/// keep their order: one more recording is one more at the end, or none.
pub proof fn each_take_is_asked_for(
    takes: Seq<(Seq<char>, usize, Seq<char>)>,
    take: (Seq<char>, usize, Seq<char>),
    only: Option<&str>,
)
    ensures
        chosen(takes.push(take), only, takes.len() as int + 1) == (if only is None || contains(
            take.0,
            only->0@,
        ) {
            chosen(takes, only, takes.len() as int).push(take)
        } else {
            chosen(takes, only, takes.len() as int)
        }),
{
    chosen_of_prefix(takes, takes.push(take), only, takes.len() as int);
}

proof fn chosen_of_prefix(
    a: Seq<(Seq<char>, usize, Seq<char>)>,
    b: Seq<(Seq<char>, usize, Seq<char>)>,
    only: Option<&str>,
    n: int,
)
    requires
        0 <= n <= a.len(),
        n <= b.len(),
        forall|i: int| 0 <= i < n ==> a[i] == b[i],
    ensures
        chosen(a, only, n) == chosen(b, only, n),
    decreases n,
{
    if n > 0 {
        chosen_of_prefix(a, b, only, n - 1);
        assert(a[n - 1] == b[n - 1]);
    }
}

/// Every label stands in the list of what there is.
pub proof fn every_label_is_listed(takes: Seq<(Seq<char>, usize, Seq<char>)>, n: int, i: int)
    requires
        0 <= i < n <= takes.len(),
    ensures
        contains(listed(takes, n), takes[i].0),
    decreases n,
{
    let all = listed(takes, n);
    let label = takes[i].0;
    if n == 1 {
        assert(all.subrange(0, all.len() as int) =~= all);
        assert(occurs_at(all, label, 0));
    } else if i == n - 1 {
        let at = all.len() - label.len();
        assert(all.subrange(at, all.len() as int) =~= label);
        assert(occurs_at(all, label, at));
    } else {
        every_label_is_listed(takes, n - 1, i);
        let rest = listed(takes, n - 1);
        let at = choose|at: int| occurs_at(rest, label, at);
        assert(all.subrange(at, at + label.len()) =~= rest.subrange(at, at + label.len()));
        assert(occurs_at(all, label, at));
    }
}

/// Labels are listed with a comma and a space between them.
pub proof fn labels_are_separated_by_commas(takes: Seq<(Seq<char>, usize, Seq<char>)>, n: int)
    requires
        0 < n < takes.len(),
    ensures
        listed(takes, 1) == takes[0].0,
        listed(takes, n + 1) == listed(takes, n) + ", "@ + takes[n].0,
{
}

} // verus!
