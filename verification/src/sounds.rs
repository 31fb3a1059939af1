//! Which sound to play.
use vstd::prelude::*;

use crate::config::SoundOrder;
use crate::paths::{
    components, extension, extension_follows_the_last_dot, extension_of, no_dot_no_extension,
    plain_name, same_path,
};
use crate::text::{
    chars, is_str, lowered, maybe, owned, same_ignoring_case, sort, sorted, texts, to_lowered,
};

verus! {

// ---------------------------------------------------------------------------------
// Finding the files
// ---------------------------------------------------------------------------------

/// The extensions of the audio files the decoder understands.
pub open spec fn audio_extension(e: Seq<char>) -> bool {
    ||| e == "wav"@
    ||| e == "mp3"@
    ||| e == "ogg"@
    ||| e == "flac"@
    ||| e == "aiff"@
    ||| e == "aif"@
    ||| e == "aifc"@
    ||| e == "caf"@
    ||| e == "m4a"@
    ||| e == "aac"@
    ||| e == "alac"@
}

/// Whether a path names an audio file, by its extension in any case.
pub open spec fn audio_path(path: Seq<char>) -> bool {
    match extension_of(path) {
        Some(e) => audio_extension(lowered(e)),
        None => false,
    }
}

/// Whether a path names an audio file.
pub fn is_audio(path: &str) -> (r: bool)
    ensures
        r == audio_path(path@),
{
    let v: Vec<char> = chars(path);
    match extension(v.as_slice()) {
        Some(e) => {
            let low: Vec<char> = to_lowered(e);
            let l = low.as_slice();
            is_str(l, "wav") || is_str(l, "mp3") || is_str(l, "ogg") || is_str(l, "flac") || is_str(
                l,
                "aiff",
            ) || is_str(l, "aif") || is_str(l, "aifc") || is_str(l, "caf") || is_str(l, "m4a")
                || is_str(l, "aac") || is_str(l, "alac")
        },
        None => false,
    }
}

/// What stands directly inside a directory.
#[derive(Debug, PartialEq, Eq)]
pub struct Child {
    pub path: String,
    pub is_file: bool,
}

/// What a configured entry turned out to be.
#[derive(Debug, PartialEq, Eq)]
pub enum Entry {
    /// Neither a file nor a directory that can be read.
    Missing,
    File,
    Directory(Vec<Child>),
}

/// The audio files among the first `n` of a directory's children.
pub open spec fn audio_among(children: Seq<Child>, n: int) -> Seq<Seq<char>>
    decreases n,
{
    if n <= 0 {
        Seq::empty()
    } else if children[n - 1].is_file && audio_path(children[n - 1].path@) {
        audio_among(children, n - 1).push(children[n - 1].path@)
    } else {
        audio_among(children, n - 1)
    }
}

/// Expand one configured entry into the files it refers to.
///
/// A directory becomes every audio file directly inside it, sorted so the order is stable
/// across restarts.
pub fn resolve_sounds(path: &str, entry: &Entry) -> (r: Vec<String>)
    ensures
        match entry {
            Entry::Missing => r@.len() == 0,
            Entry::File => texts(r@) == seq![path@],
            Entry::Directory(children) => sorted(texts(r@)) && texts(r@).to_multiset()
                == audio_among(children@, children@.len() as int).to_multiset(),
        },
{
    match entry {
        Entry::Missing => Vec::new(),
        Entry::File => {
            let mut r: Vec<String> = Vec::new();
            r.push(owned(path));
            proof {
                assert(texts(r@) =~= seq![path@]);
            }
            r
        },
        Entry::Directory(children) => {
            let mut found: Vec<String> = Vec::new();
            let n: usize = children.len();
            proof {
                assert(texts(found@) =~= Seq::<Seq<char>>::empty());
            }
            for i in 0..n
                invariant
                    n == children@.len(),
                    texts(found@) == audio_among(children@, i as int),
            {
                if children[i].is_file && is_audio(children[i].path.as_str()) {
                    let ghost was = texts(found@);
                    found.push(children[i].path.clone());
                    proof {
                        assert(texts(found@) =~= was.push(children@[i as int].path@));
                    }
                }
            }
            sort(found)
        },
    }
}

/// Whether a path is in a list, in whatever spelling.
pub open spec fn has_path(s: Seq<Seq<char>>, path: Seq<char>) -> bool {
    exists|i: int| 0 <= i < s.len() && components(#[trigger] s[i]) == components(path)
}

/// No two entries of a list are one path.
pub open spec fn paths_differ(s: Seq<Seq<char>>) -> bool {
    forall|i: int, j: int|
        0 <= i < j < s.len() ==> components(#[trigger] s[i]) != components(#[trigger] s[j])
}

/// The first occurrence of each path, in order and in the spelling it has there.
pub open spec fn distinct(s: Seq<Seq<char>>) -> Seq<Seq<char>>
    decreases s.len(),
{
    if s.len() == 0 {
        Seq::empty()
    } else {
        let r = distinct(s.drop_last());
        if has_path(r, s.last()) {
            r
        } else {
            r.push(s.last())
        }
    }
}

/// The texts of a list of lists, one list after the other.
pub open spec fn flat(lists: Seq<Seq<Seq<char>>>) -> Seq<Seq<char>>
    decreases lists.len(),
{
    if lists.len() == 0 {
        Seq::empty()
    } else {
        flat(lists.drop_last()) + lists.last()
    }
}

/// The texts of a list of lists of strings.
pub open spec fn lists_of(v: Seq<Vec<String>>) -> Seq<Seq<Seq<char>>> {
    Seq::new(v.len(), |i: int| texts(v[i]@))
}

/// Whether a path is in a list, in whatever spelling.
pub fn holds_path(v: &Vec<String>, path: &str) -> (r: bool)
    ensures
        r == has_path(texts(v@), path@),
{
    let n: usize = v.len();
    for i in 0..n
        invariant
            n == v@.len(),
            forall|k: int|
                0 <= k < i ==> components(#[trigger] texts(v@)[k]) != components(path@),
    {
        if same_path(v[i].as_str(), path) {
            proof {
                assert(components(texts(v@)[i as int]) == components(path@));
            }
            return true;
        }
    }
    false
}

/// The files that will actually play: those of each configured entry in turn.
///
/// Entries are kept in the order given, with duplicates removed, so sequential playback
/// follows the list as displayed.
pub fn playlist(resolved: &Vec<Vec<String>>) -> (r: Vec<String>)
    ensures
        texts(r@) == distinct(flat(lists_of(resolved@))),
{
    let mut out: Vec<String> = Vec::new();
    let n: usize = resolved.len();
    let ghost lists = lists_of(resolved@);
    proof {
        assert(texts(out@) =~= Seq::<Seq<char>>::empty());
        assert(lists.take(0) =~= Seq::<Seq<Seq<char>>>::empty());
        assert(flat(lists.take(0)) =~= Seq::<Seq<char>>::empty());
    }
    for i in 0..n
        invariant
            n == resolved@.len(),
            lists == lists_of(resolved@),
            texts(out@) == distinct(flat(lists.take(i as int))),
    {
        let files: &Vec<String> = &resolved[i];
        let m: usize = files.len();
        let ghost before = flat(lists.take(i as int));
        let ghost here = lists[i as int];
        proof {
            assert(before + here.take(0) =~= before);
        }
        for j in 0..m
            invariant
                m == files@.len(),
                here == texts(files@),
                texts(out@) == distinct(before + here.take(j as int)),
        {
            let ghost upto = before + here.take(j as int);
            let ghost was = texts(out@);
            proof {
                let next = before + here.take(j as int + 1);
                assert(next.drop_last() =~= upto);
                assert(next.last() == files@[j as int]@);
            }
            if !holds_path(&out, files[j].as_str()) {
                out.push(files[j].clone());
                proof {
                    assert(texts(out@) =~= was.push(files@[j as int]@));
                }
            }
        }
        proof {
            assert(here.take(m as int) =~= here);
            assert(lists.take(i as int + 1).drop_last() =~= lists.take(i as int));
            assert(lists.take(i as int + 1).last() == here);
        }
    }
    proof {
        assert(lists.take(n as int) =~= lists);
    }
    out
}

// ---------------------------------------------------------------------------------
// Choosing one
// ---------------------------------------------------------------------------------

/// What the choice depends on besides the list.
#[verifier::ext_equal]
pub struct Chooser {
    /// Position in the playlist for sequential order.
    pub rotation: usize,
    /// State for random order.
    pub rng: u64,
    /// The last pick.
    pub last: Option<Seq<char>>,
}

/// The state of the generator after one step of xorshift64.
pub open spec fn stepped(rng: u64) -> u64 {
    let a = rng ^ (rng >> 12);
    let b = a ^ (a << 25);
    b ^ (b >> 27)
}

/// The number drawn from a state: the upper 31 bits of its product with a constant, modulo
/// two to the power of 64.
pub open spec fn drawn(rng: u64) -> int {
    (rng * 0x2545F4914F6CDD1D) % 0x1_0000_0000_0000_0000 / 0x2_0000_0000
}

/// Whether a path is the last pick, in whatever spelling.
pub open spec fn is_last(path: Seq<char>, last: Option<Seq<char>>) -> bool {
    last is Some && components(path) == components(last->0)
}

/// The paths other than `last`.
pub open spec fn others(s: Seq<Seq<char>>, last: Option<Seq<char>>) -> Seq<Seq<char>>
    decreases s.len(),
{
    if s.len() == 0 {
        Seq::empty()
    } else if is_last(s.last(), last) {
        others(s.drop_last(), last)
    } else {
        others(s.drop_last(), last).push(s.last())
    }
}

/// What random order draws from: everything but the last pick, where that leaves anything.
pub open spec fn pool(s: Seq<Seq<char>>, last: Option<Seq<char>>) -> Seq<Seq<char>> {
    if others(s, last).len() == 0 {
        s
    } else {
        others(s, last)
    }
}

/// Which of the candidates is played.
pub open spec fn choice(c: Chooser, candidates: Seq<Seq<char>>, order: SoundOrder) -> Option<
    Seq<char>,
> {
    if candidates.len() == 0 {
        None
    } else if candidates.len() == 1 {
        Some(candidates[0])
    } else {
        match order {
            SoundOrder::Sequential => Some(candidates[c.rotation as int % candidates.len() as int]),
            SoundOrder::Random => {
                let from = pool(candidates, c.last);
                Some(from[drawn(stepped(c.rng)) % from.len() as int])
            },
        }
    }
}

/// What the next choice depends on.
pub open spec fn after_choice(c: Chooser, candidates: Seq<Seq<char>>, order: SoundOrder) -> Chooser {
    if candidates.len() <= 1 {
        c
    } else {
        match order {
            SoundOrder::Sequential => Chooser {
                rotation: if c.rotation == usize::MAX {
                    0
                } else {
                    (c.rotation + 1) as usize
                },
                last: choice(c, candidates, order),
                ..c
            },
            SoundOrder::Random => Chooser {
                rng: stepped(c.rng),
                last: choice(c, candidates, order),
                ..c
            },
        }
    }
}

/// Picks sounds.
#[derive(Debug, PartialEq, Eq)]
pub struct Picker {
    pub rotation: usize,
    pub rng: u64,
    pub last_pick: Option<String>,
}

impl View for Picker {
    type V = Chooser;

    open spec fn view(&self) -> Chooser {
        Chooser { rotation: self.rotation, rng: self.rng, last: maybe(self.last_pick) }
    }
}

impl Picker {
    /// At the start of the list, with the generator seeded so that it is never stuck at
    /// zero.
    pub fn new(seed: u64) -> (r: Picker)
        ensures
            r@ == (Chooser { rotation: 0, rng: seed | 1, last: None }),
            r.rng != 0,
    {
        proof {
            assert(seed | 1 != 0) by (bit_vector);
        }
        Picker { rotation: 0, rng: seed | 1, last_pick: None }
    }

    /// xorshift64*, which is ample for choosing a sound effect.
    fn next_random(&mut self, bound: usize) -> (r: usize)
        ensures
            final(self).rng == stepped(old(self).rng),
            final(self).rotation == old(self).rotation,
            final(self).last_pick == old(self).last_pick,
            bound > 0 ==> r == drawn(final(self).rng) % bound as int,
            bound == 0 ==> r == 0,
    {
        self.rng = self.rng ^ (self.rng >> 12);
        self.rng = self.rng ^ (self.rng << 25);
        self.rng = self.rng ^ (self.rng >> 27);
        let product: u64 = self.rng.wrapping_mul(0x2545F4914F6CDD1D);
        let draw: u64 = product >> 33;
        proof {
            assert(product >> 33 == product / 0x2_0000_0000) by (bit_vector);
        }
        if bound == 0 {
            0
        } else {
            draw as usize % bound
        }
    }

    /// Choose which sound to play.
    pub fn pick_sound(&mut self, candidates: &Vec<String>, order: SoundOrder) -> (r: Option<String>)
        ensures
            maybe(r) == choice(old(self)@, texts(candidates@), order),
            final(self)@ == after_choice(old(self)@, texts(candidates@), order),
    {
        let n: usize = candidates.len();
        let ghost all = texts(candidates@);
        if n == 0 {
            return None;
        }
        if n == 1 {
            return Some(candidates[0].clone());
        }
        let chosen: String = match order {
            SoundOrder::Sequential => {
                let at: usize = self.rotation % n;
                self.rotation = self.rotation.wrapping_add(1);
                candidates[at].clone()
            },
            SoundOrder::Random => {
                // Draw from everything *except* the last pick. Uniform picking repeats
                // about 1 slap in n, which people hear as the randomness being broken
                // rather than as randomness.
                let rest: Vec<usize> = self.not_last(candidates);
                let m: usize = if rest.len() == 0 {
                    n
                } else {
                    rest.len()
                };
                let at: usize = self.next_random(m);
                if rest.len() == 0 {
                    candidates[at].clone()
                } else {
                    candidates[rest[at]].clone()
                }
            },
        };
        self.last_pick = Some(chosen.clone());
        Some(chosen)
    }

    /// The positions of the candidates other than the last pick.
    fn not_last(&self, candidates: &Vec<String>) -> (r: Vec<usize>)
        ensures
            r@.len() == others(texts(candidates@), maybe(self.last_pick)).len(),
            forall|k: int|
                0 <= k < r@.len() ==> (#[trigger] r@[k]) < candidates@.len()
                    && texts(candidates@)[r@[k] as int] == others(
                    texts(candidates@),
                    maybe(self.last_pick),
                )[k],
    {
        let n: usize = candidates.len();
        let ghost all = texts(candidates@);
        let ghost last = maybe(self.last_pick);
        let mut r: Vec<usize> = Vec::new();
        for i in 0..n
            invariant
                n == candidates@.len(),
                all == texts(candidates@),
                last == maybe(self.last_pick),
                r@.len() == others(all.take(i as int), last).len(),
                forall|k: int|
                    0 <= k < r@.len() ==> (#[trigger] r@[k]) < n && all[r@[k] as int] == others(
                        all.take(i as int),
                        last,
                    )[k],
        {
            proof {
                let next = all.take(i as int + 1);
                assert(next.drop_last() =~= all.take(i as int));
                assert(next.last() == candidates@[i as int]@);
            }
            let again: bool = match &self.last_pick {
                Some(p) => same_path(candidates[i].as_str(), p.as_str()),
                None => false,
            };
            if !again {
                r.push(i);
            }
        }
        proof {
            assert(all.take(n as int) =~= all);
        }
        r
    }
}

// ---------------------------------------------------------------------------------
// Laws
// ---------------------------------------------------------------------------------

/// A playlist holds every file once, in a spelling that was given, and no other.
pub proof fn playlist_has_no_duplicates(s: Seq<Seq<char>>, x: Seq<char>)
    ensures
        paths_differ(distinct(s)),
        has_path(distinct(s), x) <==> has_path(s, x),
        distinct(s).contains(x) ==> s.contains(x),
    decreases s.len(),
{
    if s.len() > 0 {
        let rest = s.drop_last();
        let r = distinct(rest);
        let all = distinct(s);
        playlist_has_no_duplicates(rest, x);
        if has_path(s, x) {
            let k = choose|k: int| 0 <= k < s.len() && components(#[trigger] s[k]) == components(x);
            if k < rest.len() {
                assert(components(rest[k]) == components(x));
            }
        }
        if has_path(rest, x) {
            let k = choose|k: int|
                0 <= k < rest.len() && components(#[trigger] rest[k]) == components(x);
            assert(components(s[k]) == components(x));
        }
        if rest.contains(x) {
            let k = choose|k: int| 0 <= k < rest.len() && rest[k] == x;
            assert(s[k] == x);
        }
        assert(s[s.len() - 1] == s.last());
        if has_path(r, s.last()) {
            if components(s.last()) == components(x) {
                let k = choose|k: int|
                    0 <= k < r.len() && components(#[trigger] r[k]) == components(s.last());
                assert(components(r[k]) == components(x));
            }
        } else {
            assert(all == r.push(s.last()));
            assert(all[r.len() as int] == s.last());
            if has_path(r, x) {
                let k = choose|k: int|
                    0 <= k < r.len() && components(#[trigger] r[k]) == components(x);
                assert(components(all[k]) == components(x));
            }
            if has_path(all, x) && components(x) != components(s.last()) {
                let k = choose|k: int|
                    0 <= k < all.len() && components(#[trigger] all[k]) == components(x);
                assert(components(r[k]) == components(x));
            }
            if all.contains(x) && x != s.last() {
                let k = choose|k: int| 0 <= k < all.len() && all[k] == x;
                assert(r[k] == x);
            }
            assert forall|i: int, j: int| 0 <= i < j < all.len() implies components(
                #[trigger] all[i],
            ) != components(#[trigger] all[j]) by {
                assert(all[i] == r[i]);
                if j < r.len() {
                    assert(all[j] == r[j]);
                }
            }
        }
    }
}

/// A playlist keeps the order given: listing more files only adds at its end.
pub proof fn playlist_keeps_order(s: Seq<Seq<char>>, more: Seq<Seq<char>>)
    ensures
        distinct(s).is_prefix_of(distinct(s + more)),
    decreases more.len(),
{
    if more.len() == 0 {
        assert(s + more =~= s);
    } else {
        playlist_keeps_order(s, more.drop_last());
        assert((s + more).drop_last() =~= s + more.drop_last());
        let a = distinct(s);
        let b = distinct(s + more.drop_last());
        let c = distinct(s + more);
        assert(c.take(a.len() as int) =~= b.take(a.len() as int));
    }
}

/// What is played is one of the candidates; a single one is played whatever the order.
pub proof fn choice_is_a_candidate(c: Chooser, candidates: Seq<Seq<char>>, order: SoundOrder)
    requires
        candidates.len() > 0,
    ensures
        choice(c, candidates, order) is Some,
        candidates.contains(choice(c, candidates, order)->0),
        candidates.len() == 1 ==> choice(c, candidates, order) == Some(candidates[0])
            && after_choice(c, candidates, order) == c,
{
    if candidates.len() == 1 {
        assert(candidates[0] == choice(c, candidates, order)->0);
    } else if order == SoundOrder::Sequential {
        let at = c.rotation as int % candidates.len() as int;
        assert(candidates[at] == choice(c, candidates, order)->0);
    } else {
        let from = pool(candidates, c.last);
        let at = drawn(stepped(c.rng)) % from.len() as int;
        assert(from[at] == choice(c, candidates, order)->0);
        if others(candidates, c.last).len() > 0 {
            others_are_members(candidates, c.last, at);
        }
    }
}

/// Sequential order walks the list and wraps: after candidate `i` comes the next one, and
/// after the last the first. The one exception is the pick at which the position itself
/// overflows.
pub proof fn sequential_walks_and_wraps(c: Chooser, candidates: Seq<Seq<char>>, i: int)
    requires
        candidates.len() >= 2,
        c.rotation < usize::MAX,
        i == c.rotation as int % candidates.len() as int,
    ensures
        choice(c, candidates, SoundOrder::Sequential) == Some(candidates[i]),
        choice(
            after_choice(c, candidates, SoundOrder::Sequential),
            candidates,
            SoundOrder::Sequential,
        ) == Some(candidates[if i + 1 == candidates.len() {
            0
        } else {
            i + 1
        }]),
{
    let n = candidates.len() as int;
    let r = c.rotation as int;
    let q = r / n;
    vstd::arithmetic::div_mod::lemma_fundamental_div_mod(r, n);
    if i + 1 < n {
        vstd::arithmetic::div_mod::lemma_fundamental_div_mod_converse(r + 1, n, q, i + 1);
    } else {
        assert(n * (q + 1) == n * q + n) by (nonlinear_arith);
        vstd::arithmetic::div_mod::lemma_fundamental_div_mod_converse(r + 1, n, q + 1, 0);
    }
}

/// Random order never plays the same sound twice running.
pub proof fn random_never_repeats(c: Chooser, candidates: Seq<Seq<char>>)
    requires
        candidates.len() >= 2,
        paths_differ(candidates),
    ensures
        choice(c, candidates, SoundOrder::Random) is Some,
        !is_last(choice(c, candidates, SoundOrder::Random)->0, c.last),
        after_choice(c, candidates, SoundOrder::Random).last == choice(
            c,
            candidates,
            SoundOrder::Random,
        ),
{
    let rest = others(candidates, c.last);
    if !is_last(candidates[0], c.last) {
        others_keep(candidates, c.last, 0);
    } else {
        assert(components(candidates[0]) != components(candidates[1]));
        others_keep(candidates, c.last, 1);
    }
    assert(rest.len() > 0);
    let at = drawn(stepped(c.rng)) % rest.len() as int;
    others_are_members(candidates, c.last, at);
}

proof fn others_are_members(s: Seq<Seq<char>>, last: Option<Seq<char>>, k: int)
    requires
        0 <= k < others(s, last).len(),
    ensures
        s.contains(others(s, last)[k]),
        !is_last(others(s, last)[k], last),
    decreases s.len(),
{
    let rest = s.drop_last();
    if k < others(rest, last).len() {
        others_are_members(rest, last, k);
        let x = others(rest, last)[k];
        let j = choose|j: int| 0 <= j < rest.len() && rest[j] == x;
        assert(s[j] == x);
    } else {
        assert(s[s.len() - 1] == s.last());
    }
}

proof fn others_keep(s: Seq<Seq<char>>, last: Option<Seq<char>>, i: int)
    requires
        0 <= i < s.len(),
        !is_last(s[i], last),
    ensures
        others(s, last).len() > 0,
    decreases s.len(),
{
    if i < s.len() - 1 {
        others_keep(s.drop_last(), last, i);
    }
}

/// A file is an audio file exactly when what follows the last dot of its name is one of the
/// eleven known extensions, in whatever case.
pub proof fn audio_goes_by_extension(head: Seq<char>, stem: Seq<char>, e: Seq<char>)
    requires
        head.len() == 0 || head.last() == '/',
        stem.len() > 0,
        e.len() > 0,
        !stem.contains('/'),
        !e.contains('/'),
        !e.contains('.'),
    ensures
        audio_path(head + (stem + seq!['.'] + e)) <==> {
            ||| same_ignoring_case(e, "wav"@)
            ||| same_ignoring_case(e, "mp3"@)
            ||| same_ignoring_case(e, "ogg"@)
            ||| same_ignoring_case(e, "flac"@)
            ||| same_ignoring_case(e, "aiff"@)
            ||| same_ignoring_case(e, "aif"@)
            ||| same_ignoring_case(e, "aifc"@)
            ||| same_ignoring_case(e, "caf"@)
            ||| same_ignoring_case(e, "m4a"@)
            ||| same_ignoring_case(e, "aac"@)
            ||| same_ignoring_case(e, "alac"@)
        },
{
    extension_follows_the_last_dot(head, stem, e);
    reveal_strlit("wav");
    reveal_strlit("mp3");
    reveal_strlit("ogg");
    reveal_strlit("flac");
    reveal_strlit("aiff");
    reveal_strlit("aif");
    reveal_strlit("aifc");
    reveal_strlit("caf");
    reveal_strlit("m4a");
    reveal_strlit("aac");
    reveal_strlit("alac");
    assert(lowered("wav"@) =~= "wav"@);
    assert(lowered("mp3"@) =~= "mp3"@);
    assert(lowered("ogg"@) =~= "ogg"@);
    assert(lowered("flac"@) =~= "flac"@);
    assert(lowered("aiff"@) =~= "aiff"@);
    assert(lowered("aif"@) =~= "aif"@);
    assert(lowered("aifc"@) =~= "aifc"@);
    assert(lowered("caf"@) =~= "caf"@);
    assert(lowered("m4a"@) =~= "m4a"@);
    assert(lowered("aac"@) =~= "aac"@);
    assert(lowered("alac"@) =~= "alac"@);
}

/// A name without an extension is no audio file.
pub proof fn no_extension_no_audio(head: Seq<char>, name: Seq<char>)
    requires
        head.len() == 0 || head.last() == '/',
        plain_name(name),
        forall|i: int| 0 < i < name.len() ==> #[trigger] name[i] != '.',
    ensures
        !audio_path(head + name),
{
    no_dot_no_extension(head, name);
}

/// A directory gives its audio files and nothing else: one more child is one more entry
/// exactly when it is a file with an audio file's name.
pub proof fn each_child_counts_for_itself(children: Seq<Child>, child: Child)
    ensures
        audio_among(Seq::<Child>::empty(), 0).len() == 0,
        audio_among(children.push(child), children.len() as int + 1) == (if child.is_file
            && audio_path(child.path@) {
            audio_among(children, children.len() as int).push(child.path@)
        } else {
            audio_among(children, children.len() as int)
        }),
{
    audio_of_prefix(children, children.push(child), children.len() as int);
}

proof fn audio_of_prefix(a: Seq<Child>, b: Seq<Child>, n: int)
    requires
        0 <= n <= a.len(),
        n <= b.len(),
        forall|i: int| 0 <= i < n ==> a[i] == b[i],
    ensures
        audio_among(a, n) == audio_among(b, n),
    decreases n,
{
    if n > 0 {
        audio_of_prefix(a, b, n - 1);
        assert(a[n - 1] == b[n - 1]);
    }
}

/// Lists follow one another as given, with nothing left out.
pub proof fn lists_follow_one_another(lists: Seq<Seq<Seq<char>>>, list: Seq<Seq<char>>)
    ensures
        flat(Seq::<Seq<Seq<char>>>::empty()).len() == 0,
        flat(lists.push(list)) == flat(lists) + list,
{
    assert(lists.push(list).drop_last() =~= lists);
}

/// A playlist takes a further file exactly when no spelling of it is in there yet, and then
/// at its end and as it is spelled.
pub proof fn a_new_file_goes_last(s: Seq<Seq<char>>, x: Seq<char>)
    ensures
        (forall|i: int| 0 <= i < s.len() ==> components(#[trigger] s[i]) != components(x))
            ==> distinct(s.push(x)) == distinct(s).push(x),
        (exists|i: int| 0 <= i < s.len() && components(#[trigger] s[i]) == components(x))
            ==> distinct(s.push(x)) == distinct(s),
{
    assert(s.push(x).drop_last() =~= s);
    playlist_has_no_duplicates(s, x);
    if exists|i: int| 0 <= i < s.len() && components(#[trigger] s[i]) == components(x) {
        assert(has_path(s, x));
    }
}

/// Random order may draw every candidate but the last pick, and only where that is all there
/// is the last pick again.
pub proof fn random_draws_from_the_rest(s: Seq<Seq<char>>, x: Seq<char>, last: Option<Seq<char>>)
    ensures
        others(Seq::<Seq<char>>::empty(), last).len() == 0,
        last is None ==> others(s.push(x), last) == others(s, last).push(x),
        last matches Some(l) ==> others(s.push(x), last) == (if components(x) == components(l) {
            others(s, last)
        } else {
            others(s, last).push(x)
        }),
        others(s, last).len() > 0 ==> pool(s, last) == others(s, last),
        others(s, last).len() == 0 ==> pool(s, last) == s,
{
    assert(s.push(x).drop_last() =~= s);
}

/// Of two or more candidates the one played is remembered. Sequential order moves its
/// position and not the generator, random order the generator and not the position. With
/// fewer there is no choice, and nothing moves.
pub proof fn choosing_moves_its_own_state(
    c: Chooser,
    candidates: Seq<Seq<char>>,
    order: SoundOrder,
)
    ensures
        candidates.len() == 0 ==> choice(c, candidates, order) is None,
        candidates.len() <= 1 ==> after_choice(c, candidates, order) == c,
        candidates.len() >= 2 ==> after_choice(c, candidates, order).last == choice(
            c,
            candidates,
            order,
        ),
        candidates.len() >= 2 && order is Sequential ==> {
            &&& after_choice(c, candidates, order).rng == c.rng
            &&& c.rotation < usize::MAX ==> after_choice(c, candidates, order).rotation
                == c.rotation + 1
            &&& c.rotation == usize::MAX ==> after_choice(c, candidates, order).rotation == 0
        },
        candidates.len() >= 2 && order is Random ==> {
            &&& after_choice(c, candidates, order).rotation == c.rotation
            &&& after_choice(c, candidates, order).rng == stepped(c.rng)
            &&& exists|k: int|
                0 <= k < pool(candidates, c.last).len() && choice(c, candidates, order) == Some(
                    #[trigger] pool(candidates, c.last)[k],
                )
        },
{
    if candidates.len() >= 2 && order is Random {
        let from = pool(candidates, c.last);
        let k = drawn(stepped(c.rng)) % from.len() as int;
        assert(choice(c, candidates, order) == Some(from[k]));
    }
}

/// The generator never gets stuck at zero, and no two states of it lead to the same one; a
/// draw has 31 bits.
pub proof fn generator_never_sticks(rng: u64, other: u64)
    ensures
        rng != 0 ==> stepped(rng) != 0,
        stepped(rng) == stepped(other) ==> rng == other,
        0 <= drawn(rng) < 0x8000_0000,
{
    assert(rng != 0 ==> {
        let a = rng ^ (rng >> 12);
        let b = a ^ (a << 25);
        b ^ (b >> 27)
    } != 0) by (bit_vector);
    assert({
        let a = rng ^ (rng >> 12);
        let b = a ^ (a << 25);
        b ^ (b >> 27)
    } == {
        let a = other ^ (other >> 12);
        let b = a ^ (a << 25);
        b ^ (b >> 27)
    } ==> rng == other) by (bit_vector);
}

/// The model of a picker shows what it holds.
pub proof fn a_picker_is_its_fields(p: Picker)
    ensures
        p@.rotation == p.rotation,
        p@.rng == p.rng,
        p@.last is Some <==> p.last_pick is Some,
        p.last_pick is Some ==> p@.last->0 == p.last_pick->0@,
{
}

/// One step of the generator in plain arithmetic: three times it is combined with itself, as
/// divided by two to the power of 12, multiplied by that of 25, and divided by that of 27. A
/// draw is its product with a constant, modulo two to the power of 64, in units of that of 33.
pub proof fn a_step_in_plain_arithmetic(rng: u64, a: u64, up: u64, b: u64)
    requires
        a == rng ^ (rng / 0x1000),
        up == (a * 0x200_0000) % 0x1_0000_0000_0000_0000,
        b == a ^ up,
    ensures
        stepped(rng) == b ^ (b / 0x800_0000),
        ({
            let product = (rng * 0x2545F4914F6CDD1D) % 0x1_0000_0000_0000_0000;
            drawn(rng) * 0x2_0000_0000 <= product < (drawn(rng) + 1) * 0x2_0000_0000
        }),
{
    assert(rng >> 12 == rng / 0x1000) by (bit_vector);
    assert(a << 25 == (a * 0x200_0000) % 0x1_0000_0000_0000_0000) by (bit_vector);
    assert(b >> 27 == b / 0x800_0000) by (bit_vector);
}

} // verus!
