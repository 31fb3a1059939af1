//! Character-level text: trimming, searching, comparing, numerals.
//!
//! A string is modelled as the sequence of its characters. The functions here work on
//! slices of characters, so a parser can hand pieces on without copying them.
use vstd::prelude::*;
use vstd::slice::slice_subrange;

verus! {

// ---------------------------------------------------------------------------------
// Model
// ---------------------------------------------------------------------------------

/// The characters with the Unicode `White_Space` property.
pub open spec fn space(c: char) -> bool {
    ||| 0x09 <= c as u32 <= 0x0d
    ||| c as u32 == 0x20
    ||| c as u32 == 0x85
    ||| c as u32 == 0xa0
    ||| c as u32 == 0x1680
    ||| 0x2000 <= c as u32 <= 0x200a
    ||| c as u32 == 0x2028
    ||| c as u32 == 0x2029
    ||| c as u32 == 0x202f
    ||| c as u32 == 0x205f
    ||| c as u32 == 0x3000
}

/// `s` without its leading white space.
pub open spec fn trimmed_start(s: Seq<char>) -> Seq<char>
    decreases s.len(),
{
    if s.len() > 0 && space(s.first()) {
        trimmed_start(s.drop_first())
    } else {
        s
    }
}

/// `s` without its trailing white space.
pub open spec fn trimmed_end(s: Seq<char>) -> Seq<char>
    decreases s.len(),
{
    if s.len() > 0 && space(s.last()) {
        trimmed_end(s.drop_last())
    } else {
        s
    }
}

/// `s` without the white space around it.
pub open spec fn trimmed(s: Seq<char>) -> Seq<char> {
    trimmed_end(trimmed_start(s))
}

/// Whether `part` stands in `s` at position `at`.
pub open spec fn occurs_at(s: Seq<char>, part: Seq<char>, at: int) -> bool {
    &&& 0 <= at
    &&& at + part.len() <= s.len()
    &&& s.subrange(at, at + part.len()) == part
}

/// Whether `part` stands anywhere in `s`.
pub open spec fn contains(s: Seq<char>, part: Seq<char>) -> bool {
    exists|at: int| occurs_at(s, part, at)
}

/// Whether `at` is the first position at which `part` stands in `s`.
pub open spec fn first_at(s: Seq<char>, part: Seq<char>, at: int) -> bool {
    &&& occurs_at(s, part, at)
    &&& forall|k: int| 0 <= k < at ==> !occurs_at(s, part, k)
}

/// The first position at which `part` stands in `s`.
pub open spec fn position(s: Seq<char>, part: Seq<char>) -> Option<int> {
    if contains(s, part) {
        Some(choose|at: int| first_at(s, part, at))
    } else {
        None
    }
}

/// The characters of each string of a list.
pub open spec fn texts(v: Seq<String>) -> Seq<Seq<char>> {
    Seq::new(v.len(), |i: int| v[i]@)
}

/// The characters of an optional string.
pub open spec fn maybe(s: Option<String>) -> Option<Seq<char>> {
    match s {
        Some(s) => Some(s@),
        None => None,
    }
}

/// Position of the first `c` in `s` at or after `from`, or the length of `s`.
pub open spec fn next_char(s: Seq<char>, c: char, from: int) -> int
    decreases s.len() - from,
{
    if from < 0 || from >= s.len() {
        s.len() as int
    } else if s[from] == c {
        from
    } else {
        next_char(s, c, from + 1)
    }
}

/// The pieces of `s` between the occurrences of `c`.
pub open spec fn split(s: Seq<char>, c: char) -> Seq<Seq<char>>
    decreases s.len(),
{
    let at = next_char(s, c, 0);
    if 0 <= at < s.len() {
        seq![s.subrange(0, at)] + split(s.subrange(at + 1, s.len() as int), c)
    } else {
        seq![s]
    }
}

/// The ASCII lower-case form of a character; any other character is itself.
pub open spec fn lower(c: char) -> char {
    if 'A' <= c <= 'Z' {
        ((c as u32 + 32) as u32) as char
    } else {
        c
    }
}

/// The ASCII upper-case form of a character; any other character is itself.
pub open spec fn upper(c: char) -> char {
    if 'a' <= c <= 'z' {
        ((c as u32 - 32) as u32) as char
    } else {
        c
    }
}

pub open spec fn lowered(s: Seq<char>) -> Seq<char> {
    Seq::new(s.len(), |i: int| lower(s[i]))
}

/// Equality that ignores the case of ASCII letters.
pub open spec fn same_ignoring_case(a: Seq<char>, b: Seq<char>) -> bool {
    lowered(a) == lowered(b)
}

/// Strict lexicographic order by code point, which is the byte order of UTF-8 text.
pub open spec fn less(a: Seq<char>, b: Seq<char>) -> bool
    decreases a.len(),
{
    if b.len() == 0 {
        false
    } else if a.len() == 0 {
        true
    } else if a.first() != b.first() {
        (a.first() as u32) < (b.first() as u32)
    } else {
        less(a.drop_first(), b.drop_first())
    }
}

// ---------------------------------------------------------------------------------
// Strings and characters
// ---------------------------------------------------------------------------------

/// `String::push` appends the character at the end.
pub assume_specification[ String::push ](s: &mut String, c: char)
    ensures
        final(s)@ == old(s)@.push(c),
;

/// The characters of `s`.
pub fn chars(s: &str) -> (r: Vec<char>)
    ensures
        r@ == s@,
{
    let mut r: Vec<char> = Vec::new();
    for c in it: s.chars()
        invariant
            it.seq() == s@,
            r@ == s@.take(it.index() as int),
    {
        proof {
            assert(s@.take(it.index() as int + 1) =~= s@.take(it.index() as int).push(c));
        }
        r.push(c);
    }
    proof {
        assert(s@.take(s@.len() as int) =~= s@);
    }
    r
}

/// The string made of the characters `v`.
pub fn string(v: &[char]) -> (r: String)
    ensures
        r@ == v@,
{
    let mut r: String = String::new();
    let n: usize = v.len();
    for i in 0..n
        invariant
            n == v@.len(),
            r@ == v@.take(i as int),
    {
        proof {
            assert(v@.take(i as int + 1) =~= v@.take(i as int).push(v@[i as int]));
        }
        r.push(v[i]);
    }
    proof {
        assert(v@.take(n as int) =~= v@);
    }
    r
}

/// A string of its own with the characters of `s`.
pub fn owned(s: &str) -> (r: String)
    ensures
        r@ == s@,
{
    let v: Vec<char> = chars(s);
    string(v.as_slice())
}

/// A copy of a list of strings.
pub fn copy_texts(v: &Vec<String>) -> (r: Vec<String>)
    ensures
        texts(r@) == texts(v@),
{
    let mut r: Vec<String> = Vec::new();
    let n: usize = v.len();
    for i in 0..n
        invariant
            n == v@.len(),
            r@.len() == i,
            forall|k: int| 0 <= k < i ==> (#[trigger] r@[k])@ == v@[k]@,
    {
        r.push(v[i].clone());
    }
    proof {
        assert(texts(r@) =~= texts(v@));
    }
    r
}

/// A copy of an optional string.
pub fn copy_maybe(s: &Option<String>) -> (r: Option<String>)
    ensures
        maybe(r) == maybe(*s),
{
    match s {
        Some(s) => Some(s.clone()),
        None => None,
    }
}

/// Appends the characters of `s`.
pub fn put(out: &mut Vec<char>, s: &str)
    ensures
        final(out)@ == old(out)@ + s@,
{
    let v: Vec<char> = chars(s);
    put_chars(out, v.as_slice());
}

/// Appends the characters `s`.
pub fn put_chars(out: &mut Vec<char>, s: &[char])
    ensures
        final(out)@ == old(out)@ + s@,
{
    let n: usize = s.len();
    for i in 0..n
        invariant
            n == s@.len(),
            out@ == old(out)@ + s@.take(i as int),
    {
        out.push(s[i]);
        proof {
            assert(out@ =~= old(out)@ + s@.take(i as int + 1));
        }
    }
    proof {
        assert(s@.take(n as int) =~= s@);
    }
}

/// Whether two slices hold the same characters.
pub fn same(a: &[char], b: &[char]) -> (r: bool)
    ensures
        r == (a@ == b@),
{
    if a.len() != b.len() {
        return false;
    }
    let n: usize = a.len();
    for i in 0..n
        invariant
            n == a@.len(),
            n == b@.len(),
            forall|k: int| 0 <= k < i ==> a@[k] == b@[k],
    {
        if a[i] != b[i] {
            return false;
        }
    }
    proof {
        assert(a@ =~= b@);
    }
    true
}

/// Whether the characters of `a` are those of the string `b`.
pub fn is_str(a: &[char], b: &str) -> (r: bool)
    ensures
        r == (a@ == b@),
{
    let v: Vec<char> = chars(b);
    same(a, v.as_slice())
}

/// Whether two strings are equal.
pub fn eq(a: &str, b: &str) -> (r: bool)
    ensures
        r == (a@ == b@),
{
    let v: Vec<char> = chars(a);
    is_str(v.as_slice(), b)
}

// ---------------------------------------------------------------------------------
// Trimming
// ---------------------------------------------------------------------------------

/// Whether `c` is white space.
pub fn is_space(c: char) -> (r: bool)
    ensures
        r == space(c),
{
    let u: u32 = c as u32;
    (0x09 <= u && u <= 0x0d) || u == 0x20 || u == 0x85 || u == 0xa0 || u == 0x1680 || (0x2000 <= u
        && u <= 0x200a) || u == 0x2028 || u == 0x2029 || u == 0x202f || u == 0x205f || u == 0x3000
}

/// Without leading and trailing white space.
pub fn trim<'a>(s: &'a [char]) -> (r: &'a [char])
    ensures
        r@ == trimmed(s@),
{
    let n: usize = s.len();
    let mut i: usize = 0;
    proof {
        assert(s@.subrange(0, n as int) =~= s@);
    }
    while i < n && is_space(s[i])
        invariant
            i <= n,
            n == s@.len(),
            trimmed_start(s@.subrange(i as int, n as int)) == trimmed_start(s@),
        decreases n - i,
    {
        proof {
            assert(s@.subrange(i as int, n as int).drop_first() =~= s@.subrange(
                i as int + 1,
                n as int,
            ));
        }
        i = i + 1;
    }
    let mut j: usize = n;
    let ghost start = s@.subrange(i as int, n as int);
    while i < j && is_space(s[j - 1])
        invariant
            i <= j <= n,
            n == s@.len(),
            trimmed_end(s@.subrange(i as int, j as int)) == trimmed_end(start),
        decreases j - i,
    {
        proof {
            assert(s@.subrange(i as int, j as int).drop_last() =~= s@.subrange(
                i as int,
                j as int - 1,
            ));
        }
        j = j - 1;
    }
    slice_subrange(s, i, j)
}

/// Without trailing white space.
pub fn trim_end<'a>(s: &'a [char]) -> (r: &'a [char])
    ensures
        r@ == trimmed_end(s@),
{
    let mut j: usize = s.len();
    proof {
        assert(s@.take(j as int) =~= s@);
    }
    while j > 0 && is_space(s[j - 1])
        invariant
            j <= s@.len(),
            trimmed_end(s@.take(j as int)) == trimmed_end(s@),
        decreases j,
    {
        proof {
            assert(s@.take(j as int).drop_last() =~= s@.take(j - 1));
        }
        j = j - 1;
    }
    let r = slice_subrange(s, 0, j);
    proof {
        assert(r@ =~= s@.take(j as int));
    }
    r
}

/// What is left after trimming neither starts nor ends with white space, and text that
/// already has neither is left as it is.
pub proof fn trimmed_ends(s: Seq<char>)
    ensures
        trimmed(s).len() <= s.len(),
        trimmed(s).len() > 0 ==> !space(trimmed(s).first()) && !space(trimmed(s).last()),
        s.len() > 0 && !space(s.first()) && !space(s.last()) ==> trimmed(s) == s,
        s.len() == 0 ==> trimmed(s) == s,
        trimmed(trimmed(s)) == trimmed(s),
{
    trimmed_start_ends(s);
    let t = trimmed_start(s);
    trimmed_end_ends(t);
    let u = trimmed_end(t);
    if u.len() > 0 {
        assert(u.first() == t.first());
        assert(trimmed_start(u) == u);
        assert(trimmed_end(u) == u);
    }
}

/// Nothing is left of a text exactly when all of it is white space.
pub proof fn blank_is_all_space(s: Seq<char>)
    ensures
        trimmed(s).len() > 0 <==> exists|i: int| 0 <= i < s.len() && !space(#[trigger] s[i]),
{
    trimmed_start_is_rest(s);
    let t = trimmed_start(s);
    trimmed_end_is_head(t);
    if exists|i: int| 0 <= i < s.len() && !space(#[trigger] s[i]) {
        let i = choose|i: int| 0 <= i < s.len() && !space(#[trigger] s[i]);
        let from = s.len() - t.len();
        assert(i >= from);
        assert(t[i - from] == s[i]);
    }
    if trimmed(s).len() > 0 {
        let u = trimmed_end(t);
        assert(!space(t[u.len() - 1]));
        assert(s[s.len() - t.len() + u.len() - 1] == t[u.len() - 1]);
    }
}

/// What is trimmed off the front is white space, and the rest starts with something else.
proof fn trimmed_start_is_rest(s: Seq<char>)
    ensures
        trimmed_start(s).len() <= s.len(),
        trimmed_start(s) == s.skip(s.len() - trimmed_start(s).len()),
        forall|i: int| 0 <= i < s.len() - trimmed_start(s).len() ==> space(#[trigger] s[i]),
        trimmed_start(s).len() > 0 ==> !space(trimmed_start(s).first()),
    decreases s.len(),
{
    if s.len() > 0 && space(s.first()) {
        let rest = s.drop_first();
        trimmed_start_is_rest(rest);
        let k = s.len() - trimmed_start(s).len();
        assert(rest.skip(k - 1) =~= s.skip(k));
        assert forall|i: int| 0 <= i < k implies space(#[trigger] s[i]) by {
            if i > 0 {
                assert(rest[i - 1] == s[i]);
            }
        }
    } else {
        assert(s.skip(0) =~= s);
    }
}

/// What is trimmed off the end is white space, and the rest ends in something else.
proof fn trimmed_end_is_head(s: Seq<char>)
    ensures
        trimmed_end(s).len() <= s.len(),
        trimmed_end(s) == s.take(trimmed_end(s).len() as int),
        forall|i: int| trimmed_end(s).len() <= i < s.len() ==> space(#[trigger] s[i]),
        trimmed_end(s).len() > 0 ==> !space(trimmed_end(s).last()),
    decreases s.len(),
{
    if s.len() > 0 && space(s.last()) {
        let rest = s.drop_last();
        trimmed_end_is_head(rest);
        let k = trimmed_end(s).len() as int;
        assert(rest.take(k) =~= s.take(k));
        assert forall|i: int| k <= i < s.len() implies space(#[trigger] s[i]) by {
            if i < rest.len() {
                assert(rest[i] == s[i]);
            }
        }
    } else {
        assert(s.take(s.len() as int) =~= s);
    }
}

/// Trimming takes white space from both ends and nothing else: what is left stands in the
/// text, with only white space around it, and itself neither starts nor ends with any.
pub proof fn trimming_takes_only_space(s: Seq<char>) -> (at: int)
    ensures
        0 <= at <= s.len() - trimmed(s).len(),
        trimmed(s) == s.subrange(at, at + trimmed(s).len()),
        forall|i: int| 0 <= i < at ==> space(#[trigger] s[i]),
        forall|i: int| at + trimmed(s).len() <= i < s.len() ==> space(#[trigger] s[i]),
        trimmed(s).len() > 0 ==> !space(trimmed(s).first()) && !space(trimmed(s).last()),
{
    trimmed_start_is_rest(s);
    let t = trimmed_start(s);
    trimmed_end_is_head(t);
    let u = trimmed_end(t);
    let at = s.len() - t.len();
    assert(u =~= s.subrange(at, at + u.len()));
    assert forall|i: int| at + u.len() <= i < s.len() implies space(#[trigger] s[i]) by {
        assert(t[i - at] == s[i]);
    }
    if u.len() > 0 {
        assert(u[0] == t[0]);
    }
    at
}

proof fn trimmed_start_ends(s: Seq<char>)
    ensures
        trimmed_start(s).len() <= s.len(),
        trimmed_start(s).len() > 0 ==> !space(trimmed_start(s).first()),
    decreases s.len(),
{
    if s.len() > 0 && space(s.first()) {
        trimmed_start_ends(s.drop_first());
    }
}

proof fn trimmed_end_ends(s: Seq<char>)
    ensures
        trimmed_end(s).len() <= s.len(),
        trimmed_end(s).len() > 0 ==> !space(trimmed_end(s).last()),
        trimmed_end(s).len() > 0 ==> trimmed_end(s).first() == s.first(),
        trimmed_end(s) == s.take(trimmed_end(s).len() as int),
    decreases s.len(),
{
    if s.len() > 0 && space(s.last()) {
        trimmed_end_ends(s.drop_last());
        assert(s.drop_last().take(trimmed_end(s).len() as int) =~= s.take(
            trimmed_end(s).len() as int,
        ));
    } else {
        assert(s.take(s.len() as int) =~= s);
    }
}

// ---------------------------------------------------------------------------------
// Searching
// ---------------------------------------------------------------------------------

/// Whether `part` stands in `s` at `at`.
pub fn stands_at(s: &[char], part: &[char], at: usize) -> (r: bool)
    ensures
        r == occurs_at(s@, part@, at as int),
{
    let m: usize = part.len();
    let n: usize = s.len();
    if n < m || n - m < at {
        return false;
    }
    let piece = slice_subrange(s, at, at + m);
    same(piece, part)
}

/// Whether `s` starts with `part`.
pub fn starts_with(s: &[char], part: &str) -> (r: bool)
    ensures
        r == part@.is_prefix_of(s@),
{
    let p: Vec<char> = chars(part);
    let r: bool = stands_at(s, p.as_slice(), 0);
    proof {
        assert(r == occurs_at(s@, part@, 0));
        if part@.len() <= s@.len() {
            assert(s@.take(part@.len() as int) =~= s@.subrange(0, part@.len() as int));
        }
    }
    r
}

/// The first position of `part` in `s`.
pub fn find(s: &[char], part: &[char]) -> (r: Option<usize>)
    ensures
        match r {
            Some(at) => first_at(s@, part@, at as int),
            None => !contains(s@, part@),
        },
{
    let n: usize = s.len();
    let m: usize = part.len();
    if n < m {
        return None;
    }
    let mut at: usize = 0;
    while at <= n - m
        invariant
            n == s@.len(),
            m == part@.len(),
            m <= n,
            at <= n - m + 1,
            forall|k: int| 0 <= k < at ==> !occurs_at(s@, part@, k),
        decreases n - m + 1 - at,
    {
        if stands_at(s, part, at) {
            return Some(at);
        }
        if at == n - m {
            return None;
        }
        at = at + 1;
    }
    None
}

/// There is one first position.
pub proof fn position_is(s: Seq<char>, part: Seq<char>, at: int)
    requires
        first_at(s, part, at),
    ensures
        position(s, part) == Some(at),
{
    assert(occurs_at(s, part, at));
    let k = choose|k: int| first_at(s, part, k);
    assert(first_at(s, part, k));
    if k < at {
        assert(!occurs_at(s, part, k));
    } else if at < k {
        assert(!occurs_at(s, part, at));
    }
}

/// Where `part` stands in `s` at all, there is a first position.
pub proof fn position_exists(s: Seq<char>, part: Seq<char>, from: int)
    requires
        occurs_at(s, part, from),
    ensures
        position(s, part) is Some,
        first_at(s, part, position(s, part)->0),
        position(s, part)->0 <= from,
    decreases from,
{
    if exists|k: int| 0 <= k < from && occurs_at(s, part, k) {
        let k = choose|k: int| 0 <= k < from && occurs_at(s, part, k);
        position_exists(s, part, k);
    } else {
        assert(first_at(s, part, from));
        position_is(s, part, from);
    }
}

/// Whether `part` stands anywhere in `s`.
pub fn holds(s: &str, part: &str) -> (r: bool)
    ensures
        r == contains(s@, part@),
{
    let a: Vec<char> = chars(s);
    let b: Vec<char> = chars(part);
    match find(a.as_slice(), b.as_slice()) {
        Some(at) => {
            proof {
                assert(occurs_at(s@, part@, at as int));
            }
            true
        },
        None => false,
    }
}

/// The first position of `c` in `s` at or after `from`, or the length of `s`.
pub fn find_char(s: &[char], c: char, from: usize) -> (r: usize)
    requires
        from <= s@.len(),
    ensures
        r == next_char(s@, c, from as int),
        from <= r <= s@.len(),
        r < s@.len() ==> s@[r as int] == c,
        forall|k: int| from <= k < r ==> s@[k] != c,
{
    let n: usize = s.len();
    let mut i: usize = from;
    while i < n
        invariant
            n == s@.len(),
            from <= i <= n,
            next_char(s@, c, from as int) == next_char(s@, c, i as int),
            forall|k: int| from <= k < i ==> s@[k] != c,
        decreases n - i,
    {
        if s[i] == c {
            return i;
        }
        i = i + 1;
    }
    n
}

/// `next_char` finds the first occurrence and nothing before it.
pub proof fn next_char_first(s: Seq<char>, c: char, from: int)
    requires
        0 <= from <= s.len(),
    ensures
        from <= next_char(s, c, from) <= s.len(),
        next_char(s, c, from) < s.len() ==> s[next_char(s, c, from)] == c,
        forall|k: int| from <= k < next_char(s, c, from) ==> s[k] != c,
    decreases s.len() - from,
{
    if from < s.len() && s[from] != c {
        next_char_first(s, c, from + 1);
    }
}

/// A position that holds `c`, with no `c` between it and `from`, is the next one.
pub proof fn next_char_is(s: Seq<char>, c: char, from: int, at: int)
    requires
        0 <= from <= at <= s.len(),
        at < s.len() ==> s[at] == c,
        forall|k: int| from <= k < at ==> s[k] != c,
    ensures
        next_char(s, c, from) == at,
    decreases at - from,
{
    if from < at {
        next_char_is(s, c, from + 1, at);
    }
}

/// Splitting `head + c + tail`, where `head` holds no `c`, gives `head` and the pieces of
/// `tail`.
pub proof fn split_cons(head: Seq<char>, c: char, tail: Seq<char>)
    requires
        !head.contains(c),
    ensures
        split(head + seq![c] + tail, c) == seq![head] + split(tail, c),
{
    let s = head + seq![c] + tail;
    assert(s[head.len() as int] == c);
    assert forall|k: int| 0 <= k < head.len() implies s[k] != c by {
        assert(s[k] == head[k]);
    }
    next_char_is(s, c, 0, head.len() as int);
    assert(s.subrange(0, head.len() as int) =~= head);
    assert(s.subrange(head.len() as int + 1, s.len() as int) =~= tail);
}

/// Text without a `c` is its own only piece.
pub proof fn split_whole(s: Seq<char>, c: char)
    requires
        !s.contains(c),
    ensures
        split(s, c) == seq![s],
{
    assert forall|k: int| 0 <= k < s.len() implies s[k] != c by {
        assert(s.contains(s[k]));
    }
    next_char_is(s, c, 0, s.len() as int);
}

/// The pieces of `s` between the occurrences of `c`.
pub fn pieces<'a>(s: &'a [char], c: char) -> (r: Vec<&'a [char]>)
    ensures
        r@.len() == split(s@, c).len(),
        forall|i: int| 0 <= i < r@.len() ==> #[trigger] r@[i]@ == split(s@, c)[i],
{
    let n: usize = s.len();
    let mut r: Vec<&'a [char]> = Vec::new();
    let mut from: usize = 0;
    proof {
        assert(s@.subrange(0, n as int) =~= s@);
    }
    loop
        invariant
            n == s@.len(),
            from <= n,
            r@.len() + split(s@.subrange(from as int, n as int), c).len() == split(s@, c).len(),
            forall|i: int| 0 <= i < r@.len() ==> #[trigger] r@[i]@ == split(s@, c)[i],
            forall|i: int|
                0 <= i < split(s@.subrange(from as int, n as int), c).len() ==> #[trigger] split(
                    s@.subrange(from as int, n as int),
                    c,
                )[i] == split(s@, c)[r@.len() + i],
        decreases n - from,
    {
        let at: usize = find_char(s, c, from);
        let ghost rest = s@.subrange(from as int, n as int);
        proof {
            assert forall|k: int| 0 <= k < at - from implies rest[k] != c by {
                assert(rest[k] == s@[from + k]);
            }
            if at < n {
                assert(rest[at - from] == s@[at as int]);
            }
            next_char_is(rest, c, 0, at - from);
            assert(rest.subrange(0, at - from) =~= s@.subrange(from as int, at as int));
            assert(split(rest, c)[0] == s@.subrange(from as int, at as int)) by {
                assert(rest.subrange(0, rest.len() as int) =~= rest);
            }
        }
        let piece = slice_subrange(s, from, at);
        let ghost before = r@;
        r.push(piece);
        proof {
            assert(split(rest, c)[0] == split(s@, c)[before.len() as int]);
        }
        if at == n {
            proof {
                assert(split(rest, c).len() == 1);
            }
            return r;
        }
        proof {
            let tail = s@.subrange(at as int + 1, n as int);
            assert(rest.subrange(at - from + 1, rest.len() as int) =~= tail);
            assert(split(rest, c) == seq![s@.subrange(from as int, at as int)] + split(tail, c));
            assert forall|i: int| 0 <= i < split(tail, c).len() implies #[trigger] split(tail, c)[i]
                == split(s@, c)[before.len() + 1 + i] by {
                assert(split(rest, c)[i + 1] == split(tail, c)[i]);
            }
        }
        from = at + 1;
    }
}

// ---------------------------------------------------------------------------------
// Case
// ---------------------------------------------------------------------------------

/// The ASCII lower-case form of `c`.
pub fn to_lower(c: char) -> (r: char)
    ensures
        r == lower(c),
{
    if 'A' <= c && c <= 'Z' {
        let u: u8 = c as u8;
        (u + 32) as char
    } else {
        c
    }
}

/// The ASCII lower-case form of `s`.
pub fn to_lowered(s: &[char]) -> (r: Vec<char>)
    ensures
        r@ == lowered(s@),
{
    let mut r: Vec<char> = Vec::new();
    let n: usize = s.len();
    for i in 0..n
        invariant
            n == s@.len(),
            r@.len() == i,
            forall|k: int| 0 <= k < i ==> r@[k] == lower(s@[k]),
    {
        r.push(to_lower(s[i]));
    }
    proof {
        assert(r@ =~= lowered(s@));
    }
    r
}

/// Equality that ignores the case of ASCII letters.
pub fn eq_ignoring_case(a: &[char], b: &[char]) -> (r: bool)
    ensures
        r == same_ignoring_case(a@, b@),
{
    let x: Vec<char> = to_lowered(a);
    let y: Vec<char> = to_lowered(b);
    same(x.as_slice(), y.as_slice())
}

/// Whether `a` comes before `b` in code-point order.
pub fn before(a: &str, b: &str) -> (r: bool)
    ensures
        r == less(a@, b@),
{
    let x: Vec<char> = chars(a);
    let y: Vec<char> = chars(b);
    let mut i: usize = 0;
    proof {
        assert(x@.skip(0) =~= a@);
        assert(y@.skip(0) =~= b@);
    }
    while i < x.len() && i < y.len()
        invariant
            i <= x@.len(),
            i <= y@.len(),
            less(x@.skip(i as int), y@.skip(i as int)) == less(a@, b@),
        decreases x.len() - i,
    {
        if x[i] != y[i] {
            let u: u32 = x[i] as u32;
            let v: u32 = y[i] as u32;
            return u < v;
        }
        proof {
            assert(x@.skip(i as int).drop_first() =~= x@.skip(i as int + 1));
            assert(y@.skip(i as int).drop_first() =~= y@.skip(i as int + 1));
        }
        i = i + 1;
    }
    i == x.len() && i < y.len()
}

/// Texts that agree up to `at` are in the order that is decided there.
pub proof fn less_at(a: Seq<char>, b: Seq<char>, at: int)
    requires
        0 <= at <= a.len(),
        at < b.len(),
        forall|i: int| 0 <= i < at ==> a[i] == b[i],
        at == a.len() || (a[at] as u32) < (b[at] as u32),
    ensures
        less(a, b),
    decreases at,
{
    if at > 0 {
        assert forall|i: int| 0 <= i < at - 1 implies a.drop_first()[i] == b.drop_first()[i] by {
            assert(a[i + 1] == b[i + 1]);
        }
        less_at(a.drop_first(), b.drop_first(), at - 1);
    }
}

/// Code-point order is transitive, total, and holds of nothing and itself.
pub proof fn less_is_an_order(a: Seq<char>, b: Seq<char>, c: Seq<char>)
    ensures
        !less(a, a),
        less(a, b) && less(b, c) ==> less(a, c),
        less(a, b) || less(b, a) || a == b,
        !(less(a, b) && less(b, a)),
    decreases a.len() + b.len() + c.len(),
{
    if a.len() > 0 && b.len() > 0 {
        if a.first() != b.first() {
            code_points_differ(a.first(), b.first());
        }
    }
    if a.len() > 0 && b.len() > 0 && c.len() > 0 {
        less_is_an_order(a.drop_first(), b.drop_first(), c.drop_first());
        if a.first() == b.first() && a.drop_first() == b.drop_first() {
            assert(a =~= seq![a.first()] + a.drop_first());
            assert(b =~= seq![b.first()] + b.drop_first());
        }
    } else if a.len() > 0 && b.len() > 0 {
        less_is_an_order(a.drop_first(), b.drop_first(), c);
        if a.first() == b.first() && a.drop_first() == b.drop_first() {
            assert(a =~= seq![a.first()] + a.drop_first());
            assert(b =~= seq![b.first()] + b.drop_first());
        }
    } else if a.len() > 0 {
        less_is_an_order(a.drop_first(), b, c);
    } else if b.len() == 0 {
        assert(a =~= b);
    }
}

proof fn code_points_differ(x: char, y: char)
    requires
        x != y,
    ensures
        x as u32 != y as u32,
{
}

/// Texts in code-point order.
pub open spec fn sorted(s: Seq<Seq<char>>) -> bool {
    forall|i: int, j: int| 0 <= i < j < s.len() ==> !less(#[trigger] s[j], #[trigger] s[i])
}

/// Puts a list of strings in code-point order.
pub fn sort(v: Vec<String>) -> (r: Vec<String>)
    ensures
        sorted(texts(r@)),
        forall|i: int, j: int| 0 <= i < j < r@.len() ==> !less(r@[j]@, r@[i]@),
        texts(r@).to_multiset() == texts(v@).to_multiset(),
{
    let mut r: Vec<String> = Vec::new();
    let n: usize = v.len();
    let mut i: usize = 0;
    proof {
        assert(texts(r@) =~= texts(v@).take(0));
    }
    while i < n
        invariant
            i <= n,
            n == v@.len(),
            sorted(texts(r@)),
            r@.len() == i,
            texts(r@).to_multiset() == texts(v@).take(i as int).to_multiset(),
        decreases n - i,
    {
        let mut at: usize = r.len();
        while at > 0 && before(v[i].as_str(), r[at - 1].as_str())
            invariant
                i < n,
                n == v@.len(),
                at <= r@.len(),
                forall|k: int| at <= k < r@.len() ==> less(v@[i as int]@, #[trigger] texts(r@)[k]),
            decreases at,
        {
            at = at - 1;
        }
        let ghost was = texts(r@);
        let ghost x = v@[i as int]@;
        r.insert(at, v[i].clone());
        proof {
            let now = texts(r@);
            assert(now =~= was.insert(at as int, x));
            insert_keeps_sorted(was, at as int, x);
            broadcast use vstd::seq_lib::group_to_multiset_ensures;

            assert(texts(v@).take(i as int + 1) =~= texts(v@).take(i as int).push(x));
            assert(now.to_multiset() =~= texts(v@).take(i as int + 1).to_multiset());
        }
        i = i + 1;
    }
    proof {
        assert(texts(v@).take(n as int) =~= texts(v@));
        assert forall|i: int, j: int| 0 <= i < j < r@.len() implies !less(r@[j]@, r@[i]@) by {
            assert(texts(r@)[j] == r@[j]@);
            assert(texts(r@)[i] == r@[i]@);
        }
    }
    r
}

proof fn insert_keeps_sorted(s: Seq<Seq<char>>, at: int, x: Seq<char>)
    requires
        sorted(s),
        0 <= at <= s.len(),
        forall|k: int| at <= k < s.len() ==> less(x, #[trigger] s[k]),
        at > 0 ==> !less(x, s[at - 1]),
    ensures
        sorted(s.insert(at, x)),
{
    let r = s.insert(at, x);
    assert forall|i: int, j: int| 0 <= i < j < r.len() implies !less(
        #[trigger] r[j],
        #[trigger] r[i],
    ) by {
        if j < at {
            assert(!less(s[j], s[i]));
        } else if j == at {
            if i < at - 1 {
                assert(!less(s[at - 1], s[i]));
                less_is_an_order(x, s[i], s[at - 1]);
                less_is_an_order(s[i], s[at - 1], x);
                less_is_an_order(x, s[at - 1], s[i]);
            }
        } else if i < at {
            assert(!less(s[j - 1], s[i]));
        } else if i == at {
            assert(less(x, s[j - 1]));
            less_is_an_order(x, s[j - 1], x);
        } else {
            assert(!less(s[j - 1], s[i - 1]));
        }
    }
}

/// Of the ASCII characters, six are white space: the blank, the tab, the line feed, the
/// vertical tab, the form feed and the carriage return.
pub proof fn ascii_white_space(c: char)
    requires
        (c as u32) < 0x80,
    ensures
        space(c) <==> c == ' ' || c == '\t' || c == '\n' || c as u32 == 0x0b || c as u32 == 0x0c || c
            == '\r',
{
}

/// Two texts are equal but for case exactly when they are as long as each other, and at each
/// place hold the same character or the two cases of one ASCII letter.
pub proof fn case_is_all_that_is_ignored(a: Seq<char>, b: Seq<char>)
    ensures
        same_ignoring_case(a, b) <==> a.len() == b.len() && forall|i: int|
            0 <= i < a.len() ==> {
                ||| #[trigger] a[i] == b[i]
                ||| 'A' <= a[i] <= 'Z' && b[i] as u32 == a[i] as u32 + 32
                ||| 'A' <= b[i] <= 'Z' && a[i] as u32 == b[i] as u32 + 32
            },
{
    let x = lowered(a);
    let y = lowered(b);
    if same_ignoring_case(a, b) {
        assert(x.len() == y.len());
        assert forall|i: int| 0 <= i < a.len() implies {
            ||| #[trigger] a[i] == b[i]
            ||| 'A' <= a[i] <= 'Z' && b[i] as u32 == a[i] as u32 + 32
            ||| 'A' <= b[i] <= 'Z' && a[i] as u32 == b[i] as u32 + 32
        } by {
            assert(x[i] == y[i]);
            lower_is(a[i]);
            lower_is(b[i]);
        }
    }
    if a.len() == b.len() && forall|i: int|
        0 <= i < a.len() ==> {
            ||| #[trigger] a[i] == b[i]
            ||| 'A' <= a[i] <= 'Z' && b[i] as u32 == a[i] as u32 + 32
            ||| 'A' <= b[i] <= 'Z' && a[i] as u32 == b[i] as u32 + 32
        } {
        assert forall|i: int| 0 <= i < x.len() implies x[i] == y[i] by {
            assert(a[i] == b[i] || a[i] != b[i]);
            lower_is(a[i]);
            lower_is(b[i]);
        }
        assert(x =~= y);
    }
}

proof fn lower_is(c: char)
    ensures
        'A' <= c <= 'Z' ==> lower(c) as u32 == c as u32 + 32,
        !('A' <= c <= 'Z') ==> lower(c) == c,
{
}

/// The pieces of a text that ends in a separator and a piece without one are the pieces of
/// what stands before, and that one.
pub proof fn split_snoc(s: Seq<char>, c: char, last: Seq<char>)
    requires
        !last.contains(c),
    ensures
        split(s + seq![c] + last, c) == split(s, c).push(last),
    decreases s.len(),
{
    let at = next_char(s, c, 0);
    next_char_first(s, c, 0);
    if at < s.len() {
        let head = s.subrange(0, at);
        let tail = s.subrange(at + 1, s.len() as int);
        split_snoc(tail, c, last);
        assert forall|k: int| 0 <= k < head.len() implies head[k] != c by {
            assert(head[k] == s[k]);
        }
        assert(s + seq![c] + last =~= head + seq![c] + (tail + seq![c] + last));
        split_cons(head, c, tail + seq![c] + last);
        assert(seq![head] + split(tail, c).push(last) =~= (seq![head] + split(tail, c)).push(last));
    } else {
        assert forall|k: int| 0 <= k < s.len() implies s[k] != c by {}
        split_cons(s, c, last);
        split_whole(last, c);
        assert(seq![s] + seq![last] =~= seq![s].push(last));
    }
}

/// A part stands at a place exactly when each of its characters does.
pub proof fn a_part_stands_by_its_characters(s: Seq<char>, part: Seq<char>, at: int)
    ensures
        occurs_at(s, part, at) <==> 0 <= at && at + part.len() <= s.len() && forall|i: int|
            0 <= i < part.len() ==> s[at + i] == #[trigger] part[i],
{
    if 0 <= at && at + part.len() <= s.len() {
        let piece = s.subrange(at, at + part.len());
        if forall|i: int| 0 <= i < part.len() ==> s[at + i] == #[trigger] part[i] {
            assert(piece =~= part);
        }
        if piece == part {
            assert forall|i: int| 0 <= i < part.len() implies s[at + i] == #[trigger] part[i] by {
                assert(piece[i] == s[at + i]);
            }
        }
    }
}

/// A list of strings, and a string that may be missing, are modelled by their characters.
pub proof fn strings_are_their_characters(v: Seq<String>, s: Option<String>, i: int)
    ensures
        texts(v).len() == v.len(),
        0 <= i < v.len() ==> texts(v)[i] == v[i]@,
        maybe(s) is Some <==> s is Some,
        s is Some ==> maybe(s)->0 == s->0@,
{
}

} // verus!
