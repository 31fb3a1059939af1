//! File names inside Unix paths.
use vstd::prelude::*;
use vstd::slice::slice_subrange;

use crate::text::{
    chars, is_str, pieces, put, put_chars, same, split, split_snoc, split_whole, string,
};

verus! {

/// What follows the last `c` of `s`, or all of `s` where there is none.
pub open spec fn after_last(s: Seq<char>, c: char) -> Seq<char>
    decreases s.len(),
{
    if s.len() == 0 || s.last() == c {
        Seq::empty()
    } else {
        after_last(s.drop_last(), c).push(s.last())
    }
}

/// A path without the separators and `.` components at its end.
pub open spec fn stripped(path: Seq<char>) -> Seq<char>
    decreases path.len(),
{
    if path.len() > 0 && path.last() == '/' {
        stripped(path.drop_last())
    } else if path.len() > 1 && path.last() == '.' && path[path.len() - 2] == '/' {
        stripped(path.drop_last())
    } else {
        path
    }
}

/// The last component of a path, where it names a file.
pub open spec fn file_name_of(path: Seq<char>) -> Option<Seq<char>> {
    let name = after_last(stripped(path), '/');
    if name.len() == 0 || name == "."@ || name == ".."@ {
        None
    } else {
        Some(name)
    }
}

/// What follows the last dot of the file name; a dot in front does not count.
pub open spec fn extension_of(path: Seq<char>) -> Option<Seq<char>> {
    match file_name_of(path) {
        None => None,
        Some(name) => {
            let tail = after_last(name, '.');
            if tail.len() + 1 < name.len() {
                Some(tail)
            } else {
                None
            }
        },
    }
}

fn tail_after<'a>(s: &'a [char], c: char) -> (r: &'a [char])
    ensures
        r@ == after_last(s@, c),
        r@.len() <= s@.len(),
{
    let n: usize = s.len();
    let mut i: usize = n;
    proof {
        assert(s@.take(n as int) =~= s@);
        assert(after_last(s@, c) + s@.subrange(n as int, n as int) =~= after_last(s@, c));
    }
    while i > 0 && s[i - 1] != c
        invariant
            i <= n,
            n == s@.len(),
            after_last(s@, c) == after_last(s@.take(i as int), c) + s@.subrange(i as int, n as int),
        decreases i,
    {
        proof {
            let head = s@.take(i as int);
            assert(head.drop_last() =~= s@.take(i - 1));
            assert(after_last(head, c) + s@.subrange(i as int, n as int) =~= after_last(
                head.drop_last(),
                c,
            ) + s@.subrange(i - 1, n as int));
        }
        i = i - 1;
    }
    let r = slice_subrange(s, i, n);
    proof {
        assert(after_last(s@.take(i as int), c) =~= Seq::<char>::empty());
        assert(r@ =~= after_last(s@, c));
    }
    r
}

/// The last component of a path, where it names a file.
pub fn file_name<'a>(path: &'a [char]) -> (r: Option<&'a [char]>)
    ensures
        match r {
            Some(name) => file_name_of(path@) == Some(name@),
            None => file_name_of(path@) is None,
        },
{
    let rest = strip(path);
    let name = tail_after(rest, '/');
    if name.len() == 0 || is_str(name, ".") || is_str(name, "..") {
        None
    } else {
        Some(name)
    }
}

/// What follows the last dot of the file name.
pub fn extension<'a>(path: &'a [char]) -> (r: Option<&'a [char]>)
    ensures
        match r {
            Some(e) => extension_of(path@) == Some(e@),
            None => extension_of(path@) is None,
        },
{
    match file_name(path) {
        None => None,
        Some(name) => {
            let tail = tail_after(name, '.');
            if tail.len() < name.len() - 1 {
                Some(tail)
            } else {
                None
            }
        },
    }
}

/// Whether the file name of a path has the given extension.
pub fn has_extension(path: &str, e: &str) -> (r: bool)
    ensures
        r == (extension_of(path@) == Some(e@)),
{
    let v: Vec<char> = chars(path);
    match extension(v.as_slice()) {
        Some(found) => is_str(found, e),
        None => false,
    }
}

/// A path as seen from a directory: below it, unless it starts at the root.
pub open spec fn joined(base: Seq<char>, rest: Seq<char>) -> Seq<char> {
    if rest.len() > 0 && rest[0] == '/' {
        rest
    } else if base.len() == 0 || base.last() == '/' {
        base + rest
    } else {
        base + "/"@ + rest
    }
}

/// A path as seen from a directory.
pub fn join(base: &str, rest: &str) -> (r: String)
    ensures
        r@ == joined(base@, rest@),
{
    let tail: Vec<char> = chars(rest);
    if tail.len() > 0 && tail[0] == '/' {
        return string(tail.as_slice());
    }
    let mut out: Vec<char> = chars(base);
    if out.len() > 0 && out[out.len() - 1] != '/' {
        put(&mut out, "/");
    }
    put_chars(&mut out, tail.as_slice());
    string(out.as_slice())
}

/// The directory a path's last component stands in.
pub open spec fn parent_of(path: Seq<char>) -> Seq<char> {
    let whole = stripped(path);
    let above = whole.take(whole.len() - after_last(whole, '/').len());
    if above.len() > 0 && stripped(above).len() == 0 {
        "/"@
    } else {
        stripped(above)
    }
}

/// A path with another file name.
pub open spec fn sibling_of(path: Seq<char>, name: Seq<char>) -> Seq<char> {
    joined(
        if file_name_of(path) is Some {
            parent_of(path)
        } else {
            path
        },
        name,
    )
}

fn strip<'a>(path: &'a [char]) -> (r: &'a [char])
    ensures
        r@ == stripped(path@),
{
    let mut n: usize = path.len();
    proof {
        assert(path@.take(n as int) =~= path@);
    }
    while n > 0 && (path[n - 1] == '/' || (n > 1 && path[n - 1] == '.' && path[n - 2] == '/'))
        invariant
            n <= path@.len(),
            stripped(path@) == stripped(path@.take(n as int)),
        decreases n,
    {
        proof {
            assert(path@.take(n as int).drop_last() =~= path@.take(n - 1));
        }
        n = n - 1;
    }
    let rest = slice_subrange(path, 0, n);
    proof {
        assert(rest@ =~= path@.take(n as int));
    }
    rest
}

/// The path with another file name in place of its own.
pub fn with_file_name(path: &str, name: &str) -> (r: String)
    ensures
        r@ == sibling_of(path@, name@),
{
    let v: Vec<char> = chars(path);
    let whole = strip(v.as_slice());
    let tail = tail_after(whole, '/');
    if tail.len() == 0 || is_str(tail, ".") || is_str(tail, "..") {
        return join(path, name);
    }
    let above = slice_subrange(whole, 0, whole.len() - tail.len());
    proof {
        assert(above@ =~= whole@.take(whole@.len() - tail@.len()));
    }
    let dir = strip(above);
    if above.len() > 0 && dir.len() == 0 {
        join("/", name)
    } else {
        let d: String = string(dir);
        join(d.as_str(), name)
    }
}

/// Whether a component of a path is exactly `name`.
pub fn has_component(path: &str, name: &str) -> (r: bool)
    ensures
        r == split(path@, '/').contains(name@),
{
    let v: Vec<char> = chars(path);
    let parts: Vec<&[char]> = pieces(v.as_slice(), '/');
    let n: usize = parts.len();
    for i in 0..n
        invariant
            n == parts@.len(),
            n == split(path@, '/').len(),
            forall|k: int| 0 <= k < n ==> #[trigger] parts@[k]@ == split(path@, '/')[k],
            forall|k: int| 0 <= k < i ==> split(path@, '/')[k] != name@,
    {
        if is_str(parts[i], name) {
            proof {
                assert(split(path@, '/')[i as int] == name@);
            }
            return true;
        }
    }
    false
}

/// Those of the first `n` parts of a path that count: not the empty ones, and a `.` only in
/// front.
pub open spec fn names_among(parts: Seq<Seq<char>>, n: int) -> Seq<Seq<char>>
    decreases n,
{
    if n <= 0 {
        Seq::empty()
    } else if parts[n - 1].len() == 0 || (n > 1 && parts[n - 1] == "."@) {
        names_among(parts, n - 1)
    } else {
        names_among(parts, n - 1).push(parts[n - 1])
    }
}

/// What a path comes to: whether it starts at the root, and its components. Two spellings
/// with the same components are one path.
pub open spec fn components(path: Seq<char>) -> (bool, Seq<Seq<char>>) {
    let parts = split(path, '/');
    (path.len() > 0 && path.first() == '/', names_among(parts, parts.len() as int))
}

/// The components of a path.
fn names<'a>(path: &'a [char]) -> (r: Vec<&'a [char]>)
    ensures
        r@.len() == components(path@).1.len(),
        forall|k: int| 0 <= k < r@.len() ==> #[trigger] r@[k]@ == components(path@).1[k],
{
    let parts: Vec<&[char]> = pieces(path, '/');
    let n: usize = parts.len();
    let ghost all = split(path@, '/');
    let mut r: Vec<&'a [char]> = Vec::new();
    for i in 0..n
        invariant
            n == parts@.len(),
            n == all.len(),
            forall|k: int| 0 <= k < n ==> #[trigger] parts@[k]@ == all[k],
            r@.len() == names_among(all, i as int).len(),
            forall|k: int| 0 <= k < r@.len() ==> #[trigger] r@[k]@ == names_among(all, i as int)[k],
    {
        let part = parts[i];
        proof {
            assert(parts@[i as int]@ == all[i as int]);
        }
        if !(part.len() == 0 || (i > 0 && is_str(part, "."))) {
            r.push(part);
        }
    }
    r
}

/// Whether two spellings are one path.
pub fn same_path(a: &str, b: &str) -> (r: bool)
    ensures
        r == (components(a@) == components(b@)),
{
    let v: Vec<char> = chars(a);
    let w: Vec<char> = chars(b);
    let rooted: bool = v.len() > 0 && v[0] == '/';
    if rooted != (w.len() > 0 && w[0] == '/') {
        return false;
    }
    let p: Vec<&[char]> = names(v.as_slice());
    let q: Vec<&[char]> = names(w.as_slice());
    let n: usize = p.len();
    if n != q.len() {
        return false;
    }
    for i in 0..n
        invariant
            n == p@.len(),
            n == q@.len(),
            n == components(a@).1.len(),
            n == components(b@).1.len(),
            forall|k: int| 0 <= k < n ==> #[trigger] p@[k]@ == components(a@).1[k],
            forall|k: int| 0 <= k < n ==> #[trigger] q@[k]@ == components(b@).1[k],
            forall|k: int| 0 <= k < i ==> #[trigger] components(a@).1[k] == components(b@).1[k],
    {
        let x = p[i];
        let y = q[i];
        proof {
            assert(p@[i as int]@ == components(a@).1[i as int]);
            assert(q@[i as int]@ == components(b@).1[i as int]);
        }
        if !same(x, y) {
            return false;
        }
    }
    proof {
        assert(components(a@).1 =~= components(b@).1);
    }
    true
}

// ---------------------------------------------------------------------------------
// Laws
// ---------------------------------------------------------------------------------

/// A file name that stands for a file of its own directory.
pub open spec fn plain_name(name: Seq<char>) -> bool {
    name.len() > 0 && !name.contains('/') && name != "."@ && name != ".."@
}

/// What follows the last `c` holds no `c`.
pub proof fn after_last_holds_none(s: Seq<char>, c: char)
    ensures
        !after_last(s, c).contains(c),
    decreases s.len(),
{
    if s.len() > 0 && s.last() != c {
        after_last_holds_none(s.drop_last(), c);
        let rest = after_last(s.drop_last(), c);
        assert forall|i: int| 0 <= i < after_last(s, c).len() implies after_last(s, c)[i] != c by {
            if i < rest.len() {
                assert(rest.contains(rest[i]));
            }
        }
    }
}

proof fn after_last_of_joined(s: Seq<char>, name: Seq<char>, c: char)
    requires
        s.len() == 0 || s.last() == c,
        !name.contains(c),
    ensures
        after_last(s + name, c) == name,
    decreases name.len(),
{
    if name.len() == 0 {
        assert(s + name =~= s);
    } else {
        let rest = name.drop_last();
        assert(name.contains(name.last()));
        assert forall|i: int| 0 <= i < rest.len() implies rest[i] != c by {
            assert(name.contains(name[i]));
        }
        after_last_of_joined(s, rest, c);
        assert((s + name).drop_last() =~= s + rest);
        assert(rest.push(name.last()) =~= name);
    }
}

/// A path with another file name has that file name, whatever the path was.
pub proof fn sibling_has_its_name(path: Seq<char>, name: Seq<char>)
    requires
        plain_name(name),
    ensures
        file_name_of(sibling_of(path, name)) == Some(name),
{
    reveal_strlit(".");
    reveal_strlit("/");
    let base = if file_name_of(path) is Some {
        parent_of(path)
    } else {
        path
    };
    let whole = sibling_of(path, name);
    assert(name.contains(name[0]));
    assert(name.contains(name.last()));
    let head = if base.len() == 0 || base.last() == '/' {
        base
    } else {
        base + "/"@
    };
    assert(whole =~= head + name);
    assert(stripped(whole) == whole) by {
        assert(whole.last() == name.last());
        if name.len() == 1 {
            assert(name =~= seq![name[0]]);
            assert("."@ =~= seq!['.']);
        } else {
            assert(whole[whole.len() - 2] == name[name.len() - 2]);
            assert(name.contains(name[name.len() - 2]));
        }
    }
    after_last_of_joined(head, name, '/');
}

/// What follows the last `c` stands at the end of the text, right behind a `c` unless it is
/// the whole text.
pub proof fn after_last_stands_at_the_end(s: Seq<char>, c: char)
    ensures
        after_last(s, c).len() <= s.len(),
        after_last(s, c) == s.skip(s.len() - after_last(s, c).len()),
        !after_last(s, c).contains(c),
        after_last(s, c).len() < s.len() ==> s[s.len() - after_last(s, c).len() - 1] == c,
    decreases s.len(),
{
    after_last_holds_none(s, c);
    if s.len() == 0 || s.last() == c {
        assert(s.skip(s.len() as int) =~= Seq::<char>::empty());
    } else {
        let rest = s.drop_last();
        after_last_stands_at_the_end(rest, c);
        let k = rest.len() - after_last(rest, c).len();
        assert(rest.skip(k).push(s.last()) =~= s.skip(k));
    }
}

/// Only separators, and dots that follow one, are stripped from the end of a path, and all
/// of them are.
pub proof fn stripping_takes_only_ends(path: Seq<char>)
    ensures
        stripped(path).len() <= path.len(),
        stripped(path) == path.take(stripped(path).len() as int),
        forall|i: int|
            stripped(path).len() <= i < path.len() ==> #[trigger] path[i] == '/' || (i > 0
                && path[i] == '.' && path[i - 1] == '/'),
        stripped(path).len() > 0 ==> stripped(path).last() != '/',
        stripped(path).len() > 1 && stripped(path).last() == '.' ==> stripped(
            path,
        )[stripped(path).len() - 2] != '/',
    decreases path.len(),
{
    if path.len() > 0 && (path.last() == '/' || (path.len() > 1 && path.last() == '.' && path[
        path.len() - 2] == '/')) {
        let rest = path.drop_last();
        stripping_takes_only_ends(rest);
        let n = stripped(rest).len() as int;
        assert(rest.take(n) =~= path.take(n));
        assert forall|i: int| n <= i < path.len() implies #[trigger] path[i] == '/' || (i > 0
            && path[i] == '.' && path[i - 1] == '/') by {
            if i < rest.len() {
                assert(rest[i] == path[i]);
            }
        }
    } else {
        assert(path.take(path.len() as int) =~= path);
    }
}

/// A joined path starts with the directory and ends with what was joined to it, with one
/// separator put between them where there is none; what starts at the root stands alone.
pub proof fn joining_keeps_both(base: Seq<char>, rest: Seq<char>)
    ensures
        rest.len() > 0 && rest[0] == '/' ==> joined(base, rest) == rest,
        !(rest.len() > 0 && rest[0] == '/') ==> {
            let whole = joined(base, rest);
            &&& whole.take(base.len() as int) == base
            &&& whole.skip(whole.len() - rest.len()) == rest
            &&& if base.len() == 0 || base.last() == '/' {
                whole.len() == base.len() + rest.len()
            } else {
                whole.len() == base.len() + 1 + rest.len() && whole[base.len() as int] == '/'
            }
        },
{
    reveal_strlit("/");
    let whole = joined(base, rest);
    if !(rest.len() > 0 && rest[0] == '/') {
        assert(whole.take(base.len() as int) =~= base);
        assert(whole.skip(whole.len() - rest.len()) =~= rest);
    }
}

/// A file of a directory has its own name, and another name in its place stands in the same
/// directory.
pub proof fn sibling_stays_in_its_directory(dir: Seq<char>, name: Seq<char>, other: Seq<char>)
    requires
        plain_name(name),
        plain_name(other),
        dir.len() > 0,
        dir.last() != '/',
        dir.len() > 1 && dir.last() == '.' ==> dir[dir.len() - 2] != '/',
    ensures
        file_name_of(dir + seq!['/'] + name) == Some(name),
        sibling_of(dir + seq!['/'] + name, other) == dir + seq!['/'] + other,
        file_name_of(name) == Some(name),
        sibling_of(name, other) == other,
        sibling_of(seq!['/'] + name, other) == seq!['/'] + other,
{
    reveal_strlit("/");
    assert("/"@ =~= seq!['/']);
    assert(other.contains(other[0]));
    let head = dir + seq!['/'];
    let path = head + name;
    plain_name_is_not_stripped(head, name);
    after_last_of_joined(head, name, '/');
    assert(path.take(path.len() - name.len()) =~= head);
    assert(head.drop_last() =~= dir);
    assert(stripped(head) == stripped(dir));
    assert(stripped(dir) == dir);
    assert(parent_of(path) == dir);
    let none = Seq::<char>::empty();
    assert(none + name =~= name);
    plain_name_is_not_stripped(none, name);
    after_last_of_joined(none, name, '/');
    assert(name.take(name.len() - name.len()) =~= none);
    assert(parent_of(name) =~= none);
    assert(none + other =~= other);
    let root = seq!['/'];
    plain_name_is_not_stripped(root, name);
    after_last_of_joined(root, name, '/');
    let low = root + name;
    assert(low.take(low.len() - name.len()) =~= root);
    assert(root.drop_last() =~= none);
    assert(stripped(none) == none);
    assert(stripped(root) == none);
    assert(parent_of(low) == "/"@);
}

proof fn plain_name_is_not_stripped(head: Seq<char>, name: Seq<char>)
    requires
        plain_name(name),
        head.len() == 0 || head.last() == '/',
    ensures
        stripped(head + name) == head + name,
{
    reveal_strlit(".");
    let whole = head + name;
    assert(name.contains(name.last()));
    assert(whole.last() == name.last());
    if name.len() == 1 {
        assert(name =~= seq![name[0]]);
        assert("."@ =~= seq!['.']);
    } else {
        assert(whole[whole.len() - 2] == name[name.len() - 2]);
        assert(name.contains(name[name.len() - 2]));
    }
}

/// The extension is what follows the last dot of the file name, whatever directory it is in.
pub proof fn extension_follows_the_last_dot(head: Seq<char>, stem: Seq<char>, e: Seq<char>)
    requires
        head.len() == 0 || head.last() == '/',
        stem.len() > 0,
        e.len() > 0,
        !stem.contains('/'),
        !e.contains('/'),
        !e.contains('.'),
    ensures
        extension_of(head + (stem + seq!['.'] + e)) == Some(e),
{
    reveal_strlit(".");
    reveal_strlit("..");
    let name = stem + seq!['.'] + e;
    assert forall|i: int| 0 <= i < name.len() implies name[i] != '/' by {
        if i < stem.len() {
            assert(stem.contains(stem[i]));
        } else if i > stem.len() {
            assert(e.contains(e[i - stem.len() - 1]));
        }
    }
    assert(e.contains(e.last()));
    assert(name.last() == e.last());
    assert(name.len() >= 3);
    plain_name_is_not_stripped(head, name);
    after_last_of_joined(head, name, '/');
    assert(name =~= (stem + seq!['.']) + e);
    after_last_of_joined(stem + seq!['.'], e, '.');
}

/// A file name without a dot behind its first character has no extension.
pub proof fn no_dot_no_extension(head: Seq<char>, name: Seq<char>)
    requires
        head.len() == 0 || head.last() == '/',
        plain_name(name),
        forall|i: int| 0 < i < name.len() ==> #[trigger] name[i] != '.',
    ensures
        extension_of(head + name) is None,
{
    plain_name_is_not_stripped(head, name);
    after_last_of_joined(head, name, '/');
    after_last_stands_at_the_end(name, '.');
    let tail = after_last(name, '.');
    if tail.len() + 1 < name.len() {
        assert(name[name.len() - tail.len() - 1] == '.');
    }
}

/// A component more at the end of a path is one component more; an empty one, and a dot, do
/// not count there. At the root, and alone, a name is the only component.
pub proof fn one_component_more(path: Seq<char>, name: Seq<char>)
    requires
        !name.contains('/'),
    ensures
        path.len() > 0 ==> components(path + seq!['/'] + name) == (
            components(path).0,
            if name.len() == 0 || name == "."@ {
                components(path).1
            } else {
                components(path).1.push(name)
            },
        ),
        name.len() > 0 && name != "."@ ==> components(seq!['/'] + name) == (true, seq![name]),
        name.len() > 0 ==> components(name) == (false, seq![name]),
{
    let parts = split(path, '/');
    let n = parts.len() as int;
    split_snoc(path, '/', name);
    let longer = parts.push(name);
    names_of_prefix(parts, longer, n);
    assert(n > 0);
    if path.len() > 0 {
        assert((path + seq!['/'] + name).first() == path.first());
    }
    let none = Seq::<char>::empty();
    split_snoc(none, '/', name);
    split_whole(none, '/');
    assert(none + seq!['/'] + name =~= seq!['/'] + name);
    let rooted = seq![none].push(name);
    assert(split(seq!['/'] + name, '/') == rooted);
    assert(names_among(rooted, 0) =~= Seq::<Seq<char>>::empty());
    assert(names_among(rooted, 1) == names_among(rooted, 0));
    if name.len() > 0 && name != "."@ {
        assert(names_among(rooted, 2) =~= seq![name]);
    }
    split_whole(name, '/');
    if name.len() > 0 {
        assert(name.contains(name[0]));
        assert(names_among(seq![name], 0) =~= Seq::<Seq<char>>::empty());
        assert(names_among(seq![name], 1) =~= seq![name]);
    }
}

proof fn names_of_prefix(a: Seq<Seq<char>>, b: Seq<Seq<char>>, n: int)
    requires
        0 <= n <= a.len(),
        n <= b.len(),
        forall|i: int| 0 <= i < n ==> a[i] == b[i],
    ensures
        names_among(a, n) == names_among(b, n),
    decreases n,
{
    if n > 0 {
        names_of_prefix(a, b, n - 1);
        assert(a[n - 1] == b[n - 1]);
    }
}

/// Doubled separators, dots in between and a separator at the end are other spellings of the
/// same path.
pub proof fn spelling_does_not_matter(path: Seq<char>, name: Seq<char>)
    requires
        path.len() > 0,
        name.len() > 0,
        !name.contains('/'),
    ensures
        components(path + seq!['/']) == components(path),
        components(path + seq!['/', '/'] + name) == components(path + seq!['/'] + name),
        components(path + seq!['/', '.', '/'] + name) == components(path + seq!['/'] + name),
{
    reveal_strlit(".");
    assert("."@ =~= seq!['.']);
    let none = Seq::<char>::empty();
    one_component_more(path, none);
    assert(path + seq!['/'] + none =~= path + seq!['/']);
    one_component_more(path, "."@);
    one_component_more(path, name);
    one_component_more(path + seq!['/'], name);
    assert((path + seq!['/']) + seq!['/'] + name =~= path + seq!['/', '/'] + name);
    one_component_more(path + seq!['/'] + "."@, name);
    assert((path + seq!['/'] + "."@) + seq!['/'] + name =~= path + seq!['/', '.', '/'] + name);
}

} // verus!
