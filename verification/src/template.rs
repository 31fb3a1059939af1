//! Substitution of `{{name}}` placeholders.
use vstd::prelude::*;
use vstd::slice::slice_subrange;

use crate::meta::{lookup, Entries, Meta};
use crate::text::{
    chars, find, first_at, occurs_at, position, position_exists, position_is, put, put_chars,
    string, trim, trimmed,
};

verus! {

/// What a placeholder with the given inside becomes.
pub open spec fn substituted(inside: Seq<char>, vars: Entries) -> Seq<char> {
    match lookup(vars, trimmed(inside)) {
        Some(value) => value,
        None => "{{"@ + inside + "}}"@,
    }
}

/// A template with every known placeholder replaced by its value. Unknown and unterminated
/// placeholders stay as they are.
pub open spec fn rendered(template: Seq<char>, vars: Entries) -> Seq<char>
    decreases template.len(),
{
    match position(template, "{{"@) {
        None => template,
        Some(start) => {
            if start < 0 || start + 2 > template.len() {
                template
            } else {
                let after = template.subrange(start + 2, template.len() as int);
                match position(after, "}}"@) {
                    None => template,
                    Some(end) => {
                        if end < 0 || end + 2 > after.len() {
                            template
                        } else {
                            template.subrange(0, start) + substituted(
                                after.subrange(0, end),
                                vars,
                            ) + rendered(after.subrange(end + 2, after.len() as int), vars)
                        }
                    },
                }
            }
        },
    }
}

/// Substitute `{{name}}` placeholders.
///
/// Unknown placeholders are left untouched rather than blanked: silently emptying a
/// misspelled field produces a malformed request that looks like a server problem, while
/// a literal `{{intenstiy}}` in the output points straight at the typo.
pub fn render(template: &str, vars: &Meta) -> (r: String)
    ensures
        r@ == rendered(template@, vars@),
{
    let all: Vec<char> = chars(template);
    let open: Vec<char> = chars("{{");
    let close: Vec<char> = chars("}}");
    let n: usize = all.len();
    let mut out: Vec<char> = Vec::new();
    let mut from: usize = 0;
    proof {
        reveal_strlit("{{");
        reveal_strlit("}}");
        assert(all@.subrange(0, n as int) =~= template@);
        assert(out@ + rendered(template@, vars@) =~= rendered(template@, vars@));
    }
    loop
        invariant
            from <= n,
            n == all@.len(),
            open@ == "{{"@,
            close@ == "}}"@,
            open@.len() == 2,
            close@.len() == 2,
            rendered(template@, vars@) == out@ + rendered(
                all@.subrange(from as int, n as int),
                vars@,
            ),
        decreases n - from,
    {
        let rest = slice_subrange(all.as_slice(), from, n);
        let ghost before = out@;
        let start: usize = match find(rest, open.as_slice()) {
            None => {
                put_chars(&mut out, rest);
                return string(out.as_slice());
            },
            Some(start) => start,
        };
        proof {
            position_is(rest@, open@, start as int);
        }
        let m: usize = rest.len();
        let after = slice_subrange(rest, start + 2, m);
        let end: usize = match find(after, close.as_slice()) {
            None => {
                // Unterminated placeholder: emit the rest verbatim.
                put_chars(&mut out, rest);
                return string(out.as_slice());
            },
            Some(end) => end,
        };
        proof {
            position_is(after@, close@, end as int);
        }
        put_chars(&mut out, slice_subrange(rest, 0, start));
        let inside = slice_subrange(after, 0, end);
        let key: String = string(trim(inside));
        let ghost head = out@;
        match vars.get(key.as_str()) {
            Some(value) => {
                put(&mut out, value.as_str());
            },
            None => {
                put(&mut out, "{{");
                put_chars(&mut out, inside);
                put(&mut out, "}}");
                proof {
                    assert(out@ =~= head + ("{{"@ + inside@ + "}}"@));
                }
            },
        }
        from = from + start + 2 + end + 2;
        proof {
            let tail = after@.subrange(end + 2, after@.len() as int);
            assert(tail =~= all@.subrange(from as int, n as int));
            assert(out@ =~= before + rest@.subrange(0, start as int) + substituted(
                inside@,
                vars@,
            ));
            assert(before + rendered(rest@, vars@) =~= out@ + rendered(tail, vars@));
        }
    }
}

// ---------------------------------------------------------------------------------
// Laws
// ---------------------------------------------------------------------------------

/// Text without an opening `{{` is left as it is.
pub proof fn no_placeholder_no_change(template: Seq<char>, vars: Entries)
    requires
        forall|at: int| !occurs_at(template, "{{"@, at),
    ensures
        rendered(template, vars) == template,
{
}

/// Where no name is known, every placeholder stays visible and nothing is lost.
pub proof fn unknown_names_stay(template: Seq<char>, vars: Entries)
    requires
        forall|name: Seq<char>| lookup(vars, name) is None,
    ensures
        rendered(template, vars) == template,
    decreases template.len(),
{
    reveal_strlit("{{");
    reveal_strlit("}}");
    if let Some(start) = position(template, "{{"@) {
        let k = choose|k: int| occurs_at(template, "{{"@, k);
        position_exists(template, "{{"@, k);
        let after = template.subrange(start + 2, template.len() as int);
        if let Some(end) = position(after, "}}"@) {
            let j = choose|j: int| occurs_at(after, "}}"@, j);
            position_exists(after, "}}"@, j);
            let inside = after.subrange(0, end);
            let tail = after.subrange(end + 2, after.len() as int);
            unknown_names_stay(tail, vars);
            assert(lookup(vars, trimmed(inside)) is None);
            assert(template.subrange(start, start + 2) =~= "{{"@);
            assert(after.subrange(end, end + 2) =~= "}}"@);
            assert(template =~= template.subrange(0, start) + ("{{"@ + inside + "}}"@) + tail) by {
                assert(template =~= template.subrange(0, start) + template.subrange(
                    start,
                    start + 2,
                ) + after);
                assert(after =~= inside + after.subrange(end, end + 2) + tail);
            }
        }
    }
}

/// The first placeholder of a template becomes its value, and the rest is rendered on its
/// own.
pub proof fn first_placeholder(
    head: Seq<char>,
    inside: Seq<char>,
    tail: Seq<char>,
    vars: Entries,
)
    requires
        first_at(head + "{{"@ + inside + "}}"@ + tail, "{{"@, head.len() as int),
        first_at(inside + "}}"@ + tail, "}}"@, inside.len() as int),
    ensures
        rendered(head + "{{"@ + inside + "}}"@ + tail, vars) == head + substituted(inside, vars)
            + rendered(tail, vars),
        lookup(vars, trimmed(inside)) matches Some(value) ==> rendered(
            head + "{{"@ + inside + "}}"@ + tail,
            vars,
        ) == head + value + rendered(tail, vars),
        lookup(vars, trimmed(inside)) is None ==> rendered(
            head + "{{"@ + inside + "}}"@ + tail,
            vars,
        ) == head + ("{{"@ + inside + "}}"@) + rendered(tail, vars),
{
    reveal_strlit("{{");
    reveal_strlit("}}");
    let template = head + "{{"@ + inside + "}}"@ + tail;
    let start = head.len() as int;
    position_is(template, "{{"@, start);
    let after = template.subrange(start + 2, template.len() as int);
    assert(after =~= inside + "}}"@ + tail);
    position_is(after, "}}"@, inside.len() as int);
    assert(template.subrange(0, start) =~= head);
    assert(after.subrange(0, inside.len() as int) =~= inside);
    assert(after.subrange(inside.len() as int + 2, after.len() as int) =~= tail);
}

/// From an opening that is never closed, the text is left as it is.
pub proof fn unclosed_stays(head: Seq<char>, rest: Seq<char>, vars: Entries)
    requires
        first_at(head + "{{"@ + rest, "{{"@, head.len() as int),
        forall|at: int| !occurs_at(rest, "}}"@, at),
    ensures
        rendered(head + "{{"@ + rest, vars) == head + "{{"@ + rest,
{
    reveal_strlit("{{");
    let template = head + "{{"@ + rest;
    position_is(template, "{{"@, head.len() as int);
    assert(template.subrange(head.len() as int + 2, template.len() as int) =~= rest);
}

} // verus!
