//! Writing a fixture and reading it back gives the fixture.
use vstd::prelude::*;

use crate::fixture::{
    blank, covers, expect_lines, head_lines, header, magic, merge_takes_everything, merged,
    note_line, note_lines, parsed, row_fault, row_line, row_lines, unlines, with_line, with_lines,
    with_note, written, written_lines, Fault, Numerals, Trace,
};
use crate::meta::{ascending, insert_then_lookup, inserted, lookup, Entries};
use crate::numeral::{
    all_digits, count_of, count_round_trip, decimal, decimal_digits, digit_char, number,
    number_char, number_chars,
};
use crate::scalar::Scalar64;
use crate::text::{
    less, less_is_an_order, next_char_is, space, split, split_cons, split_whole, trimmed,
    trimmed_ends, trimmed_start,
};

verus! {

/// Text that fits on one line and does not end in white space.
pub open spec fn one_line(s: Seq<char>) -> bool {
    !s.contains('\n') && (s.len() > 0 ==> !space(s.last()))
}

/// An annotation that can be told apart from its line: the name holds no `=`, does not
/// start with white space, and is not one of the two names with a meaning of their own.
pub open spec fn plain_note(name: Seq<char>, value: Seq<char>) -> bool {
    &&& !name.contains('\n')
    &&& !name.contains('=')
    &&& name.len() > 0 ==> !space(name.first())
    &&& name != "label"@
    &&& name != "expect"@
    &&& one_line(value)
}

/// A row of numerals.
pub open spec fn plain_row(row: Numerals) -> bool {
    number(row.t) && number(row.x) && number(row.y) && number(row.z)
}

/// A trace that its text can hold.
pub open spec fn plain(trace: Trace) -> bool {
    &&& one_line(trace.label)
    &&& ascending(trace.meta)
    &&& forall|i: int|
        0 <= i < trace.meta.len() ==> plain_note((#[trigger] trace.meta[i]).0, trace.meta[i].1)
    &&& forall|i: int| 0 <= i < trace.accel.len() ==> plain_row(#[trigger] trace.accel[i])
    &&& forall|i: int| 0 <= i < trace.gyro.len() ==> plain_row(#[trigger] trace.gyro[i])
}

/// Reading what was written gives back the label, the expected count, every annotation and
/// every sample.
pub proof fn fixture_round_trip(trace: Trace, accel: Seq<Scalar64>, gyro: Seq<Scalar64>)
    requires
        plain(trace),
        accel.len() == trace.accel.len(),
        gyro.len() == trace.gyro.len(),
    ensures
        parsed(written(trace, accel, gyro)) == Ok::<Trace, Fault>(trace),
{
    let body = written_lines(trace, accel, gyro);
    let lines = body.push(Seq::empty());
    lines_are_single(trace, accel, gyro);
    split_unlines(body);
    assert(split(written(trace, accel, gyro), '\n') == lines);

    let notes = note_lines(trace.meta, 0);
    let expect = expect_lines(trace.expect);
    let order = merged(accel, gyro, 0, 0);
    let rows = row_lines(order, trace.accel, trace.gyro, 0, 0);
    note_lines_at(trace.meta, 0);
    merge_takes_everything(accel, gyro, 0, 0);
    row_lines_len(order, trace.accel, trace.gyro, 0, 0);

    // The first line.
    assert(lines[0] == magic());
    magic_stays();

    // The label.
    let labelled = Trace { label: trace.label, ..blank() };
    assert(lines[1] == note_line("label"@, trace.label));
    reveal_strlit("label");
    assert(!"label"@.contains('='));
    note_line_reads(blank(), "label"@, trace.label, 2);
    assert(with_lines(blank(), lines, 1) == with_lines(labelled, lines, 2));

    // The expected count.
    let counted = Trace { expect: trace.expect, ..labelled };
    let b: int = 2 + expect.len() as int;
    match trace.expect {
        Some(n) => {
            assert(lines[2] == expect[0]);
            reveal_strlit("expect");
            assert("label"@ != "expect"@) by {
                assert("label"@.len() != "expect"@.len());
            }
            decimal_digits(n as nat);
            digits_are_plain(decimal(n as nat));
            note_line_reads(labelled, "expect"@, decimal(n as nat), 3);
            count_round_trip(n);
        },
        None => {
            assert(counted =~= labelled);
        },
    }
    assert(with_lines(labelled, lines, 2) == with_lines(counted, lines, b));

    // The annotations.
    assert forall|k: int| 0 <= k < trace.meta.len() implies #[trigger] lines[b + k] == note_line(
        trace.meta[k].0,
        trace.meta[k].1,
    ) by {
        assert(lines[b + k] == notes[k]);
    }
    let noted = Trace { meta: trace.meta, ..counted };
    assert(counted.meta =~= trace.meta.take(0));
    notes_read(counted, trace.meta, lines, b, 0);
    let c: int = b + trace.meta.len();

    // The column names.
    assert(lines[c] == header());
    header_stays();
    assert(with_lines(noted, lines, c) == with_lines(noted, lines, c + 1));

    // The rows.
    let d = c + 1;
    assert forall|k: int| 0 <= k < rows.len() implies #[trigger] lines[d + k] == rows[k] by {
        assert(head_lines(trace).len() == d);
    }
    assert(order.skip(0) =~= order);
    assert(noted.accel =~= trace.accel.take(0));
    assert(noted.gyro =~= trace.gyro.take(0));
    rows_read(noted, trace, order, lines, d, 0, 0, 0);
    assert(Trace { accel: trace.accel, gyro: trace.gyro, ..noted } =~= trace);

    // The empty piece after the last newline.
    let last = lines.len() - 1;
    assert(last == d + rows.len());
    trimmed_ends(lines[last]);
    assert(with_lines(trace, lines, last) == with_lines(trace, lines, last + 1));
}

// ---------------------------------------------------------------------------------
// Lines
// ---------------------------------------------------------------------------------

proof fn split_unlines(lines: Seq<Seq<char>>)
    requires
        forall|i: int| 0 <= i < lines.len() ==> !(#[trigger] lines[i]).contains('\n'),
    ensures
        split(unlines(lines), '\n') == lines.push(Seq::empty()),
    decreases lines.len(),
{
    if lines.len() == 0 {
        split_whole(Seq::empty(), '\n');
        assert(lines.push(Seq::empty()) =~= seq![Seq::<char>::empty()]);
    } else {
        let rest = lines.drop_first();
        assert forall|i: int| 0 <= i < rest.len() implies !(#[trigger] rest[i]).contains('\n') by {
            assert(rest[i] == lines[i + 1]);
        }
        split_unlines(rest);
        assert(!lines[0].contains('\n'));
        split_cons(lines.first(), '\n', unlines(rest));
        reveal_strlit("\n");
        assert("\n"@ =~= seq!['\n']);
        assert(seq![lines.first()] + rest.push(Seq::empty()) =~= lines.push(Seq::empty()));
    }
}

proof fn magic_stays()
    ensures
        trimmed(magic()) == magic(),
        !magic().contains('\n'),
{
    reveal_strlit("# yamete-fixture v1");
    trimmed_ends(magic());
}

proof fn header_stays()
    ensures
        trimmed(header()) == header(),
        !header().contains('\n'),
        header().len() > 0,
        header().first() == 's',
{
    reveal_strlit("s,t,x,y,z");
    trimmed_ends(header());
}

proof fn digits_are_plain(s: Seq<char>)
    requires
        s.len() > 0,
        all_digits(s),
    ensures
        one_line(s),
{
    assert(digit_char(s.last()));
    assert forall|i: int| 0 <= i < s.len() implies s[i] != '\n' by {
        assert(digit_char(s[i]));
    }
}

proof fn not_in_sum(a: Seq<char>, b: Seq<char>, c: char)
    requires
        !a.contains(c),
        !b.contains(c),
    ensures
        !(a + b).contains(c),
{
    assert forall|i: int| 0 <= i < (a + b).len() implies (a + b)[i] != c by {
        if i < a.len() {
            assert(a.contains(a[i]));
        } else {
            assert(b.contains(b[i - a.len()]));
        }
    }
}

proof fn note_line_is_single(name: Seq<char>, value: Seq<char>)
    requires
        !name.contains('\n'),
        !value.contains('\n'),
    ensures
        !note_line(name, value).contains('\n'),
{
    reveal_strlit("# ");
    reveal_strlit("=");
    not_in_sum("# "@, name, '\n');
    not_in_sum("# "@ + name, "="@, '\n');
    not_in_sum("# "@ + name + "="@, value, '\n');
}

proof fn number_is_clean(s: Seq<char>)
    requires
        number(s),
    ensures
        s.len() > 0,
        !s.contains('\n'),
        !s.contains(','),
        !space(s.last()),
{
    number_chars(s);
    assert(number_char(s.last()));
    assert forall|i: int| 0 <= i < s.len() implies s[i] != '\n' && s[i] != ',' by {
        assert(number_char(s[i]));
    }
}

proof fn row_line_is_single(accel: bool, row: Numerals)
    requires
        plain_row(row),
    ensures
        !row_line(accel, row).contains('\n'),
{
    reveal_strlit("a");
    reveal_strlit("g");
    reveal_strlit(",");
    number_is_clean(row.t);
    number_is_clean(row.x);
    number_is_clean(row.y);
    number_is_clean(row.z);
    let tag = if accel {
        "a"@
    } else {
        "g"@
    };
    let c = ","@;
    not_in_sum(tag, c, '\n');
    not_in_sum(tag + c, row.t, '\n');
    not_in_sum(tag + c + row.t, c, '\n');
    not_in_sum(tag + c + row.t + c, row.x, '\n');
    not_in_sum(tag + c + row.t + c + row.x, c, '\n');
    not_in_sum(tag + c + row.t + c + row.x + c, row.y, '\n');
    not_in_sum(tag + c + row.t + c + row.x + c + row.y, c, '\n');
    not_in_sum(tag + c + row.t + c + row.x + c + row.y + c, row.z, '\n');
}

proof fn note_lines_at(meta: Entries, k: int)
    requires
        0 <= k <= meta.len(),
    ensures
        note_lines(meta, k).len() == meta.len() - k,
        forall|i: int|
            0 <= i < meta.len() - k ==> #[trigger] note_lines(meta, k)[i] == note_line(
                meta[k + i].0,
                meta[k + i].1,
            ),
    decreases meta.len() - k,
{
    if k < meta.len() {
        note_lines_at(meta, k + 1);
        assert forall|i: int| 0 <= i < meta.len() - k implies #[trigger] note_lines(meta, k)[i]
            == note_line(meta[k + i].0, meta[k + i].1) by {
            if i > 0 {
                assert(note_lines(meta, k)[i] == note_lines(meta, k + 1)[i - 1]);
            }
        }
    }
}

proof fn row_lines_len(
    order: Seq<bool>,
    accel: Seq<Numerals>,
    gyro: Seq<Numerals>,
    i: int,
    j: int,
)
    ensures
        row_lines(order, accel, gyro, i, j).len() == order.len(),
    decreases order.len(),
{
    if order.len() > 0 {
        if order.first() {
            row_lines_len(order.drop_first(), accel, gyro, i + 1, j);
        } else {
            row_lines_len(order.drop_first(), accel, gyro, i, j + 1);
        }
    }
}

proof fn row_lines_are_single(trace: Trace, order: Seq<bool>, i: int, j: int)
    requires
        plain(trace),
        0 <= i,
        0 <= j,
        covers(order, trace.accel.len() - i, trace.gyro.len() - j),
    ensures
        forall|k: int|
            0 <= k < row_lines(order, trace.accel, trace.gyro, i, j).len() ==> !(
            #[trigger] row_lines(order, trace.accel, trace.gyro, i, j)[k]).contains('\n'),
    decreases order.len(),
{
    let all = row_lines(order, trace.accel, trace.gyro, i, j);
    if order.len() > 0 {
        let (line, rest) = if order.first() {
            assert(plain_row(trace.accel[i]));
            row_line_is_single(true, trace.accel[i]);
            row_lines_are_single(trace, order.drop_first(), i + 1, j);
            (
                row_line(true, trace.accel[i]),
                row_lines(order.drop_first(), trace.accel, trace.gyro, i + 1, j),
            )
        } else {
            assert(plain_row(trace.gyro[j]));
            row_line_is_single(false, trace.gyro[j]);
            row_lines_are_single(trace, order.drop_first(), i, j + 1);
            (
                row_line(false, trace.gyro[j]),
                row_lines(order.drop_first(), trace.accel, trace.gyro, i, j + 1),
            )
        };
        assert(all == seq![line] + rest);
        assert forall|k: int| 0 <= k < all.len() implies !(#[trigger] all[k]).contains('\n') by {
            if k > 0 {
                assert(all[k] == rest[k - 1]);
            }
        }
    }
}

proof fn lines_are_single(trace: Trace, accel: Seq<Scalar64>, gyro: Seq<Scalar64>)
    requires
        plain(trace),
        accel.len() == trace.accel.len(),
        gyro.len() == trace.gyro.len(),
    ensures
        forall|k: int|
            0 <= k < written_lines(trace, accel, gyro).len() ==> !(#[trigger] written_lines(
                trace,
                accel,
                gyro,
            )[k]).contains('\n'),
{
    let all = written_lines(trace, accel, gyro);
    let head = head_lines(trace);
    let order = merged(accel, gyro, 0, 0);
    let rows = row_lines(order, trace.accel, trace.gyro, 0, 0);
    let notes = note_lines(trace.meta, 0);
    let expect = expect_lines(trace.expect);
    merge_takes_everything(accel, gyro, 0, 0);
    row_lines_are_single(trace, order, 0, 0);
    note_lines_at(trace.meta, 0);
    magic_stays();
    header_stays();
    reveal_strlit("label");
    reveal_strlit("expect");
    note_line_is_single("label"@, trace.label);
    if let Some(n) = trace.expect {
        decimal_digits(n as nat);
        digits_are_plain(decimal(n as nat));
        note_line_is_single("expect"@, decimal(n as nat));
    }
    assert forall|k: int| 0 <= k < all.len() implies !(#[trigger] all[k]).contains('\n') by {
        let e = 2 + expect.len();
        if k < 2 {
        } else if k < e {
            assert(all[k] == expect[k - 2]);
        } else if k < e + notes.len() {
            assert(all[k] == notes[k - e]);
            let i = k - e;
            assert(plain_note(trace.meta[i].0, trace.meta[i].1));
            note_line_is_single(trace.meta[i].0, trace.meta[i].1);
        } else if k < head.len() {
            assert(all[k] == header());
        } else {
            assert(all[k] == rows[k - head.len()]);
        }
    }
}

// ---------------------------------------------------------------------------------
// What each line says
// ---------------------------------------------------------------------------------

/// The line of an annotation is read as that annotation.
proof fn note_line_reads(trace: Trace, name: Seq<char>, value: Seq<char>, no: nat)
    requires
        !name.contains('='),
        name.len() > 0 ==> !space(name.first()),
        one_line(value),
    ensures
        with_line(trace, trimmed(note_line(name, value)), no) == Ok::<Trace, Fault>(
            with_note(trace, name, value),
        ),
{
    reveal_strlit("# ");
    reveal_strlit("=");
    let line = note_line(name, value);
    let body = name + seq!['='] + value;
    assert(line =~= seq!['#', ' '] + body);
    assert(line.first() == '#');
    assert(line.last() == body.last());
    assert(!space(line.last()));
    trimmed_ends(line);
    header_stays();
    assert(line != header());
    let comment = line.drop_first();
    assert(comment =~= seq![' '] + body);
    assert(comment.drop_first() =~= body);
    assert(space(' '));
    assert(!space(body.first()));
    assert(trimmed_start(comment) == trimmed_start(body));
    assert(trimmed_start(body) == body);
    trimmed_ends(body);
    assert(trimmed(comment) == body);
    assert forall|k: int| 0 <= k < name.len() implies body[k] != '=' by {
        assert(name.contains(name[k]));
    }
    next_char_is(body, '=', 0, name.len() as int);
    assert(body.subrange(0, name.len() as int) =~= name);
    assert(body.subrange(name.len() as int + 1, body.len() as int) =~= value);
}

proof fn notes_read(trace: Trace, meta: Entries, lines: Seq<Seq<char>>, b: int, k: int)
    requires
        0 <= k <= meta.len(),
        0 <= b,
        b + meta.len() <= lines.len(),
        trace.meta == meta.take(k),
        ascending(meta),
        forall|i: int| 0 <= i < meta.len() ==> plain_note((#[trigger] meta[i]).0, meta[i].1),
        forall|i: int|
            0 <= i < meta.len() ==> #[trigger] lines[b + i] == note_line(meta[i].0, meta[i].1),
    ensures
        with_lines(trace, lines, b + k) == with_lines(
            Trace { meta, ..trace },
            lines,
            b + meta.len(),
        ),
    decreases meta.len() - k,
{
    if k < meta.len() {
        let (name, value) = meta[k];
        let next = Trace { meta: meta.take(k + 1), ..trace };
        assert(plain_note(meta[k].0, meta[k].1));
        assert(lines[b + k] == note_line(name, value));
        note_line_reads(trace, name, value, (b + k + 1) as nat);
        assert(inserted(meta.take(k), name, value) =~= meta.take(k + 1)) by {
            if k > 0 {
                assert(meta.take(k).last() == meta[k - 1]);
                assert(less(meta[k - 1].0, meta[k].0));
                less_is_an_order(meta[k - 1].0, name, name);
            } else {
                assert(meta.take(k).len() == 0);
                assert(inserted(meta.take(k), name, value) =~= seq![(name, value)]);
            }
        }
        assert(with_lines(trace, lines, b + k) == with_lines(next, lines, b + k + 1));
        notes_read(next, meta, lines, b, k + 1);
    } else {
        assert(meta.take(k) =~= meta);
        assert(Trace { meta, ..trace } =~= trace);
    }
}

/// The line of a row is read as that row.
proof fn row_line_reads(trace: Trace, accel: bool, row: Numerals, no: nat)
    requires
        plain_row(row),
    ensures
        with_line(trace, trimmed(row_line(accel, row)), no) == Ok::<Trace, Fault>(
            if accel {
                Trace { accel: trace.accel.push(row), ..trace }
            } else {
                Trace { gyro: trace.gyro.push(row), ..trace }
            },
        ),
{
    reveal_strlit("a");
    reveal_strlit("g");
    reveal_strlit(",");
    number_is_clean(row.t);
    number_is_clean(row.x);
    number_is_clean(row.y);
    number_is_clean(row.z);
    let tag = if accel {
        "a"@
    } else {
        "g"@
    };
    assert("a"@[0] == 'a');
    assert("g"@[0] == 'g');
    let comma = seq![','];
    assert(","@ =~= comma);
    let line = row_line(accel, row);
    let l4 = row.z;
    let l3 = row.y + comma + l4;
    let l2 = row.x + comma + l3;
    let l1 = row.t + comma + l2;
    assert(line =~= tag + comma + l1);
    assert(!tag.contains(','));
    split_whole(l4, ',');
    split_cons(row.y, ',', l4);
    split_cons(row.x, ',', l3);
    split_cons(row.t, ',', l2);
    split_cons(tag, ',', l1);
    let parts = seq![tag, row.t, row.x, row.y, row.z];
    assert(split(line, ',') =~= parts);
    assert(line.first() == tag[0]);
    assert(line.last() == row.z.last());
    assert(!space('a') && !space('g'));
    trimmed_ends(line);
    header_stays();
    assert(line != header());
    assert(row_fault(parts, no) is None);
}

proof fn rows_read(
    at: Trace,
    trace: Trace,
    order: Seq<bool>,
    lines: Seq<Seq<char>>,
    d: int,
    k: int,
    i: int,
    j: int,
)
    requires
        plain(trace),
        0 <= k <= order.len(),
        0 <= d,
        0 <= i <= trace.accel.len(),
        0 <= j <= trace.gyro.len(),
        d + order.len() <= lines.len(),
        at.accel == trace.accel.take(i),
        at.gyro == trace.gyro.take(j),
        covers(order.skip(k), trace.accel.len() - i, trace.gyro.len() - j),
        forall|m: int|
            k <= m < order.len() ==> #[trigger] lines[d + m] == row_lines(
                order.skip(k),
                trace.accel,
                trace.gyro,
                i,
                j,
            )[m - k],
    ensures
        with_lines(at, lines, d + k) == with_lines(
            Trace { accel: trace.accel, gyro: trace.gyro, ..at },
            lines,
            d + order.len(),
        ),
    decreases order.len() - k,
{
    let rest = order.skip(k);
    if k < order.len() {
        let accel = order[k];
        assert(rest.first() == accel);
        assert(rest.drop_first() =~= order.skip(k + 1));
        let (row, i1, j1) = if accel {
            assert(plain_row(trace.accel[i]));
            (trace.accel[i], i + 1, j)
        } else {
            assert(plain_row(trace.gyro[j]));
            (trace.gyro[j], i, j + 1)
        };
        let all = row_lines(rest, trace.accel, trace.gyro, i, j);
        let tail = row_lines(order.skip(k + 1), trace.accel, trace.gyro, i1, j1);
        assert(all =~= seq![row_line(accel, row)] + tail);
        assert(lines[d + k] == row_line(accel, row));
        row_line_reads(at, accel, row, (d + k + 1) as nat);
        let next = Trace { accel: trace.accel.take(i1), gyro: trace.gyro.take(j1), ..at };
        if accel {
            assert(at.accel.push(row) =~= trace.accel.take(i1));
            assert(next =~= Trace { accel: at.accel.push(row), ..at });
        } else {
            assert(at.gyro.push(row) =~= trace.gyro.take(j1));
            assert(next =~= Trace { gyro: at.gyro.push(row), ..at });
        }
        assert(with_lines(at, lines, d + k) == with_lines(next, lines, d + k + 1));
        assert forall|m: int| k + 1 <= m < order.len() implies #[trigger] lines[d + m] == tail[m
            - (k + 1)] by {
            row_lines_len(order.skip(k + 1), trace.accel, trace.gyro, i1, j1);
            assert(lines[d + m] == all[m - k]);
        }
        rows_read(next, trace, order, lines, d, k + 1, i1, j1);
    } else {
        assert(rest.len() == 0);
        assert(trace.accel.take(i) =~= trace.accel);
        assert(trace.gyro.take(j) =~= trace.gyro);
        assert(Trace { accel: trace.accel, gyro: trace.gyro, ..at } =~= at);
    }
}

/// A row of five fields is a sample of the sensor it is tagged with: its time and its axes
/// stand in the order in which they are written, and nothing else of the trace changes.
pub proof fn a_row_reads_as_its_fields(
    trace: Trace,
    t: Seq<char>,
    x: Seq<char>,
    y: Seq<char>,
    z: Seq<char>,
    no: nat,
)
    requires
        number(t),
        number(x),
        number(y),
        number(z),
    ensures
        with_line(trace, trimmed("a"@ + ","@ + t + ","@ + x + ","@ + y + ","@ + z), no) matches Ok(
            r,
        ) && {
            &&& r.label == trace.label && r.expect == trace.expect && r.meta == trace.meta
            &&& r.gyro == trace.gyro
            &&& r.accel.len() == trace.accel.len() + 1
            &&& r.accel.drop_last() == trace.accel
            &&& r.accel.last().t == t && r.accel.last().x == x && r.accel.last().y == y
            &&& r.accel.last().z == z
        },
        with_line(trace, trimmed("g"@ + ","@ + t + ","@ + x + ","@ + y + ","@ + z), no) matches Ok(
            r,
        ) && {
            &&& r.label == trace.label && r.expect == trace.expect && r.meta == trace.meta
            &&& r.accel == trace.accel
            &&& r.gyro.len() == trace.gyro.len() + 1
            &&& r.gyro.drop_last() == trace.gyro
            &&& r.gyro.last().t == t && r.gyro.last().x == x && r.gyro.last().y == y
            &&& r.gyro.last().z == z
        },
{
    let row = Numerals { t, x, y, z };
    row_line_reads(trace, true, row, no);
    row_line_reads(trace, false, row, no);
    assert(row_line(true, row) =~= "a"@ + ","@ + t + ","@ + x + ","@ + y + ","@ + z);
    assert(row_line(false, row) =~= "g"@ + ","@ + t + ","@ + x + ","@ + y + ","@ + z);
    assert(trace.accel.push(row).drop_last() =~= trace.accel);
    assert(trace.gyro.push(row).drop_last() =~= trace.gyro);
}

/// An annotation sets what it names: the label, the expected count, or the entry under its
/// name. Nothing else of the trace changes.
pub proof fn a_note_sets_what_it_names(
    trace: Trace,
    name: Seq<char>,
    value: Seq<char>,
    other: Seq<char>,
    no: nat,
)
    requires
        ascending(trace.meta),
        !name.contains('='),
        name.len() > 0 ==> !space(name.first()),
        one_line(value),
    ensures
        with_line(trace, trimmed("# "@ + name + "="@ + value), no) matches Ok(r) && {
            &&& r.accel == trace.accel && r.gyro == trace.gyro
            &&& r.label == (if name == "label"@ {
                value
            } else {
                trace.label
            })
            &&& r.expect == (if name == "expect"@ {
                count_of(value)
            } else {
                trace.expect
            })
            &&& if name == "label"@ || name == "expect"@ {
                r.meta == trace.meta
            } else {
                &&& lookup(r.meta, name) == Some(value)
                &&& other != name ==> lookup(r.meta, other) == lookup(trace.meta, other)
            }
        },
{
    reveal_strlit("label");
    reveal_strlit("expect");
    assert("label"@.len() != "expect"@.len());
    note_line_reads(trace, name, value, no);
    assert(note_line(name, value) =~= "# "@ + name + "="@ + value);
    insert_then_lookup(trace.meta, name, value, other);
}

} // verus!
