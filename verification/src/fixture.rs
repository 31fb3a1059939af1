//! Recorded sensor traces, for testing the detector against reality.
//!
//! The format is line-oriented text so fixtures diff sensibly in review:
//!
//! ```text
//! # yamete-fixture v1
//! # label=slap-lid-left
//! # expect=5
//! # model=Mac16,5
//! s,t,x,y,z
//! a,0.000000,0.0051,0.0061,-0.9974
//! g,0.000000,0.2441,0.0000,-0.0610
//! ```
//!
//! A row keeps its measurements as the numerals of the file. Turning a numeral into a
//! number and back is left to the caller; which texts are numerals is decided here.
use vstd::prelude::*;
use vstd::slice::slice_subrange;

use crate::meta::{inserted, Entries, Meta};
use crate::numeral::{count_of, decimal, is_number, number, read_count, write_count};
use crate::scalar::Scalar64;
use crate::text::{
    chars, find_char, is_str, next_char, pieces, put, put_chars, split, string, trim, trimmed,
};

verus! {

// ---------------------------------------------------------------------------------
// Model
// ---------------------------------------------------------------------------------

/// The first line of a fixture.
pub open spec fn magic() -> Seq<char> {
    "# yamete-fixture v1"@
}

/// The first line this format used to have. Still accepted on read so an old trace does
/// not become unreadable.
pub open spec fn legacy_magic() -> Seq<char> {
    "# spank-fixture v1"@
}

/// The line that names the columns.
pub open spec fn header() -> Seq<char> {
    "s,t,x,y,z"@
}

/// The numerals of one row.
#[verifier::ext_equal]
pub struct Numerals {
    pub t: Seq<char>,
    pub x: Seq<char>,
    pub y: Seq<char>,
    pub z: Seq<char>,
}

/// The contents of a fixture.
#[verifier::ext_equal]
pub struct Trace {
    pub label: Seq<char>,
    pub expect: Option<usize>,
    pub meta: Entries,
    pub accel: Seq<Numerals>,
    pub gyro: Seq<Numerals>,
}

/// Why a text is not a fixture.
#[verifier::ext_equal]
pub enum Fault {
    Io { path: Seq<char>, source: Seq<char> },
    NotUtf8 { path: Seq<char> },
    BadMagic,
    FieldCount { line: nat, found: nat },
    BadNumber { line: nat, value: Seq<char> },
    BadSensor { line: nat, tag: Seq<char> },
}

/// One sample as the file has it: seconds since the recording started, and the three axes
/// in the sensor's own unit.
#[derive(Debug, PartialEq, Eq)]
pub struct Row {
    pub t: String,
    pub x: String,
    pub y: String,
    pub z: String,
}

impl View for Row {
    type V = Numerals;

    open spec fn view(&self) -> Numerals {
        Numerals { t: self.t@, x: self.x@, y: self.y@, z: self.z@ }
    }
}

/// The numerals of a list of rows.
pub open spec fn rows_of(rows: Seq<Row>) -> Seq<Numerals> {
    Seq::new(rows.len(), |i: int| rows[i]@)
}

/// A recorded trace of both sensors.
#[derive(Debug, PartialEq, Eq)]
pub struct Fixture {
    /// Short name describing what was recorded, e.g. `slap-lid-left` or `typing`.
    pub label: String,
    /// How many slaps the recording is supposed to contain. `None` means unannotated.
    pub expect: Option<usize>,
    /// Free-form provenance: machine model, macOS version, measured rate.
    pub meta: Meta,
    pub accel: Vec<Row>,
    pub gyro: Vec<Row>,
}

impl View for Fixture {
    type V = Trace;

    open spec fn view(&self) -> Trace {
        Trace {
            label: self.label@,
            expect: self.expect,
            meta: self.meta@,
            accel: rows_of(self.accel@),
            gyro: rows_of(self.gyro@),
        }
    }
}

/// A trace with nothing in it.
pub open spec fn blank() -> Trace {
    Trace {
        label: Seq::empty(),
        expect: None,
        meta: Seq::empty(),
        accel: Seq::empty(),
        gyro: Seq::empty(),
    }
}

/// Why a text is not a fixture.
#[derive(Debug, PartialEq, Eq)]
pub enum ParseError {
    Io { path: String, source: String },
    NotUtf8 { path: String },
    BadMagic,
    FieldCount { line: usize, found: usize },
    BadNumber { line: usize, value: String },
    BadSensor { line: usize, tag: String },
}

impl View for ParseError {
    type V = Fault;

    open spec fn view(&self) -> Fault {
        match self {
            ParseError::Io { path, source } => Fault::Io { path: path@, source: source@ },
            ParseError::NotUtf8 { path } => Fault::NotUtf8 { path: path@ },
            ParseError::BadMagic => Fault::BadMagic,
            ParseError::FieldCount { line, found } => Fault::FieldCount {
                line: *line as nat,
                found: *found as nat,
            },
            ParseError::BadNumber { line, value } => Fault::BadNumber {
                line: *line as nat,
                value: value@,
            },
            ParseError::BadSensor { line, tag } => Fault::BadSensor {
                line: *line as nat,
                tag: tag@,
            },
        }
    }
}

/// The model of what reading a fixture gives.
pub open spec fn outcome(r: Result<Fixture, ParseError>) -> Result<Trace, Fault> {
    match r {
        Ok(f) => Ok(f@),
        Err(e) => Err(e@),
    }
}

// ---------------------------------------------------------------------------------
// Reading
// ---------------------------------------------------------------------------------

/// Why field `i` of a row is not a numeral.
pub open spec fn numeral_fault(parts: Seq<Seq<char>>, i: int, line: nat) -> Option<Fault> {
    if i >= parts.len() {
        Some(Fault::FieldCount { line, found: parts.len() })
    } else if !number(parts[i]) {
        Some(Fault::BadNumber { line, value: parts[i] })
    } else {
        None
    }
}

/// The first thing wrong with the fields of a row.
pub open spec fn row_fault(parts: Seq<Seq<char>>, line: nat) -> Option<Fault> {
    if numeral_fault(parts, 1, line) is Some {
        numeral_fault(parts, 1, line)
    } else if numeral_fault(parts, 2, line) is Some {
        numeral_fault(parts, 2, line)
    } else if numeral_fault(parts, 3, line) is Some {
        numeral_fault(parts, 3, line)
    } else if numeral_fault(parts, 4, line) is Some {
        numeral_fault(parts, 4, line)
    } else if parts.len() > 5 {
        Some(Fault::FieldCount { line, found: parts.len() })
    } else if parts[0] != "a"@ && parts[0] != "g"@ {
        Some(Fault::BadSensor { line, tag: parts[0] })
    } else {
        None
    }
}

/// A trace with one more row.
pub open spec fn with_row(trace: Trace, parts: Seq<Seq<char>>) -> Trace {
    let row = Numerals { t: parts[1], x: parts[2], y: parts[3], z: parts[4] };
    if parts[0] == "a"@ {
        Trace { accel: trace.accel.push(row), ..trace }
    } else {
        Trace { gyro: trace.gyro.push(row), ..trace }
    }
}

/// A trace with one more annotation.
pub open spec fn with_note(trace: Trace, name: Seq<char>, value: Seq<char>) -> Trace {
    if name == "label"@ {
        Trace { label: value, ..trace }
    } else if name == "expect"@ {
        Trace { expect: count_of(value), ..trace }
    } else {
        Trace { meta: inserted(trace.meta, name, value), ..trace }
    }
}

/// A trace with what a comment says; one without a `=` says nothing.
pub open spec fn with_comment(trace: Trace, comment: Seq<char>) -> Trace {
    let at = next_char(comment, '=', 0);
    if at < comment.len() {
        with_note(
            trace,
            comment.subrange(0, at),
            comment.subrange(at + 1, comment.len() as int),
        )
    } else {
        trace
    }
}

/// A trace with what one line says.
pub open spec fn with_line(trace: Trace, line: Seq<char>, number: nat) -> Result<Trace, Fault> {
    if line.len() == 0 || line == header() {
        Ok(trace)
    } else if line.first() == '#' {
        Ok(with_comment(trace, trimmed(line.drop_first())))
    } else {
        let parts = split(line, ',');
        match row_fault(parts, number) {
            Some(fault) => Err(fault),
            None => Ok(with_row(trace, parts)),
        }
    }
}

/// A trace with what the lines from `i` on say, up to the first fault.
pub open spec fn with_lines(trace: Trace, lines: Seq<Seq<char>>, i: int) -> Result<Trace, Fault>
    decreases lines.len() - i,
{
    if i >= lines.len() {
        Ok(trace)
    } else {
        match with_line(trace, trimmed(lines[i]), (i + 1) as nat) {
            Ok(next) => with_lines(next, lines, i + 1),
            Err(fault) => Err(fault),
        }
    }
}

/// What a text holds.
pub open spec fn parsed(text: Seq<char>) -> Result<Trace, Fault> {
    let lines = split(text, '\n');
    let first = trimmed(lines[0]);
    if first != magic() && first != legacy_magic() {
        Err(Fault::BadMagic)
    } else {
        with_lines(blank(), lines, 1)
    }
}

/// Reads field `i` of a row as a numeral.
fn read_numeral(parts: &Vec<&[char]>, i: usize, line: usize) -> (r: Result<String, ParseError>)
    ensures
        match r {
            Ok(s) => i < parts@.len() && number(parts@[i as int]@) && s@ == parts@[i as int]@,
            Err(e) => if i >= parts@.len() {
                e@ == (Fault::FieldCount { line: line as nat, found: parts@.len() })
            } else {
                !number(parts@[i as int]@) && e@ == (Fault::BadNumber {
                    line: line as nat,
                    value: parts@[i as int]@,
                })
            },
        },
{
    if i >= parts.len() {
        return Err(ParseError::FieldCount { line, found: parts.len() });
    }
    let part = parts[i];
    if is_number(part) {
        Ok(string(part))
    } else {
        Err(ParseError::BadNumber { line, value: string(part) })
    }
}

/// Splits a row into its tag and numerals; `true` is the accelerometer's.
fn read_row(line: &[char], no: usize) -> (r: Result<(bool, Row), ParseError>)
    ensures
        match r {
            Ok((accel, row)) => {
                let parts = split(line@, ',');
                &&& row_fault(parts, no as nat) is None
                &&& accel == (parts[0] == "a"@)
                &&& row@ == (Numerals { t: parts[1], x: parts[2], y: parts[3], z: parts[4] })
            },
            Err(e) => row_fault(split(line@, ','), no as nat) == Some(e@),
        },
{
    let parts: Vec<&[char]> = pieces(line, ',');
    proof {
        assert(split(line@, ',').len() > 0);
    }
    let t: String = match read_numeral(&parts, 1, no) {
        Ok(s) => s,
        Err(e) => return Err(e),
    };
    let x: String = match read_numeral(&parts, 2, no) {
        Ok(s) => s,
        Err(e) => return Err(e),
    };
    let y: String = match read_numeral(&parts, 3, no) {
        Ok(s) => s,
        Err(e) => return Err(e),
    };
    let z: String = match read_numeral(&parts, 4, no) {
        Ok(s) => s,
        Err(e) => return Err(e),
    };
    if parts.len() > 5 {
        return Err(ParseError::FieldCount { line: no, found: parts.len() });
    }
    let tag = parts[0];
    let accel: bool = is_str(tag, "a");
    if !accel && !is_str(tag, "g") {
        return Err(ParseError::BadSensor { line: no, tag: string(tag) });
    }
    Ok((accel, Row { t, x, y, z }))
}

impl Fixture {
    /// An empty fixture with a label.
    pub fn new(label: &str) -> (r: Fixture)
        ensures
            r@ == (Trace { label: label@, ..blank() }),
            r.meta.valid(),
    {
        let chars: Vec<char> = chars(label);
        let r = Fixture {
            label: string(chars.as_slice()),
            expect: None,
            meta: Meta::new(),
            accel: Vec::new(),
            gyro: Vec::new(),
        };
        proof {
            assert(r@ =~= (Trace { label: label@, ..blank() }));
        }
        r
    }

    /// Takes in what a comment says.
    fn note(&mut self, comment: &[char])
        ensures
            final(self)@ == with_comment(old(self)@, comment@),
            old(self).meta.valid() ==> final(self).meta.valid(),
    {
        let n: usize = comment.len();
        let at: usize = find_char(comment, '=', 0);
        if at < n {
            let name = slice_subrange(comment, 0, at);
            let value = slice_subrange(comment, at + 1, n);
            if is_str(name, "label") {
                self.label = string(value);
            } else if is_str(name, "expect") {
                self.expect = read_count(value);
            } else {
                self.meta.insert(string(name), string(value));
            }
        }
        proof {
            assert(self@ =~= with_comment(old(self)@, comment@));
        }
    }

    /// Takes in one line.
    fn take_line(&mut self, line: &[char], no: usize) -> (r: Result<(), ParseError>)
        ensures
            match r {
                Ok(()) => with_line(old(self)@, line@, no as nat) == Ok::<Trace, Fault>(
                    final(self)@,
                ),
                Err(e) => with_line(old(self)@, line@, no as nat) == Err::<Trace, Fault>(e@),
            },
            old(self).meta.valid() ==> final(self).meta.valid(),
    {
        let n: usize = line.len();
        if n == 0 || is_str(line, "s,t,x,y,z") {
            return Ok(());
        }
        if line[0] == '#' {
            let rest = slice_subrange(line, 1, n);
            proof {
                assert(rest@ =~= line@.drop_first());
            }
            self.note(trim(rest));
            return Ok(());
        }
        match read_row(line, no) {
            Ok((accel, row)) => {
                if accel {
                    self.accel.push(row);
                } else {
                    self.gyro.push(row);
                }
                proof {
                    assert(self@ =~= with_row(old(self)@, split(line@, ',')));
                }
                Ok(())
            },
            Err(e) => Err(e),
        }
    }

    /// Parse a fixture.
    pub fn from_text(text: &str) -> (r: Result<Fixture, ParseError>)
        ensures
            outcome(r) == parsed(text@),
            r matches Ok(f) ==> f.meta.valid(),
    {
        let v: Vec<char> = chars(text);
        let lines: Vec<&[char]> = pieces(v.as_slice(), '\n');
        proof {
            assert(split(text@, '\n').len() > 0);
        }
        let first = trim(lines[0]);
        if !is_str(first, "# yamete-fixture v1") && !is_str(first, "# spank-fixture v1") {
            return Err(ParseError::BadMagic);
        }
        let mut fx: Fixture = Fixture::new("");
        proof {
            reveal_strlit("");
            assert(fx@ =~= blank());
        }
        let n: usize = lines.len();
        let mut i: usize = 1;
        while i < n
            invariant
                1 <= i <= n,
                n == lines@.len(),
                n == split(text@, '\n').len(),
                forall|k: int|
                    0 <= k < lines@.len() ==> #[trigger] lines@[k]@ == split(text@, '\n')[k],
                parsed(text@) == with_lines(fx@, split(text@, '\n'), i as int),
                fx.meta.valid(),
            decreases n - i,
        {
            proof {
                assert(lines@[i as int]@ == split(text@, '\n')[i as int]);
            }
            match fx.take_line(trim(lines[i]), i + 1) {
                Ok(()) => {},
                Err(e) => return Err(e),
            }
            i = i + 1;
        }
        Ok(fx)
    }
}

// ---------------------------------------------------------------------------------
// Writing
// ---------------------------------------------------------------------------------

/// Whether the next sample in time order is the accelerometer's: `i` and `j` samples of
/// the two sensors have been taken. On a tie the accelerometer goes first.
pub open spec fn accel_next(accel: Seq<Scalar64>, gyro: Seq<Scalar64>, i: int, j: int) -> bool {
    i < accel.len() && (j >= gyro.len() || accel[i].at_most(gyro[j]))
}

/// The order in which the samples of both sensors are taken: `true` for one of the
/// accelerometer's.
pub open spec fn merged(accel: Seq<Scalar64>, gyro: Seq<Scalar64>, i: int, j: int) -> Seq<bool>
    decreases accel.len() - i + gyro.len() - j,
{
    if !(0 <= i <= accel.len() && 0 <= j <= gyro.len()) || (i == accel.len() && j == gyro.len()) {
        Seq::empty()
    } else if accel_next(accel, gyro, i, j) {
        seq![true] + merged(accel, gyro, i + 1, j)
    } else {
        seq![false] + merged(accel, gyro, i, j + 1)
    }
}

/// The line of one row.
pub open spec fn row_line(accel: bool, row: Numerals) -> Seq<char> {
    (if accel {
        "a"@
    } else {
        "g"@
    }) + ","@ + row.t + ","@ + row.x + ","@ + row.y + ","@ + row.z
}

/// The lines of the rows that an order takes.
pub open spec fn row_lines(
    order: Seq<bool>,
    accel: Seq<Numerals>,
    gyro: Seq<Numerals>,
    i: int,
    j: int,
) -> Seq<Seq<char>>
    decreases order.len(),
{
    if order.len() == 0 {
        Seq::empty()
    } else if order.first() {
        seq![row_line(true, accel[i])] + row_lines(order.drop_first(), accel, gyro, i + 1, j)
    } else {
        seq![row_line(false, gyro[j])] + row_lines(order.drop_first(), accel, gyro, i, j + 1)
    }
}

/// The line of one annotation.
pub open spec fn note_line(name: Seq<char>, value: Seq<char>) -> Seq<char> {
    "# "@ + name + "="@ + value
}

/// The lines of the annotations from `k` on.
pub open spec fn note_lines(meta: Entries, k: int) -> Seq<Seq<char>>
    decreases meta.len() - k,
{
    if k < 0 || k >= meta.len() {
        Seq::empty()
    } else {
        seq![note_line(meta[k].0, meta[k].1)] + note_lines(meta, k + 1)
    }
}

/// The line of the expected count, where there is one.
pub open spec fn expect_lines(expect: Option<usize>) -> Seq<Seq<char>> {
    match expect {
        Some(n) => seq![note_line("expect"@, decimal(n as nat))],
        None => Seq::empty(),
    }
}

/// The lines above the rows.
pub open spec fn head_lines(trace: Trace) -> Seq<Seq<char>> {
    seq![magic(), note_line("label"@, trace.label)] + expect_lines(trace.expect) + note_lines(
        trace.meta,
        0,
    ) + seq![header()]
}

/// The lines of a fixture whose samples were taken at the given times.
pub open spec fn written_lines(trace: Trace, accel: Seq<Scalar64>, gyro: Seq<Scalar64>) -> Seq<
    Seq<char>,
> {
    head_lines(trace) + row_lines(merged(accel, gyro, 0, 0), trace.accel, trace.gyro, 0, 0)
}

/// Lines as text, each ended by a newline.
pub open spec fn unlines(lines: Seq<Seq<char>>) -> Seq<char>
    decreases lines.len(),
{
    if lines.len() == 0 {
        Seq::empty()
    } else {
        lines.first() + "\n"@ + unlines(lines.drop_first())
    }
}

/// The text of a fixture.
pub open spec fn written(trace: Trace, accel: Seq<Scalar64>, gyro: Seq<Scalar64>) -> Seq<char> {
    unlines(written_lines(trace, accel, gyro))
}

/// Whether an order takes exactly the samples there are.
pub open spec fn covers(order: Seq<bool>, accel: int, gyro: int) -> bool
    decreases order.len(),
{
    if order.len() == 0 {
        accel == 0 && gyro == 0
    } else if order.first() {
        accel > 0 && covers(order.drop_first(), accel - 1, gyro)
    } else {
        gyro > 0 && covers(order.drop_first(), accel, gyro - 1)
    }
}

/// Merging takes every sample of both sensors once, in the order of its sensor.
pub proof fn merge_takes_everything(accel: Seq<Scalar64>, gyro: Seq<Scalar64>, i: int, j: int)
    requires
        0 <= i <= accel.len(),
        0 <= j <= gyro.len(),
    ensures
        covers(merged(accel, gyro, i, j), accel.len() - i, gyro.len() - j),
        merged(accel, gyro, i, j).len() == accel.len() - i + gyro.len() - j,
    decreases accel.len() - i + gyro.len() - j,
{
    if i < accel.len() || j < gyro.len() {
        let order = merged(accel, gyro, i, j);
        if accel_next(accel, gyro, i, j) {
            merge_takes_everything(accel, gyro, i + 1, j);
            assert(order.drop_first() =~= merged(accel, gyro, i + 1, j));
        } else {
            merge_takes_everything(accel, gyro, i, j + 1);
            assert(order.drop_first() =~= merged(accel, gyro, i, j + 1));
        }
    }
}

proof fn unlines_adds(a: Seq<Seq<char>>, b: Seq<Seq<char>>)
    ensures
        unlines(a + b) == unlines(a) + unlines(b),
    decreases a.len(),
{
    if a.len() == 0 {
        assert(a + b =~= b);
        assert(unlines(a) + unlines(b) =~= unlines(b));
    } else {
        unlines_adds(a.drop_first(), b);
        assert((a + b).drop_first() =~= a.drop_first() + b);
        assert(unlines(a + b) =~= unlines(a) + unlines(b));
    }
}

proof fn unlines_one(line: Seq<char>)
    ensures
        unlines(seq![line]) == line + "\n"@,
{
    assert(seq![line].drop_first() =~= Seq::<Seq<char>>::empty());
    assert(unlines(Seq::<Seq<char>>::empty()) =~= Seq::<char>::empty());
    assert(unlines(seq![line]) =~= line + "\n"@);
}

/// Appends a line of the form `# name=value`.
fn put_note(out: &mut Vec<char>, name: &str, value: &[char])
    ensures
        final(out)@ == old(out)@ + unlines(seq![note_line(name@, value@)]),
{
    put(out, "# ");
    put(out, name);
    put(out, "=");
    put_chars(out, value);
    put(out, "\n");
    proof {
        unlines_one(note_line(name@, value@));
        assert(out@ =~= old(out)@ + unlines(seq![note_line(name@, value@)]));
    }
}

/// Appends the line of a row.
fn put_row(out: &mut Vec<char>, accel: bool, row: &Row)
    ensures
        final(out)@ == old(out)@ + unlines(seq![row_line(accel, row@)]),
{
    if accel {
        put(out, "a");
    } else {
        put(out, "g");
    }
    put(out, ",");
    put(out, row.t.as_str());
    put(out, ",");
    put(out, row.x.as_str());
    put(out, ",");
    put(out, row.y.as_str());
    put(out, ",");
    put(out, row.z.as_str());
    put(out, "\n");
    proof {
        unlines_one(row_line(accel, row@));
        assert(out@ =~= old(out)@ + unlines(seq![row_line(accel, row@)]));
    }
}

/// The order in which the samples of two sensors are taken, by their times: `true` for one
/// of the accelerometer's, which goes first on a tie.
pub fn interleave(accel: &Vec<Scalar64>, gyro: &Vec<Scalar64>) -> (r: Vec<bool>)
    ensures
        r@ == merged(accel@, gyro@, 0, 0),
{
    let mut r: Vec<bool> = Vec::new();
    let mut i: usize = 0;
    let mut j: usize = 0;
    proof {
        assert(r@ + merged(accel@, gyro@, 0, 0) =~= merged(accel@, gyro@, 0, 0));
    }
    while i < accel.len() || j < gyro.len()
        invariant
            i <= accel@.len(),
            j <= gyro@.len(),
            merged(accel@, gyro@, 0, 0) == r@ + merged(accel@, gyro@, i as int, j as int),
        decreases accel.len() - i + gyro.len() - j,
    {
        let ghost before = r@;
        if i < accel.len() && (j >= gyro.len() || accel[i].le(gyro[j])) {
            r.push(true);
            proof {
                assert(before + merged(accel@, gyro@, i as int, j as int) =~= r@ + merged(
                    accel@,
                    gyro@,
                    i as int + 1,
                    j as int,
                ));
            }
            i = i + 1;
        } else {
            r.push(false);
            proof {
                assert(before + merged(accel@, gyro@, i as int, j as int) =~= r@ + merged(
                    accel@,
                    gyro@,
                    i as int,
                    j as int + 1,
                ));
            }
            j = j + 1;
        }
    }
    proof {
        assert(r@ + Seq::<bool>::empty() =~= r@);
    }
    r
}

impl Fixture {
    /// The lines above the rows.
    fn put_head(&self, out: &mut Vec<char>)
        ensures
            final(out)@ == old(out)@ + unlines(head_lines(self@)),
    {
        put(out, "# yamete-fixture v1");
        put(out, "\n");
        proof {
            unlines_one(magic());
            assert(out@ =~= old(out)@ + unlines(seq![magic()]));
        }
        let ghost first = out@;
        let label: Vec<char> = chars(self.label.as_str());
        put_note(out, "label", label.as_slice());
        proof {
            unlines_adds(seq![magic()], seq![note_line("label"@, self@.label)]);
            assert(seq![magic()] + seq![note_line("label"@, self@.label)] =~= seq![
                magic(),
                note_line("label"@, self@.label),
            ]);
            assert(out@ =~= old(out)@ + unlines(
                seq![magic(), note_line("label"@, self@.label)],
            ));
        }
        let ghost top = seq![magic(), note_line("label"@, self@.label)];
        match self.expect {
            Some(n) => {
                let count: Vec<char> = write_count(n as u64);
                put_note(out, "expect", count.as_slice());
            },
            None => {},
        }
        let ghost mid = top + expect_lines(self@.expect);
        proof {
            unlines_adds(top, expect_lines(self@.expect));
            assert(out@ =~= old(out)@ + unlines(mid));
        }
        let n: usize = self.meta.entries.len();
        let mut k: usize = 0;
        let ghost notes = note_lines(self@.meta, 0);
        while k < n
            invariant
                k <= n,
                n == self.meta.entries@.len(),
                old(out)@ + unlines(mid) + unlines(notes) == out@ + unlines(
                    note_lines(self@.meta, k as int),
                ),
            decreases n - k,
        {
            let ghost before = out@;
            let value: Vec<char> = chars(self.meta.entries[k].value.as_str());
            put_note(out, self.meta.entries[k].name.as_str(), value.as_slice());
            proof {
                let line = note_line(self@.meta[k as int].0, self@.meta[k as int].1);
                unlines_adds(seq![line], note_lines(self@.meta, k as int + 1));
                assert(before + unlines(note_lines(self@.meta, k as int)) =~= out@ + unlines(
                    note_lines(self@.meta, k as int + 1),
                ));
            }
            k = k + 1;
        }
        proof {
            unlines_adds(mid, notes);
            assert(out@ + unlines(note_lines(self@.meta, n as int)) =~= out@);
            assert(out@ =~= old(out)@ + unlines(mid + notes));
        }
        put(out, "s,t,x,y,z");
        put(out, "\n");
        proof {
            unlines_one(header());
            unlines_adds(mid + notes, seq![header()]);
            assert(out@ =~= old(out)@ + unlines(head_lines(self@)));
        }
    }

    /// The text of a fixture whose samples were taken at the given times.
    ///
    /// Rows are interleaved by timestamp so the file reads in chronological order, which
    /// makes eyeballing a trace around an event practical.
    pub fn to_text(&self, accel: &Vec<Scalar64>, gyro: &Vec<Scalar64>) -> (r: String)
        requires
            accel@.len() == self.accel@.len(),
            gyro@.len() == self.gyro@.len(),
        ensures
            r@ == written(self@, accel@, gyro@),
    {
        let mut out: Vec<char> = Vec::new();
        self.put_head(&mut out);
        let order: Vec<bool> = interleave(accel, gyro);
        let ghost head = head_lines(self@);
        let ghost rows = row_lines(order@, self@.accel, self@.gyro, 0, 0);
        let n: usize = order.len();
        let accels: usize = self.accel.len();
        let gyros: usize = self.gyro.len();
        let mut k: usize = 0;
        let mut i: usize = 0;
        let mut j: usize = 0;
        proof {
            merge_takes_everything(accel@, gyro@, 0, 0);
            assert(order@.skip(0) =~= order@);
            assert(out@ =~= unlines(head));
        }
        while k < n
            invariant
                k <= n,
                n == order@.len(),
                accels == self.accel@.len(),
                gyros == self.gyro@.len(),
                i <= accels,
                j <= gyros,
                covers(order@.skip(k as int), accels - i, gyros - j),
                unlines(head) + unlines(rows) == out@ + unlines(
                    row_lines(order@.skip(k as int), self@.accel, self@.gyro, i as int, j as int),
                ),
            decreases n - k,
        {
            let ghost before = out@;
            let ghost rest = order@.skip(k as int);
            proof {
                assert(rest.first() == order@[k as int]);
                assert(rest.drop_first() =~= order@.skip(k as int + 1));
            }
            if order[k] {
                put_row(&mut out, true, &self.accel[i]);
                proof {
                    let tail = row_lines(
                        rest.drop_first(),
                        self@.accel,
                        self@.gyro,
                        i as int + 1,
                        j as int,
                    );
                    unlines_adds(seq![row_line(true, self@.accel[i as int])], tail);
                    assert(before + unlines(
                        row_lines(rest, self@.accel, self@.gyro, i as int, j as int),
                    ) =~= out@ + unlines(tail));
                }
                i = i + 1;
            } else {
                put_row(&mut out, false, &self.gyro[j]);
                proof {
                    let tail = row_lines(
                        rest.drop_first(),
                        self@.accel,
                        self@.gyro,
                        i as int,
                        j as int + 1,
                    );
                    unlines_adds(seq![row_line(false, self@.gyro[j as int])], tail);
                    assert(before + unlines(
                        row_lines(rest, self@.accel, self@.gyro, i as int, j as int),
                    ) =~= out@ + unlines(tail));
                }
                j = j + 1;
            }
            k = k + 1;
        }
        proof {
            unlines_adds(head, rows);
            assert(out@ + Seq::<char>::empty() =~= out@);
        }
        string(out.as_slice())
    }
}

// ---------------------------------------------------------------------------------
// Length
// ---------------------------------------------------------------------------------

/// The last of a list of times, or zero.
pub open spec fn last_time(times: Seq<Scalar64>) -> Scalar64 {
    if times.len() == 0 {
        Scalar64 { bits: 0 }
    } else {
        times.last()
    }
}

fn end_of(times: &Vec<Scalar64>) -> (r: Scalar64)
    ensures
        r == last_time(times@),
{
    if times.len() == 0 {
        Scalar64 { bits: 0 }
    } else {
        times[times.len() - 1]
    }
}

/// Duration of a recording, in seconds: the later of the two sensors' last samples.
pub fn duration(accel: &Vec<Scalar64>, gyro: &Vec<Scalar64>) -> (r: Scalar64)
    ensures
        r == last_time(accel@).larger(last_time(gyro@)),
{
    end_of(accel).max(end_of(gyro))
}

// ---------------------------------------------------------------------------------
// Laws
// ---------------------------------------------------------------------------------

/// A text that does not start with the format's name, in its present or its former form, is
/// refused for that and for nothing else.
pub proof fn the_first_line_names_the_format(text: Seq<char>)
    ensures
        parsed(text) == Err::<Trace, Fault>(Fault::BadMagic) <==> trimmed(split(text, '\n')[0])
            != "# yamete-fixture v1"@ && trimmed(split(text, '\n')[0]) != "# spank-fixture v1"@,
{
    let lines = split(text, '\n');
    lines_have_magic(blank(), lines, 1);
}

proof fn lines_have_magic(trace: Trace, lines: Seq<Seq<char>>, i: int)
    ensures
        with_lines(trace, lines, i) != Err::<Trace, Fault>(Fault::BadMagic),
    decreases lines.len() - i,
{
    if i < lines.len() {
        let line = trimmed(lines[i]);
        match with_line(trace, line, (i + 1) as nat) {
            Ok(next) => {
                lines_have_magic(next, lines, i + 1);
            },
            Err(_) => {},
        }
    }
}

/// Lines are taken in turn: one more at the end is taken in after all the others, under its
/// own number, and only where none of them was refused.
pub proof fn lines_are_taken_in_turn(trace: Trace, lines: Seq<Seq<char>>, line: Seq<char>, i: int)
    requires
        0 <= i <= lines.len(),
    ensures
        match with_lines(trace, lines, i) {
            Ok(t) => with_lines(trace, lines.push(line), i) == with_line(
                t,
                trimmed(line),
                (lines.len() + 1) as nat,
            ),
            Err(f) => with_lines(trace, lines.push(line), i) == Err::<Trace, Fault>(f),
        },
    decreases lines.len() - i,
{
    let longer = lines.push(line);
    if i < lines.len() {
        assert(longer[i] == lines[i]);
        match with_line(trace, trimmed(lines[i]), (i + 1) as nat) {
            Ok(next) => {
                lines_are_taken_in_turn(next, lines, line, i + 1);
            },
            Err(_) => {},
        }
    } else {
        assert(longer[i] == line);
        match with_line(trace, trimmed(line), (i + 1) as nat) {
            Ok(next) => {
                assert(with_lines(next, longer, i + 1) == Ok::<Trace, Fault>(next));
            },
            Err(_) => {},
        }
    }
}

/// An empty line and the line that names the columns say nothing.
pub proof fn empty_lines_say_nothing(trace: Trace, no: nat)
    ensures
        with_line(trace, Seq::<char>::empty(), no) == Ok::<Trace, Fault>(trace),
        with_line(trace, "s,t,x,y,z"@, no) == Ok::<Trace, Fault>(trace),
{
}

/// A row is taken exactly when it has five fields, the first a sensor's tag and the others
/// numbers. What is refused is refused under its own line, for a field that is wrong.
pub proof fn rows_are_refused_exactly_when(trace: Trace, line: Seq<char>, no: nat)
    requires
        line.len() > 0,
        line[0] != '#',
        line != "s,t,x,y,z"@,
    ensures
        ({
            let parts = split(line, ',');
            &&& with_line(trace, line, no) is Ok <==> {
                &&& parts.len() == 5
                &&& parts[0] == "a"@ || parts[0] == "g"@
                &&& number(parts[1]) && number(parts[2]) && number(parts[3]) && number(parts[4])
            }
            &&& with_line(trace, line, no) matches Err(fault) ==> match fault {
                Fault::FieldCount { line: at, found } => at == no && found == parts.len() && found
                    != 5 && forall|j: int|
                    1 <= j <= 4 && j < parts.len() ==> number(#[trigger] parts[j]),
                Fault::BadNumber { line: at, value } => at == no && !number(value) && exists|i: int|
                    1 <= i <= 4 && i < parts.len() && #[trigger] parts[i] == value && forall|j: int|
                        1 <= j < i ==> number(#[trigger] parts[j]),
                Fault::BadSensor { line: at, tag } => at == no && tag == parts[0] && tag != "a"@
                    && tag != "g"@ && parts.len() == 5 && forall|j: int|
                    1 <= j <= 4 ==> number(#[trigger] parts[j]),
                _ => false,
            }
        }),
{
    let parts = split(line, ',');
    match with_line(trace, line, no) {
        Err(Fault::BadNumber { line: at, value }) => {
            let i: int = if !number(parts[1]) {
                1
            } else if !number(parts[2]) {
                2
            } else if !number(parts[3]) {
                3
            } else {
                4
            };
            assert(parts[i] == value);
            assert forall|j: int| 1 <= j < i implies number(#[trigger] parts[j]) by {
                assert(j == 1 || j == 2 || j == 3);
            }
        },
        Err(_) => {
            assert forall|j: int| 1 <= j <= 4 && j < parts.len() implies number(
                #[trigger] parts[j],
            ) by {
                assert(j == 1 || j == 2 || j == 3 || j == 4);
            }
        },
        _ => {},
    }
}

/// The sensors' samples are merged by time: the accelerometer's next is taken where the
/// gyroscope has none left, or none earlier; otherwise the gyroscope's is. What follows is
/// the merge of the rest.
pub proof fn the_earlier_sample_goes_first(
    accel: Seq<Scalar64>,
    gyro: Seq<Scalar64>,
    i: int,
    j: int,
)
    requires
        0 <= i <= accel.len(),
        0 <= j <= gyro.len(),
        i < accel.len() || j < gyro.len(),
    ensures
        ({
            let order = merged(accel, gyro, i, j);
            let first = i < accel.len() && (j == gyro.len() || (!accel[i].nan() && !gyro[j].nan()
                && accel[i].value() <= gyro[j].value()));
            &&& order.len() > 0
            &&& order[0] == first
            &&& order.drop_first() == (if first {
                merged(accel, gyro, i + 1, j)
            } else {
                merged(accel, gyro, i, j + 1)
            })
        }),
{
    let order = merged(accel, gyro, i, j);
    if accel_next(accel, gyro, i, j) {
        assert(order.drop_first() =~= merged(accel, gyro, i + 1, j));
    } else {
        assert(order.drop_first() =~= merged(accel, gyro, i, j + 1));
    }
}

/// The text of a fixture starts with the format's name and the label, has the expected count
/// where there is one, and names the columns before the first row.
pub proof fn the_head_says_what_is_recorded(trace: Trace)
    ensures
        ({
            let head = head_lines(trace);
            &&& head[0] == "# yamete-fixture v1"@
            &&& head[1] == "# "@ + "label"@ + "="@ + trace.label
            &&& trace.expect matches Some(n) ==> head[2] == "# "@ + "expect"@ + "="@ + decimal(
                n as nat,
            )
            &&& head.last() == "s,t,x,y,z"@
        }),
{
}

/// Every line ends in a newline of its own, and lines follow one another.
pub proof fn lines_end_in_newlines(lines: Seq<Seq<char>>, line: Seq<char>)
    ensures
        unlines(Seq::<Seq<char>>::empty()).len() == 0,
        unlines(lines.push(line)) == unlines(lines) + (line + "\n"@),
{
    unlines_adds(lines, seq![line]);
    unlines_one(line);
    assert(lines + seq![line] =~= lines.push(line));
}

/// The last time of a list is its last entry, and zero of an empty one.
pub proof fn the_last_time_is_the_last(times: Seq<Scalar64>)
    ensures
        times.len() > 0 ==> last_time(times) == times[times.len() - 1],
        times.len() == 0 ==> last_time(times).bits == 0,
{
}

/// The models of a fixture and of an error show what they hold.
pub proof fn fixtures_are_their_fields(f: Fixture, e: ParseError, i: int)
    ensures
        f@.label == f.label@,
        f@.expect == f.expect,
        f@.meta == f.meta@,
        f@.accel.len() == f.accel@.len(),
        f@.gyro.len() == f.gyro@.len(),
        0 <= i < f.accel@.len() ==> {
            &&& f@.accel[i].t == f.accel@[i].t@
            &&& f@.accel[i].x == f.accel@[i].x@
            &&& f@.accel[i].y == f.accel@[i].y@
            &&& f@.accel[i].z == f.accel@[i].z@
        },
        0 <= i < f.gyro@.len() ==> {
            &&& f@.gyro[i].t == f.gyro@[i].t@
            &&& f@.gyro[i].x == f.gyro@[i].x@
            &&& f@.gyro[i].y == f.gyro@[i].y@
            &&& f@.gyro[i].z == f.gyro@[i].z@
        },
        outcome(Ok::<Fixture, ParseError>(f)) == Ok::<Trace, Fault>(f@),
        outcome(Err::<Fixture, ParseError>(e)) == Err::<Trace, Fault>(e@),
        match e {
            ParseError::Io { path, source } => e@ == (Fault::Io { path: path@, source: source@ }),
            ParseError::NotUtf8 { path } => e@ == (Fault::NotUtf8 { path: path@ }),
            ParseError::BadMagic => e@ is BadMagic,
            ParseError::FieldCount { line, found } => e@ matches Fault::FieldCount {
                line: l,
                found: n,
            } && l == line && n == found,
            ParseError::BadNumber { line, value } => e@ matches Fault::BadNumber {
                line: l,
                value: v,
            } && l == line && v == value@,
            ParseError::BadSensor { line, tag } => e@ matches Fault::BadSensor { line: l, tag: t }
                && l == line && t == tag@,
        },
{
}

} // verus!
