//! Fixtures as bytes, compressed or not.
//!
//! Recorded traces are ~1.7 MB each as text and compress about 4.5x, which is the
//! difference between a corpus worth committing and one that isn't. Both forms are
//! accepted so an uncompressed fixture dropped in by hand still works.
use vstd::prelude::*;
use vstd::utf8::{decode_utf8, encode_utf8, valid_utf8};

use crate::fixture::{outcome, parsed, written, Fault, Fixture, ParseError, Trace};
use crate::numeral::{decimal, write_count};
use crate::paths::{extension_of, has_extension};
use crate::round_trip::{fixture_round_trip, plain};
use crate::scalar::Scalar64;
use crate::text::{contains, occurs_at, owned, put, put_chars, string};

verus! {

/// What decompressing a gzip member and reading it as UTF-8 gives: the text, or what the
/// decoder says is wrong.
pub uninterp spec fn gunzipped(bytes: Seq<u8>) -> Result<Seq<char>, Seq<char>>;

/// What compressing a text as one gzip member gives: its bytes, or what the encoder says is
/// wrong.
pub uninterp spec fn gzipped(text: Seq<char>) -> Result<Seq<u8>, Seq<char>>;

/// The leading bytes of a gzip member.
pub open spec fn is_gzip(bytes: Seq<u8>) -> bool {
    bytes.len() >= 2 && bytes[0] == 0x1f && bytes[1] == 0x8b
}

/// `flate2::read::GzDecoder` with `Read::read_to_string`: the outcome is named, and
/// depends on the bytes alone.
#[verifier::external_body]
fn gunzip(bytes: &[u8]) -> (r: Result<String, String>)
    ensures
        match r {
            Ok(text) => gunzipped(bytes@) == Ok::<Seq<char>, Seq<char>>(text@),
            Err(e) => gunzipped(bytes@) == Err::<Seq<char>, Seq<char>>(e@),
        },
{
    let mut out = String::new();
    match std::io::Read::read_to_string(&mut flate2::read::GzDecoder::new(bytes), &mut out) {
        Ok(_) => Ok(out),
        Err(e) => Err(e.to_string()),
    }
}

/// `flate2::write::GzEncoder` at the best compression, over a vector: the outcome is named,
/// and depends on the text alone. What it produces starts with the gzip magic, and
/// decompresses to the text. That it always produces something is not claimed, since the
/// compressor has errors to report.
#[verifier::external_body]
fn gzip(text: &str) -> (r: Result<Vec<u8>, String>)
    ensures
        match r {
            Ok(b) => gzipped(text@) == Ok::<Seq<u8>, Seq<char>>(b@) && is_gzip(b@) && gunzipped(b@)
                == Ok::<Seq<char>, Seq<char>>(text@),
            Err(e) => gzipped(text@) == Err::<Seq<u8>, Seq<char>>(e@),
        },
{
    let mut encoder = flate2::write::GzEncoder::new(Vec::new(), flate2::Compression::best());
    match std::io::Write::write_all(&mut encoder, text.as_bytes()) {
        Ok(()) => encoder.finish().map_err(|e| e.to_string()),
        Err(e) => Err(e.to_string()),
    }
}

/// `String::from_utf8`: the text that the bytes encode, where they are valid UTF-8.
#[verifier::external_body]
fn utf8(bytes: &[u8]) -> (r: Option<String>)
    ensures
        match r {
            Some(text) => valid_utf8(bytes@) && text@ == decode_utf8(bytes@),
            None => !valid_utf8(bytes@),
        },
{
    String::from_utf8(bytes.to_vec()).ok()
}

/// What raw bytes hold, gzipped or not.
pub open spec fn loaded(bytes: Seq<u8>) -> Result<Trace, Fault> {
    if is_gzip(bytes) {
        match gunzipped(bytes) {
            Ok(text) => parsed(text),
            Err(source) => Err(Fault::Io { path: "<gzip stream>"@, source }),
        }
    } else if valid_utf8(bytes) {
        parsed(decode_utf8(bytes))
    } else {
        Err(Fault::NotUtf8 { path: "<input>"@ })
    }
}

/// What a file holds: `contents` are its bytes, or why it could not be read.
pub open spec fn file_loaded(path: Seq<char>, contents: Result<Seq<u8>, Seq<char>>) -> Result<
    Trace,
    Fault,
> {
    match contents {
        Err(source) => Err(Fault::Io { path, source }),
        Ok(bytes) => match loaded(bytes) {
            Err(Fault::NotUtf8 { .. }) => Err(Fault::NotUtf8 { path }),
            other => other,
        },
    }
}

/// The contents of a file, or why there are none, as a model.
pub open spec fn contents_of(r: Result<Vec<u8>, String>) -> Result<Seq<u8>, Seq<char>> {
    match r {
        Ok(b) => Ok(b@),
        Err(e) => Err(e@),
    }
}

/// What a fault is reported as.
pub open spec fn message_of(fault: Fault) -> Seq<char> {
    match fault {
        Fault::Io { path, source } => "could not read "@ + path + ": "@ + source,
        Fault::NotUtf8 { path } => path + " is not valid UTF-8"@,
        Fault::BadMagic => "not a spank fixture: missing the `# yamete-fixture v1` header"@,
        Fault::FieldCount { line, found } => "line "@ + decimal(line)
            + ": expected 5 comma-separated fields, found "@ + decimal(found),
        Fault::BadNumber { line, value } => "line "@ + decimal(line) + ": could not parse `"@
            + value + "` as a number"@,
        Fault::BadSensor { line, tag } => "line "@ + decimal(line) + ": unknown sensor tag `"@ + tag
            + "` (expected `a` or `g`)"@,
    }
}

impl ParseError {
    /// What the error is reported as.
    pub fn message(&self) -> (r: String)
        ensures
            r@ == message_of(self@),
    {
        let mut out: Vec<char> = Vec::new();
        match self {
            ParseError::Io { path, source } => {
                put(&mut out, "could not read ");
                put(&mut out, path.as_str());
                put(&mut out, ": ");
                put(&mut out, source.as_str());
            },
            ParseError::NotUtf8 { path } => {
                put(&mut out, path.as_str());
                put(&mut out, " is not valid UTF-8");
            },
            ParseError::BadMagic => {
                put(&mut out, "not a spank fixture: missing the `# yamete-fixture v1` header");
            },
            ParseError::FieldCount { line, found } => {
                let n: Vec<char> = write_count(*line as u64);
                let m: Vec<char> = write_count(*found as u64);
                put(&mut out, "line ");
                put_chars(&mut out, n.as_slice());
                put(&mut out, ": expected 5 comma-separated fields, found ");
                put_chars(&mut out, m.as_slice());
            },
            ParseError::BadNumber { line, value } => {
                let n: Vec<char> = write_count(*line as u64);
                put(&mut out, "line ");
                put_chars(&mut out, n.as_slice());
                put(&mut out, ": could not parse `");
                put(&mut out, value.as_str());
                put(&mut out, "` as a number");
            },
            ParseError::BadSensor { line, tag } => {
                let n: Vec<char> = write_count(*line as u64);
                put(&mut out, "line ");
                put_chars(&mut out, n.as_slice());
                put(&mut out, ": unknown sensor tag `");
                put(&mut out, tag.as_str());
                put(&mut out, "` (expected `a` or `g`)");
            },
        }
        proof {
            assert(out@ =~= message_of(self@));
        }
        string(out.as_slice())
    }
}

impl Fixture {
    /// Parse a fixture from raw bytes, gzipped or not.
    pub fn from_bytes(bytes: &[u8]) -> (r: Result<Fixture, ParseError>)
        ensures
            outcome(r) == loaded(bytes@),
            r matches Ok(f) ==> f.meta.valid(),
    {
        if bytes.len() >= 2 && bytes[0] == 0x1f && bytes[1] == 0x8b {
            match gunzip(bytes) {
                Ok(text) => Fixture::from_text(text.as_str()),
                Err(source) => Err(ParseError::Io { path: owned("<gzip stream>"), source }),
            }
        } else {
            match utf8(bytes) {
                Some(text) => Fixture::from_text(text.as_str()),
                None => Err(ParseError::NotUtf8 { path: owned("<input>") }),
            }
        }
    }

    /// The fixture in a file whose contents were read, or could not be.
    pub fn read(path: &str, contents: Result<Vec<u8>, String>) -> (r: Result<Fixture, ParseError>)
        ensures
            outcome(r) == file_loaded(path@, contents_of(contents)),
            r matches Ok(f) ==> f.meta.valid(),
    {
        match contents {
            Err(source) => Err(ParseError::Io { path: owned(path), source }),
            Ok(bytes) => match Fixture::from_bytes(bytes.as_slice()) {
                Ok(f) => Ok(f),
                Err(ParseError::NotUtf8 { path: _ }) => Err(
                    ParseError::NotUtf8 { path: owned(path) },
                ),
                Err(other) => Err(other),
            },
        }
    }

    /// The bytes to write to `path`: gzipped when it ends in `.gz`.
    pub fn to_bytes(&self, path: &str, accel: &Vec<Scalar64>, gyro: &Vec<Scalar64>) -> (r: Result<
        Vec<u8>,
        String,
    >)
        requires
            accel@.len() == self.accel@.len(),
            gyro@.len() == self.gyro@.len(),
        ensures
            ({
                let text = written(self@, accel@, gyro@);
                if extension_of(path@) == Some("gz"@) {
                    match r {
                        Ok(b) => gzipped(text) == Ok::<Seq<u8>, Seq<char>>(b@) && is_gzip(b@)
                            && gunzipped(b@) == Ok::<Seq<char>, Seq<char>>(text),
                        Err(e) => gzipped(text) == Err::<Seq<u8>, Seq<char>>(e@),
                    }
                } else {
                    r matches Ok(b) && b@ == encode_utf8(text)
                }
            }),
    {
        let text: String = self.to_text(accel, gyro);
        if has_extension(path, "gz") {
            gzip(text.as_str())
        } else {
            Ok(text.as_str().as_bytes_vec())
        }
    }
}

// ---------------------------------------------------------------------------------
// Laws
// ---------------------------------------------------------------------------------

/// Valid UTF-8 never looks compressed.
proof fn text_is_not_gzip(bytes: Seq<u8>)
    requires
        valid_utf8(bytes),
    ensures
        !is_gzip(bytes),
{
    if is_gzip(bytes) {
        reveal_with_fuel(valid_utf8, 3);
        assert(vstd::utf8::pop_first_scalar(bytes)[0] == 0x8b);
        assert(false);
    }
}

/// Plain and gzipped forms of a text are read alike.
pub proof fn plain_and_gzipped_alike(text: Seq<char>, zipped: Seq<u8>)
    requires
        is_gzip(zipped),
        gunzipped(zipped) == Ok::<Seq<char>, Seq<char>>(text),
    ensures
        loaded(encode_utf8(text)) == loaded(zipped),
        loaded(zipped) == parsed(text),
{
    vstd::utf8::encode_utf8_valid_utf8(text);
    vstd::utf8::encode_utf8_decode_utf8(text);
    text_is_not_gzip(encode_utf8(text));
}

/// What was written is read back as it was, whether plain or gzipped.
pub proof fn bytes_round_trip(
    trace: Trace,
    accel: Seq<Scalar64>,
    gyro: Seq<Scalar64>,
    zipped: Seq<u8>,
)
    requires
        plain(trace),
        accel.len() == trace.accel.len(),
        gyro.len() == trace.gyro.len(),
        is_gzip(zipped),
        gunzipped(zipped) == Ok::<Seq<char>, Seq<char>>(written(trace, accel, gyro)),
    ensures
        loaded(encode_utf8(written(trace, accel, gyro))) == Ok::<Trace, Fault>(trace),
        loaded(zipped) == Ok::<Trace, Fault>(trace),
{
    fixture_round_trip(trace, accel, gyro);
    plain_and_gzipped_alike(written(trace, accel, gyro), zipped);
}

/// A fault is reported with what it is about: the file and the reason, or the line and what
/// stands there.
pub proof fn faults_say_what_is_wrong(fault: Fault)
    ensures
        match fault {
            Fault::Io { path, source } => contains(message_of(fault), path) && contains(
                message_of(fault),
                source,
            ),
            Fault::NotUtf8 { path } => contains(message_of(fault), path),
            Fault::BadMagic => contains(message_of(fault), "# yamete-fixture v1"@),
            Fault::FieldCount { line, found } => "line "@.is_prefix_of(message_of(fault))
                && contains(message_of(fault), decimal(line)) && contains(
                message_of(fault),
                decimal(found),
            ),
            Fault::BadNumber { line, value } => "line "@.is_prefix_of(message_of(fault))
                && contains(message_of(fault), decimal(line)) && contains(message_of(fault), value),
            Fault::BadSensor { line, tag } => "line "@.is_prefix_of(message_of(fault)) && contains(
                message_of(fault),
                decimal(line),
            ) && contains(message_of(fault), tag),
        },
{
    let m = message_of(fault);
    match fault {
        Fault::Io { path, source } => {
            holds_at(m, path, "could not read "@.len() as int);
            holds_at(m, source, m.len() - source.len());
        },
        Fault::NotUtf8 { path } => {
            holds_at(m, path, 0);
        },
        Fault::BadMagic => {
            reveal_strlit("not a spank fixture: missing the `# yamete-fixture v1` header");
            reveal_strlit("# yamete-fixture v1");
            holds_at(m, "# yamete-fixture v1"@, 34);
        },
        Fault::FieldCount { line, found } => {
            assert("line "@ =~= m.subrange(0, "line "@.len() as int));
            holds_at(m, decimal(line), "line "@.len() as int);
            holds_at(m, decimal(found), m.len() - decimal(found).len());
        },
        Fault::BadNumber { line, value } => {
            assert("line "@ =~= m.subrange(0, "line "@.len() as int));
            holds_at(m, decimal(line), "line "@.len() as int);
            let at = ("line "@ + decimal(line) + ": could not parse `"@).len() as int;
            holds_at(m, value, at);
        },
        Fault::BadSensor { line, tag } => {
            assert("line "@ =~= m.subrange(0, "line "@.len() as int));
            holds_at(m, decimal(line), "line "@.len() as int);
            let at = ("line "@ + decimal(line) + ": unknown sensor tag `"@).len() as int;
            holds_at(m, tag, at);
        },
    }
}

proof fn holds_at(s: Seq<char>, part: Seq<char>, at: int)
    requires
        0 <= at,
        at + part.len() <= s.len(),
        forall|i: int| 0 <= i < part.len() ==> s[at + i] == #[trigger] part[i],
    ensures
        contains(s, part),
{
    assert(s.subrange(at, at + part.len()) =~= part);
    assert(occurs_at(s, part, at));
}

/// A text is read as it is, whatever it holds; bytes that are no text are refused, under the
/// file's own name where there is one; and a file that cannot be read is refused with the
/// reason.
pub proof fn texts_are_read_as_they_are(
    text: Seq<char>,
    bytes: Seq<u8>,
    path: Seq<char>,
    why: Seq<char>,
)
    ensures
        loaded(encode_utf8(text)) == parsed(text),
        !(bytes.len() >= 2 && bytes[0] == 31 && bytes[1] == 139) && !valid_utf8(bytes)
            ==> file_loaded(path, Ok(bytes)) == Err::<Trace, Fault>(Fault::NotUtf8 { path }),
        file_loaded(path, Err(why)) == Err::<Trace, Fault>(Fault::Io { path, source: why }),
        loaded(bytes) is Ok ==> file_loaded(path, Ok(bytes)) == loaded(bytes),
        is_gzip(bytes) <==> bytes.len() >= 2 && bytes[0] == 31 && bytes[1] == 139,
        is_gzip(bytes) ==> match gunzipped(bytes) {
            Ok(inside) => loaded(bytes) == parsed(inside),
            Err(said) => loaded(bytes) matches Err(Fault::Io { source, .. }) && source == said,
        },
{
    vstd::utf8::encode_utf8_valid_utf8(text);
    vstd::utf8::encode_utf8_decode_utf8(text);
    text_is_not_gzip(encode_utf8(text));
}

} // verus!
