//! Talking to a running daemon from the command line: what its replies mean.
use vstd::prelude::*;

use crate::protocol::{Event, Said, Slap, Status};
use crate::sensor;
use crate::text::{chars, owned, put, string, trim, trimmed};

verus! {

/// A reply as it came: a message, or why it is none.
pub open spec fn heard(reply: Result<Event, String>) -> Result<Said, Seq<char>> {
    match reply {
        Ok(event) => Ok(event@),
        Err(e) => Err(e@),
    }
}

/// The error that a failed exchange is reported as.
pub open spec fn failure(e: sensor::Error) -> Seq<char> {
    match e {
        sensor::Error::Iokit(m) => m@,
        _ => Seq::empty(),
    }
}

fn fail(out: &Vec<char>) -> (r: sensor::Error)
    ensures
        r is Iokit,
        failure(r) == out@,
{
    sensor::Error::Iokit(string(out.as_slice()))
}

/// The error for a daemon that does not answer at `path`.
pub fn unreachable(path: &str, e: &str) -> (r: sensor::Error)
    ensures
        r is Iokit,
        failure(r) == "could not reach the daemon at "@ + path@ + ": "@ + e@
            + "\nIs it running? Try `yamete run`."@,
{
    let mut out: Vec<char> = chars("could not reach the daemon at ");
    put(&mut out, path);
    put(&mut out, ": ");
    put(&mut out, e);
    put(&mut out, "\nIs it running? Try `yamete run`.");
    fail(&out)
}

/// The status in the reply to a request for it; `shown` is how the reply prints.
pub fn status(reply: Result<Event, String>, shown: &str) -> (r: Result<Status, sensor::Error>)
    ensures
        match r {
            Ok(s) => heard(reply) == Ok::<Said, Seq<char>>(Said::Status { status: s@ }),
            Err(e) => e is Iokit && match heard(reply) {
                Ok(Said::Status { .. }) => false,
                Ok(Said::Error { message }) => failure(e) == message,
                Ok(_) => failure(e) == "unexpected reply: "@ + shown@,
                Err(why) => failure(e) == "could not parse reply: "@ + why,
            },
        },
{
    match reply {
        Ok(Event::Status(s)) => Ok(s),
        Ok(Event::Error { message }) => Err(sensor::Error::Iokit(message)),
        Ok(_) => {
            let mut out: Vec<char> = chars("unexpected reply: ");
            put(&mut out, shown);
            Err(fail(&out))
        },
        Err(why) => {
            let mut out: Vec<char> = chars("could not parse reply: ");
            put(&mut out, why.as_str());
            Err(fail(&out))
        },
    }
}

/// Whether detection is on, by the reply to a request to switch it.
pub fn set_enabled(reply: Result<Event, String>) -> (r: Result<bool, sensor::Error>)
    ensures
        match r {
            Ok(enabled) => heard(reply) matches Ok(Said::Config { config }) && config.enabled
                == enabled,
            Err(e) => e is Iokit && match heard(reply) {
                Ok(Said::Config { .. }) => false,
                Ok(Said::Error { message }) => failure(e) == message,
                _ => failure(e) == "unexpected reply"@,
            },
        },
{
    match reply {
        Ok(Event::Config { config }) => Ok(config.enabled),
        Ok(Event::Error { message }) => Err(sensor::Error::Iokit(message)),
        _ => Err(sensor::Error::Iokit(owned("unexpected reply"))),
    }
}

/// What a line of the event stream is shown as.
#[derive(Debug, PartialEq, Eq)]
pub enum Heard {
    Slap(Slap),
    Complaint(String),
    Nothing,
}

/// What a line of the event stream is shown as.
pub fn listen(line: Result<Event, String>) -> (r: Heard)
    ensures
        match r {
            Heard::Slap(slap) => heard(line) == Ok::<Said, Seq<char>>(Said::Slap { slap }),
            Heard::Complaint(m) => heard(line) == Ok::<Said, Seq<char>>(
                Said::Error { message: m@ },
            ),
            Heard::Nothing => !(heard(line) matches Ok(Said::Slap { .. })) && !(heard(
                line,
            ) matches Ok(Said::Error { .. })),
        },
{
    match line {
        Ok(Event::Slap(slap)) => Heard::Slap(slap),
        Ok(Event::Error { message }) => Heard::Complaint(message),
        _ => Heard::Nothing,
    }
}

/// Whether a preview was accepted. One that succeeds gets no reply, so anything that
/// arrives is a complaint: `line` is what came in time, if anything, and `parsed` what it
/// says.
pub fn test_action(line: Option<&str>, parsed: Result<Event, String>) -> (r: Result<
    (),
    sensor::Error,
>)
    ensures
        match r {
            Ok(()) => line is None || trimmed(line->0@).len() == 0 || !(heard(
                parsed,
            ) matches Ok(Said::Error { .. })),
            Err(e) => e is Iokit && line is Some && trimmed(line->0@).len() > 0 && heard(parsed)
                == Ok::<Said, Seq<char>>(Said::Error { message: failure(e) }),
        },
{
    match line {
        Some(l) => {
            let v: Vec<char> = chars(l);
            if trim(v.as_slice()).len() > 0 {
                match parsed {
                    Ok(Event::Error { message }) => Err(sensor::Error::Iokit(message)),
                    _ => Ok(()),
                }
            } else {
                Ok(())
            }
        },
        None => Ok(()),
    }
}

/// A reply is heard as the message it is, or as why it is none; a failed exchange says why.
pub proof fn replies_are_heard_as_they_are(event: Event, why: String)
    ensures
        heard(Ok::<Event, String>(event)) == Ok::<Said, Seq<char>>(event@),
        heard(Err::<Event, String>(why)) == Err::<Said, Seq<char>>(why@),
        failure(sensor::Error::Iokit(why)) == why@,
{
}

} // verus!
