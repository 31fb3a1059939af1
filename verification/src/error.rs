//! Process-level errors.
//!
//! Sensor failures stay what they are. Everything else — socket I/O, launchctl, config
//! parse, fixture load — is kept apart from them, so that not every failure looks like an
//! HID problem.
use vstd::prelude::*;

use crate::sensor;
use crate::text::owned;

verus! {

/// A failure of the process, not necessarily of the sensor.
#[derive(Debug, PartialEq, Eq)]
pub enum Error {
    /// The IMU or IOKit path failed.
    Sensor(sensor::Error),
    /// Anything else: socket, launchd, filesystem, protocol, user error.
    Other(String),
}

/// What an error is reported as.
pub open spec fn message_of(e: Error) -> Seq<char> {
    match e {
        Error::Sensor(e) => sensor::message_of(e),
        Error::Other(m) => m@,
    }
}

/// Whether a Mac without the sensor is the whole problem.
pub open spec fn sensorless(e: Error) -> bool {
    e matches Error::Sensor(s) && s is NoSensor
}

impl Error {
    /// An error that is not the sensor's.
    pub fn other(msg: &str) -> (r: Error)
        ensures
            r matches Error::Other(m) && m@ == msg@,
    {
        Error::Other(owned(msg))
    }

    /// Whether this Mac has no sensor.
    pub fn is_no_sensor(&self) -> (r: bool)
        ensures
            r == sensorless(*self),
            r <==> *self == Error::Sensor(sensor::Error::NoSensor),
    {
        match self {
            Error::Sensor(e) => match e {
                sensor::Error::NoSensor => true,
                _ => false,
            },
            Error::Other(_) => false,
        }
    }

    /// What the error is reported as.
    pub fn message(&self) -> (r: String)
        ensures
            r@ == message_of(*self),
            *self matches Error::Other(m) ==> r@ == m@,
            *self matches Error::Sensor(e) ==> r@ == sensor::message_of(e),
    {
        match self {
            Error::Sensor(e) => e.message(),
            Error::Other(m) => m.clone(),
        }
    }
}

impl From<sensor::Error> for Error {
    fn from(e: sensor::Error) -> (r: Error) {
        Error::Sensor(e)
    }
}

impl vstd::std_specs::convert::FromSpecImpl<sensor::Error> for Error {
    open spec fn obeys_from_spec() -> bool {
        true
    }

    open spec fn from_spec(e: sensor::Error) -> Error {
        Error::Sensor(e)
    }
}

impl From<String> for Error {
    fn from(s: String) -> (r: Error) {
        Error::Other(s)
    }
}

impl vstd::std_specs::convert::FromSpecImpl<String> for Error {
    open spec fn obeys_from_spec() -> bool {
        true
    }

    open spec fn from_spec(s: String) -> Error {
        Error::Other(s)
    }
}

impl<'a> From<&'a str> for Error {
    fn from(s: &'a str) -> (r: Error)
        ensures
            r matches Error::Other(m) && m@ == s@,
    {
        Error::Other(owned(s))
    }
}

// Which string holds the characters is not a function of them, so the contract above says
// it by the view.
impl<'a> vstd::std_specs::convert::FromSpecImpl<&'a str> for Error {
    open spec fn obeys_from_spec() -> bool {
        false
    }

    open spec fn from_spec(s: &'a str) -> Error {
        arbitrary()
    }
}

/// Whether the process ends in success.
///
/// A Mac without the sensor will never grow one. Exiting with failure would have launchd
/// restart us every throttle interval forever, so that is a clean stop and the job stays
/// down.
pub fn exits_cleanly(result: &Result<(), Error>) -> (r: bool)
    ensures
        r == (match result {
            Ok(()) => true,
            Err(e) => sensorless(*e),
        }),
        r <==> result is Ok || *result == Err::<(), Error>(Error::Sensor(sensor::Error::NoSensor)),
{
    match result {
        Ok(()) => true,
        Err(e) => e.is_no_sensor(),
    }
}

} // verus!
