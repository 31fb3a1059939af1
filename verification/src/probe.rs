//! Checking that the sensor works on this machine.
//!
//! This exists to make failure legible. The sensor is undocumented, model-dependent and
//! gated by a permission, so "it didn't work" has several very different causes that
//! deserve different messages.
use vstd::prelude::*;

use crate::report::Sample;
use crate::scalar::{Scalar, INFINITY, NEG_INFINITY};
use crate::sensor::{Access, Error, SensorKind, USAGE_ACCEL, USAGE_GYRO};
use crate::text::owned;

verus! {

/// Running minimum and maximum over one stream, so we can sanity-check the decode.
#[derive(Debug, Clone, Copy, PartialEq, Eq, Structural)]
pub struct Summary {
    pub count: u64,
    pub mag_min: Scalar,
    pub mag_max: Scalar,
    pub last: Option<Sample>,
}

impl Summary {
    /// Of a stream that has delivered nothing.
    pub fn new() -> (r: Summary)
        ensures
            r == (Summary {
                count: 0,
                mag_min: Scalar { bits: INFINITY },
                mag_max: Scalar { bits: NEG_INFINITY },
                last: None,
            }),
    {
        Summary {
            count: 0,
            mag_min: Scalar { bits: INFINITY },
            mag_max: Scalar { bits: NEG_INFINITY },
            last: None,
        }
    }

    /// Takes in a sample and its magnitude.
    pub fn push(&mut self, s: Sample, magnitude: Scalar)
        requires
            old(self).count < u64::MAX,
        ensures
            *final(self) == (Summary {
                count: (old(self).count + 1) as u64,
                mag_min: old(self).mag_min.smaller(magnitude),
                mag_max: old(self).mag_max.larger(magnitude),
                last: Some(s),
            }),
    {
        self.count = self.count + 1;
        self.mag_min = self.mag_min.min(magnitude);
        self.mag_max = self.mag_max.max(magnitude);
        self.last = Some(s);
    }
}

/// The HID usage of a sensor.
pub fn usage(kind: SensorKind) -> (r: i32)
    ensures
        r == (match kind {
            SensorKind::Accel => USAGE_ACCEL,
            SensorKind::Gyro => USAGE_GYRO,
        }),
        kind is Accel ==> r == 3,
        kind is Gyro ==> r == 9,
{
    match kind {
        SensorKind::Accel => USAGE_ACCEL,
        SensorKind::Gyro => USAGE_GYRO,
    }
}

/// Whether to ask for the permission.
pub fn should_request(access: Access) -> (r: bool)
    ensures
        r == (access == Access::Denied),
{
    access == Access::Denied
}

/// Whether the accelerometer delivered anything at all.
pub fn delivered(accel: &Summary) -> (r: Result<(), Error>)
    ensures
        match r {
            Ok(()) => accel.count > 0,
            Err(e) => accel.count == 0 && (e matches Error::Iokit(why) && why@
                == "the device opened but delivered no reports. This is the signature of the SPU not being woken — check that the AppleSPUHIDDriver properties were set before open, not on the IOHIDDevice"@),
        },
{
    if accel.count > 0 {
        Ok(())
    } else {
        Err(
            Error::Iokit(
                owned(
                    "the device opened but delivered no reports. This is the signature of the SPU not being woken — check that the AppleSPUHIDDriver properties were set before open, not on the IOHIDDevice",
                ),
            ),
        )
    }
}

/// The running minimum and maximum never narrow: a number once seen stays between them.
pub proof fn summary_spans(s: Summary, magnitude: Scalar)
    requires
        !s.mag_min.nan(),
        !s.mag_max.nan(),
        !magnitude.nan(),
    ensures
        magnitude.at_least(s.mag_min.smaller(magnitude)),
        s.mag_max.larger(magnitude).at_least(magnitude),
        s.mag_min.at_least(s.mag_min.smaller(magnitude)),
        s.mag_max.larger(magnitude).at_least(s.mag_max),
{
}

} // verus!
