//! The inertial sensors of Apple Silicon MacBooks: which devices they are, and how they
//! are woken.
//!
//! The IMU surfaces as a set of HID services on Apple's vendor usage page, one per sensor.
//! Not every Mac has it: it is laptop-only, and several early models lack it.
use vstd::prelude::*;

use crate::numeral::{hex8, write_hex8};
use crate::report::REPORT_LEN;
use crate::text::{chars, contains, occurs_at, owned, put, put_chars, string};

verus! {

/// Default ring capacity: ~10 s of headroom at the native rate.
pub const DEFAULT_CAPACITY: usize = 8192;

/// Apple's vendor-defined HID usage page. The IMU is not on the standard sensor page.
pub const USAGE_PAGE_VENDOR: i32 = 0xFF00;

pub const USAGE_ACCEL: i32 = 3;

pub const USAGE_GYRO: i32 = 9;

/// Reporting interval that yields the sensor's native rate.
///
/// The hardware clamps to ~805 Hz, so asking for 1 kHz is how you get the native rate
/// rather than the 8000 µs (125 Hz) the system leaves it at.
pub const NATIVE_REPORT_INTERVAL_US: u32 = 1000;

/// The interval the system leaves the sensors at when nothing has asked for more.
pub const DEFAULT_REPORT_INTERVAL_US: u32 = 8000;

/// Which of the two inertial sensors a stream came from.
#[derive(Debug, Clone, Copy, PartialEq, Eq, Structural)]
pub enum SensorKind {
    /// Usage 3. Samples are in g.
    Accel,
    /// Usage 9. Samples are in deg/s.
    Gyro,
}

impl SensorKind {
    /// The sensor's name.
    pub open spec fn name(self) -> Seq<char> {
        match self {
            SensorKind::Accel => "accel"@,
            SensorKind::Gyro => "gyro"@,
        }
    }

    /// The sensor's name.
    pub fn as_str(self) -> (r: &'static str)
        ensures
            r@ == self.name(),
            self is Accel ==> r@ == "accel"@,
            self is Gyro ==> r@ == "gyro"@,
    {
        match self {
            SensorKind::Accel => "accel",
            SensorKind::Gyro => "gyro",
        }
    }

    /// Physical unit of the axis values for this sensor.
    pub fn unit(self) -> (r: &'static str)
        ensures
            r@ == match self {
                SensorKind::Accel => "g"@,
                SensorKind::Gyro => "deg/s"@,
            },
    {
        match self {
            SensorKind::Accel => "g",
            SensorKind::Gyro => "deg/s",
        }
    }
}

/// Why the sensors cannot be read.
#[derive(Debug, PartialEq, Eq)]
pub enum Error {
    NoSensor,
    Open { kind: SensorKind, code: i32 },
    Iokit(String),
    Unsupported,
}

/// What an error is reported as.
pub open spec fn message_of(e: Error) -> Seq<char> {
    match e {
        Error::NoSensor =>
            "no SPU inertial sensor found — this Mac does not have one. It exists only on Apple Silicon laptops (M2+, and M1 Pro/Max); desktops, the M1 MacBook Pro 2020, the M1 Air and all Intel Macs lack it"@,
        Error::Open { kind, code } => "could not open the "@ + kind.name()
            + " sensor (IOReturn 0x"@ + hex8(code as u32)
            + "). If Input Monitoring is denied for this binary, grant it in System Settings > Privacy & Security > Input Monitoring"@,
        Error::Iokit(what) => "IOKit error: "@ + what@,
        Error::Unsupported => "this crate only supports macOS on Apple Silicon"@,
    }
}

impl Error {
    /// What the error is reported as.
    pub fn message(&self) -> (r: String)
        ensures
            r@ == message_of(*self),
            self is NoSensor ==> "no SPU inertial sensor found"@.is_prefix_of(r@),
            self is Unsupported ==> r@ == "this crate only supports macOS on Apple Silicon"@,
    {
        proof {
            reveal_strlit("no SPU inertial sensor found");
            reveal_strlit(
                "no SPU inertial sensor found — this Mac does not have one. It exists only on Apple Silicon laptops (M2+, and M1 Pro/Max); desktops, the M1 MacBook Pro 2020, the M1 Air and all Intel Macs lack it",
            );
            let head = "no SPU inertial sensor found"@;
            let whole =
                "no SPU inertial sensor found — this Mac does not have one. It exists only on Apple Silicon laptops (M2+, and M1 Pro/Max); desktops, the M1 MacBook Pro 2020, the M1 Air and all Intel Macs lack it"@;
            assert(whole.subrange(0, head.len() as int) =~= head);
        }
        match self {
            Error::NoSensor => owned(
                "no SPU inertial sensor found — this Mac does not have one. It exists only on Apple Silicon laptops (M2+, and M1 Pro/Max); desktops, the M1 MacBook Pro 2020, the M1 Air and all Intel Macs lack it",
            ),
            Error::Open { kind, code } => {
                let mut out: Vec<char> = chars("could not open the ");
                put(&mut out, kind.as_str());
                put(&mut out, " sensor (IOReturn 0x");
                let digits: Vec<char> = write_hex8(*code as u32);
                put_chars(&mut out, digits.as_slice());
                put(
                    &mut out,
                    "). If Input Monitoring is denied for this binary, grant it in System Settings > Privacy & Security > Input Monitoring",
                );
                string(out.as_slice())
            },
            Error::Iokit(what) => {
                let mut out: Vec<char> = chars("IOKit error: ");
                put(&mut out, what.as_str());
                string(out.as_slice())
            },
            Error::Unsupported => owned("this crate only supports macOS on Apple Silicon"),
        }
    }
}

/// Whether the current process may talk to HID devices.
#[derive(Debug, Clone, Copy, PartialEq, Eq, Structural)]
pub enum Access {
    Granted,
    Denied,
    Unknown,
}

/// What the system's answer about Input Monitoring means.
///
/// Input Monitoring gates *all* HID access on macOS, not just keyboards, so a denial will
/// stop us opening the IMU even though it is not an input device in any useful sense.
pub fn check_access(answer: u32) -> (r: Access)
    ensures
        r == (if answer == 0 {
            Access::Granted
        } else if answer == 1 {
            Access::Denied
        } else {
            Access::Unknown
        }),
{
    if answer == 0 {
        Access::Granted
    } else if answer == 1 {
        Access::Denied
    } else {
        Access::Unknown
    }
}

/// One driver property and the value to set it to.
#[derive(Debug, PartialEq, Eq)]
pub struct Setting {
    pub key: String,
    pub value: i32,
}

/// A report interval the hardware honours.
pub open spec fn honoured(interval: u32) -> int {
    if interval < NATIVE_REPORT_INTERVAL_US {
        NATIVE_REPORT_INTERVAL_US as int
    } else if interval > DEFAULT_REPORT_INTERVAL_US {
        DEFAULT_REPORT_INTERVAL_US as int
    } else {
        interval as int
    }
}

/// The properties and values of a list of settings.
pub open spec fn settings_of(v: Seq<Setting>) -> Seq<(Seq<char>, int)> {
    Seq::new(v.len(), |i: int| (v[i].key@, v[i].value as int))
}

/// What to set on each driver to bring the sensors out of their idle state and raise the
/// report rate, in order.
///
/// The power and reporting state live on the driver service; setting the same keys on the
/// device is silently ignored, and the result is that the open succeeds but no report ever
/// arrives. It must also happen *before* the device is opened.
pub fn wake_sensors(report_interval_us: u32) -> (r: Vec<Setting>)
    ensures
        settings_of(r@) == seq![
            ("SensorPropertyReportingState"@, 1int),
            ("SensorPropertyPowerState"@, 1int),
            ("ReportInterval"@, honoured(report_interval_us)),
        ],
        r@.len() == 3,
        r@[0].key@ == "SensorPropertyReportingState"@ && r@[0].value == 1,
        r@[1].key@ == "SensorPropertyPowerState"@ && r@[1].value == 1,
        r@[2].key@ == "ReportInterval"@,
        1000 <= report_interval_us <= 8000 ==> r@[2].value == report_interval_us,
        report_interval_us < 1000 ==> r@[2].value == 1000,
        report_interval_us > 8000 ==> r@[2].value == 8000,
{
    let interval: i32 = if report_interval_us < NATIVE_REPORT_INTERVAL_US {
        NATIVE_REPORT_INTERVAL_US as i32
    } else if report_interval_us > DEFAULT_REPORT_INTERVAL_US {
        DEFAULT_REPORT_INTERVAL_US as i32
    } else {
        report_interval_us as i32
    };
    let mut r: Vec<Setting> = Vec::new();
    r.push(Setting { key: owned("SensorPropertyReportingState"), value: 1 });
    r.push(Setting { key: owned("SensorPropertyPowerState"), value: 1 });
    r.push(Setting { key: owned("ReportInterval"), value: interval });
    proof {
        assert(settings_of(r@) =~= seq![
            ("SensorPropertyReportingState"@, 1int),
            ("SensorPropertyPowerState"@, 1int),
            ("ReportInterval"@, honoured(report_interval_us)),
        ]);
    }
    r
}

// ---------------------------------------------------------------------------------
// Finding the devices
// ---------------------------------------------------------------------------------

/// The registry properties of one HID service.
#[derive(Debug, Clone, Copy, PartialEq, Eq, Structural)]
pub struct Properties {
    pub page: Option<i32>,
    pub usage: Option<i32>,
    pub size: Option<i32>,
}

/// A sensor found in the registry: its kind and the service's position.
#[derive(Debug, Clone, Copy, PartialEq, Eq, Structural)]
pub struct FoundDevice {
    pub kind: SensorKind,
    pub service: usize,
}

/// Which sensor a service is, if any.
///
/// Usage page and usage alone are not sufficient: some machines return two devices for the
/// accelerometer usage. The report size disambiguates them.
pub open spec fn kind_of(p: Properties) -> Option<SensorKind> {
    if p.page != Some(USAGE_PAGE_VENDOR) || p.size != Some(REPORT_LEN as i32) {
        None
    } else if p.usage == Some(USAGE_ACCEL) {
        Some(SensorKind::Accel)
    } else if p.usage == Some(USAGE_GYRO) {
        Some(SensorKind::Gyro)
    } else {
        None
    }
}

/// Whether service `i` is the first of its kind.
pub open spec fn first_of_kind(services: Seq<Properties>, i: int) -> bool {
    kind_of(services[i]) is Some && forall|j: int|
        0 <= j < i ==> kind_of(#[trigger] services[j]) != kind_of(services[i])
}

/// The first service of each kind among the first `n`, in registry order.
pub open spec fn found_among(services: Seq<Properties>, n: int) -> Seq<FoundDevice>
    decreases n,
{
    if n <= 0 {
        Seq::empty()
    } else if first_of_kind(services, n - 1) {
        found_among(services, n - 1).push(
            FoundDevice { kind: kind_of(services[n - 1])->0, service: (n - 1) as usize },
        )
    } else {
        found_among(services, n - 1)
    }
}

fn device_kind(p: &Properties) -> (r: Option<SensorKind>)
    ensures
        r == kind_of(*p),
{
    let page: bool = match p.page {
        Some(v) => v == USAGE_PAGE_VENDOR,
        None => false,
    };
    let size: bool = match p.size {
        Some(v) => v == REPORT_LEN as i32,
        None => false,
    };
    if !page || !size {
        return None;
    }
    match p.usage {
        Some(v) => if v == USAGE_ACCEL {
            Some(SensorKind::Accel)
        } else if v == USAGE_GYRO {
            Some(SensorKind::Gyro)
        } else {
            None
        },
        None => None,
    }
}

/// Locate the accelerometer and gyroscope among the HID services.
pub fn find_devices(services: &Vec<Properties>) -> (r: Result<Vec<FoundDevice>, Error>)
    ensures
        match r {
            Ok(found) => found@ == found_among(services@, services@.len() as int) && found@.len()
                > 0,
            Err(e) => e == Error::NoSensor && found_among(
                services@,
                services@.len() as int,
            ).len() == 0,
        },
{
    let mut found: Vec<FoundDevice> = Vec::new();
    let n: usize = services.len();
    let mut seen_accel: bool = false;
    let mut seen_gyro: bool = false;
    let mut i: usize = 0;
    while i < n
        invariant
            i <= n,
            n == services@.len(),
            found@ == found_among(services@, i as int),
            seen_accel == exists|j: int|
                0 <= j < i && kind_of(#[trigger] services@[j]) == Some(SensorKind::Accel),
            seen_gyro == exists|j: int|
                0 <= j < i && kind_of(#[trigger] services@[j]) == Some(SensorKind::Gyro),
        decreases n - i,
    {
        let ghost accel_before = seen_accel;
        let ghost gyro_before = seen_gyro;
        match device_kind(&services[i]) {
            Some(kind) => {
                let seen: bool = match kind {
                    SensorKind::Accel => seen_accel,
                    SensorKind::Gyro => seen_gyro,
                };
                proof {
                    assert(seen == !first_of_kind(services@, i as int));
                    assert(kind_of(services@[i as int]) == Some(kind));
                }
                if !seen {
                    found.push(FoundDevice { kind, service: i });
                }
                match kind {
                    SensorKind::Accel => {
                        seen_accel = true;
                    },
                    SensorKind::Gyro => {
                        seen_gyro = true;
                    },
                }
            },
            None => {},
        }
        proof {
            assert(accel_before ==> seen_accel);
            assert(gyro_before ==> seen_gyro);
        }
        i = i + 1;
    }
    if found.len() == 0 {
        Err(Error::NoSensor)
    } else {
        Ok(found)
    }
}

/// The position of the first device of a kind.
pub open spec fn first_device(found: Seq<FoundDevice>, kind: SensorKind, i: int) -> Option<usize>
    decreases found.len() - i,
{
    if i < 0 || i >= found.len() {
        None
    } else if found[i].kind == kind {
        Some(i as usize)
    } else {
        first_device(found, kind, i + 1)
    }
}

fn locate(found: &Vec<FoundDevice>, kind: SensorKind) -> (r: Option<usize>)
    ensures
        r == first_device(found@, kind, 0),
{
    let n: usize = found.len();
    let mut i: usize = 0;
    while i < n
        invariant
            i <= n,
            n == found@.len(),
            first_device(found@, kind, 0) == first_device(found@, kind, i as int),
        decreases n - i,
    {
        if found[i].kind == kind {
            return Some(i);
        }
        i = i + 1;
    }
    None
}

/// Which of the found devices to open: the accelerometer, without which there is nothing
/// to do, and the gyroscope where there is one — a missing gyro degrades rather than
/// fails.
pub fn open_with(found: &Vec<FoundDevice>) -> (r: Result<(usize, Option<usize>), Error>)
    ensures
        match r {
            Ok((accel, gyro)) => first_device(found@, SensorKind::Accel, 0) == Some(accel) && gyro
                == first_device(found@, SensorKind::Gyro, 0),
            Err(e) => e == Error::NoSensor && first_device(found@, SensorKind::Accel, 0) is None,
        },
        r is Ok <==> exists|i: int| 0 <= i < found@.len() && (#[trigger] found@[i]).kind is Accel,
        r matches Ok((_, gyro)) ==> (gyro is Some <==> exists|i: int|
            0 <= i < found@.len() && (#[trigger] found@[i]).kind is Gyro),
{
    proof {
        assert(found@.len() == found.len());
        the_first_of_a_kind_is_opened(found@, SensorKind::Accel, 0);
        the_first_of_a_kind_is_opened(found@, SensorKind::Gyro, 0);
    }
    match locate(found, SensorKind::Accel) {
        Some(accel) => Ok((accel, locate(found, SensorKind::Gyro))),
        None => Err(Error::NoSensor),
    }
}

/// No kind of sensor is found twice, and what is found is a service of that kind.
pub proof fn found_once(services: Seq<Properties>, n: int, a: int, b: int)
    requires
        0 <= n <= services.len(),
        services.len() <= usize::MAX,
        0 <= a < b < found_among(services, n).len(),
    ensures
        found_among(services, n)[a].kind != found_among(services, n)[b].kind,
        found_among(services, n)[a].service < found_among(services, n)[b].service < n,
        kind_of(services[found_among(services, n)[a].service as int]) == Some(
            found_among(services, n)[a].kind,
        ),
    decreases n,
{
    let rest = found_among(services, n - 1);
    found_in_range(services, n - 1);
    if first_of_kind(services, n - 1) {
        if b < rest.len() {
            found_once(services, n - 1, a, b);
        } else {
            let s = rest[a].service as int;
            assert(kind_of(services[s]) == Some(rest[a].kind));
            assert(kind_of(services[s]) != kind_of(services[n - 1]));
        }
    } else {
        found_once(services, n - 1, a, b);
    }
}

proof fn found_in_range(services: Seq<Properties>, n: int)
    requires
        n <= services.len(),
        services.len() <= usize::MAX,
    ensures
        forall|i: int|
            0 <= i < found_among(services, n).len() ==> (#[trigger] found_among(
                services,
                n,
            )[i]).service < n && kind_of(
                services[found_among(services, n)[i].service as int],
            ) == Some(found_among(services, n)[i].kind),
    decreases n,
{
    if n > 0 {
        found_in_range(services, n - 1);
        let rest = found_among(services, n - 1);
        let all = found_among(services, n);
        assert forall|i: int| 0 <= i < all.len() implies (#[trigger] all[i]).service < n && kind_of(
            services[all[i].service as int],
        ) == Some(all[i].kind) by {
            if i < rest.len() {
                assert(all[i] == rest[i]);
            }
        }
    }
}

/// A service is a sensor exactly when it is on the vendor page, reports 22 bytes, and has the
/// usage of the accelerometer or of the gyroscope.
pub proof fn sensors_are_told_by_usage(p: Properties)
    ensures
        kind_of(p) == Some(SensorKind::Accel) <==> p.page == Some(0xFF00i32) && p.size == Some(22i32)
            && p.usage == Some(3i32),
        kind_of(p) == Some(SensorKind::Gyro) <==> p.page == Some(0xFF00i32) && p.size == Some(22i32)
            && p.usage == Some(9i32),
{
}

/// Where any service is a sensor of a kind, the first that is has been found.
pub proof fn every_kind_is_found(services: Seq<Properties>, n: int, i: int)
    requires
        0 <= i < n <= services.len(),
        services.len() <= usize::MAX,
        kind_of(services[i]) is Some,
        forall|j: int| 0 <= j < i ==> kind_of(#[trigger] services[j]) != kind_of(services[i]),
    ensures
        found_among(services, n).contains(
            FoundDevice { kind: kind_of(services[i])->0, service: i as usize },
        ),
    decreases n,
{
    let f = FoundDevice { kind: kind_of(services[i])->0, service: i as usize };
    let rest = found_among(services, n - 1);
    let all = found_among(services, n);
    if i == n - 1 {
        assert(first_of_kind(services, n - 1));
        assert(all.last() == f);
        assert(all[all.len() - 1] == f);
    } else {
        every_kind_is_found(services, n - 1, i);
        let k = choose|k: int| 0 <= k < rest.len() && rest[k] == f;
        assert(all[k] == f);
    }
}

/// The device opened for a kind is the first found of it; none is opened only where none was
/// found.
pub proof fn the_first_of_a_kind_is_opened(found: Seq<FoundDevice>, kind: SensorKind, from: int)
    requires
        0 <= from <= found.len(),
        found.len() <= usize::MAX,
    ensures
        match first_device(found, kind, from) {
            Some(i) => {
                &&& from <= i < found.len()
                &&& found[i as int].kind == kind
                &&& forall|j: int| from <= j < i ==> (#[trigger] found[j]).kind != kind
            },
            None => forall|j: int| from <= j < found.len() ==> (#[trigger] found[j]).kind != kind,
        },
    decreases found.len() - from,
{
    if from < found.len() && found[from].kind != kind {
        the_first_of_a_kind_is_opened(found, kind, from + 1);
    }
}

/// The interval set is the one asked for where the hardware honours it, and otherwise the
/// nearer end of what it honours.
pub proof fn the_nearest_interval_is_set(interval: u32)
    ensures
        1000 <= honoured(interval) <= 8000,
        1000 <= interval <= 8000 ==> honoured(interval) == interval,
        interval < 1000 ==> honoured(interval) == 1000,
        interval > 8000 ==> honoured(interval) == 8000,
{
}

/// A sensor that could not be opened is named, with the system's code in hexadecimal; an
/// error of the system ends with what the system said.
pub proof fn errors_say_what_happened(e: Error)
    ensures
        e matches Error::Open { kind, code } ==> {
            &&& contains(message_of(e), if kind is Accel { "accel"@ } else { "gyro"@ })
            &&& contains(message_of(e), "0x"@ + hex8(code as u32))
            &&& contains(message_of(e), "Input Monitoring"@)
        },
        e matches Error::Iokit(what) ==> {
            &&& message_of(e).len() >= what@.len()
            &&& message_of(e).skip(message_of(e).len() - what@.len()) == what@
        },
{
    match e {
        Error::Open { kind, code } => {
            let m = message_of(e);
            let a = "could not open the "@;
            let k = kind.name();
            let b = " sensor (IOReturn 0x"@;
            let h = hex8(code as u32);
            let c =
                "). If Input Monitoring is denied for this binary, grant it in System Settings > Privacy & Security > Input Monitoring"@;
            reveal_strlit(" sensor (IOReturn 0x");
            reveal_strlit("0x");
            reveal_strlit("Input Monitoring");
            reveal_strlit(
                "). If Input Monitoring is denied for this binary, grant it in System Settings > Privacy & Security > Input Monitoring",
            );
            let at = a.len() as int;
            assert(m.subrange(at, at + k.len()) =~= k);
            assert(occurs_at(m, k, at));
            let hx = at + k.len() + b.len() - 2;
            assert(m.subrange(hx, hx + 2 + h.len()) =~= "0x"@ + h);
            assert(occurs_at(m, "0x"@ + h, hx));
            let im = hx + 2 + h.len() + 6;
            assert(m.subrange(im, im + 16) =~= "Input Monitoring"@);
            assert(occurs_at(m, "Input Monitoring"@, im));
        },
        Error::Iokit(what) => {
            let m = message_of(e);
            assert(m.skip(m.len() - what@.len()) =~= what@);
        },
        _ => {},
    }
}

} // verus!
