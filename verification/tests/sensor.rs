//! Reports, streams, and the merging of the two sensors.
use yamete::error::{exits_cleanly, Error as ProcessError};
use yamete::pump::{Pump, Source, Timebase};
use yamete::report::{gap, parse, Sample, Stats, Stream, REPORT_LEN};
use yamete::sensor::{
    check_access, find_devices, open_with, wake_sensors, Access, Error, FoundDevice, Properties,
    SensorKind, Setting, USAGE_ACCEL, USAGE_GYRO, USAGE_PAGE_VENDOR,
};

/// Three consecutive reports captured from a Mac16,5 lying flat on a desk.
const FLAT: [[u8; REPORT_LEN]; 3] = [
    [
        0x04, 0x5d, 0x00, 0x00, 0x00, 0x00, 0x4c, 0x01, 0x00, 0x00, 0x8f, 0x01, 0x00, 0x00, 0xad,
        0x00, 0xff, 0xff, 0x80, 0xed, 0x2a, 0x00,
    ],
    [
        0x05, 0x5d, 0x00, 0x00, 0x00, 0x00, 0x53, 0x01, 0x00, 0x00, 0x8a, 0x01, 0x00, 0x00, 0xba,
        0x00, 0xff, 0xff, 0x80, 0xed, 0x2a, 0x00,
    ],
    [
        0x06, 0x5d, 0x00, 0x00, 0x00, 0x00, 0x57, 0x01, 0x00, 0x00, 0x80, 0x01, 0x00, 0x00, 0xcc,
        0x00, 0xff, 0xff, 0x80, 0xed, 0x2a, 0x00,
    ],
];

/// A Q16.16 number as a float.
fn unit(x: i32) -> f32 {
    x as f32 / 65536.0
}

#[test]
fn decodes_a_captured_report() {
    let s = parse(&FLAT[0], 42).unwrap();
    assert_eq!(s.seq, 0x5d04);
    assert_eq!(s.host_time, 42);
    // Flat on a desk: x and y near zero, z near -1 g.
    let (x, y, z) = (unit(s.x), unit(s.y), unit(s.z));
    assert!((x - 0.0051).abs() < 1e-3, "x = {x}");
    assert!((y - 0.0061).abs() < 1e-3, "y = {y}");
    assert!((z + 0.9974).abs() < 1e-3, "z = {z}");
    // Magnitude at rest must be ~1 g, which is the load-bearing sanity check on both the
    // byte offsets and the 65536 divisor.
    let magnitude = (x * x + y * y + z * z).sqrt();
    assert!((magnitude - 1.0).abs() < 0.01, "|a| = {magnitude}");
}

#[test]
fn sign_extends_negative_axes() {
    // z = ad 00 ff ff = -0.9974 g; a naive u32 read would give +65535.something.
    let s = parse(&FLAT[0], 0).unwrap();
    assert!(s.z < 0);
}

#[test]
fn temperature_is_plausible_and_stable() {
    for raw in &FLAT {
        let s = parse(raw, 0).unwrap();
        let temp_c = unit(s.temp_c);
        assert!((40.0..50.0).contains(&temp_c), "temp = {temp_c}");
    }
}

#[test]
fn sequence_counter_is_contiguous_across_captures() {
    let a = parse(&FLAT[0], 0).unwrap();
    let b = parse(&FLAT[1], 0).unwrap();
    let c = parse(&FLAT[2], 0).unwrap();
    assert_eq!(gap(a.seq, b.seq), 0);
    assert_eq!(gap(b.seq, c.seq), 0);
}

#[test]
fn gap_handles_wraparound() {
    assert_eq!(gap(10, 11), 0);
    assert_eq!(gap(10, 14), 3);
    assert_eq!(gap(u16::MAX, 0), 0);
    assert_eq!(gap(u16::MAX - 1, 2), 3);
}

#[test]
fn rejects_wrong_length() {
    assert!(parse(&[0u8; 21], 0).is_none());
    assert!(parse(&[0u8; 23], 0).is_none());
    assert!(parse(&[], 0).is_none());
}

#[test]
fn the_same_counter_twice_means_a_whole_turn_was_lost() {
    assert_eq!(gap(7, 7), 65535);
    assert_eq!(gap(0, u16::MAX), 65534);
}

#[test]
fn axes_are_exact_fixed_point_numbers() {
    let s = parse(&FLAT[0], 0).unwrap();
    assert_eq!((s.x, s.y, s.z, s.temp_c), (0x14c, 0x18f, -65363, 0x2aed80));
    let mut raw = FLAT[0];
    raw[6..10].copy_from_slice(&i32::MIN.to_le_bytes());
    raw[10..14].copy_from_slice(&i32::MAX.to_le_bytes());
    raw[14..18].copy_from_slice(&(-1i32).to_le_bytes());
    let s = parse(&raw, 0).unwrap();
    assert_eq!((s.x, s.y, s.z), (i32::MIN, i32::MAX, -1));
}

#[test]
fn a_stream_counts_what_it_sees_and_misses() {
    let (mut producer, mut consumer) = rtrb::RingBuffer::<Sample>::new(2);
    let mut stream = Stream::new();
    stream.on_report(&FLAT[0], 1, &mut producer);
    stream.on_report(&[0; 3], 2, &mut producer);
    stream.on_report(&FLAT[2], 3, &mut producer);
    stream.on_report(&FLAT[2], 4, &mut producer);
    assert_eq!(
        stream.stats,
        // One report between the first and the third was never seen, a repeated counter
        // reads as a whole turn, and the last sample found the ring full.
        Stats { received: 3, dropped: 1 + 65535, overruns: 1, malformed: 1 }
    );
    assert_eq!(consumer.pop().ok(), parse(&FLAT[0], 1));
    assert_eq!(consumer.pop().ok(), parse(&FLAT[2], 3));
    assert!(consumer.pop().is_err());
}

// ---------------------------------------------------------------------------------
// Time
// ---------------------------------------------------------------------------------

#[test]
fn first_sample_is_time_zero() {
    let mut tb = Timebase::new();
    assert!(!tb.is_started());
    assert_eq!(tb.ticks_since_start(1_000_000), 0);
    assert!(tb.is_started());
}

#[test]
fn a_timestamp_before_the_origin_clamps_to_zero() {
    let mut tb = Timebase::new();
    tb.ticks_since_start(1_000_000);
    assert_eq!(tb.ticks_since_start(999_000), 0);
    assert_eq!(tb.ticks_since_start(1_000_250), 250);
}

fn sample(seq: u16, host_time: u64) -> Sample {
    Sample { seq, host_time, x: 0, y: 0, z: 0, temp_c: 0 }
}

#[test]
fn two_rings_merge_in_the_order_of_their_times() {
    let (mut accel_in, mut accel) = rtrb::RingBuffer::<Sample>::new(8);
    let (mut gyro_in, gyro) = rtrb::RingBuffer::<Sample>::new(8);
    for (seq, t) in [(0, 10), (1, 20), (2, 30)] {
        accel_in.push(sample(seq, t)).unwrap();
    }
    for (seq, t) in [(0, 5), (1, 20), (2, 40)] {
        gyro_in.push(sample(seq, t)).unwrap();
    }
    let mut gyro = Some(gyro);
    let mut pump = Pump::new();
    let mut out = Vec::new();
    while let Some((source, s)) = pump.drain(&mut accel, &mut gyro) {
        out.push((source, s.seq, s.host_time));
        if out.len() == 1 {
            // One of each was taken, and the others are known to be waiting.
            assert_eq!(accel.cached_slots(), 2);
            assert_eq!(gyro.as_ref().unwrap().cached_slots(), 2);
        }
    }
    assert_eq!(accel.cached_slots(), 0);
    assert_eq!(
        out,
        [
            (Source::Gyro, 0, 5),
            (Source::Accel, 0, 10),
            (Source::Accel, 1, 20),
            (Source::Gyro, 1, 20),
            (Source::Accel, 2, 30),
            (Source::Gyro, 2, 40),
        ]
    );

    // What arrives later is picked up by the next drain.
    accel_in.push(sample(3, 50)).unwrap();
    assert_eq!(pump.drain(&mut accel, &mut gyro), Some((Source::Accel, sample(3, 50))));
    assert_eq!(pump.drain(&mut accel, &mut gyro), None);
}

#[test]
fn a_machine_without_a_gyroscope_still_streams() {
    let (mut accel_in, mut accel) = rtrb::RingBuffer::<Sample>::new(8);
    accel_in.push(sample(0, 1)).unwrap();
    let mut pump = Pump::new();
    assert_eq!(pump.drain(&mut accel, &mut None), Some((Source::Accel, sample(0, 1))));
    assert_eq!(pump.drain(&mut accel, &mut None), None);
}

#[test]
fn the_older_of_two_waiting_samples_goes_first() {
    let mut pump =
        Pump { pending_gyro: Some(sample(0, 3)), pending_accel: Some(sample(0, 7)) };
    assert_eq!(pump.take(), Some((Source::Gyro, sample(0, 3))));
    assert_eq!(pump.take(), Some((Source::Accel, sample(0, 7))));
    assert_eq!(pump.take(), None);
}

// ---------------------------------------------------------------------------------
// Devices
// ---------------------------------------------------------------------------------

fn service(usage: i32, size: i32) -> Properties {
    Properties { page: Some(USAGE_PAGE_VENDOR), usage: Some(usage), size: Some(size) }
}

#[test]
fn the_first_service_of_each_kind_is_the_sensor() {
    let services = vec![
        Properties { page: None, usage: None, size: None },
        service(USAGE_ACCEL, 40),
        service(USAGE_GYRO, 22),
        service(USAGE_ACCEL, 22),
        service(USAGE_ACCEL, 22),
        Properties { page: Some(1), ..service(USAGE_GYRO, 22) },
    ];
    let found = find_devices(&services).unwrap();
    assert_eq!(
        found,
        [
            FoundDevice { kind: SensorKind::Gyro, service: 2 },
            FoundDevice { kind: SensorKind::Accel, service: 3 },
        ]
    );
    assert_eq!(open_with(&found), Ok((1, Some(0))));
}

#[test]
fn a_missing_gyroscope_degrades_and_a_missing_accelerometer_fails() {
    assert_eq!(find_devices(&vec![]), Err(Error::NoSensor));
    assert_eq!(find_devices(&vec![service(5, 22)]), Err(Error::NoSensor));
    let accel = find_devices(&vec![service(USAGE_ACCEL, 22)]).unwrap();
    assert_eq!(open_with(&accel), Ok((0, None)));
    let gyro = find_devices(&vec![service(USAGE_GYRO, 22)]).unwrap();
    assert_eq!(open_with(&gyro), Err(Error::NoSensor));
}

#[test]
fn the_report_interval_stays_in_what_the_hardware_honours() {
    for (asked, set) in [(0, 1000), (1000, 1000), (1250, 1250), (8000, 8000), (u32::MAX, 8000)] {
        assert_eq!(
            wake_sensors(asked),
            [
                Setting { key: "SensorPropertyReportingState".into(), value: 1 },
                Setting { key: "SensorPropertyPowerState".into(), value: 1 },
                Setting { key: "ReportInterval".into(), value: set },
            ]
        );
    }
}

#[test]
fn access_is_read_from_the_answer() {
    assert_eq!(check_access(0), Access::Granted);
    assert_eq!(check_access(1), Access::Denied);
    assert_eq!(check_access(2), Access::Unknown);
}

#[test]
fn errors_say_what_to_do() {
    assert!(Error::NoSensor.message().starts_with("no SPU inertial sensor found — this Mac"));
    let open = Error::Open { kind: SensorKind::Gyro, code: 0xe00002e2u32 as i32 };
    assert!(open
        .message()
        .starts_with("could not open the gyro sensor (IOReturn 0xe00002e2). If Input Monitoring"));
    let small = Error::Open { kind: SensorKind::Accel, code: 0x1f };
    assert!(small.message().contains("accel sensor (IOReturn 0x0000001f)"));
    assert_eq!(Error::Iokit("x".into()).message(), "IOKit error: x");
    assert_eq!(
        Error::Unsupported.message(),
        "this crate only supports macOS on Apple Silicon"
    );
    assert_eq!(SensorKind::Accel.unit(), "g");
    assert_eq!(SensorKind::Gyro.unit(), "deg/s");
}

#[test]
fn a_mac_without_the_sensor_is_a_clean_exit() {
    let none = ProcessError::from(Error::NoSensor);
    assert!(none.is_no_sensor());
    assert!(exits_cleanly(&Ok(())));
    assert!(exits_cleanly(&Err(none)));
    let denied = ProcessError::from(Error::Open { kind: SensorKind::Accel, code: 1 });
    assert!(!exits_cleanly(&Err(denied)));
    let other = ProcessError::other("socket in use");
    assert_eq!(other.message(), "socket in use");
    assert_eq!(ProcessError::from("socket in use".to_string()), other);
    assert_eq!(ProcessError::from("socket in use"), other);
    assert!(!exits_cleanly(&Err(other)));
    assert_eq!(ProcessError::from(Error::Iokit("x".into())).message(), "IOKit error: x");
}
