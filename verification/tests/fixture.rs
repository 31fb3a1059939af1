//! Recorded traces, as text and as bytes.
use yamete::fixture::{duration, interleave, Fixture, ParseError, Row};
use yamete::scalar::Scalar64;

const MAGIC: &str = "# yamete-fixture v1";
const LEGACY_MAGIC: &str = "# spank-fixture v1";
const HEADER: &str = "s,t,x,y,z";
const GZIP_MAGIC: [u8; 2] = [0x1f, 0x8b];

fn s64(x: f64) -> Scalar64 {
    Scalar64 { bits: x.to_bits() }
}

fn times(xs: &[f64]) -> Vec<Scalar64> {
    xs.iter().map(|x| s64(*x)).collect()
}

fn row(t: f64, x: f32, y: f32, z: f32) -> Row {
    Row {
        t: format!("{t:.6}"),
        x: format!("{x:.5}"),
        y: format!("{y:.5}"),
        z: format!("{z:.5}"),
    }
}

fn sample_fixture() -> Fixture {
    let mut fx = Fixture::new("slap-lid-left");
    fx.expect = Some(3);
    fx.meta.insert("model".into(), "Mac16,5".into());
    fx.accel = vec![row(0.0, 0.0051, 0.0061, -0.9974), row(0.00124, 0.0053, 0.0060, -0.9970)];
    fx.gyro = vec![row(0.0006, 0.2441, 0.0, -0.061)];
    fx
}

fn accel_times() -> Vec<Scalar64> {
    times(&[0.0, 0.00124])
}

fn gyro_times() -> Vec<Scalar64> {
    times(&[0.0006])
}

#[test]
fn fixture_round_trips() {
    let fx = sample_fixture();
    let parsed = Fixture::from_text(&fx.to_text(&accel_times(), &gyro_times())).unwrap();

    assert_eq!(parsed.label, "slap-lid-left");
    assert_eq!(parsed.expect, Some(3));
    assert_eq!(parsed.meta.get("model").map(String::as_str), Some("Mac16,5"));
    assert_eq!(parsed.accel.len(), 2);
    assert_eq!(parsed.gyro.len(), 1);
    assert!((parsed.accel[0].z.parse::<f32>().unwrap() - (-0.9974)).abs() < 1e-5);
    assert!((parsed.gyro[0].x.parse::<f32>().unwrap() - 0.2441).abs() < 1e-5);
    assert_eq!(parsed, fx);
}

#[test]
fn writes_samples_in_chronological_order() {
    let text = sample_fixture().to_text(&accel_times(), &gyro_times());
    let tags: Vec<&str> = text
        .lines()
        .filter(|l| !l.starts_with('#') && *l != HEADER && !l.is_empty())
        .map(|l| l.split(',').next().unwrap())
        .collect();
    // accel@0.0, gyro@0.0006, accel@0.00124
    assert_eq!(tags, ["a", "g", "a"]);
}

#[test]
fn the_text_is_exactly_this() {
    assert_eq!(
        sample_fixture().to_text(&accel_times(), &gyro_times()),
        "# yamete-fixture v1\n# label=slap-lid-left\n# expect=3\n# model=Mac16,5\ns,t,x,y,z\n\
         a,0.000000,0.00510,0.00610,-0.99740\ng,0.000600,0.24410,0.00000,-0.06100\n\
         a,0.001240,0.00530,0.00600,-0.99700\n"
    );
}

#[test]
fn round_trips_through_gzip() {
    let fx = sample_fixture();
    let bytes = fx.to_bytes("/tmp/x.fixture.gz", &accel_times(), &gyro_times()).unwrap();

    // Actually compressed, not just named .gz.
    assert_eq!(&bytes[..2], &GZIP_MAGIC);

    let back = Fixture::read("/tmp/x.fixture.gz", Ok(bytes)).unwrap();
    assert_eq!(back.label, fx.label);
    assert_eq!(back.accel.len(), fx.accel.len());
    assert_eq!(back.expect, fx.expect);
}

#[test]
fn reads_plain_and_gzipped_alike() {
    let fx = sample_fixture();
    let a = fx.to_bytes("/tmp/a.fixture", &accel_times(), &gyro_times()).unwrap();
    let b = fx.to_bytes("/tmp/b.fixture.gz", &accel_times(), &gyro_times()).unwrap();
    assert_ne!(a, b);

    let plain = Fixture::read("/tmp/a.fixture", Ok(a)).unwrap();
    let gzipped = Fixture::read("/tmp/b.fixture.gz", Ok(b)).unwrap();
    assert_eq!(plain.accel, gzipped.accel);
    assert_eq!(plain.gyro, gzipped.gyro);
}

#[test]
fn reading_a_missing_file_reports_the_path() {
    let missing = Err("No such file or directory (os error 2)".to_string());
    let err = Fixture::read("/nonexistent/x.fixture.gz", missing).unwrap_err();
    assert!(err.message().contains("x.fixture.gz"), "{}", err.message());
    assert_eq!(
        err.message(),
        "could not read /nonexistent/x.fixture.gz: No such file or directory (os error 2)"
    );
}

#[test]
fn a_fixture_from_before_the_rename_still_loads() {
    let text = format!("{LEGACY_MAGIC}\n# label=old\n{HEADER}\na,0.0,0,0,-1\n");
    let fx = Fixture::from_text(&text).unwrap();
    assert_eq!(fx.label, "old");
    assert_eq!(fx.accel.len(), 1);
}

#[test]
fn rejects_a_foreign_file() {
    assert!(matches!(Fixture::from_text("x,y,z\n1,2,3"), Err(ParseError::BadMagic)));
    assert!(matches!(Fixture::from_text(""), Err(ParseError::BadMagic)));
}

#[test]
fn rejects_malformed_rows() {
    let bad_tag = format!("{MAGIC}\n{HEADER}\nq,0.0,1,2,3\n");
    assert!(matches!(Fixture::from_text(&bad_tag), Err(ParseError::BadSensor { .. })));

    let short = format!("{MAGIC}\n{HEADER}\na,0.0,1\n");
    assert!(Fixture::from_text(&short).is_err());

    let nan = format!("{MAGIC}\n{HEADER}\na,0.0,one,2,3\n");
    assert!(matches!(Fixture::from_text(&nan), Err(ParseError::BadNumber { .. })));

    let long = format!("{MAGIC}\n{HEADER}\na,0.0,1,2,3,4\n");
    assert!(matches!(Fixture::from_text(&long), Err(ParseError::FieldCount { .. })));
}

#[test]
fn tolerates_an_unannotated_fixture() {
    let text = format!("{MAGIC}\n# label=mystery\n{HEADER}\na,0.0,0,0,-1\n");
    let fx = Fixture::from_text(&text).unwrap();
    assert_eq!(fx.expect, None);
    assert_eq!(fx.accel.len(), 1);
}

#[test]
fn each_fault_names_its_line() {
    let message = |rows: &str| {
        Fixture::from_text(&format!("{MAGIC}\n{HEADER}\n{rows}")).unwrap_err().message()
    };
    assert_eq!(
        message("q,0.0,1,2,3\n"),
        "line 3: unknown sensor tag `q` (expected `a` or `g`)"
    );
    assert_eq!(message("\n\na,0.0,1\n"), "line 5: expected 5 comma-separated fields, found 3");
    assert_eq!(message("a,0,0,0,-1\na,0.0,one,2,3\n"), "line 4: could not parse `one` as a number");
    assert_eq!(message("a,0.0,1,2,3,4\n"), "line 3: expected 5 comma-separated fields, found 6");
    assert_eq!(message("a,0,1,2,3,4,5\n"), "line 3: expected 5 comma-separated fields, found 7");
    assert_eq!(message("nonsense\n"), "line 3: expected 5 comma-separated fields, found 1");
    assert_eq!(
        Fixture::from_text("hello").unwrap_err().message(),
        "not a spank fixture: missing the `# yamete-fixture v1` header"
    );
}

#[test]
fn bytes_that_are_no_text_name_the_file() {
    assert_eq!(
        Fixture::from_bytes(&[0xff, 0xfe]).unwrap_err(),
        ParseError::NotUtf8 { path: "<input>".into() }
    );
    let err = Fixture::read("/tmp/x.fixture", Ok(vec![0xff, 0xfe])).unwrap_err();
    assert_eq!(err, ParseError::NotUtf8 { path: "/tmp/x.fixture".into() });
    assert_eq!(err.message(), "/tmp/x.fixture is not valid UTF-8");
}

#[test]
fn a_torn_gzip_stream_is_an_error() {
    let bytes = sample_fixture()
        .to_bytes("/tmp/x.fixture.gz", &accel_times(), &gyro_times())
        .unwrap();
    match Fixture::from_bytes(&bytes[..bytes.len() / 2]) {
        Err(ParseError::Io { path, .. }) => assert_eq!(path, "<gzip stream>"),
        other => panic!("expected an i/o error, got {other:?}"),
    }
}

#[test]
fn comments_may_say_anything() {
    let text = format!(
        "  {MAGIC}  \r\n# a note\n#label=x\n# expect=many\n# expect=4\n# k=1\n# k=2=3\r\n\n  {HEADER}\n"
    );
    let fx = Fixture::from_text(&text).unwrap();
    assert_eq!(fx.label, "x");
    assert_eq!(fx.expect, Some(4));
    assert_eq!(fx.meta.get("k").map(String::as_str), Some("2=3"));
    assert_eq!(fx.meta.entries.len(), 1);

    let unclear = format!("{MAGIC}\n# expect=4\n# expect=-1\n");
    assert_eq!(Fixture::from_text(&unclear).unwrap().expect, None);
}

#[test]
fn numbers_are_read_as_std_reads_them() {
    for number in [
        "0", "-1", "+2.5", ".5", "5.", "1e3", "1E-3", "-.5e+07", "inf", "-Infinity", "NaN",
        "+nan", "00012", "", "+", "-", ".", "e5", "1e", "1e+", "0x10", "1_000", " 1", "1 ", "++1",
        "1.2.3", "infin", "nanx", "1e5.0", "\u{0661}",
    ] {
        let text = format!("{MAGIC}\na,{number},0,0,0\n");
        assert_eq!(
            Fixture::from_text(&text).is_ok(),
            number.parse::<f64>().is_ok(),
            "{number:?}"
        );
    }
}

#[test]
fn counts_are_read_as_std_reads_them() {
    for count in ["0", "7", "+7", "007", "", "+", "-0", "1.0", "18446744073709551615", "18446744073709551616"] {
        let fx = Fixture::from_text(&format!("{MAGIC}\n# expect={count}\n")).unwrap();
        assert_eq!(fx.expect, count.parse::<usize>().ok(), "{count:?}");
    }
}

#[test]
fn samples_taken_together_put_the_accelerometer_first() {
    let order = interleave(&times(&[0.0, 1.0, 2.0]), &times(&[1.0, 1.5]));
    assert_eq!(order, [true, true, false, false, true]);
    assert_eq!(interleave(&times(&[]), &times(&[0.0])), [false]);
    assert!(interleave(&times(&[]), &times(&[])).is_empty());
}

#[test]
fn a_recording_lasts_until_its_last_sample() {
    assert_eq!(duration(&times(&[0.0, 1.25]), &times(&[0.5])), s64(1.25));
    assert_eq!(duration(&times(&[0.0]), &times(&[0.5, 3.0])), s64(3.0));
    assert_eq!(duration(&times(&[]), &times(&[])), s64(0.0));
}
