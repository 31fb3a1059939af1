//! Recording, replaying and tuning, and the two ends of the socket.
use yamete::analyze::{
    at_detections, count_reaching, flagged, holds_slaps, percentile, rarely_votes, sort, total_votes,
    votes_on_noise, worst, Traces,
};
use yamete::calibrate::{
    cue_for, default_out, machine_metadata, sysctl_value, Cue, Line, Metronome, FLASH,
};
use yamete::client;
use yamete::config::DaemonConfig;
use yamete::controller::{
    acquire, asks_to_show, channel, config_reply, is_timeout, menu_action, not_running,
    status_reply, test_reply, toggled, Daemon, Instance, MenuAction, Next, ReadError, Stream,
};
use yamete::detector::{Scores, Tier};
use yamete::fixture::{Fixture, Row};
use yamete::numeral::{is_number, read_count, write_count, write_hex8};
use yamete::paths::{has_component, has_extension, join, with_file_name};
use yamete::probe::{delivered, should_request, usage, Summary};
use yamete::protocol::{Event, Slap, Status, Telemetry};
use yamete::replay::{decimate, tally, Outcome, Tally};
use yamete::report::Sample;
use yamete::scalar::{Scalar, Scalar64};
use yamete::sensor::{Access, Error, SensorKind};
use yamete::suite::{all_takes, ready, take_path, takes, TAKE_SECS};
use yamete::supervisor::{
    sidecar_paths, Child, Start, Stop, Supervisor, SHUTDOWN_TIMEOUT, STARTUP_TIMEOUT,
};
use yamete::sweep::{annotated, best, score, Knob, Score, Tried};
use yamete::text::{before, sort as sort_texts};
use yamete::tuning::{Config, Thresholds};

fn s(x: f32) -> Scalar {
    Scalar { bits: x.to_bits() }
}

fn s64(x: f64) -> Scalar64 {
    Scalar64 { bits: x.to_bits() }
}

fn scalars(xs: &[f32]) -> Vec<Scalar> {
    xs.iter().map(|x| s(*x)).collect()
}

// ---------------------------------------------------------------------------------
// Recording
// ---------------------------------------------------------------------------------

#[test]
fn a_take_with_slaps_has_a_rhythm() {
    assert_eq!(cue_for(Some(10)), Some(Cue { count: 10 }));
    assert_eq!(cue_for(Some(0)), None);
    assert_eq!(cue_for(None), None);
}

#[test]
fn each_beat_strikes_once() {
    let beats = vec![s64(2.0), s64(3.0)];
    let mut m = Metronome::new();
    assert_eq!(m.line(2, 0), Line::NextBeat);
    assert!(!m.tick(&beats, s64(1.999), 10));
    assert!(m.tick(&beats, s64(2.0), 20));
    assert!(!m.tick(&beats, s64(2.5), 30));
    assert_eq!(m.line(2, 20 + FLASH - 1), Line::SlapNow);
    assert_eq!(m.line(2, 20 + FLASH), Line::NextBeat);
    assert!(m.tick(&beats, s64(3.5), 40));
    assert!(!m.tick(&beats, s64(9.0), 50));
    assert_eq!(m.line(2, 40 + FLASH), Line::Done);
    assert_eq!(m.line(0, 0), Line::Prompt);
}

#[test]
fn a_recording_knows_its_machine() {
    assert_eq!(sysctl_value(Some("Mac16,5\n")), Some("Mac16,5".into()));
    assert_eq!(sysctl_value(Some(" \n")), None);
    assert_eq!(sysctl_value(None), None);
    let meta = machine_metadata(Some("Mac16,5".into()), None);
    assert_eq!(meta.get("model").map(String::as_str), Some("Mac16,5"));
    assert_eq!(meta.get("cpu"), None);
    let meta = machine_metadata(None, Some("Apple M4 Max".into()));
    assert_eq!(meta.get("cpu").map(String::as_str), Some("Apple M4 Max"));
    assert_eq!(default_out("typing"), "fixtures/typing.fixture.gz");
}

#[test]
fn the_corpus_can_be_filtered_by_label() {
    let labels = |only: Option<&str>| {
        takes(only).map(|t| t.iter().map(|t| (t.label, t.expect)).collect::<Vec<_>>())
    };
    assert_eq!(labels(None).unwrap().len(), 9);
    assert_eq!(labels(Some("side")), Ok(vec![("spank-side", 10)]));
    assert_eq!(labels(Some("typ")), Ok(vec![("typing", 0)]));
    assert_eq!(
        labels(Some("sneeze")).unwrap_err(),
        "no take matches `sneeze`. Available: idle, typing, trackpad, desk-bump, \
         lid-and-ports, spank-gentle, spank-medium, spank-hard, spank-side"
    );
    let all = all_takes();
    assert!(all.iter().all(|t| (t.expect > 0) == t.label.starts_with("spank")));
    assert_eq!(all[0].prompt, "Don't touch the laptop at all.");
    assert_eq!(all[7].prompt, "Spank the lid HARD 10 times, about one every 3 seconds.");
    assert_eq!(TAKE_SECS, 30);
    assert_eq!(take_path("/fx", "idle"), "/fx/idle.fixture.gz");
    assert!(ready("\n"));
    assert!(ready("yes"));
    assert!(!ready(" S \n"));
}

// ---------------------------------------------------------------------------------
// Replaying
// ---------------------------------------------------------------------------------

fn outcome(expected: Option<usize>, detected: usize) -> Outcome {
    Outcome { label: "x".into(), expected, detected }
}

#[test]
fn a_replay_passes_when_the_count_is_right() {
    assert!(outcome(Some(3), 3).passed());
    assert!(!outcome(Some(3), 2).passed());
    assert!(!outcome(Some(0), 1).passed());
    assert!(outcome(None, 7).passed());
    let all = vec![
        outcome(Some(10), 8),
        outcome(Some(10), 12),
        outcome(Some(0), 3),
        outcome(None, 99),
    ];
    assert_eq!(tally(&all), Tally { expected: 20, hits: 18, false_pos: 5 });
    assert_eq!(tally(&vec![]), Tally { expected: 0, hits: 0, false_pos: 0 });
}

fn row(n: usize) -> Row {
    Row { t: n.to_string(), x: "0".into(), y: "0".into(), z: "-1".into() }
}

#[test]
fn a_slower_sensor_keeps_every_nth_sample() {
    let mut fx = Fixture::new("x");
    fx.expect = Some(2);
    fx.accel = (0..7).map(row).collect();
    fx.gyro = (0..3).map(row).collect();
    let slow = decimate(&fx, 3);
    assert_eq!(slow.accel, [row(0), row(3), row(6)]);
    assert_eq!(slow.gyro, [row(0)]);
    assert_eq!(slow.expect, Some(2));
    assert_eq!(decimate(&fx, 1), fx);
    assert_eq!(decimate(&fx, 0), fx);
    assert_eq!(decimate(&fx, usize::MAX).accel, [row(0)]);
}

// ---------------------------------------------------------------------------------
// Tuning
// ---------------------------------------------------------------------------------

fn tried(label: &str, expected: usize, detected: usize) -> Tried {
    Tried { label: label.into(), expected, detected }
}

#[test]
fn a_candidate_is_scored_over_the_corpus() {
    let all = vec![tried("hard", 10, 10), tried("soft", 10, 7), tried("idle", 0, 2), tried("m", 5, 6)];
    assert_eq!(
        score(&all),
        Score {
            hits: 22,
            missed: 3,
            false_pos: 3,
            offenders: vec!["soft-3".into(), "idle+2".into()],
        }
    );
    // Each count only has to fit on its own.
    let huge = score(&vec![tried("a", usize::MAX, 0), tried("b", 0, usize::MAX)]);
    assert_eq!((huge.hits, huge.missed, huge.false_pos), (0, usize::MAX, usize::MAX));
}

fn errors(missed: usize, false_pos: usize) -> Score {
    Score { hits: 0, missed, false_pos, offenders: vec![] }
}

#[test]
fn the_best_candidate_errs_least_and_annoys_least() {
    assert_eq!(best(&vec![]), None);
    assert_eq!(best(&vec![errors(5, 0), errors(1, 3), errors(3, 1), errors(2, 2)]), Some(2));
    assert_eq!(best(&vec![errors(2, 2), errors(2, 2)]), Some(0));
}

#[test]
fn only_annotated_fixtures_can_be_scored() {
    assert_eq!(annotated(&vec![Some(1), None, Some(0)]), Ok(vec![0, 2]));
    assert!(annotated(&vec![None]).is_err());
}

#[test]
fn each_knob_turns_one_thing() {
    let base = Config::default();
    let turn = |k: Knob, v: f32| {
        let mut c = base;
        k.apply(&mut c, s(v));
        c
    };
    assert_eq!(turn(Knob::GyroRatio, 1.0), Config { gyro_ratio_min: s(1.0), ..base });
    assert_eq!(turn(Knob::GyroPeak, 1.0), Config { gyro_peak_min: s(1.0), ..base });
    assert_eq!(turn(Knob::GyroWindow, 1.0), Config { gyro_window_s: s(1.0), ..base });
    assert_eq!(turn(Knob::Sensitivity, 1.0), Config { sensitivity: s(1.0), ..base });
    assert_eq!(turn(Knob::MinVotes, 3.0), Config { min_votes: 3, ..base });
    assert_eq!(turn(Knob::MicroG, 0.1).tiers.micro_g, s(0.1));
    assert_eq!(turn(Knob::Kurtosis, 9.0).thresholds.kurtosis, s(9.0));
    assert_eq!(turn(Knob::StaLta, 9.0).thresholds.sta_lta, s(9.0));
    assert_eq!(turn(Knob::PeakMad, 9.0).thresholds.peak_mad, s(9.0));
    let values = Knob::GyroRatio.values();
    assert_eq!((values.first, values.last, values.unit), (0, 20, s(25.0)));
    assert_eq!(Knob::MicroG.values().unit, s(0.005));
    assert_eq!(Knob::Sensitivity.values().unit, s(0.05));
    assert_eq!(Knob::GyroPeak.values().unit, s(2.5));
    assert_eq!(Knob::Kurtosis.values().unit, s(100.0));
    assert_eq!(Knob::GyroWindow.label(), "gyro_window_s");
}

fn scores(envelope: f32, votes: u8) -> Scores {
    Scores { envelope: s(envelope), gyro: s(-envelope), votes, ..Scores::default() }
}

#[test]
fn a_distribution_leaves_the_warmup_out() {
    let mut t = Traces::new();
    t.on_accel(true, &scores(9.0, 0));
    t.on_gyro(true, &scores(9.0, 0));
    t.on_accel(false, &scores(0.5, 0));
    t.on_gyro(false, &scores(0.25, 0));
    assert_eq!(t.envelope, [s(0.5)]);
    assert_eq!(t.gyro, [s(-0.25)]);
}

#[test]
fn ranks_are_taken_from_sorted_measurements() {
    let mut v = scalars(&[3.0, -1.0, 2.0, f32::INFINITY, 0.0]);
    sort(&mut v);
    assert_eq!(v, scalars(&[-1.0, 0.0, 2.0, 3.0, f32::INFINITY]));
    assert_eq!(percentile(&v, 0), s(-1.0));
    assert_eq!(percentile(&v, 3), s(3.0));
    assert_eq!(percentile(&v, 99), s(f32::INFINITY));
    assert_eq!(worst(&v), s(f32::INFINITY));
    assert_eq!(worst(&vec![]), s(0.0));
    assert_eq!(count_reaching(&v, s(2.0)), 3);
}

#[test]
fn thresholds_under_the_noise_are_flagged() {
    let th = Thresholds::default();
    let t = Traces {
        envelope: scalars(&[0.01, 0.035]),
        sta_lta: scalars(&[14.9]),
        cusum: vec![],
        kurtosis: scalars(&[1100.5]),
        peak_mad: scalars(&[1.0]),
        gyro: vec![],
    };
    assert_eq!(flagged(&t, &th), [true, false, false, true, false]);
    assert!(votes_on_noise(s(1.0), s(1.0)));
    assert!(!votes_on_noise(s(1.1), s(1.0)));
    assert!(rarely_votes(24, 100));
    assert!(!rarely_votes(25, 100));
    let rows = vec![scores(0.1, 2), scores(0.3, 3)];
    let t = at_detections(&rows).unwrap();
    assert_eq!(t.envelope, scalars(&[0.1, 0.3]));
    assert_eq!(
        at_detections(&vec![]),
        Err(Error::Iokit("no detections in the given fixtures".into()))
    );
    assert!(holds_slaps(Some(10)));
    assert!(!holds_slaps(Some(0)));
    assert!(!holds_slaps(None));
    assert_eq!(total_votes(&rows), 5);
}

#[test]
fn a_probe_summarises_what_it_saw() {
    let sample = Sample { seq: 1, host_time: 2, x: 0, y: 0, z: 0, temp_c: 0 };
    let mut sum = Summary::new();
    assert!(matches!(delivered(&sum), Err(Error::Iokit(_))));
    sum.push(sample, s(1.0));
    sum.push(sample, s(0.5));
    assert_eq!((sum.count, sum.mag_min, sum.mag_max), (2, s(0.5), s(1.0)));
    assert_eq!(sum.last, Some(sample));
    assert_eq!(delivered(&sum), Ok(()));
    assert_eq!(usage(SensorKind::Accel), 3);
    assert_eq!(usage(SensorKind::Gyro), 9);
    assert!(should_request(Access::Denied));
    assert!(!should_request(Access::Unknown));
}

// ---------------------------------------------------------------------------------
// Talking to the daemon
// ---------------------------------------------------------------------------------

fn status() -> Status {
    Status {
        enabled: true,
        version: "1".into(),
        has_gyro: false,
        uptime_s: s64(1.0),
        slaps: 3,
        rate_hz: s(805.0),
        warming_up: false,
        telemetry_subscribers: 0,
    }
}

fn slap() -> Slap {
    Slap {
        t: s64(1.0),
        tier: Tier::Micro,
        peak_g: s(0.1),
        intensity: s(0.2),
        votes: 2,
        gyro_confirmed: false,
        gyro_peak: s(0.0),
        gyro_ratio: s(0.0),
        axis: [s(0.0), s(0.0), s(1.0)],
    }
}

fn refusal() -> Event {
    Event::Error { message: "no".into() }
}

fn failed(e: Error) -> String {
    match e {
        Error::Iokit(message) => message,
        other => panic!("unexpected error: {other:?}"),
    }
}

#[test]
fn the_command_line_reads_replies() {
    assert_eq!(client::status(Ok(Event::Status(status())), ""), Ok(status()));
    assert_eq!(failed(client::status(Ok(refusal()), "").unwrap_err()), "no");
    assert_eq!(failed(client::status(Ok(Event::Pong), "Pong").unwrap_err()), "unexpected reply: Pong");
    assert_eq!(
        failed(client::status(Err("eof".into()), "").unwrap_err()),
        "could not parse reply: eof"
    );

    let off = DaemonConfig { enabled: false, ..Default::default() };
    assert_eq!(client::set_enabled(Ok(Event::Config { config: off })), Ok(false));
    assert_eq!(failed(client::set_enabled(Ok(refusal())).unwrap_err()), "no");
    assert_eq!(failed(client::set_enabled(Err("x".into())).unwrap_err()), "unexpected reply");

    assert_eq!(client::listen(Ok(Event::Slap(slap()))), client::Heard::Slap(slap()));
    assert_eq!(client::listen(Ok(refusal())), client::Heard::Complaint("no".into()));
    assert_eq!(client::listen(Ok(Event::Pong)), client::Heard::Nothing);
    assert_eq!(client::listen(Err("x".into())), client::Heard::Nothing);

    assert_eq!(client::test_action(None, Err("timed out".into())), Ok(()));
    assert_eq!(client::test_action(Some(" \n"), Ok(refusal())), Ok(()));
    assert_eq!(failed(client::test_action(Some("{}"), Ok(refusal())).unwrap_err()), "no");
    assert_eq!(client::test_action(Some("{}"), Ok(Event::Pong)), Ok(()));

    assert_eq!(
        failed(client::unreachable("/s.sock", "refused")),
        "could not reach the daemon at /s.sock: refused\nIs it running? Try `yamete run`."
    );
}

#[test]
fn the_app_reads_replies() {
    let config = DaemonConfig::default();
    assert_eq!(config_reply(Ok(Event::Config { config: config.clone() }), ""), Ok(config.clone()));
    assert_eq!(config_reply(Ok(Event::Pong), "Pong"), Err("unexpected reply: Pong".into()));
    assert_eq!(config_reply(Ok(refusal()), ""), Err("no".into()));
    assert_eq!(config_reply(Err("down".into()), ""), Err("down".into()));
    assert_eq!(status_reply(Ok(Event::Status(status())), ""), Ok(status()));
    assert_eq!(status_reply(Ok(Event::Pong), "Pong"), Err("unexpected reply: Pong".into()));
    assert_eq!(test_reply(Ok(Event::Pong), ""), Ok(()));
    assert_eq!(test_reply(Ok(refusal()), ""), Err("no".into()));
    assert_eq!(test_reply(Err("down".into()), ""), Err("down".into()));
    assert_eq!(toggled(&Ok(Event::Config { config })), Some(false));
    assert_eq!(toggled(&Ok(Event::Pong)), None);
    assert_eq!(
        not_running("refused"),
        "yamete is not running (refused). Start it with `yamete install --copy`."
    );
}

#[test]
fn events_reach_the_webview_under_their_names() {
    let telemetry = Telemetry {
        t: s64(0.0),
        envelope: vec![],
        gyro: vec![],
        scores: Scores::default(),
        dropped: 0,
    };
    assert_eq!(channel(&Event::Slap(slap())), Some("spank"));
    assert_eq!(channel(&Event::Telemetry(telemetry)), Some("telemetry"));
    assert_eq!(channel(&Event::Config { config: DaemonConfig::default() }), Some("config"));
    assert_eq!(channel(&Event::Status(status())), Some("status"));
    assert_eq!(channel(&refusal()), Some("daemon-error"));
    assert_eq!(channel(&Event::Pong), None);
}

#[test]
fn a_line_cut_by_timeouts_is_not_lost() {
    let mut stream = Stream::new(false);
    assert_eq!(stream.on_read("{\"ev", Err(ReadError::WouldBlock)), Next::Continue);
    assert_eq!(stream.on_read("", Err(ReadError::TimedOut)), Next::Continue);
    assert_eq!(
        stream.on_read("ent\":\"pong\"}\n", Ok(())),
        Next::Frame("{\"event\":\"pong\"}".into())
    );
    assert!(stream.line.is_empty());
    assert_eq!(stream.on_read("", Ok(())), Next::End("daemon closed the connection".into()));
    assert_eq!(
        stream.on_read("x", Err(ReadError::Other("reset".into()))),
        Next::End("reset".into())
    );
    assert!(is_timeout(&ReadError::WouldBlock));
    assert!(!is_timeout(&ReadError::Other("x".into())));
}

#[test]
fn telemetry_is_asked_for_only_while_the_scope_shows() {
    let mut d = Daemon::new();
    assert!(!d.is_connected());
    d.set_connected(true);
    assert!(d.is_connected());
    d.set_telemetry(true);
    assert!(d.want_telemetry);
    d.set_scope_visible(false);
    d.set_telemetry(true);
    assert!(!d.want_telemetry);

    let mut stream = Stream::new(true);
    assert!(stream.resubscribe(d.want_telemetry));
    assert!(!stream.resubscribe(d.want_telemetry));
}

#[test]
fn there_is_one_controller_and_its_menu() {
    assert_eq!(acquire(false, false), Instance::First);
    assert_eq!(acquire(true, false), Instance::Reclaim);
    assert_eq!(acquire(true, true), Instance::Second);
    assert!(asks_to_show("show\n"));
    assert!(!asks_to_show("hide\n"));
    assert_eq!(menu_action("open"), MenuAction::Open);
    assert_eq!(menu_action("toggle"), MenuAction::Toggle);
    assert_eq!(menu_action("logs"), MenuAction::Logs);
    assert_eq!(menu_action("quit"), MenuAction::Quit);
    assert_eq!(menu_action("Quit"), MenuAction::Nothing);
}

#[test]
fn the_app_stops_only_what_it_started() {
    let mut sup = Supervisor::new();
    assert_eq!(
        sup.ensure_running(true, true),
        Start::Running("attached to a daemon that was already running".into())
    );
    assert_eq!(sup.shutdown(), Stop::Done);

    assert!(matches!(sup.ensure_running(false, false), Start::Failed(_)));
    assert_eq!(sup.ensure_running(false, true), Start::Spawn);
    assert_eq!(
        sup.spawned("/x", Err("denied".into())),
        Start::Failed("could not start /x: denied".into())
    );
    assert!(!sup.owns_daemon());
    assert_eq!(sup.spawned("/x", Ok(())), Start::Wait);
    assert!(sup.owns_daemon());
    assert_eq!(sup.starting("/x", false, 0), Start::Wait);
    assert_eq!(sup.starting("/x", true, 1), Start::Running("started /x".into()));
    assert!(matches!(sup.starting("/x", true, STARTUP_TIMEOUT), Start::Failed(_)));
    assert_eq!(sup.shutdown(), Stop::CloseInput);
    assert_eq!(sup.shutdown(), Stop::Done);

    assert_eq!(Supervisor::stopping(Child::Alive, 0), Stop::Wait);
    assert_eq!(Supervisor::stopping(Child::Exited, 0), Stop::Done);
    assert_eq!(Supervisor::stopping(Child::Unknown, 0), Stop::Kill);
    assert_eq!(Supervisor::stopping(Child::Alive, SHUTDOWN_TIMEOUT), Stop::Kill);
    assert_eq!(sidecar_paths("/app")[0], "/app/spankd");
}

// ---------------------------------------------------------------------------------
// Text
// ---------------------------------------------------------------------------------

#[test]
fn numerals_are_as_std_writes_and_reads_them() {
    let text = |v: Vec<char>| v.into_iter().collect::<String>();
    for n in [0, 7, 10, 99, 1000, u64::MAX] {
        assert_eq!(text(write_count(n)), n.to_string());
        let digits: Vec<char> = n.to_string().chars().collect();
        assert_eq!(read_count(&digits), Some(n as usize));
    }
    for u in [0, 0x1f, 0xe00002e2, u32::MAX] {
        assert_eq!(text(write_hex8(u)), format!("{u:08x}"));
    }
    let chars = |t: &str| t.chars().collect::<Vec<char>>();
    assert!(is_number(&chars("-1.5e3")));
    assert!(!is_number(&chars("1,5")));
}

#[test]
fn paths_are_taken_apart_as_std_does() {
    for path in ["/a/b.gz", "b.tar.gz", "/a/.gz", "/a/b.gz/", "/a/..", "/", "", "b.", "a/b.GZ"] {
        let std_path = std::path::Path::new(path);
        assert_eq!(
            has_extension(path, "gz"),
            std_path.extension().is_some_and(|e| e == "gz"),
            "{path:?}"
        );
    }
    for (base, rest) in [("/a", "b"), ("/a/", "b"), ("/a", "/b"), ("", "b"), ("/a", "../b")] {
        let joined = std::path::Path::new(base).join(rest);
        assert_eq!(join(base, rest), joined.to_str().unwrap(), "{base:?} {rest:?}");
    }
    for path in ["/a/b", "b", "/b", "/a/b/", "a/b"] {
        let named = std::path::Path::new(path).with_file_name("c");
        assert_eq!(with_file_name(path, "c"), named.to_str().unwrap(), "{path:?}");
    }
    assert!(has_component("/a/target/b", "target"));
    assert!(!has_component("/a/targets/b", "target"));
}

#[test]
fn texts_sort_by_their_bytes() {
    let words = ["b", "", "é", "a", "ab", "Z", "\u{1F600}", "\u{FFFD}", "a"];
    let mut expected: Vec<String> = words.iter().map(|w| w.to_string()).collect();
    expected.sort();
    assert_eq!(sort_texts(words.iter().map(|w| w.to_string()).collect()), expected);
    for a in words {
        for b in words {
            assert_eq!(before(a, b), a < b, "{a:?} {b:?}");
        }
    }
}
