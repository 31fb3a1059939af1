//! The detector loop's bookkeeping.
use yamete::config::DaemonConfig;
use yamete::daemon::{
    preview_slap, Watch, EVENT_CAPACITY, MAX_TELEMETRY_SAMPLES, STATUS_INTERVAL,
    TELEMETRY_INTERVAL,
};
use yamete::detector::{Detection, Scores, Tier};
use yamete::scalar::{Scalar, Scalar64};

fn s(x: f32) -> Scalar {
    Scalar { bits: x.to_bits() }
}

fn s64(x: f64) -> Scalar64 {
    Scalar64 { bits: x.to_bits() }
}

fn scores(envelope: f32, gyro_peak: f32) -> Scores {
    Scores { envelope: s(envelope), gyro_peak: s(gyro_peak), ..Scores::default() }
}

fn detection() -> Detection {
    Detection {
        t: s64(2.0),
        tier: Tier::Micro,
        peak_g: s(0.05),
        intensity: s(0.4),
        votes: 2,
        gyro_confirmed: true,
        gyro_peak: s(20.0),
        gyro_ratio: s(400.0),
        axis: [s(0.0), s(0.0), s(1.0)],
    }
}

#[test]
fn preview_slap_is_clamped_and_plausible() {
    assert_eq!(preview_slap(s(5.0)).intensity, s(1.0));
    assert_eq!(preview_slap(s(-1.0)).intensity, s(0.0));
    let slap = preview_slap(s(0.5));
    assert_eq!(slap.intensity, s(0.5));
    // Must satisfy every action filter a user could reasonably set, or "Test" in the UI
    // would silently do nothing for tier-restricted actions.
    assert_eq!(slap.tier, Tier::Major);
}

#[test]
fn a_preview_looks_like_a_hard_hit_from_above() {
    let slap = preview_slap(s(0.25));
    assert_eq!(slap.t, s64(0.0));
    assert_eq!(slap.peak_g, s(0.25));
    assert_eq!(slap.votes, 4);
    assert!(slap.gyro_confirmed);
    assert_eq!(slap.gyro_peak, s(40.0));
    assert_eq!(slap.gyro_ratio, s(400.0));
    assert_eq!(slap.axis, [s(0.0), s(0.0), s(-1.0)]);
}

#[test]
fn telemetry_frames_are_bounded() {
    // At 805 Hz a 16 ms frame is ~13 samples; the cap only matters if the loop stalls,
    // and exists so a stall cannot turn into an unbounded allocation.
    assert!(MAX_TELEMETRY_SAMPLES >= 32);
    let expected = 805.0 * (TELEMETRY_INTERVAL as f64 / 1e9);
    assert!(
        expected < MAX_TELEMETRY_SAMPLES as f64,
        "normal operation would hit the cap and truncate the scope"
    );
}

#[test]
fn a_stalled_loop_keeps_the_first_samples_of_the_frame() {
    let mut w = Watch::new(DaemonConfig::default(), 0);
    w.poll(1);
    for i in 0..1000 {
        w.on_accel(s64(i as f64), &scores(i as f32, 0.0), None);
        w.on_gyro(s64(i as f64), &scores(0.0, -(i as f32)));
    }
    let frame = w.telemetry(TELEMETRY_INTERVAL, &scores(1.0, 2.0), 7).unwrap();
    assert_eq!(frame.envelope.len(), MAX_TELEMETRY_SAMPLES);
    assert_eq!(frame.envelope[63], s(63.0));
    assert_eq!(frame.gyro[1], s(-1.0));
    assert_eq!(frame.t, s64(999.0));
    assert_eq!(frame.scores, scores(1.0, 2.0));
    assert_eq!(frame.dropped, 7);

    // The next frame starts empty.
    w.on_accel(s64(1000.0), &scores(0.5, 0.0), None);
    assert_eq!(w.telemetry(TELEMETRY_INTERVAL + 1, &scores(0.0, 0.0), 7), None);
    let frame = w.telemetry(2 * TELEMETRY_INTERVAL, &scores(0.0, 0.0), 7).unwrap();
    assert_eq!(frame.envelope, [s(0.5)]);
    assert!(frame.gyro.is_empty());
}

#[test]
fn nobody_listening_costs_nothing() {
    let mut w = Watch::new(DaemonConfig::default(), 0);
    w.on_accel(s64(0.0), &scores(1.0, 1.0), None);
    assert!(w.envelope.is_empty());
    w.poll(2);
    w.on_accel(s64(0.0), &scores(1.0, 1.0), None);
    assert_eq!(w.envelope.len(), 1);
    w.poll(0);
    assert_eq!(w.telemetry(TELEMETRY_INTERVAL, &scores(0.0, 0.0), 0), None);
    assert!(w.envelope.is_empty());
}

#[test]
fn a_disabled_daemon_reports_and_counts_nothing() {
    let mut w = Watch::new(DaemonConfig::default(), 0);
    let slap = w.on_accel(s64(2.0), &scores(0.1, 0.0), Some(detection())).unwrap();
    assert_eq!(slap.tier, Tier::Micro);
    assert_eq!(slap.intensity, s(0.4));
    assert_eq!(w.slaps, 1);

    w.reload(DaemonConfig { enabled: false, ..Default::default() });
    assert_eq!(w.on_accel(s64(3.0), &scores(0.1, 0.0), Some(detection())), None);
    assert_eq!(w.slaps, 1);
}

#[test]
fn only_a_new_report_rate_reopens_the_sensors() {
    let mut w = Watch::new(DaemonConfig::default(), 0);
    assert!(!w.reload(DaemonConfig { enabled: false, ..Default::default() }));
    assert!(w.reload(DaemonConfig { report_interval_us: 2000, ..Default::default() }));
    assert!(!w.reload(DaemonConfig { report_interval_us: 2000, ..Default::default() }));
}

#[test]
fn previews_name_an_action() {
    let w = Watch::new(DaemonConfig::default(), 0);
    let id = w.config.actions[0].id.clone();
    let (action, slap) = w.preview(&id, s(2.0)).unwrap();
    assert_eq!(action.id, id);
    assert_eq!(slap.intensity, s(1.0));
    assert!(w.preview("gone", s(0.5)).is_none());
}

#[test]
fn the_status_is_published_at_once_and_then_twice_a_second() {
    let mut w = Watch::new(DaemonConfig::default(), 5);
    let version = "1.2.3".to_string();
    let st = w.status(5, &version, true, s64(0.1), s(804.5), true, 2).unwrap();
    assert!(st.enabled && st.has_gyro && st.warming_up);
    assert_eq!(st.version, "1.2.3");
    assert_eq!(st.uptime_s, s64(0.1));
    assert_eq!(st.rate_hz, s(804.5));
    assert_eq!(st.slaps, 0);
    assert_eq!(st.telemetry_subscribers, 2);
    assert!(w.status(5 + STATUS_INTERVAL - 1, &version, true, s64(0.1), s(1.0), true, 2).is_none());
    assert!(w.status(5 + STATUS_INTERVAL, &version, true, s64(0.1), s(1.0), true, 2).is_some());
    assert_eq!(EVENT_CAPACITY, 256);
}
