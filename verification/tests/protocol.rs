//! Places, messages and the control socket.
use yamete::config::{Action, DaemonConfig};
use yamete::detector::{Detection, Scores, Tier};
use yamete::protocol::{
    config_path, half, socket_path, state_dir, to_line, Event, Request, Slap, Status, Telemetry,
};
use yamete::scalar::{Scalar, Scalar64};
use yamete::server::{
    claim, handle_request, is_blank, not_understood, peer_is_owner, Claim, Shared, Step,
    Subscription,
};

fn s(x: f32) -> Scalar {
    Scalar { bits: x.to_bits() }
}

fn s64(x: f64) -> Scalar64 {
    Scalar64 { bits: x.to_bits() }
}

fn slap_event() -> Event {
    Event::Slap(Slap {
        t: s64(1.0),
        tier: Tier::Major,
        peak_g: s(0.3),
        intensity: s(0.8),
        votes: 4,
        gyro_confirmed: true,
        gyro_peak: s(30.0),
        gyro_ratio: s(300.0),
        axis: [s(0.0), s(0.0), s(1.0)],
    })
}

fn telemetry_event() -> Event {
    Event::Telemetry(Telemetry {
        t: s64(0.0),
        envelope: vec![],
        gyro: vec![],
        scores: Scores::default(),
        dropped: 0,
    })
}

fn status(slaps: u64) -> Status {
    Status {
        enabled: true,
        version: "test".into(),
        has_gyro: true,
        uptime_s: s64(1.0),
        slaps,
        rate_hz: s(805.0),
        warming_up: false,
        telemetry_subscribers: 0,
    }
}

fn shared() -> Shared {
    Shared { config: DaemonConfig::default(), status: status(3) }
}

#[test]
fn socket_path_fits_in_sun_path() {
    // `sockaddr_un.sun_path` is 104 bytes on macOS; exceeding it fails at bind time with a
    // confusing error, so it is worth knowing statically.
    for home in [Some("/Users/someone"), Some("/Users/a-rather-long-account-name"), None] {
        let len = socket_path(home).len();
        assert!(len < 104, "socket path is {len} bytes: {:?}", socket_path(home));
    }
    // Bytes count, not characters.
    let longest = format!("/Users/{}", "é".repeat(17));
    assert_eq!(longest.len(), 41);
    assert_eq!(socket_path(Some(&longest)).len(), 103);
}

#[test]
fn state_dir_is_always_absolute() {
    // Without a home directory we still refuse a relative path.
    let nowhere = "/var/empty/Library/Application Support/com.chipcolate.yamete";
    assert!(state_dir(Some("/Users/someone")).starts_with('/'));
    for home in [None, Some(""), Some("x"), Some("./x"), Some("~")] {
        assert_eq!(state_dir(home), nowhere);
    }
    assert!(state_dir(None).starts_with('/'));
}

#[test]
fn places_are_under_the_home_directory() {
    let home = Some("/Users/me");
    let dir = state_dir(home);
    assert!(dir.starts_with("/Users/me/"));
    assert!(socket_path(home).starts_with(&dir));
    assert!(config_path(home).starts_with(&dir));
    assert!(config_path(home).ends_with("/config.json"));
    assert!(!state_dir(None).starts_with("/tmp"));
}

#[test]
fn one_message_is_one_line() {
    assert_eq!(to_line(Ok(r#"{"event":"pong"}"#.into())), "{\"event\":\"pong\"}\n");
    assert_eq!(
        to_line(Err("key must be a string".into())),
        "{\"event\":\"error\",\"message\":\"could not serialise: key must be a string\"}\n"
    );
}

#[test]
fn a_preview_is_half_as_hard_as_it_gets() {
    assert_eq!(half(), s(0.5));
}

#[test]
fn a_detection_is_reported_whole() {
    let d = Detection {
        t: s64(1.5),
        tier: Tier::Medium,
        peak_g: s(0.2),
        intensity: s(0.7),
        votes: 3,
        gyro_confirmed: true,
        gyro_peak: s(40.0),
        gyro_ratio: s(200.0),
        axis: [s(0.0), s(1.0), s(0.0)],
    };
    let slap = Slap::from(d);
    assert_eq!(slap.t, d.t);
    assert_eq!(slap.tier, Tier::Medium);
    assert_eq!(slap.peak_g, s(0.2));
    assert_eq!(slap.intensity, s(0.7));
    assert_eq!(slap.votes, 3);
    assert!(slap.gyro_confirmed);
    assert_eq!(slap.gyro_peak, s(40.0));
    assert_eq!(slap.gyro_ratio, s(200.0));
    assert_eq!(slap.axis, [s(0.0), s(1.0), s(0.0)]);
}

// ---------------------------------------------------------------------------------
// Subscriptions
// ---------------------------------------------------------------------------------

#[test]
fn subscriptions_filter_by_kind() {
    let (mut sub, mut counter) = (Subscription::new(), 0);
    assert!(!sub.wants(&slap_event()));

    sub.set(true, false, &mut counter);
    assert!(sub.wants(&slap_event()));
    assert!(!sub.wants(&telemetry_event()));

    sub.set(true, true, &mut counter);
    assert!(sub.wants(&telemetry_event()));
}

#[test]
fn replies_are_never_delivered_as_subscription_events() {
    // Otherwise a client that subscribes to slaps would also receive every other client's
    // config replies.
    let (mut sub, mut counter) = (Subscription::new(), 0);
    sub.set(true, true, &mut counter);
    assert!(!sub.wants(&Event::Pong));
    assert!(!sub.wants(&Event::Error { message: "x".into() }));
    assert!(!sub.wants(&Event::Config { config: DaemonConfig::default() }));
    assert!(!sub.wants(&Event::Status(status(0))));
}

#[test]
fn telemetry_subscriber_count_tracks_state_changes() {
    let (mut sub, mut counter) = (Subscription::new(), 0);
    assert_eq!(counter, 0);

    sub.set(false, true, &mut counter);
    assert_eq!(counter, 1);

    // Re-subscribing must not double-count.
    sub.set(true, true, &mut counter);
    assert_eq!(counter, 1);

    sub.set(true, false, &mut counter);
    assert_eq!(counter, 0);
}

#[test]
fn dropping_a_subscribed_connection_releases_its_count() {
    let (mut sub, mut counter) = (Subscription::new(), 0);
    sub.set(false, true, &mut counter);
    assert_eq!(counter, 1);
    sub.close(&mut counter);
    assert_eq!(
        counter, 0,
        "a client that disconnects abruptly would leave telemetry running forever"
    );
}

#[test]
fn dropping_an_unsubscribed_connection_does_not_underflow() {
    let (sub, mut counter) = (Subscription::new(), 0);
    sub.close(&mut counter);
    assert_eq!(counter, 0);
}

// ---------------------------------------------------------------------------------
// Requests
// ---------------------------------------------------------------------------------

fn ask(shared: &Shared, request: Request) -> Step {
    let (mut sub, mut counter) = (Subscription::new(), 0);
    let slider = match &request {
        Request::SetConfig { config } => {
            f32::from_bits(config.detector.sensitivity.bits).to_string()
        }
        _ => String::new(),
    };
    handle_request(request, &slider, shared, &mut sub, &mut counter)
}

#[test]
fn requests_are_answered() {
    assert_eq!(ask(&shared(), Request::Ping), Step::Reply(Event::Pong));
    assert_eq!(
        ask(&shared(), Request::GetConfig),
        Step::Reply(Event::Config { config: DaemonConfig::default() })
    );
    let live = Shared { status: Status { enabled: false, ..status(42) }, ..shared() };
    assert_eq!(
        ask(&live, Request::GetStatus),
        Step::Reply(Event::Status(Status { enabled: false, ..status(42) }))
    );
}

#[test]
fn a_new_config_takes_effect_once_saved() {
    let mut shared = shared();
    let mut config = DaemonConfig::default();
    config.detector.sensitivity = s(0.8);
    match ask(&shared, Request::SetConfig { config }) {
        Step::Save { config, required } => {
            assert!(required);
            let reply = shared.finish(config.clone(), required, Ok(()));
            assert_eq!(reply, Event::Config { config });
            assert_eq!(shared.config.detector.sensitivity, s(0.8));
        }
        other => panic!("expected a save, got {other:?}"),
    }
}

#[test]
fn an_invalid_config_changes_nothing() {
    let mut config = DaemonConfig::default();
    config.detector.sensitivity = s(9.0);
    assert_eq!(
        ask(&shared(), Request::SetConfig { config }),
        Step::Reply(Event::Error {
            message: "rejected: sensitivity must be between 0 and 1, got 9".into()
        })
    );
}

#[test]
fn a_config_that_cannot_be_saved_changes_nothing() {
    let mut shared = shared();
    let config = DaemonConfig { enabled: false, ..Default::default() };
    let reply = shared.finish(config, true, Err("disk full".into()));
    assert_eq!(reply, Event::Error { message: "could not save config: disk full".into() });
    assert!(shared.config.enabled);
}

#[test]
fn switching_takes_effect_even_where_it_cannot_be_saved() {
    let mut shared = shared();
    match ask(&shared, Request::SetEnabled { value: false }) {
        Step::Save { config, required } => {
            assert!(!required);
            assert!(!config.enabled);
            let reply = shared.finish(config.clone(), required, Err("disk full".into()));
            assert_eq!(reply, Event::Config { config });
            assert!(!shared.config.enabled);
        }
        other => panic!("expected a save, got {other:?}"),
    }
}

#[test]
fn subscribing_is_counted_and_not_answered() {
    let (mut sub, mut counter) = (Subscription::new(), 4);
    let request = Request::Subscribe { slaps: true, telemetry: true };
    assert_eq!(handle_request(request, "", &shared(), &mut sub, &mut counter), Step::Silent);
    assert_eq!(sub, Subscription { slaps: true, telemetry: true });
    assert_eq!(counter, 5);
    let request = Request::Subscribe { slaps: false, telemetry: false };
    handle_request(request, "", &shared(), &mut sub, &mut counter);
    assert_eq!(counter, 4);
}

#[test]
fn previews_are_clamped_and_need_an_action() {
    let id = Action::default_sound().id;
    for (asked, given) in [(0.9, 0.9), (5.0, 1.0), (-1.0, 0.0)] {
        assert_eq!(
            ask(&shared(), Request::TestAction { id: id.clone(), intensity: s(asked) }),
            Step::Preview { id: id.clone(), intensity: s(given) }
        );
    }
    assert_eq!(
        ask(&shared(), Request::TestAction { id: "x".into(), intensity: s(0.5) }),
        Step::Reply(Event::Error { message: "no action with id `x`".into() })
    );
}

#[test]
fn garbage_is_answered_and_blank_lines_are_not() {
    assert!(is_blank(" \t\r\n"));
    assert!(is_blank(""));
    assert!(!is_blank(" x "));
    assert_eq!(
        not_understood("expected ident"),
        Event::Error { message: "could not parse request: expected ident".into() }
    );
}

#[test]
fn a_stale_socket_is_reclaimed_and_a_live_one_is_not() {
    assert_eq!(claim("/s.sock", false, false), Claim::Bind);
    assert_eq!(claim("/s.sock", true, false), Claim::Reclaim);
    assert_eq!(
        claim("/s.sock", true, true),
        Claim::Refuse("another spankd is already listening on /s.sock".into())
    );
}

#[test]
fn only_our_own_user_may_connect() {
    assert!(peer_is_owner(0, 501, 501));
    assert!(!peer_is_owner(0, 502, 501));
    assert!(!peer_is_owner(-1, 501, 501));
}
