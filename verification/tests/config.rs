//! The configuration: what is valid, what fires, and how templates render.
use yamete::config::{
    default_intensity_range, default_schema_version, default_timeout, post, yes, Action,
    ActionKind, DaemonConfig, SoundOrder, MAX_DELAY_MS, MAX_WEBHOOK_TIMEOUT_MS, SCHEMA_VERSION,
};
use yamete::detector::Tier;
use yamete::meta::Meta;
use yamete::scalar::Scalar;
use yamete::template::render;

fn s(x: f32) -> Scalar {
    Scalar { bits: x.to_bits() }
}

/// Validates with the sensitivity written the way it prints.
fn validate(c: &DaemonConfig) -> Result<(), String> {
    c.validate(&f32::from_bits(c.detector.sensitivity.bits).to_string())
}

fn webhook(url: &str, method: &str, timeout_ms: u64) -> ActionKind {
    ActionKind::Webhook {
        url: url.into(),
        method: method.into(),
        headers: Meta::new(),
        body: None,
        timeout_ms,
    }
}

fn with_action(action: Action) -> DaemonConfig {
    DaemonConfig { actions: vec![action], ..Default::default() }
}

fn sound(paths: &[&str], playback_rate: f32, volume_db: f32, range: f32) -> ActionKind {
    ActionKind::Sound {
        paths: paths.iter().map(|p| p.to_string()).collect(),
        path: None,
        order: SoundOrder::default(),
        volume_db: s(volume_db),
        scale_with_intensity: false,
        intensity_range_pct: s(range),
        playback_rate: s(playback_rate),
    }
}

#[test]
fn default_config_is_valid_and_makes_a_noise() {
    let c = DaemonConfig::default();
    assert!(validate(&c).is_ok());
    assert_eq!(c.actions.len(), 1);
    assert!(c.enabled);
}

#[test]
fn tier_filter_empty_means_all() {
    let a = Action::default_sound();
    assert!(a.matches(Tier::Micro, s(0.1)));
    assert!(a.matches(Tier::Major, s(1.0)));
}

#[test]
fn tier_filter_restricts_when_set() {
    let a = Action { tiers: vec![Tier::Major], ..Action::default_sound() };
    assert!(a.matches(Tier::Major, s(0.5)));
    assert!(!a.matches(Tier::Micro, s(0.5)));
}

#[test]
fn min_intensity_gates_quiet_spanks() {
    let a = Action { min_intensity: s(0.6), ..Action::default_sound() };
    assert!(!a.matches(Tier::Major, s(0.59)));
    assert!(a.matches(Tier::Major, s(0.60)));
}

#[test]
fn disabled_actions_never_match() {
    let a = Action { enabled: false, ..Action::default_sound() };
    assert!(!a.matches(Tier::Major, s(1.0)));
}

#[test]
fn validation_rejects_duplicate_ids() {
    let c = DaemonConfig {
        actions: vec![Action::default_sound(), Action::default_sound()],
        ..Default::default()
    };
    assert!(validate(&c).unwrap_err().contains("duplicate"));
}

#[test]
fn a_legacy_single_path_config_keeps_its_sound() {
    // As written by a build that had `path` rather than `paths`.
    let mut config = DaemonConfig {
        schema_version: default_schema_version(),
        ..with_action(Action {
            id: "sound".into(),
            kind: ActionKind::Sound {
                paths: vec![],
                path: Some("/System/Library/Sounds/Ping.aiff".into()),
                order: SoundOrder::default(),
                volume_db: s(0.0),
                scale_with_intensity: false,
                intensity_range_pct: default_intensity_range(),
                playback_rate: s(1.0),
            },
            ..Default::default()
        })
    };
    config.normalize();

    match &config.action("sound").unwrap().kind {
        ActionKind::Sound { paths, path, .. } => {
            assert_eq!(paths.len(), 1, "the old path should have been carried over");
            assert!(paths[0].ends_with("Ping.aiff"));
            assert!(path.is_none(), "and cleared, so it is not carried forever");
        }
        other => panic!("unexpected kind: {other:?}"),
    }
    assert!(config.action("sound").unwrap().is_runnable());
}

#[test]
fn normalize_does_not_clobber_a_current_config() {
    let mut config = DaemonConfig::default();
    let before = config.clone();
    config.normalize();
    assert_eq!(config, before);
}

#[test]
fn a_sound_with_no_files_is_valid_but_silent() {
    let mut config = DaemonConfig::default();
    if let Some(action) = config.actions.first_mut() {
        if let ActionKind::Sound { paths, .. } = &mut action.kind {
            paths.clear();
        }
    }
    assert!(validate(&config).is_ok());
    assert!(!config.actions[0].is_runnable());
}

#[test]
fn an_unconfigured_action_is_valid_but_does_not_fire() {
    // Switching an action on before filling it in must not make the whole config
    // unsaveable, or the UI cannot let you type a URL at all.
    let mut config = DaemonConfig::default();
    config.actions.push(Action {
        id: "webhook".into(),
        enabled: true,
        kind: webhook("", "POST", 5000),
        ..Default::default()
    });
    assert!(validate(&config).is_ok(), "{:?}", validate(&config));

    let hook = config.action("webhook").unwrap();
    assert!(!hook.is_runnable());
    assert!(
        !hook.matches(Tier::Major, s(1.0)),
        "an action with nowhere to send anything must not fire"
    );

    // Once filled in, it fires.
    let mut filled = hook.clone();
    filled.kind = webhook("https://example.com/hook", "POST", 5000);
    assert!(filled.is_runnable());
    assert!(filled.matches(Tier::Major, s(1.0)));
}

#[test]
fn a_malformed_url_is_still_rejected() {
    // Incomplete is fine; wrong is not.
    let config = with_action(Action {
        id: "hook".into(),
        kind: webhook("ftp://example.com", "POST", 5000),
        ..Default::default()
    });
    assert!(validate(&config).unwrap_err().contains("http"));
}

#[test]
fn webhook_method_and_timeout_are_bounded() {
    let bad_method = with_action(Action {
        id: "hook".into(),
        kind: webhook("https://example.com", "TRACE", 5000),
        ..Default::default()
    });
    assert!(validate(&bad_method).unwrap_err().contains("method"));

    let bad_timeout = with_action(Action {
        id: "hook".into(),
        kind: webhook("https://example.com", "POST", 60_000),
        ..Default::default()
    });
    assert!(validate(&bad_timeout).unwrap_err().contains("timeout_ms"));
}

#[test]
fn validation_rejects_nonsense_values() {
    let mut bad_sensitivity = DaemonConfig::default();
    bad_sensitivity.detector.sensitivity = s(5.0);
    assert!(validate(&bad_sensitivity).unwrap_err().contains("sensitivity"));

    let bad_rate =
        with_action(Action { kind: sound(&["/x.wav"], 0.0, 0.0, 40.0), ..Default::default() });
    assert!(validate(&bad_rate).unwrap_err().contains("playback_rate"));
}

#[test]
fn scaling_is_off_by_default() {
    // Playing at the system volume is what "play a sound" should mean; anything else is a
    // surprise the user did not ask for.
    match Action::default_sound().kind {
        ActionKind::Sound { scale_with_intensity, volume_db, .. } => {
            assert!(!scale_with_intensity);
            assert_eq!(volume_db, s(0.0), "no trim means the system volume governs");
        }
        other => panic!("unexpected default kind: {other:?}"),
    }
}

#[test]
fn delay_is_generic_across_every_action_kind() {
    // The delay lives on the action, so a webhook or a script gets the same treatment as
    // a sound — the reason for waiting (let the impact noise finish) has nothing to do
    // with audio.
    for kind in [
        ActionKind::Exec { program: "/bin/true".into(), args: vec![], stdin_json: false },
        webhook("https://example.invalid/hook", "POST", 100),
    ] {
        let action = Action { id: "x".into(), delay_ms: 40, kind, ..Default::default() };
        assert_eq!(action.delay_ms, 40);
        assert!(validate(&with_action(action)).is_ok());
    }
}

#[test]
fn the_default_action_delays_enough_to_clear_the_impact() {
    // Detection is fast enough that a zero delay puts the sound underneath the physical
    // slap. Anything in the tens of milliseconds reads as a response rather than an echo.
    let action = Action::default_sound();
    assert!(
        (30..=500).contains(&action.delay_ms),
        "default delay of {} ms is outside the useful range",
        action.delay_ms
    );
}

#[test]
fn an_absurd_delay_is_rejected() {
    let config =
        with_action(Action { id: "slow".into(), delay_ms: 60_000, ..Default::default() });
    assert!(validate(&config).unwrap_err().contains("delay_ms"));
}

#[test]
fn each_complaint_says_what_is_wrong() {
    let complaint = |c: DaemonConfig| validate(&c).unwrap_err();
    let hook = |kind: ActionKind| with_action(Action { id: "hook".into(), kind, ..Default::default() });

    assert_eq!(
        complaint(with_action(Action { id: "  ".into(), ..Default::default() })),
        "every action needs a non-empty id"
    );
    let twice = DaemonConfig {
        actions: vec![Action::default_sound(), Action::default_sound()],
        ..Default::default()
    };
    assert_eq!(
        complaint(twice),
        format!("duplicate action id `{}`", Action::default_sound().id)
    );

    let mut c = DaemonConfig::default();
    c.detector.sensitivity = s(9.0);
    assert_eq!(complaint(c), "sensitivity must be between 0 and 1, got 9");
    let mut c = DaemonConfig::default();
    c.detector.sensitivity = s(f32::NAN);
    assert_eq!(complaint(c), "sensitivity must be between 0 and 1, got NaN");
    let mut c = DaemonConfig::default();
    c.detector.cooldown_s = s(-0.1);
    assert_eq!(complaint(c), "cooldown cannot be negative");
    for us in [999, 8001] {
        let c = DaemonConfig { report_interval_us: us, ..Default::default() };
        assert_eq!(
            complaint(c),
            format!("report_interval_us must be between 1000 and 8000, got {us}")
        );
    }

    for (kind, word) in [
        (sound(&["/x.wav"], -1.0, 0.0, 40.0), "playback_rate"),
        (sound(&["/x.wav"], f32::NAN, 0.0, 40.0), "playback_rate must be positive"),
        (sound(&["/x.wav"], 1.0, 0.0, 101.0), "intensity_range_pct"),
        (webhook("gopher://x", "POST", 5000), "http"),
        (webhook("http://x", "HEAD", 5000), "method"),
        (webhook("http://x", "POST", 0), "timeout_ms"),
    ] {
        let message = complaint(hook(kind));
        assert!(message.starts_with("action `hook`: "), "{message}");
        assert!(message.contains(word), "{message}");
    }
}

#[test]
fn bounds_are_included() {
    let hook = |kind: ActionKind| with_action(Action { id: "hook".into(), kind, ..Default::default() });
    for kind in [
        webhook("http://x", "get", MAX_WEBHOOK_TIMEOUT_MS),
        webhook("https://x", "Patch", 1),
        sound(&[], 0.1, -60.0, 0.0),
        sound(&[], 4.0, 0.0, 100.0),
    ] {
        let c = hook(kind);
        assert_eq!(validate(&c), Ok(()));
    }
    let c = with_action(Action { id: "x".into(), delay_ms: MAX_DELAY_MS, ..Default::default() });
    assert_eq!(validate(&c), Ok(()));
    for us in [1000, 8000] {
        let c = DaemonConfig { report_interval_us: us, ..Default::default() };
        assert_eq!(validate(&c), Ok(()));
    }
    for slider in [0.0, 1.0] {
        let mut c = DaemonConfig::default();
        c.detector.sensitivity = s(slider);
        assert_eq!(validate(&c), Ok(()));
    }
}

#[test]
fn normalizing_twice_is_normalizing_once() {
    let mut c = DaemonConfig {
        schema_version: 0,
        ..with_action(Action {
            kind: ActionKind::Sound {
                paths: vec!["/new.wav".into()],
                path: Some("/old.wav".into()),
                order: SoundOrder::Random,
                volume_db: s(0.0),
                scale_with_intensity: false,
                intensity_range_pct: s(40.0),
                playback_rate: s(1.0),
            },
            ..Default::default()
        })
    };
    c.normalize();
    assert_eq!(c.schema_version, SCHEMA_VERSION);
    match &c.actions[0].kind {
        ActionKind::Sound { paths, path, .. } => {
            assert_eq!(paths, &["/new.wav"]);
            assert_eq!(path, &None);
        }
        other => panic!("unexpected kind: {other:?}"),
    }
    let once = c.clone();
    c.normalize();
    assert_eq!(c, once);
}

#[test]
fn what_is_left_out_has_a_value() {
    assert_eq!(default_schema_version(), SCHEMA_VERSION);
    assert!(yes());
    assert_eq!(post(), "POST");
    assert_eq!(default_timeout(), 5_000);
    assert_eq!(default_intensity_range(), s(40.0));
}

#[test]
fn actions_are_found_by_id() {
    let c = DaemonConfig::default();
    let id = c.actions[0].id.clone();
    assert_eq!(c.action(&id), Some(&c.actions[0]));
    assert_eq!(c.action("nothing"), None);
}

// ---------------------------------------------------------------------------------
// Templates
// ---------------------------------------------------------------------------------

fn vars() -> Meta {
    let mut v = Meta::new();
    v.insert("intensity".into(), "0.83".into());
    v.insert("tier".into(), "major".into());
    v
}

#[test]
fn templates_substitute_known_keys() {
    assert_eq!(render("{{tier}}", &vars()), "major");
    assert_eq!(render("a {{tier}} spank at {{intensity}}!", &vars()), "a major spank at 0.83!");
    // Whitespace inside the braces is tolerated.
    assert_eq!(render("{{ tier }}", &vars()), "major");
}

#[test]
fn templates_leave_unknown_keys_visible() {
    // A typo must be obvious in the output rather than becoming an empty string.
    assert_eq!(render("{{intenstiy}}", &vars()), "{{intenstiy}}");
}

#[test]
fn templates_survive_malformed_input() {
    assert_eq!(render("", &vars()), "");
    assert_eq!(render("no placeholders", &vars()), "no placeholders");
    assert_eq!(render("{{unterminated", &vars()), "{{unterminated");
    assert_eq!(render("}}{{tier}}", &vars()), "}}major");
    assert_eq!(render("{{}}", &vars()), "{{}}");
}

#[test]
fn templates_handle_adjacent_placeholders() {
    assert_eq!(render("{{tier}}{{tier}}", &vars()), "majormajor");
}

#[test]
fn templates_render_what_values_hold_only_once() {
    let mut v = Meta::new();
    v.insert("a".into(), "{{b}}".into());
    v.insert("b".into(), "no".into());
    assert_eq!(render("{{a}}", &v), "{{b}}");
    assert_eq!(render("{ {{ {{b}}", &v), "{ {{ {{b}}");
    assert_eq!(render("é{{b}}é", &v), "énoé");
}

#[test]
fn a_table_keeps_its_names_apart_and_in_order() {
    let mut m = Meta::new();
    m.insert("b".into(), "1".into());
    m.insert("a".into(), "2".into());
    m.insert("b".into(), "3".into());
    assert_eq!(m.get("b").map(String::as_str), Some("3"));
    assert_eq!(m.get("c"), None);
    let names: Vec<&str> = m.entries.iter().map(|e| e.name.as_str()).collect();
    assert_eq!(names, ["a", "b"]);
    assert_eq!(m.clone(), m);
}
