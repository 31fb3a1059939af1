//! Sounds, jobs and their schedule.
use yamete::actions::{
    env_vars, request_headers, template_vars, wanted_sounds, Executor, Figures, Job, Occasion,
    Scheduled,
};
use yamete::config::{Action, ActionKind, DaemonConfig, SoundOrder};
use yamete::detector::Tier;
use yamete::meta::Meta;
use yamete::paths::same_path;
use yamete::protocol::Slap;
use yamete::scalar::{Scalar, Scalar64};
use yamete::sounds::{holds_path, is_audio, playlist, resolve_sounds, Child, Entry, Picker};
use yamete::worker::{
    Received, Worker, AUDIO_IDLE_POLL, AUDIO_IDLE_TIMEOUT, SCHEDULER_TICK,
};

fn s(x: f32) -> Scalar {
    Scalar { bits: x.to_bits() }
}

fn slap(intensity: f32) -> Slap {
    Slap {
        t: Scalar64 { bits: 12.5f64.to_bits() },
        tier: Tier::Major,
        peak_g: s(0.4321),
        intensity: s(intensity),
        votes: 4,
        gyro_confirmed: true,
        gyro_peak: s(42.5),
        gyro_ratio: s(512.25),
        axis: [s(0.0), s(0.0), s(1.0)],
    }
}

fn occasion(intensity: f32) -> Occasion {
    Occasion {
        slap: slap(intensity),
        figures: Figures {
            t: format!("{:.3}", 12.5f64),
            intensity: format!("{intensity:.3}"),
            peak_g: format!("{:.4}", 0.4321f32),
            gyro_peak: format!("{:.2}", 42.5f32),
            gyro_ratio: format!("{:.1}", 512.25f32),
            axis_x: format!("{:.4}", 0.0f32),
            axis_y: format!("{:.4}", 0.0f32),
            axis_z: format!("{:.4}", 1.0f32),
        },
        payload: r#"{"tier":"major"}"#.into(),
    }
}

fn texts(v: &[&str]) -> Vec<String> {
    v.iter().map(|t| t.to_string()).collect()
}

#[test]
fn template_vars_cover_the_whole_event() {
    let v = template_vars(&occasion(0.8));
    assert_eq!(v.get("tier").unwrap(), "major");
    assert_eq!(v.get("intensity").unwrap(), "0.800");
    assert_eq!(v.get("votes").unwrap(), "4");
    assert_eq!(v.get("gyro_confirmed").unwrap(), "true");
    assert_eq!(v.get("peak_g").unwrap(), "0.4321");
    assert_eq!(v.entries.len(), 11);
    assert!(v.entries.windows(2).all(|w| w[0].name < w[1].name));
}

#[test]
fn env_vars_are_prefixed_and_uppercased() {
    let env: std::collections::BTreeMap<String, String> =
        env_vars(&occasion(0.8)).into_iter().map(|e| (e.name, e.value)).collect();
    assert_eq!(env["SPANK_TIER"], "major");
    assert_eq!(env["SPANK_INTENSITY"], "0.800");
    assert_eq!(env["SPANK_GYRO_RATIO"], "512.2");
    // Nothing unprefixed leaks into the child's environment.
    assert!(env.keys().all(|k| k.starts_with("SPANK_")));
}

#[test]
fn audio_extensions_are_matched_case_insensitively() {
    assert!(is_audio("/x/a.mp3"));
    assert!(is_audio("/x/a.MP3"));
    assert!(is_audio("/x/a.aiff"));
    assert!(!is_audio("/x/a.txt"));
    assert!(!is_audio("/x/noextension"));
}

#[test]
fn an_extension_is_what_follows_the_last_dot_of_a_name() {
    for e in ["wav", "ogg", "flac", "aif", "aifc", "caf", "m4a", "aac", "alac"] {
        assert!(is_audio(&format!("/x/a.b.{e}")), "{e}");
    }
    assert!(!is_audio("/x/.mp3"));
    assert!(!is_audio("/x.mp3/a"));
    assert!(!is_audio("/x/a."));
    assert!(is_audio("/x/a.mp3/"));
}

#[test]
fn sequential_order_walks_the_list_and_wraps() {
    let files = texts(&["/tmp/a.wav", "/tmp/b.wav", "/tmp/c.wav"]);
    let mut picker = Picker { rotation: 0, rng: 1, last_pick: None };
    let picks: Vec<String> = (0..4)
        .filter_map(|_| picker.pick_sound(&files, SoundOrder::Sequential))
        .collect();
    assert_eq!(picks, [&files[0], &files[1], &files[2], &files[0]].map(|p| p.clone()));
}

#[test]
fn random_order_covers_the_list_without_immediate_repeats() {
    let files = texts(&["/tmp/a.wav", "/tmp/b.wav", "/tmp/c.wav", "/tmp/d.wav"]);
    let mut picker = Picker { rotation: 0, rng: 0x123456789abcdef, last_pick: None };
    let picks: Vec<String> =
        (0..200).filter_map(|_| picker.pick_sound(&files, SoundOrder::Random)).collect();

    // Every sound should come up over 200 draws from four.
    for f in &files {
        assert!(picks.contains(f), "{f} never played");
    }
    // Hearing the same clip twice running reads as the randomness being broken.
    let repeats = picks.windows(2).filter(|w| w[0] == w[1]).count();
    assert_eq!(repeats, 0, "played the same sound twice in a row");
}

#[test]
fn a_single_sound_ignores_the_order() {
    let only = texts(&["/tmp/only.wav"]);
    for order in [SoundOrder::Sequential, SoundOrder::Random] {
        let mut picker = Picker { rotation: 0, rng: 7, last_pick: None };
        for _ in 0..5 {
            assert_eq!(picker.pick_sound(&only, order), Some(only[0].clone()));
        }
    }
}

#[test]
fn an_empty_playlist_is_silent_and_the_generator_is_never_stuck() {
    let mut picker = Picker::new(0);
    assert_eq!(picker.rng, 1);
    assert_eq!(picker.pick_sound(&vec![], SoundOrder::Random), None);
    assert_eq!(picker, Picker::new(0));
    // A list of nothing but the last pick still plays.
    let same = texts(&["/a.wav", "/a.wav"]);
    let mut picker = Picker { rotation: 0, rng: 9, last_pick: Some("/a.wav".into()) };
    assert_eq!(picker.pick_sound(&same, SoundOrder::Random), Some("/a.wav".into()));
}

#[test]
fn the_generator_draws_as_xorshift_does() {
    let files = texts(&["a", "b", "c", "d", "e"]);
    let mut picker = Picker { rotation: 0, rng: 1, last_pick: None };
    let mut x: u64 = 1;
    x ^= x >> 12;
    x ^= x << 25;
    x ^= x >> 27;
    let draw = (x.wrapping_mul(0x2545F4914F6CDD1D) >> 33) as usize % 5;
    assert_eq!(picker.pick_sound(&files, SoundOrder::Random), Some(files[draw].clone()));
    assert_eq!(picker.rng, x);
}

fn file(path: &str) -> Child {
    Child { path: path.into(), is_file: true }
}

#[test]
fn the_playlist_flattens_directories_and_drops_duplicates() {
    let dir = Entry::Directory(vec![file("/pl/a.mp3"), file("/pl/b.wav")]);
    // The directory and one of its files, listed together.
    let resolved =
        vec![resolve_sounds("/pl", &dir), resolve_sounds("/pl/a.mp3", &Entry::File)];
    let flat = playlist(&resolved);
    assert_eq!(flat.len(), 2, "duplicate should have been dropped: {flat:?}");
}

#[test]
fn the_playlist_keeps_the_order_given() {
    let resolved = vec![texts(&["/z", "/a"]), texts(&[]), texts(&["/a", "/m", "/z"])];
    assert_eq!(playlist(&resolved), ["/z", "/a", "/m"]);
    assert!(holds_path(&texts(&["/z", "/a"]), "/a"));
    assert!(!holds_path(&texts(&["/z", "/a"]), "/"));
}

#[test]
fn one_file_in_two_spellings_is_played_once() {
    let resolved = vec![
        texts(&["/s/a.wav", "/s//a.wav", "/s/./b.wav"]),
        texts(&["/s/b.wav", "s/a.wav", "./s/a.wav", "/s/a.wav/"]),
    ];
    assert_eq!(playlist(&resolved), ["/s/a.wav", "/s/./b.wav", "s/a.wav", "./s/a.wav"]);
    for (a, b) in [
        ("/s/a.wav", "//s/a.wav"),
        ("/s/a.wav", "/./s/a.wav"),
        ("a/b", "a/./b"),
        ("a", "a/."),
        ("", ""),
    ] {
        assert!(same_path(a, b), "{a} {b}");
        assert_eq!(std::path::Path::new(a), std::path::Path::new(b));
    }
    for (a, b) in [("/a", "a"), ("a", "./a"), ("a/../b", "b"), ("", "."), ("a b", "a/b")] {
        assert!(!same_path(a, b), "{a} {b}");
        assert_ne!(std::path::Path::new(a), std::path::Path::new(b));
    }

    // A random pick is not repeated in another spelling, and what was loaded under one is
    // found under another.
    for seed in 0..20 {
        let mut p = Picker::new(seed);
        p.last_pick = Some("/s//a.wav".into());
        let pick = p.pick_sound(&texts(&["/s/a.wav", "/s/b.wav"]), SoundOrder::Random);
        assert_eq!(pick.as_deref(), Some("/s/b.wav"));
    }
    let action = Action { delay_ms: 0, ..Action::default_sound() };
    let (files, loaded) = (texts(&["/s/a.wav"]), texts(&["/s//a.wav"]));
    let run = Executor::new(1).run(&action, &occasion(0.8), &files, &loaded, 5);
    assert!(matches!(run.unwrap().job, Job::Sound { path, .. } if path == "/s/a.wav"));
}

#[test]
fn resolving_a_missing_path_yields_nothing() {
    assert!(resolve_sounds("/nonexistent/nope.wav", &Entry::Missing).is_empty());
}

#[test]
fn resolving_a_directory_finds_audio_and_sorts_it() {
    let dir = Entry::Directory(vec![
        file("/sounds/b.wav"),
        file("/sounds/a.mp3"),
        file("/sounds/notes.txt"),
    ]);
    let found = resolve_sounds("/sounds", &dir);
    assert_eq!(found.len(), 2, "should skip the .txt: {found:?}");
    assert!(found[0].ends_with("a.mp3"), "not sorted: {found:?}");
    assert!(found[1].ends_with("b.wav"));
}

#[test]
fn a_directory_is_not_searched_further() {
    let dir = Entry::Directory(vec![
        Child { path: "/sounds/inner.wav".into(), is_file: false },
        file("/sounds/outer.wav"),
    ]);
    assert_eq!(resolve_sounds("/sounds", &dir), ["/sounds/outer.wav"]);
    assert_eq!(resolve_sounds("/notes.txt", &Entry::File), ["/notes.txt"]);
}

// ---------------------------------------------------------------------------------
// Jobs
// ---------------------------------------------------------------------------------

const MS: u64 = 1_000_000;

fn exec(args: &[&str]) -> ActionKind {
    ActionKind::Exec { program: "/bin/echo".into(), args: texts(args), stdin_json: true }
}

#[test]
fn a_program_gets_the_event_in_its_arguments_and_environment() {
    let action =
        Action { delay_ms: 40, kind: exec(&["{{tier}}", "-n"]), ..Default::default() };
    let o = occasion(0.8);
    let job = Executor::new(1).run(&action, &o, &vec![], &vec![], 1000).unwrap();
    assert_eq!(
        job,
        Scheduled {
            due: 1000 + 40 * MS,
            job: Job::Exec {
                program: "/bin/echo".into(),
                args: texts(&["major", "-n"]),
                stdin_json: true,
                env: env_vars(&o),
                payload: r#"{"tier":"major"}"#.into(),
            },
        }
    );
}

#[test]
fn a_webhook_is_templated_and_its_method_uppercased() {
    let mut headers = Meta::new();
    headers.insert("X-Tier".into(), "{{tier}}".into());
    let hook = |body: Option<String>, method: &str| Action {
        kind: ActionKind::Webhook {
            url: "https://x/{{votes}}".into(),
            method: method.into(),
            headers: headers.clone(),
            body,
            timeout_ms: 250,
        },
        ..Default::default()
    };
    let mut rendered = Meta::new();
    rendered.insert("X-Tier".into(), "major".into());
    let job = |body: &str, method: &str| Job::Webhook {
        url: "https://x/4".into(),
        method: method.into(),
        headers: rendered.clone(),
        body: body.into(),
        timeout_ms: 250,
    };
    let o = occasion(0.8);
    let mut ex = Executor::new(1);
    let run = ex.run(&hook(Some("{{intensity}}".into()), "put"), &o, &vec![], &vec![], 0).unwrap();
    assert_eq!(run.job, job("0.800", "PUT"));
    let run = ex.run(&hook(None, "straße"), &o, &vec![], &vec![], 0).unwrap();
    assert_eq!(run.job, job(r#"{"tier":"major"}"#, "STRASSE"));
}

#[test]
fn a_sound_swings_with_the_intensity_only_where_asked() {
    let kind = |scale: bool| ActionKind::Sound {
        paths: vec![],
        path: None,
        order: SoundOrder::Sequential,
        volume_db: s(-3.0),
        scale_with_intensity: scale,
        intensity_range_pct: s(40.0),
        playback_rate: s(1.5),
    };
    let files = texts(&["/a.wav", "/b.wav"]);
    let mut ex = Executor::new(1);
    for (scale, swing, path) in [(false, None, "/a.wav"), (true, Some(s(40.0)), "/b.wav")] {
        let action = Action { kind: kind(scale), delay_ms: 0, ..Default::default() };
        let run = ex.run(&action, &occasion(0.8), &files, &files, 5).unwrap();
        assert_eq!(run.due, 5);
        assert_eq!(
            run.job,
            Job::Sound {
                path: path.into(),
                volume_db: s(-3.0),
                swing,
                intensity: s(0.8),
                playback_rate: s(1.5),
            }
        );
    }
    let action = Action { kind: kind(false), ..Default::default() };
    assert_eq!(ex.run(&action, &occasion(0.8), &vec![], &files, 5), None);
}

#[test]
fn a_sound_that_was_not_loaded_is_passed_over() {
    let files = texts(&["/a.wav", "/b.wav"]);
    let loaded = texts(&["/b.wav"]);
    let action = Action { delay_ms: 0, ..Action::default_sound() };
    let order = match &action.kind {
        ActionKind::Sound { order, .. } => *order,
        other => panic!("expected a sound, got {other:?}"),
    };
    assert_eq!(order, SoundOrder::Sequential);
    let mut ex = Executor::new(1);
    // The pick that could not be played still counts: the next one is the second file.
    assert_eq!(ex.run(&action, &occasion(0.8), &files, &loaded, 5), None);
    match ex.run(&action, &occasion(0.8), &files, &loaded, 5).unwrap().job {
        Job::Sound { path, .. } => assert_eq!(path, "/b.wav"),
        other => panic!("unexpected job: {other:?}"),
    }

    let config = DaemonConfig { actions: vec![action], ..Default::default() };
    let resolved = vec![vec![files.clone()]];
    let wanted = wanted_sounds(&config, &resolved);
    let sounds = vec![files];
    let mut ex = Executor::new(1);
    assert_eq!(ex.dispatch(&config, &occasion(0.8), &sounds, &wanted, 9).len(), 1);
    assert_eq!(ex.dispatch(&config, &occasion(0.8), &sounds, &vec![], 9).len(), 0);
}

#[test]
fn a_slap_sets_off_every_action_that_matches() {
    let action = |id: &str, min: f32, tiers: Vec<Tier>| Action {
        id: id.into(),
        min_intensity: s(min),
        tiers,
        delay_ms: 0,
        kind: exec(&[id]),
        ..Default::default()
    };
    let config = DaemonConfig {
        actions: vec![
            action("all", 0.0, vec![]),
            action("hard", 0.9, vec![]),
            action("soft", 0.0, vec![Tier::Micro]),
            action("major", 0.5, vec![Tier::Major]),
            Action { enabled: false, ..action("off", 0.0, vec![]) },
        ],
        ..Default::default()
    };
    let sounds = vec![vec![]; 5];
    let jobs = Executor::new(3).dispatch(&config, &occasion(0.8), &sounds, &vec![], 9);
    let ran: Vec<Vec<String>> = jobs
        .into_iter()
        .map(|j| match j.job {
            Job::Exec { args, .. } => args,
            other => panic!("unexpected job: {other:?}"),
        })
        .collect();
    assert_eq!(ran, [texts(&["all"]), texts(&["major"])]);
}

#[test]
fn the_sounds_of_every_action_are_loaded() {
    let sound = Action::default_sound();
    let config = DaemonConfig {
        actions: vec![
            sound.clone(),
            Action { enabled: false, ..sound.clone() },
            Action { kind: exec(&[]), ..Default::default() },
            sound,
        ],
        ..Default::default()
    };
    let resolved = vec![
        vec![texts(&["/a", "/b"]), texts(&["/a"])],
        vec![texts(&["/c"])],
        vec![],
        vec![texts(&["/b"]), texts(&["/d"])],
    ];
    assert_eq!(wanted_sounds(&config, &resolved), ["/a", "/b", "/c", "/b", "/d"]);
}

#[test]
fn a_request_says_that_it_is_json_unless_told_otherwise() {
    let mut plain = Meta::new();
    plain.insert("Authorization".into(), "x".into());
    let sent = request_headers(&plain);
    let sent: Vec<(&str, &str)> =
        sent.iter().map(|e| (e.name.as_str(), e.value.as_str())).collect();
    assert_eq!(sent, [("Authorization", "x"), ("content-type", "application/json")]);

    let mut own = Meta::new();
    own.insert("Content-Type".into(), "text/plain".into());
    assert_eq!(request_headers(&own), own.entries);
}

// ---------------------------------------------------------------------------------
// The schedule
// ---------------------------------------------------------------------------------

fn job(name: &str) -> Job {
    Job::Exec {
        program: name.into(),
        args: vec![],
        stdin_json: false,
        env: vec![],
        payload: String::new(),
    }
}

fn at(due: u64, name: &str) -> Scheduled {
    Scheduled { due, job: job(name) }
}

#[test]
fn pending_jobs_stay_sorted_by_due_time() {
    // The worker pops from the front, so an out-of-order insert would fire a later job
    // first and hold an earlier one until the queue drained.
    let mut worker = Worker::new(0);
    for offset in [50u64, 10, 30, 5, 40] {
        worker.receive(at(offset * MS, "x"), 0);
    }
    let pending: Vec<u64> = worker.pending.iter().map(|p| p.due).collect();
    let mut sorted = pending.clone();
    sorted.sort();
    assert_eq!(pending, sorted, "insertion did not preserve ordering");
    assert_eq!(pending.len(), 5);
}

#[test]
fn what_is_due_is_taken_in_order() {
    let mut worker = Worker::new(0);
    for (offset, name) in [(30, "c"), (10, "a"), (20, "b")] {
        assert_eq!(worker.receive(at(offset, name), 0), Received::Queued { prewarm: false });
    }
    assert_eq!(worker.take_due(9), []);
    assert_eq!(worker.take_due(20), [job("a"), job("b")]);
    assert_eq!(worker.take_due(20), []);
    assert_eq!(worker.take_due(30), [job("c")]);
}

#[test]
fn a_due_job_runs_at_once_and_a_waiting_sound_warms_the_device() {
    let mut worker = Worker::new(0);
    assert_eq!(worker.receive(at(5, "x"), 5), Received::Run(job("x")));
    assert!(worker.pending.is_empty());
    let sound = Job::Sound {
        path: "/a.wav".into(),
        volume_db: s(0.0),
        swing: None,
        intensity: s(1.0),
        playback_rate: s(1.0),
    };
    let waiting = Scheduled { due: 6, job: sound };
    assert_eq!(worker.receive(waiting, 5), Received::Queued { prewarm: true });
}

#[test]
fn the_worker_sleeps_until_the_next_job_or_idle_check() {
    let mut worker = Worker::new(0);
    assert_eq!(worker.wait(0), AUDIO_IDLE_POLL);
    worker.receive(at(20 * MS, "x"), 0);
    assert_eq!(worker.wait(0), 20 * MS);
    assert_eq!(worker.wait(19 * MS), SCHEDULER_TICK);
    assert_eq!(worker.wait(99 * MS), SCHEDULER_TICK);
    let mut far = Worker::new(0);
    far.receive(at(60_000 * MS, "x"), 0);
    assert_eq!(far.wait(0), AUDIO_IDLE_POLL);
}

#[test]
fn an_idle_device_is_released() {
    let mut worker = Worker::new(0);
    worker.sounded(100);
    assert!(!worker.releases(true, 100 + AUDIO_IDLE_TIMEOUT));
    assert!(worker.releases(true, 101 + AUDIO_IDLE_TIMEOUT));
    assert!(!worker.releases(false, 101 + AUDIO_IDLE_TIMEOUT));
    worker.receive(at(u64::MAX, "x"), 0);
    assert!(!worker.releases(true, 101 + AUDIO_IDLE_TIMEOUT));
}
