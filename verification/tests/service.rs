//! The launch agent and the config file.
use yamete::config::DaemonConfig;
use yamete::launchd::{
    bootout_and_wait, default_install_dir, domain, field, in_build_directory, install, is_loaded,
    launchctl_failure, log_dir, log_end, plist, plist_path, restart, service_target, show, tail,
    uninstall, xml_escape, Bootout, BOOTOUT_TIMEOUT,
};
use yamete::scalar::Scalar;
use yamete::store::{load, quarantine_path, quarantined, temp_sibling, Contents, Loaded};

const LABEL: &str = "com.chipcolate.yamete.daemon";

fn s(x: f32) -> Scalar {
    Scalar { bits: x.to_bits() }
}

#[test]
fn plist_is_well_formed_and_complete() {
    let text = plist("/usr/local/bin/yamete", "/tmp/logs");

    assert!(text.starts_with("<?xml"));
    assert!(text.contains("<key>Label</key>"));
    assert!(text.contains(&format!("<string>{LABEL}</string>")));
    assert!(text.contains("<string>/usr/local/bin/yamete</string>"));
    assert!(text.contains("<string>--daemon</string>"));
    assert!(text.contains("/tmp/logs/yamete.log"));
    // Balanced tags — an unbalanced plist loads as garbage or not at all.
    assert_eq!(text.matches("<dict>").count(), text.matches("</dict>").count());
    assert_eq!(text.matches("<array>").count(), text.matches("</array>").count());
}

#[test]
fn keepalive_only_restarts_on_failure() {
    let text = plist("/x", "/y");
    // A bare <true/> KeepAlive respawns after a clean exit too, which turns "this Mac has
    // no sensor" into an infinite restart loop.
    assert!(text.contains("<key>KeepAlive</key>"));
    assert!(text.contains("<key>SuccessfulExit</key>"));
    assert!(
        !text.contains("<key>KeepAlive</key>\n\t<true/>"),
        "KeepAlive must be a dict, not a bare true"
    );
}

#[test]
fn paths_with_xml_metacharacters_are_escaped() {
    let text = plist("/Users/tom & jerry/bin/yamete", "/Users/tom & jerry/logs");
    assert!(text.contains("tom &amp; jerry"), "unescaped ampersand would break the plist");
    assert!(!text.contains("tom & jerry"));
}

#[test]
fn xml_escape_covers_the_predefined_entities() {
    assert_eq!(xml_escape("a&b"), "a&amp;b");
    assert_eq!(xml_escape("<x>"), "&lt;x&gt;");
    assert_eq!(xml_escape("\"q\""), "&quot;q&quot;");
    assert_eq!(xml_escape("it's"), "it&apos;s");
    assert_eq!(xml_escape("plain/path-1_2"), "plain/path-1_2");
}

#[test]
fn service_target_is_the_gui_domain() {
    // A user agent lives in gui/<uid>; using `system` would need root and could not reach
    // the login session the Input Monitoring grant belongs to.
    assert!(domain(501).starts_with("gui/"));
    assert!(service_target(501).ends_with(LABEL));
    assert_eq!(domain(501), "gui/501");
    assert_eq!(service_target(0), format!("gui/0/{LABEL}"));
}

#[test]
fn the_agent_has_its_places() {
    let home = Some("/Users/me");
    assert_eq!(
        plist_path(home),
        format!("/Users/me/Library/LaunchAgents/{LABEL}.plist")
    );
    assert!(log_dir(home).starts_with("/Users/me/Library/Logs"));
    assert!(default_install_dir(home).starts_with("/Users/me/"));
    assert!(plist_path(None).starts_with("/tmp/Library/LaunchAgents/"));
}

#[test]
fn a_failed_launchctl_is_quoted() {
    let args: Vec<String> = ["bootstrap", "gui/501"].iter().map(|a| a.to_string()).collect();
    assert_eq!(
        launchctl_failure(&args, "Input/output error\n", " 5: I/O \n"),
        "launchctl bootstrap gui/501 failed: Input/output error (5: I/O)"
    );
    assert_eq!(
        launchctl_failure(&args, "refused", " \n"),
        "launchctl bootstrap gui/501 failed: refused"
    );
    assert!(is_loaded(&Ok("state = running".into())));
    assert!(!is_loaded(&Err("Could not find service".into())));
}

#[test]
fn unloading_waits_for_the_old_job_to_go() {
    assert_eq!(bootout_and_wait(false, 0, 501), Bootout::Gone);
    assert_eq!(bootout_and_wait(true, BOOTOUT_TIMEOUT - 1, 501), Bootout::Wait);
    match bootout_and_wait(true, BOOTOUT_TIMEOUT + 1, 501) {
        Bootout::Stuck(why) => assert!(why.contains("gui/501"), "{why}"),
        other => panic!("expected to give up, got {other:?}"),
    }
    // Past the deadline the job is not asked for again.
    assert!(matches!(bootout_and_wait(false, BOOTOUT_TIMEOUT, 501), Bootout::Stuck(_)));
}

#[test]
fn a_binary_in_a_build_directory_is_not_for_keeps() {
    assert!(in_build_directory("/src/yamete/target/release/yamete"));
    assert!(!in_build_directory("/usr/local/bin/yamete"));
    assert!(!in_build_directory("/home/mytarget/bin/yamete"));
}

#[test]
fn an_installation_is_planned_before_anything_is_touched() {
    let plan = install("/opt/target/yamete", true, false, Some("/Users/a"), 501).unwrap();
    assert_eq!(plan.program, "/opt/target/yamete");
    assert_eq!(plan.copy_to, None);
    assert_eq!(
        plan.note.as_deref(),
        Some(
            "note: installing from a build directory (/opt/target/yamete).\n      \
             `cargo clean` will break the agent, and overwriting this file while the \
             agent is running corrupts it. Use --copy for a stable install."
        )
    );
    assert_eq!(plan.logs, "/Users/a/Library/Logs/yamete");
    let path = "/Users/a/Library/LaunchAgents/com.chipcolate.yamete.daemon.plist";
    assert_eq!(plan.plist_path, path);
    assert_eq!(plan.plist, plist("/opt/target/yamete", "/Users/a/Library/Logs/yamete"));
    assert_eq!(plan.bootstrap, ["bootstrap", "gui/501", path]);
    assert!(plan.report.starts_with("Installed com.chipcolate.yamete.daemon\n  plist    /Users/a/"));
    assert!(plan.report.contains("\n  program  /opt/target/yamete\n"));
    assert!(plan.report.contains("\n  logs     /Users/a/Library/Logs/yamete/yamete.log\n\nIt will"));

    let copied = install("/opt/target/yamete", true, true, Some("/Users/a"), 501).unwrap();
    assert_eq!(copied.program, "/Users/a/.local/bin/yamete");
    assert_eq!(copied.copy_to.as_deref(), Some("/Users/a/.local/bin/yamete"));
    assert_eq!(copied.note, None);
    assert_eq!(copied.plist, plist("/Users/a/.local/bin/yamete", "/Users/a/Library/Logs/yamete"));

    let missing = install("/nowhere", false, true, None, 501);
    assert_eq!(missing.unwrap_err(), "/nowhere does not exist");
}

#[test]
fn removing_and_restarting_say_what_there_was() {
    assert_eq!(uninstall(true, false), format!("Removed {LABEL}."));
    assert_eq!(uninstall(false, true), format!("Removed {LABEL}."));
    assert_eq!(uninstall(false, false), format!("{LABEL} was not installed."));
    let target = format!("gui/501/{LABEL}");
    assert_eq!(restart(true, 501).unwrap(), ["kickstart", "-k", target.as_str()]);
    assert_eq!(
        restart(false, 501).unwrap_err(),
        format!("{LABEL} is not installed — run `yamete install` first")
    );
}

#[test]
fn a_job_is_shown_by_what_explains_it() {
    let dump = "x = {\n\tpath = /p\n\tstate = running\n\tpid = 42\n}\n";
    assert_eq!(
        show("/a.plist", true, true, &Ok(dump.into())),
        "plist    /a.plist (present)\nloaded   yes\nstate = running\npid = 42\npath = /p\n"
    );
    assert_eq!(
        show("/a.plist", false, false, &Err("no".into())),
        "plist    /a.plist (missing)\nloaded   no\n\nlaunchd has no record of this job.\n"
    );
    assert_eq!(
        log_end("/l/yamete.log", "1\n2\n3\n4\n5\n6\n").as_deref(),
        Some("\n/l/yamete.log (last 5 lines):\n  2\n  3\n  4\n  5\n  6\n")
    );
    assert_eq!(log_end("/l/yamete.log", ""), None);
}

#[test]
fn a_few_fields_explain_a_job() {
    let dump = "gui/501/x = {\n\tstate = running\n\n\tpid = 42\n\tlast exit code = 0\n}\n";
    assert_eq!(field(dump, "pid"), Some("pid = 42".into()));
    assert_eq!(field(dump, "state"), Some("state = running".into()));
    assert_eq!(field(dump, "runs"), None);
    assert_eq!(field(dump, ""), Some("gui/501/x = {".into()));
    assert_eq!(field("", ""), None);
}

#[test]
fn the_end_of_a_log_is_its_last_lines() {
    assert_eq!(tail("a\nb\r\nc\n", 2), ["b", "c"]);
    assert_eq!(tail("a\nb", 9), ["a", "b"]);
    assert!(tail("", 3).is_empty());
    assert!(tail("a\n", 0).is_empty());
}

// ---------------------------------------------------------------------------------
// The config file
// ---------------------------------------------------------------------------------

#[test]
fn a_missing_file_is_not_an_error() {
    let loaded = load("/nonexistent/yamete/config.json", Contents::Missing, "");
    assert_eq!(loaded.config, DaemonConfig::default());
    assert!(loaded.warning.is_none(), "first run should not warn");
    assert!(!loaded.quarantine);
}

#[test]
fn store_round_trips() {
    let mut config = DaemonConfig::default();
    config.detector.sensitivity = s(0.75);
    config.enabled = false;

    let back = load("/roundtrip/config.json", Contents::Parsed(config.clone()), "0.75");
    assert!(back.warning.is_none());
    assert_eq!(back.config, config);
    assert!(!back.quarantine);
}

#[test]
fn malformed_json_is_quarantined() {
    let path = "/malformed/config.json";
    let Loaded { config, warning, quarantine } =
        load(path, Contents::Malformed("key must be a string at line 1 column 3".into()), "");
    assert_eq!(config, DaemonConfig::default());
    assert!(quarantine, "bad file should not stay at the live path");
    let dest = quarantine_path(path, 1700000000);
    assert_ne!(dest, path);
    let warning = quarantined(&warning.unwrap(), &dest, Ok(()));
    assert!(warning.contains("could not parse"));
    assert!(warning.contains("moved aside") || warning.contains("quarantine"));
}

#[test]
fn a_semantically_invalid_config_is_rejected_not_applied() {
    let mut config = DaemonConfig::default();
    config.detector.sensitivity = s(42.0);
    let loaded = load("/invalid/config.json", Contents::Parsed(config), "42");
    assert_eq!(loaded.config.detector.sensitivity, s(0.5), "should not adopt 42.0");
    assert!(loaded.warning.unwrap().contains("sensitivity"));
    assert!(loaded.quarantine, "invalid file should be quarantined");
}

#[test]
fn an_unreadable_file_is_left_where_it_is() {
    let loaded = load("/c.json", Contents::Unreadable("permission denied".into()), "");
    assert_eq!(loaded.warning.unwrap(), "could not read /c.json: permission denied");
    assert!(!loaded.quarantine);
    assert_eq!(loaded.config, DaemonConfig::default());
}

#[test]
fn siblings_stand_next_to_the_file() {
    assert_eq!(quarantine_path("/a/b/config.json", 17), "/a/b/config.json.broken-17");
    assert_eq!(temp_sibling("/a/b/config.json", 42), "/a/b/config.json.42.tmp");
    assert_eq!(temp_sibling("config.json", 42), "config.json.42.tmp");
    assert_eq!(quarantine_path("/", 17), "/config.json.broken-17");
    assert_eq!(temp_sibling("/", 42), "/.42.tmp");
    assert_eq!(
        quarantined("bad", "/x", Err("read-only".into())),
        "bad (could not quarantine: read-only)"
    );
    assert_eq!(
        quarantined("bad", "/x", Ok(())),
        "bad — moved aside to /x so defaults can start cleanly"
    );
}
