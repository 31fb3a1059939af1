//! Installing the daemon as a user LaunchAgent.
//!
//! A *user agent*, not a system daemon. That is not just the simpler option — it is the
//! correct one. HID access is gated by the Input Monitoring TCC permission, which is a
//! per-user consent granted through a GUI prompt; a root LaunchDaemon has no login session
//! to show that prompt in. It also means no `sudo`, no privileged helper, and no signing
//! requirements for a local install.
use vstd::prelude::*;
use vstd::slice::slice_subrange;

use crate::numeral::{decimal, write_count};
use crate::paths::{has_component, join, joined, joining_keeps_both};
use crate::text::{
    chars, contains, maybe, occurs_at, pieces, put, put_chars, split, split_snoc, split_whole,
    starts_with, string, texts, trim, trimmed,
};

verus! {

/// How long to wait for launchd to forget a job, in nanoseconds.
pub const BOOTOUT_TIMEOUT: u64 = 5_000_000_000;

/// launchd job label, and the plist filename.
pub open spec fn label() -> Seq<char> {
    "com.chipcolate.yamete.daemon"@
}

// ---------------------------------------------------------------------------------
// Places
// ---------------------------------------------------------------------------------

/// A home directory, or a place for those without one.
pub open spec fn home_or_tmp(home: Option<&str>) -> Seq<char> {
    match home {
        Some(h) => h@,
        None => "/tmp"@,
    }
}

fn home_dir<'a>(home: Option<&'a str>) -> (r: &'a str)
    ensures
        r@ == home_or_tmp(home),
{
    match home {
        Some(h) => h,
        None => "/tmp",
    }
}

/// Where the agent is described.
pub open spec fn plist_path_of(home: Option<&str>) -> Seq<char> {
    joined(home_or_tmp(home), "Library/LaunchAgents/com.chipcolate.yamete.daemon.plist"@)
}

/// Where the agent logs to.
pub open spec fn log_dir_of(home: Option<&str>) -> Seq<char> {
    joined(home_or_tmp(home), "Library/Logs/yamete"@)
}

/// Where the agent is described; `home` is the user's home directory.
pub fn plist_path(home: Option<&str>) -> (r: String)
    ensures
        r@ == plist_path_of(home),
{
    join(home_dir(home), "Library/LaunchAgents/com.chipcolate.yamete.daemon.plist")
}

/// Where the agent logs to.
pub fn log_dir(home: Option<&str>) -> (r: String)
    ensures
        r@ == log_dir_of(home),
{
    join(home_dir(home), "Library/Logs/yamete")
}

/// Where a copied binary is put.
pub fn default_install_dir(home: Option<&str>) -> (r: String)
    ensures
        r@ == joined(home_or_tmp(home), ".local/bin"@),
{
    join(home_dir(home), ".local/bin")
}

/// The domain a user agent lives in.
pub open spec fn domain_of(uid: u32) -> Seq<char> {
    "gui/"@ + decimal(uid as nat)
}

/// The `gui/<uid>` domain a user agent lives in.
pub fn domain(uid: u32) -> (r: String)
    ensures
        r@ == domain_of(uid),
{
    let mut out: Vec<char> = chars("gui/");
    let digits: Vec<char> = write_count(uid as u64);
    put_chars(&mut out, digits.as_slice());
    string(out.as_slice())
}

/// The job within its domain.
pub open spec fn target_of(uid: u32) -> Seq<char> {
    domain_of(uid) + "/"@ + label()
}

/// The job within its domain.
pub fn service_target(uid: u32) -> (r: String)
    ensures
        r@ == target_of(uid),
{
    let d: String = domain(uid);
    let mut out: Vec<char> = chars(d.as_str());
    put(&mut out, "/");
    put(&mut out, "com.chipcolate.yamete.daemon");
    string(out.as_slice())
}

// ---------------------------------------------------------------------------------
// The plist
// ---------------------------------------------------------------------------------

/// What one character becomes in XML text.
pub open spec fn entity(c: char) -> Seq<char> {
    if c == '&' {
        "&amp;"@
    } else if c == '<' {
        "&lt;"@
    } else if c == '>' {
        "&gt;"@
    } else if c == '"' {
        "&quot;"@
    } else if c == '\'' {
        "&apos;"@
    } else {
        seq![c]
    }
}

/// Text with the five XML predefined entities escaped.
pub open spec fn escaped(s: Seq<char>) -> Seq<char>
    decreases s.len(),
{
    if s.len() == 0 {
        Seq::empty()
    } else {
        escaped(s.drop_last()) + entity(s.last())
    }
}

fn put_escaped(out: &mut Vec<char>, s: &str)
    ensures
        final(out)@ == old(out)@ + escaped(s@),
{
    let v: Vec<char> = chars(s);
    let n: usize = v.len();
    proof {
        assert(v@.take(0) =~= Seq::<char>::empty());
        assert(escaped(v@.take(0)) =~= Seq::<char>::empty());
    }
    for i in 0..n
        invariant
            n == v@.len(),
            v@ == s@,
            out@ == old(out)@ + escaped(v@.take(i as int)),
    {
        let c: char = v[i];
        let ghost before = out@;
        if c == '&' {
            put(out, "&amp;");
        } else if c == '<' {
            put(out, "&lt;");
        } else if c == '>' {
            put(out, "&gt;");
        } else if c == '"' {
            put(out, "&quot;");
        } else if c == '\'' {
            put(out, "&apos;");
        } else {
            out.push(c);
        }
        proof {
            assert(out@ =~= before + entity(c));
            assert(v@.take(i as int + 1).drop_last() =~= v@.take(i as int));
            assert(out@ =~= old(out)@ + escaped(v@.take(i as int + 1)));
        }
    }
    proof {
        assert(v@.take(n as int) =~= s@);
    }
}

/// Escape the five XML predefined entities.
///
/// Paths can contain `&` and `<` — a home directory named "Tom & Jerry" would otherwise
/// produce a plist that launchd rejects with a singularly unhelpful error.
pub fn xml_escape(s: &str) -> (r: String)
    ensures
        r@ == escaped(s@),
{
    let mut out: Vec<char> = Vec::new();
    put_escaped(&mut out, s);
    proof {
        assert(out@ =~= escaped(s@));
    }
    string(out.as_slice())
}

/// The LaunchAgent plist for a program and a log directory.
pub open spec fn plist_of(program: Seq<char>, log_dir: Seq<char>) -> Seq<char> {
    "<?xml version=\"1.0\" encoding=\"UTF-8\"?>\n<!DOCTYPE plist PUBLIC \"-//Apple//DTD PLIST 1.0//EN\" \"http://www.apple.com/DTDs/PropertyList-1.0.dtd\">\n<plist version=\"1.0\">\n<dict>\n\t<key>Label</key>\n\t<string>"@
        + label()
        + "</string>\n\n\t<key>ProgramArguments</key>\n\t<array>\n\t\t<string>"@
        + escaped(program)
        + "</string>\n\t\t<string>run</string>\n\t\t<string>--daemon</string>\n\t</array>\n\n\t<key>RunAtLoad</key>\n\t<true/>\n\n\t<!-- A dict, not <true/>: plain KeepAlive restarts the job even after a clean exit,\n\t     which produces a respawn loop on machines with no sensor. -->\n\t<key>KeepAlive</key>\n\t<dict>\n\t\t<key>SuccessfulExit</key>\n\t\t<false/>\n\t</dict>\n\n\t<key>ThrottleInterval</key>\n\t<integer>10</integer>\n\n\t<!-- Background would have launchd deprioritise CPU and I/O; the detector is a\n\t     latency-sensitive poll loop. -->\n\t<key>ProcessType</key>\n\t<string>Interactive</string>\n\n\t<key>StandardOutPath</key>\n\t<string>"@
        + escaped(log_dir)
        + "/yamete.log</string>\n\t<key>StandardErrorPath</key>\n\t<string>"@
        + escaped(log_dir)
        + "/yamete.err.log</string>\n</dict>\n</plist>\n"@
}

/// Build the LaunchAgent plist.
///
/// The job restarts on failure only: restarting after a clean exit too would make a respawn
/// loop on machines with no sensor.
pub fn plist(program: &str, log_dir: &str) -> (r: String)
    ensures
        r@ == plist_of(program@, log_dir@),
{
    let mut out: Vec<char> = Vec::new();
    put(&mut out, "<?xml version=\"1.0\" encoding=\"UTF-8\"?>\n<!DOCTYPE plist PUBLIC \"-//Apple//DTD PLIST 1.0//EN\" \"http://www.apple.com/DTDs/PropertyList-1.0.dtd\">\n<plist version=\"1.0\">\n<dict>\n\t<key>Label</key>\n\t<string>");
    put(&mut out, "com.chipcolate.yamete.daemon");
    put(&mut out, "</string>\n\n\t<key>ProgramArguments</key>\n\t<array>\n\t\t<string>");
    put_escaped(&mut out, program);
    put(&mut out, "</string>\n\t\t<string>run</string>\n\t\t<string>--daemon</string>\n\t</array>\n\n\t<key>RunAtLoad</key>\n\t<true/>\n\n\t<!-- A dict, not <true/>: plain KeepAlive restarts the job even after a clean exit,\n\t     which produces a respawn loop on machines with no sensor. -->\n\t<key>KeepAlive</key>\n\t<dict>\n\t\t<key>SuccessfulExit</key>\n\t\t<false/>\n\t</dict>\n\n\t<key>ThrottleInterval</key>\n\t<integer>10</integer>\n\n\t<!-- Background would have launchd deprioritise CPU and I/O; the detector is a\n\t     latency-sensitive poll loop. -->\n\t<key>ProcessType</key>\n\t<string>Interactive</string>\n\n\t<key>StandardOutPath</key>\n\t<string>");
    put_escaped(&mut out, log_dir);
    put(&mut out, "/yamete.log</string>\n\t<key>StandardErrorPath</key>\n\t<string>");
    put_escaped(&mut out, log_dir);
    put(&mut out, "/yamete.err.log</string>\n</dict>\n</plist>\n");
    proof {
        assert(out@ =~= plist_of(program@, log_dir@));
    }
    string(out.as_slice())
}

// ---------------------------------------------------------------------------------
// launchctl
// ---------------------------------------------------------------------------------

/// Texts joined by a space.
pub open spec fn spaced(words: Seq<Seq<char>>) -> Seq<char>
    decreases words.len(),
{
    if words.len() == 0 {
        Seq::empty()
    } else if words.len() == 1 {
        words[0]
    } else {
        spaced(words.drop_last()) + " "@ + words.last()
    }
}

fn put_spaced(out: &mut Vec<char>, words: &Vec<String>)
    ensures
        final(out)@ == old(out)@ + spaced(texts(words@)),
{
    let n: usize = words.len();
    let ghost all = texts(words@);
    proof {
        assert(all.take(0) =~= Seq::<Seq<char>>::empty());
        assert(spaced(all.take(0)) =~= Seq::<char>::empty());
    }
    for i in 0..n
        invariant
            n == words@.len(),
            all == texts(words@),
            out@ == old(out)@ + spaced(all.take(i as int)),
    {
        let ghost before = out@;
        if i > 0 {
            put(out, " ");
        }
        put(out, words[i].as_str());
        proof {
            let next = all.take(i as int + 1);
            assert(next.drop_last() =~= all.take(i as int));
            assert(next.last() == words@[i as int]@);
            if i == 0 {
                assert(next[0] == words@[0]@);
                assert(before =~= old(out)@);
            }
            assert(out@ =~= old(out)@ + spaced(next));
        }
    }
    proof {
        assert(all.take(n as int) =~= all);
    }
}

/// Why a launchctl call failed: what it was, what it said, and what else it printed.
pub fn launchctl_failure(args: &Vec<String>, stderr: &str, stdout: &str) -> (r: String)
    ensures
        r@ == "launchctl "@ + spaced(texts(args@)) + " failed: "@ + trimmed(stderr@) + (
        if trimmed(stdout@).len() == 0 {
            Seq::empty()
        } else {
            " ("@ + trimmed(stdout@) + ")"@
        }),
{
    let mut out: Vec<char> = chars("launchctl ");
    put_spaced(&mut out, args);
    put(&mut out, " failed: ");
    let e: Vec<char> = chars(stderr);
    put_chars(&mut out, trim(e.as_slice()));
    let s: Vec<char> = chars(stdout);
    let rest = trim(s.as_slice());
    let ghost before = out@;
    if rest.len() > 0 {
        put(&mut out, " (");
        put_chars(&mut out, rest);
        put(&mut out, ")");
        proof {
            assert(out@ =~= before + (" ("@ + rest@ + ")"@));
        }
    } else {
        proof {
            assert(out@ =~= before + Seq::<char>::empty());
        }
    }
    string(out.as_slice())
}

/// Whether launchd currently knows about the job: `printed` is what asking it to print the
/// job gave.
pub fn is_loaded(printed: &Result<String, String>) -> (r: bool)
    ensures
        r == printed is Ok,
{
    printed.is_ok()
}

/// What to do next while launchd forgets a job.
#[derive(Debug, PartialEq, Eq)]
pub enum Bootout {
    /// It has forgotten it.
    Gone,
    /// Look again in a moment.
    Wait,
    /// It has not, and will not.
    Stuck(String),
}

/// What to do next, `elapsed` nanoseconds after the job was stopped.
///
/// Stopping a job returns before it is fully torn down, and starting it in a domain that
/// still holds the old registration fails with an error that says nothing about the real
/// cause. Polling until the job is gone is the difference between a reliable reinstall and
/// an intermittent one.
pub fn bootout_and_wait(loaded: bool, elapsed: u64, uid: u32) -> (r: Bootout)
    ensures
        match r {
            Bootout::Gone => elapsed < BOOTOUT_TIMEOUT && !loaded,
            Bootout::Wait => elapsed < BOOTOUT_TIMEOUT && loaded,
            Bootout::Stuck(message) => elapsed >= BOOTOUT_TIMEOUT && message@ == label()
                + " is still registered five seconds after bootout; try `launchctl bootout "@
                + target_of(uid) + "` by hand"@,
        },
        r is Stuck <==> elapsed >= 5_000_000_000,
{
    if elapsed < BOOTOUT_TIMEOUT {
        return if loaded {
            Bootout::Wait
        } else {
            Bootout::Gone
        };
    }
    let target: String = service_target(uid);
    let mut out: Vec<char> = chars("com.chipcolate.yamete.daemon");
    put(
        &mut out,
        " is still registered five seconds after bootout; try `launchctl bootout ",
    );
    put(&mut out, target.as_str());
    put(&mut out, "` by hand");
    Bootout::Stuck(string(out.as_slice()))
}

/// Whether a program is being installed from a build directory, where a clean-up would
/// break the agent.
pub fn in_build_directory(program: &str) -> (r: bool)
    ensures
        r == split(program@, '/').contains("target"@),
{
    has_component(program, "target")
}

// ---------------------------------------------------------------------------------
// Installing
// ---------------------------------------------------------------------------------

/// What installing the agent comes to, once the old job is gone.
#[derive(Debug, PartialEq, Eq)]
pub struct Installation {
    /// Where the program is copied to first, if it is.
    pub copy_to: Option<String>,
    /// What to warn of.
    pub note: Option<String>,
    /// The program launchd is to start.
    pub program: String,
    /// The directory it logs to, which launchd does not create.
    pub logs: String,
    /// Where the agent is described.
    pub plist_path: String,
    /// Its description.
    pub plist: String,
    /// What launchctl is told to start it.
    pub bootstrap: Vec<String>,
    /// What to print when it runs.
    pub report: String,
}

/// The program that ends up installed: the copy, where one is made.
pub open spec fn installed_program(source: Seq<char>, copy: bool, home: Option<&str>) -> Seq<char> {
    if copy {
        joined(joined(home_or_tmp(home), ".local/bin"@), "yamete"@)
    } else {
        source
    }
}

/// The warning about a program in a build directory.
pub open spec fn build_note(source: Seq<char>) -> Seq<char> {
    "note: installing from a build directory ("@ + source
        + ").\n      `cargo clean` will break the agent, and overwriting this file while the agent is running corrupts it. Use --copy for a stable install."@
}

/// What is printed once the agent runs.
pub open spec fn install_report(path: Seq<char>, program: Seq<char>, logs: Seq<char>) -> Seq<char> {
    "Installed "@ + label() + "\n  plist    "@ + path + "\n  program  "@ + program
        + "\n  logs     "@ + logs
        + "/yamete.log\n\nIt will start at login and restart if it crashes.\nCheck it with `yamete status`, stop it with `yamete uninstall`.\nTo update: rebuild, then `yamete install --copy` again.\n"@
}

/// Plan an installation of the program at `source`, or say that there is none there.
pub fn install(source: &str, exists: bool, copy: bool, home: Option<&str>, uid: u32) -> (r: Result<
    Installation,
    String,
>)
    ensures
        match r {
            Ok(plan) => {
                let program = installed_program(source@, copy, home);
                &&& exists
                &&& maybe(plan.copy_to) == (if copy {
                    Some(program)
                } else {
                    None
                })
                &&& maybe(plan.note) == (if !copy && split(source@, '/').contains("target"@) {
                    Some(build_note(source@))
                } else {
                    None
                })
                &&& plan.program@ == program
                &&& plan.logs@ == log_dir_of(home)
                &&& plan.plist_path@ == plist_path_of(home)
                &&& plan.plist@ == plist_of(program, log_dir_of(home))
                &&& texts(plan.bootstrap@) == seq![
                    "bootstrap"@,
                    domain_of(uid),
                    plist_path_of(home),
                ]
                &&& plan.report@ == install_report(plist_path_of(home), program, log_dir_of(home))
            },
            Err(message) => !exists && message@ == source@ + " does not exist"@,
        },
{
    if !exists {
        let mut out: Vec<char> = chars(source);
        put(&mut out, " does not exist");
        return Err(string(out.as_slice()));
    }
    let place: Vec<char> = chars(source);
    let dir: String = default_install_dir(home);
    let program: String = if copy {
        join(dir.as_str(), "yamete")
    } else {
        string(place.as_slice())
    };
    let copy_to: Option<String> = if copy {
        Some(join(dir.as_str(), "yamete"))
    } else {
        None
    };
    let note: Option<String> = if !copy && in_build_directory(source) {
        let mut out: Vec<char> = chars("note: installing from a build directory (");
        put(&mut out, source);
        put(&mut out, ").\n      `cargo clean` will break the agent, and overwriting this file while the agent is running corrupts it. Use --copy for a stable install.");
        Some(string(out.as_slice()))
    } else {
        None
    };
    let logs: String = log_dir(home);
    let path: String = plist_path(home);
    let text: String = plist(program.as_str(), logs.as_str());

    let verb: Vec<char> = chars("bootstrap");
    let mut bootstrap: Vec<String> = Vec::new();
    bootstrap.push(string(verb.as_slice()));
    bootstrap.push(domain(uid));
    bootstrap.push(plist_path(home));
    proof {
        assert(texts(bootstrap@) =~= seq!["bootstrap"@, domain_of(uid), plist_path_of(home)]);
    }

    let mut out: Vec<char> = chars("Installed ");
    put(&mut out, "com.chipcolate.yamete.daemon");
    put(&mut out, "\n  plist    ");
    put(&mut out, path.as_str());
    put(&mut out, "\n  program  ");
    put(&mut out, program.as_str());
    put(&mut out, "\n  logs     ");
    put(&mut out, logs.as_str());
    put(&mut out, "/yamete.log\n\nIt will start at login and restart if it crashes.\nCheck it with `yamete status`, stop it with `yamete uninstall`.\nTo update: rebuild, then `yamete install --copy` again.\n");
    Ok(
        Installation {
            copy_to,
            note,
            program,
            logs,
            plist_path: path,
            plist: text,
            bootstrap,
            report: string(out.as_slice()),
        },
    )
}

/// What to say of an agent that was stopped if it was loaded, and whose description was
/// removed if there was one.
pub fn uninstall(loaded: bool, described: bool) -> (r: String)
    ensures
        r@ == (if loaded || described {
            "Removed "@ + label() + "."@
        } else {
            label() + " was not installed."@
        }),
{
    if loaded || described {
        let mut out: Vec<char> = chars("Removed ");
        put(&mut out, "com.chipcolate.yamete.daemon");
        put(&mut out, ".");
        string(out.as_slice())
    } else {
        let mut out: Vec<char> = chars("com.chipcolate.yamete.daemon");
        put(&mut out, " was not installed.");
        string(out.as_slice())
    }
}

/// What launchctl is told to restart the agent, picking up a new binary or config.
pub fn restart(loaded: bool, uid: u32) -> (r: Result<Vec<String>, String>)
    ensures
        match r {
            Ok(args) => loaded && texts(args@) == seq!["kickstart"@, "-k"@, target_of(uid)],
            Err(message) => !loaded && message@ == label()
                + " is not installed \u{2014} run `yamete install` first"@,
        },
{
    if !loaded {
        let mut out: Vec<char> = chars("com.chipcolate.yamete.daemon");
        put(&mut out, " is not installed \u{2014} run `yamete install` first");
        return Err(string(out.as_slice()));
    }
    let verb: Vec<char> = chars("kickstart");
    let flag: Vec<char> = chars("-k");
    let mut args: Vec<String> = Vec::new();
    args.push(string(verb.as_slice()));
    args.push(string(flag.as_slice()));
    args.push(service_target(uid));
    proof {
        assert(texts(args@) =~= seq!["kickstart"@, "-k"@, target_of(uid)]);
    }
    Ok(args)
}

// ---------------------------------------------------------------------------------
// Reports
// ---------------------------------------------------------------------------------

/// A line without the carriage return at its end.
pub open spec fn without_return(line: Seq<char>) -> Seq<char> {
    if line.len() > 0 && line.last() == '\r' {
        line.drop_last()
    } else {
        line
    }
}

/// The lines of a text; a newline at the end starts no line of its own.
pub open spec fn lines_of(text: Seq<char>) -> Seq<Seq<char>> {
    let parts = split(text, '\n');
    let whole = if parts.last().len() == 0 {
        parts.drop_last()
    } else {
        parts
    };
    Seq::new(
        whole.len(),
        |i: int|
            if i + 1 < parts.len() {
                without_return(whole[i])
            } else {
                whole[i]
            },
    )
}

/// The lines of a text.
pub fn lines(text: &str) -> (r: Vec<String>)
    ensures
        texts(r@) == lines_of(text@),
{
    let v: Vec<char> = chars(text);
    let parts: Vec<&[char]> = pieces(v.as_slice(), '\n');
    proof {
        assert(split(text@, '\n').len() > 0);
    }
    let total: usize = parts.len();
    proof {
        assert(parts@[total - 1]@ == split(text@, '\n')[total - 1]);
    }
    let n: usize = if parts[total - 1].len() == 0 {
        total - 1
    } else {
        total
    };
    let ghost all = lines_of(text@);
    let mut r: Vec<String> = Vec::new();
    proof {
        assert(all.len() == n);
        assert(texts(r@) =~= all.take(0));
    }
    for i in 0..n
        invariant
            n <= total,
            total == parts@.len(),
            total == split(text@, '\n').len(),
            all == lines_of(text@),
            all.len() == n,
            forall|k: int| 0 <= k < total ==> #[trigger] parts@[k]@ == split(text@, '\n')[k],
            texts(r@) == all.take(i as int),
    {
        let part = parts[i];
        proof {
            assert(parts@[i as int]@ == split(text@, '\n')[i as int]);
        }
        let m: usize = part.len();
        let line = if i + 1 < total && m > 0 && part[m - 1] == '\r' {
            slice_subrange(part, 0, m - 1)
        } else {
            part
        };
        let ghost was = texts(r@);
        r.push(string(line));
        proof {
            if i + 1 < total && m > 0 && part@[m - 1] == '\r' {
                assert(line@ =~= part@.drop_last());
            }
            assert(line@ == all[i as int]);
            assert(texts(r@) =~= was.push(line@));
            assert(all.take(i as int + 1) =~= was.push(all[i as int]));
        }
    }
    proof {
        assert(all.take(n as int) =~= all);
    }
    r
}

/// The first line that says what `key` is, from line `i` on.
pub open spec fn field_from(lines: Seq<Seq<char>>, key: Seq<char>, i: int) -> Option<Seq<char>>
    decreases lines.len() - i,
{
    if i < 0 || i >= lines.len() {
        None
    } else if key.is_prefix_of(trimmed(lines[i])) {
        Some(trimmed(lines[i]))
    } else {
        field_from(lines, key, i + 1)
    }
}

/// The first line of launchd's dump that says what `key` is.
///
/// The full dump is enormous; a handful of fields actually explain a job that isn't
/// running.
pub fn field(output: &str, key: &str) -> (r: Option<String>)
    ensures
        maybe(r) == field_from(lines_of(output@), key@, 0),
{
    let all: Vec<String> = lines(output);
    let n: usize = all.len();
    let mut i: usize = 0;
    while i < n
        invariant
            i <= n,
            n == all@.len(),
            texts(all@) == lines_of(output@),
            field_from(lines_of(output@), key@, 0) == field_from(
                lines_of(output@),
                key@,
                i as int,
            ),
        decreases n - i,
    {
        let v: Vec<char> = chars(all[i].as_str());
        let line = trim(v.as_slice());
        proof {
            assert(texts(all@)[i as int] == v@);
        }
        if starts_with(line, key) {
            return Some(string(line));
        }
        i = i + 1;
    }
    None
}

/// The last lines of a log, at most `count` of them.
pub fn tail(text: &str, count: usize) -> (r: Vec<String>)
    ensures
        texts(r@) == lines_of(text@).skip(
            if lines_of(text@).len() > count {
                lines_of(text@).len() - count
            } else {
                0
            },
        ),
{
    let all: Vec<String> = lines(text);
    let n: usize = all.len();
    let from: usize = if n > count {
        n - count
    } else {
        0
    };
    let mut r: Vec<String> = Vec::new();
    let mut i: usize = from;
    proof {
        assert(texts(r@) =~= texts(all@).subrange(from as int, from as int));
    }
    while i < n
        invariant
            from <= i <= n,
            n == all@.len(),
            texts(r@) == texts(all@).subrange(from as int, i as int),
        decreases n - i,
    {
        let ghost was = texts(r@);
        r.push(all[i].clone());
        proof {
            assert(texts(r@) =~= was.push(texts(all@)[i as int]));
            assert(texts(all@).subrange(from as int, i as int + 1) =~= was.push(
                texts(all@)[i as int],
            ));
        }
        i = i + 1;
    }
    proof {
        assert(texts(all@).subrange(from as int, n as int) =~= texts(all@).skip(from as int));
    }
    r
}

/// A field of launchd's dump on a line of its own, or nothing.
pub open spec fn field_line(output: Seq<char>, key: Seq<char>) -> Seq<char> {
    match field_from(lines_of(output), key, 0) {
        Some(line) => line + "\n"@,
        None => Seq::empty(),
    }
}

/// What launchd knows of the job.
pub open spec fn record_of(printed: Result<String, String>) -> Seq<char> {
    match printed {
        Ok(output) => field_line(output@, "state = "@) + field_line(output@, "pid = "@)
            + field_line(output@, "last exit code = "@) + field_line(output@, "path = "@),
        Err(_) => "\nlaunchd has no record of this job.\n"@,
    }
}

fn put_field(out: &mut Vec<char>, output: &str, key: &str)
    ensures
        final(out)@ == old(out)@ + field_line(output@, key@),
{
    if let Some(line) = field(output, key) {
        put(out, line.as_str());
        put(out, "\n");
        proof {
            assert(out@ =~= old(out)@ + (line@ + "\n"@));
        }
    } else {
        proof {
            assert(out@ =~= old(out)@ + Seq::<char>::empty());
        }
    }
}

/// Report what launchd knows, for when the daemon is not behaving: whether the agent is
/// described at `path`, whether its job is loaded, and what printing the job gave.
pub fn show(path: &str, present: bool, loaded: bool, printed: &Result<String, String>) -> (r: String)
    ensures
        r@ == "plist    "@ + path@ + (if present {
            " (present)\nloaded   "@
        } else {
            " (missing)\nloaded   "@
        }) + (if loaded {
            "yes\n"@
        } else {
            "no\n"@
        }) + record_of(*printed),
{
    let mut out: Vec<char> = chars("plist    ");
    put(&mut out, path);
    put(
        &mut out,
        if present {
            " (present)\nloaded   "
        } else {
            " (missing)\nloaded   "
        },
    );
    put(
        &mut out,
        if loaded {
            "yes\n"
        } else {
            "no\n"
        },
    );
    let ghost head = out@;
    match printed {
        Ok(output) => {
            put_field(&mut out, output.as_str(), "state = ");
            put_field(&mut out, output.as_str(), "pid = ");
            put_field(&mut out, output.as_str(), "last exit code = ");
            put_field(&mut out, output.as_str(), "path = ");
        },
        Err(_) => {
            put(&mut out, "\nlaunchd has no record of this job.\n");
        },
    }
    proof {
        assert(out@ =~= head + record_of(*printed));
    }
    string(out.as_slice())
}

/// The last lines of a log: the most recent five.
pub open spec fn recent(log: Seq<char>) -> Seq<Seq<char>> {
    let lines = lines_of(log);
    lines.skip(
        if lines.len() > 5 {
            lines.len() - 5
        } else {
            0
        },
    )
}

/// Lines, each indented on a line of its own.
pub open spec fn indented(lines: Seq<Seq<char>>) -> Seq<char>
    decreases lines.len(),
{
    if lines.len() == 0 {
        Seq::empty()
    } else {
        indented(lines.drop_last()) + "  "@ + lines.last() + "\n"@
    }
}

/// The end of a log under its name, or nothing for an empty one.
pub fn log_end(file: &str, log: &str) -> (r: Option<String>)
    ensures
        maybe(r) == (if recent(log@).len() == 0 {
            None
        } else {
            Some(
                "\n"@ + file@ + " (last "@ + decimal(recent(log@).len()) + " lines):\n"@ + indented(
                    recent(log@),
                ),
            )
        }),
{
    let lines: Vec<String> = tail(log, 5);
    let n: usize = lines.len();
    let ghost all = recent(log@);
    proof {
        assert(all =~= texts(lines@));
    }
    if n == 0 {
        return None;
    }
    let mut out: Vec<char> = chars("\n");
    put(&mut out, file);
    put(&mut out, " (last ");
    let digits: Vec<char> = write_count(n as u64);
    put_chars(&mut out, digits.as_slice());
    put(&mut out, " lines):\n");
    let ghost head = out@;
    proof {
        assert(all.take(0) =~= Seq::<Seq<char>>::empty());
        assert(indented(all.take(0)) =~= Seq::<char>::empty());
    }
    for i in 0..n
        invariant
            n == lines@.len(),
            all == texts(lines@),
            out@ == head + indented(all.take(i as int)),
    {
        put(&mut out, "  ");
        put(&mut out, lines[i].as_str());
        put(&mut out, "\n");
        proof {
            let next = all.take(i as int + 1);
            assert(next.drop_last() =~= all.take(i as int));
            assert(next.last() == lines@[i as int]@);
            assert(out@ =~= head + indented(next));
        }
    }
    proof {
        assert(all.take(n as int) =~= all);
    }
    Some(string(out.as_slice()))
}

// ---------------------------------------------------------------------------------
// Laws
// ---------------------------------------------------------------------------------

/// What an XML parser makes of text: each predefined entity is its character.
pub open spec fn unescaped(s: Seq<char>) -> Seq<char>
    decreases s.len(),
{
    if s.len() == 0 {
        Seq::empty()
    } else if "&amp;"@.is_suffix_of(s) && "&amp;"@.len() > 0 {
        unescaped(s.take(s.len() - "&amp;"@.len())).push('&')
    } else if "&lt;"@.is_suffix_of(s) && "&lt;"@.len() > 0 {
        unescaped(s.take(s.len() - "&lt;"@.len())).push('<')
    } else if "&gt;"@.is_suffix_of(s) && "&gt;"@.len() > 0 {
        unescaped(s.take(s.len() - "&gt;"@.len())).push('>')
    } else if "&quot;"@.is_suffix_of(s) && "&quot;"@.len() > 0 {
        unescaped(s.take(s.len() - "&quot;"@.len())).push('"')
    } else if "&apos;"@.is_suffix_of(s) && "&apos;"@.len() > 0 {
        unescaped(s.take(s.len() - "&apos;"@.len())).push('\'')
    } else {
        unescaped(s.drop_last()).push(s.last())
    }
}

/// Escaped text holds none of the characters that would end or start markup, and reads back
/// as the text it came from.
pub proof fn escape_round_trip(s: Seq<char>)
    ensures
        forall|i: int|
            0 <= i < escaped(s).len() ==> (#[trigger] escaped(s)[i]) != '<' && escaped(s)[i] != '>'
                && escaped(s)[i] != '"' && escaped(s)[i] != '\'',
        unescaped(escaped(s)) == s,
    decreases s.len(),
{
    reveal_strlit("&amp;");
    reveal_strlit("&lt;");
    reveal_strlit("&gt;");
    reveal_strlit("&quot;");
    reveal_strlit("&apos;");
    if s.len() > 0 {
        let rest = s.drop_last();
        let c = s.last();
        escape_round_trip(rest);
        let head = escaped(rest);
        let all = escaped(s);
        assert(all == head + entity(c));
        assert forall|i: int| 0 <= i < all.len() implies (#[trigger] all[i]) != '<' && all[i] != '>'
            && all[i] != '"' && all[i] != '\'' by {
            if i < head.len() {
                assert(all[i] == head[i]);
            } else {
                assert(all[i] == entity(c)[i - head.len()]);
            }
        }
        assert(s =~= rest.push(c));
        assert(all.take(head.len() as int) =~= head);
        if c == '&' || c == '<' || c == '>' || c == '"' || c == '\'' {
            entity_ends(head, c);
        } else {
            assert(all.last() == c);
            assert(all.drop_last() =~= head);
            plain_end(rest, c);
        }
    } else {
        assert(escaped(s) =~= s);
    }
}

/// Text that ends in one entity ends in no other.
proof fn entity_ends(head: Seq<char>, c: char)
    requires
        c == '&' || c == '<' || c == '>' || c == '"' || c == '\'',
    ensures
        unescaped(head + entity(c)) == unescaped(head).push(c),
{
    reveal_strlit("&amp;");
    reveal_strlit("&lt;");
    reveal_strlit("&gt;");
    reveal_strlit("&quot;");
    reveal_strlit("&apos;");
    let all = head + entity(c);
    let n = all.len();
    let e = entity(c);
    assert(all.take(n - e.len()) =~= head);
    assert(all.subrange(n - e.len(), n as int) =~= e);
    // The second character from the end tells the entities apart.
    assert(all[n - 2] == e[e.len() - 2]);
    assert(all[n - 1] == ';');
    assert("&amp;"@[3] == 'p');
    assert("&lt;"@[2] == 't');
    assert("&gt;"@[2] == 't');
    assert("&quot;"@[4] == 't');
    assert("&apos;"@[4] == 's');
    assert("&lt;"@[1] == 'l');
    assert("&gt;"@[1] == 'g');
    assert("&quot;"@[3] == 'o');
    ends_like(all, "&amp;"@);
    ends_like(all, "&lt;"@);
    ends_like(all, "&gt;"@);
    ends_like(all, "&quot;"@);
    ends_like(all, "&apos;"@);
    assert(all[n - 3] == e[e.len() - 3]);
    assert(e.is_suffix_of(all));
}

/// What a suffix says about the end of a text.
proof fn ends_like(s: Seq<char>, e: Seq<char>)
    ensures
        e.is_suffix_of(s) ==> e.len() <= s.len() && forall|i: int|
            0 <= i < e.len() ==> s[s.len() - e.len() + i] == #[trigger] e[i],
{
    if e.is_suffix_of(s) {
        let t = s.subrange(s.len() - e.len(), s.len() as int);
        assert(e == t);
        assert forall|i: int| 0 <= i < e.len() implies s[s.len() - e.len() + i] == #[trigger] e[i] by {
            assert(t[i] == s[s.len() - e.len() + i]);
        }
    }
}

/// An ampersand in escaped text always starts an entity that is complete, so what ends in a
/// character of its own does not end in an entity.
proof fn plain_end_is_no_entity(rest: Seq<char>, c: char, e: Seq<char>)
    requires
        entity(c) == seq![c],
        e.len() >= 2,
        e[0] == '&',
        e[e.len() - 1] == ';',
        forall|i: int| 0 < i < e.len() - 1 ==> #[trigger] e[i] != ';',
    ensures
        !e.is_suffix_of(escaped(rest) + seq![c]),
{
    let head = escaped(rest);
    let all = head + seq![c];
    if e.is_suffix_of(all) {
        ends_like(all, e);
        let p = all.len() - e.len();
        assert(all[p + 0] == e[0]);
        assert(all[p] == head[p]);
        ampersand_is_closed(rest, p);
        let k = choose|k: int| p < k < head.len() && head[k] == ';';
        assert(all[k] == head[k]);
        assert(all[p + (k - p)] == e[k - p]);
    }
}

proof fn plain_end(rest: Seq<char>, c: char)
    requires
        entity(c) == seq![c],
    ensures
        unescaped(escaped(rest) + seq![c]) == unescaped(escaped(rest)).push(c),
{
    reveal_strlit("&amp;");
    reveal_strlit("&lt;");
    reveal_strlit("&gt;");
    reveal_strlit("&quot;");
    reveal_strlit("&apos;");
    let head = escaped(rest);
    let all = head + seq![c];
    assert(all.drop_last() =~= head);
    assert(all.last() == c);
    plain_end_is_no_entity(rest, c, "&amp;"@);
    plain_end_is_no_entity(rest, c, "&lt;"@);
    plain_end_is_no_entity(rest, c, "&gt;"@);
    plain_end_is_no_entity(rest, c, "&quot;"@);
    plain_end_is_no_entity(rest, c, "&apos;"@);
}

/// Behind every ampersand of escaped text stands a semicolon.
proof fn ampersand_is_closed(s: Seq<char>, at: int)
    ensures
        0 <= at < escaped(s).len() && escaped(s)[at] == '&' ==> exists|k: int|
            at < k < escaped(s).len() && escaped(s)[k] == ';',
    decreases s.len(),
{
    reveal_strlit("&amp;");
    reveal_strlit("&lt;");
    reveal_strlit("&gt;");
    reveal_strlit("&quot;");
    reveal_strlit("&apos;");
    if s.len() > 0 && 0 <= at < escaped(s).len() && escaped(s)[at] == '&' {
        let head = escaped(s.drop_last());
        let e = entity(s.last());
        let all = escaped(s);
        assert(all == head + e);
        if at < head.len() {
            ampersand_is_closed(s.drop_last(), at);
            assert(head[at] == '&');
            let k = choose|k: int| at < k < head.len() && head[k] == ';';
            assert(all[k] == ';');
        } else {
            assert(all[at] == e[at - head.len()]);
            let k = all.len() - 1;
            assert(all[k] == e[e.len() - 1]);
            assert(e[e.len() - 1] == ';');
            assert(at < k);
        }
    }
}

/// The agent, its logs and its program stand below the home directory, each under its own
/// name.
pub proof fn the_agent_lives_below_home(home: &str, source: Seq<char>)
    ensures
        ({
            let below = |path: Seq<char>, rest: Seq<char>|
                path.take(home@.len() as int) == home@ && path.skip(path.len() - rest.len()) == rest;
            &&& below(
                plist_path_of(Some(home)),
                "Library/LaunchAgents/com.chipcolate.yamete.daemon.plist"@,
            )
            &&& below(log_dir_of(Some(home)), "Library/Logs/yamete"@)
            &&& installed_program(source, true, Some(home)).take(home@.len() as int) == home@
            &&& installed_program(source, true, Some(home)).skip(
                installed_program(source, true, Some(home)).len() - "yamete"@.len(),
            ) == "yamete"@
            &&& installed_program(source, false, Some(home)) == source
        }),
        home_or_tmp(Some(home)) == home@,
        home_or_tmp(None) == "/tmp"@,
{
    reveal_strlit("Library/LaunchAgents/com.chipcolate.yamete.daemon.plist");
    reveal_strlit("Library/Logs/yamete");
    reveal_strlit(".local/bin");
    reveal_strlit("yamete");
    joining_keeps_both(home@, "Library/LaunchAgents/com.chipcolate.yamete.daemon.plist"@);
    joining_keeps_both(home@, "Library/Logs/yamete"@);
    joining_keeps_both(home@, ".local/bin"@);
    let bin = joined(home@, ".local/bin"@);
    joining_keeps_both(bin, "yamete"@);
    let program = joined(bin, "yamete"@);
    assert(program.take(home@.len() as int) =~= program.take(bin.len() as int).take(
        home@.len() as int,
    ));
}

/// A job is told apart by its user and its label.
pub proof fn the_target_names_user_and_job(uid: u32)
    ensures
        domain_of(uid) == "gui/"@ + decimal(uid as nat),
        target_of(uid) == domain_of(uid) + "/"@ + "com.chipcolate.yamete.daemon"@,
{
}

/// The description of the agent starts the given program as a daemon, restarts it on failure
/// only, and logs below the given directory.
pub proof fn the_plist_starts_the_program(program: Seq<char>, log_dir: Seq<char>)
    ensures
        contains(
            plist_of(program, log_dir),
            "<string>"@ + escaped(program) + "</string>\n\t\t<string>run</string>\n\t\t<string>--daemon</string>"@,
        ),
        contains(plist_of(program, log_dir), "<string>"@ + escaped(log_dir) + "/yamete.log</string>"@),
        contains(
            plist_of(program, log_dir),
            "<string>"@ + escaped(log_dir) + "/yamete.err.log</string>"@,
        ),
        contains(
            plist_of(program, log_dir),
            "<key>Label</key>\n\t<string>"@ + "com.chipcolate.yamete.daemon"@ + "</string>"@,
        ),
        contains(plist_of(program, log_dir), "<key>RunAtLoad</key>\n\t<true/>"@),
        contains(plist_of(program, log_dir), "<key>SuccessfulExit</key>\n\t\t<false/>"@),
{
    let p = plist_of(program, log_dir);
    let a =
        "<?xml version=\"1.0\" encoding=\"UTF-8\"?>\n<!DOCTYPE plist PUBLIC \"-//Apple//DTD PLIST 1.0//EN\" \"http://www.apple.com/DTDs/PropertyList-1.0.dtd\">\n<plist version=\"1.0\">\n<dict>\n\t<key>Label</key>\n\t<string>"@;
    let b = "</string>\n\n\t<key>ProgramArguments</key>\n\t<array>\n\t\t<string>"@;
    let c =
        "</string>\n\t\t<string>run</string>\n\t\t<string>--daemon</string>\n\t</array>\n\n\t<key>RunAtLoad</key>\n\t<true/>\n\n\t<!-- A dict, not <true/>: plain KeepAlive restarts the job even after a clean exit,\n\t     which produces a respawn loop on machines with no sensor. -->\n\t<key>KeepAlive</key>\n\t<dict>\n\t\t<key>SuccessfulExit</key>\n\t\t<false/>\n\t</dict>\n\n\t<key>ThrottleInterval</key>\n\t<integer>10</integer>\n\n\t<!-- Background would have launchd deprioritise CPU and I/O; the detector is a\n\t     latency-sensitive poll loop. -->\n\t<key>ProcessType</key>\n\t<string>Interactive</string>\n\n\t<key>StandardOutPath</key>\n\t<string>"@;
    let d = "/yamete.log</string>\n\t<key>StandardErrorPath</key>\n\t<string>"@;
    let e = "/yamete.err.log</string>\n</dict>\n</plist>\n"@;
    reveal_strlit("</string>\n\n\t<key>ProgramArguments</key>\n\t<array>\n\t\t<string>");
    reveal_strlit(
        "</string>\n\t\t<string>run</string>\n\t\t<string>--daemon</string>\n\t</array>\n\n\t<key>RunAtLoad</key>\n\t<true/>\n\n\t<!-- A dict, not <true/>: plain KeepAlive restarts the job even after a clean exit,\n\t     which produces a respawn loop on machines with no sensor. -->\n\t<key>KeepAlive</key>\n\t<dict>\n\t\t<key>SuccessfulExit</key>\n\t\t<false/>\n\t</dict>\n\n\t<key>ThrottleInterval</key>\n\t<integer>10</integer>\n\n\t<!-- Background would have launchd deprioritise CPU and I/O; the detector is a\n\t     latency-sensitive poll loop. -->\n\t<key>ProcessType</key>\n\t<string>Interactive</string>\n\n\t<key>StandardOutPath</key>\n\t<string>",
    );
    reveal_strlit("/yamete.log</string>\n\t<key>StandardErrorPath</key>\n\t<string>");
    reveal_strlit("/yamete.err.log</string>\n</dict>\n</plist>\n");
    reveal_strlit("<string>");
    reveal_strlit(
        "</string>\n\t\t<string>run</string>\n\t\t<string>--daemon</string>",
    );
    reveal_strlit("/yamete.log</string>");
    reveal_strlit("/yamete.err.log</string>");
    let x = escaped(program);
    let y = escaped(log_dir);
    let head = a + label() + b;
    let first = "<string>"@ + x
        + "</string>\n\t\t<string>run</string>\n\t\t<string>--daemon</string>"@;
    let at = head.len() - 8;
    assert(p.subrange(at, at + first.len()) =~= first);
    assert(occurs_at(p, first, at));
    let second = "<string>"@ + y + "/yamete.log</string>"@;
    let on = (head + x + c).len() - 8;
    assert(p.subrange(on, on + second.len()) =~= second);
    assert(occurs_at(p, second, on));
    let third = "<string>"@ + y + "/yamete.err.log</string>"@;
    let err = (head + x + c + y + d).len() - 8;
    assert(p.subrange(err, err + third.len()) =~= third);
    assert(occurs_at(p, third, err));
    reveal_strlit(
        "<?xml version=\"1.0\" encoding=\"UTF-8\"?>\n<!DOCTYPE plist PUBLIC \"-//Apple//DTD PLIST 1.0//EN\" \"http://www.apple.com/DTDs/PropertyList-1.0.dtd\">\n<plist version=\"1.0\">\n<dict>\n\t<key>Label</key>\n\t<string>",
    );
    reveal_strlit("<key>Label</key>\n\t<string>");
    reveal_strlit("</string>");
    reveal_strlit("<key>RunAtLoad</key>\n\t<true/>");
    reveal_strlit("<key>SuccessfulExit</key>\n\t\t<false/>");
    let named = "<key>Label</key>\n\t<string>"@ + "com.chipcolate.yamete.daemon"@ + "</string>"@;
    let label_at = a.len() - 26;
    assert(p.subrange(label_at, label_at + named.len()) =~= named);
    assert(occurs_at(p, named, label_at));
    let start = "<key>RunAtLoad</key>\n\t<true/>"@;
    let start_at = (head + x).len() as int + 73;
    assert(p.subrange(start_at, start_at + start.len()) =~= start);
    assert(occurs_at(p, start, start_at));
    let exit = "<key>SuccessfulExit</key>\n\t\t<false/>"@;
    let exit_at = (head + x).len() as int + 289;
    assert(p.subrange(exit_at, exit_at + exit.len()) =~= exit);
    assert(occurs_at(p, exit, exit_at));
}

/// Words follow one another with one space between them.
pub proof fn words_are_spaced(words: Seq<Seq<char>>, word: Seq<char>)
    ensures
        spaced(Seq::<Seq<char>>::empty()).len() == 0,
        words.len() == 0 ==> spaced(words.push(word)) == word,
        words.len() > 0 ==> spaced(words.push(word)) == spaced(words) + " "@ + word,
{
    assert(words.push(word).drop_last() =~= words);
}

/// A text of whole lines and one more line has one line more, whether or not that one ends in
/// a newline.
pub proof fn one_line_more(text: Seq<char>, line: Seq<char>)
    requires
        text.len() == 0 || text.last() == '\n',
        !line.contains('\n'),
        line.len() > 0,
        line.last() != '\r',
    ensures
        lines_of(Seq::<char>::empty()).len() == 0,
        lines_of(text + line) == lines_of(text).push(line),
        lines_of(text + line + seq!['\n']) == lines_of(text).push(line),
        lines_of(text + line + seq!['\r', '\n']) == lines_of(text).push(line),
{
    let none = Seq::<char>::empty();
    split_whole(none, '\n');
    let before = split(text, '\n').drop_last();
    let whole = before.push(line);
    if text.len() > 0 {
        let head = text.drop_last();
        split_snoc(head, '\n', none);
        assert(head + seq!['\n'] + none =~= text);
        assert(before =~= split(head, '\n'));
        split_snoc(head, '\n', line);
        assert(head + seq!['\n'] + line =~= text + line);
        assert(split(text, '\n') =~= before.push(none));
    } else {
        assert(text =~= none);
        split_whole(line, '\n');
        assert(text + line =~= line);
        assert(before =~= Seq::<Seq<char>>::empty());
        assert(whole =~= seq![line]);
        assert(split(text, '\n') =~= before.push(none));
    }
    assert(split(text + line, '\n') =~= whole);
    assert(lines_of(text + line) =~= lines_of(text).push(line));
    split_snoc(text + line, '\n', none);
    assert(text + line + seq!['\n'] + none =~= text + line + seq!['\n']);
    assert(lines_of(text + line + seq!['\n']) =~= lines_of(text).push(line));
    let ret = line.push('\r');
    assert forall|i: int| 0 <= i < ret.len() implies ret[i] != '\n' by {
        if i < line.len() {
            assert(line.contains(line[i]));
        }
    }
    if text.len() > 0 {
        let head = text.drop_last();
        split_snoc(head, '\n', ret);
        assert(head + seq!['\n'] + ret =~= text + ret);
    } else {
        split_whole(ret, '\n');
        assert(text + ret =~= ret);
        assert(before.push(ret) =~= seq![ret]);
    }
    split_snoc(text + ret, '\n', none);
    assert(text + ret + seq!['\n'] + none =~= text + line + seq!['\r', '\n']);
    assert(ret.drop_last() =~= line);
    assert(lines_of(text + line + seq!['\r', '\n']) =~= lines_of(text).push(line));
}

/// A field is the first line that starts with its key, without the white space around it;
/// there is none only where no line does.
pub proof fn a_field_is_the_first_of_its_key(lines: Seq<Seq<char>>, key: Seq<char>, from: int)
    requires
        0 <= from <= lines.len(),
    ensures
        match field_from(lines, key, from) {
            Some(line) => exists|i: int|
                from <= i < lines.len() && line == trimmed(#[trigger] lines[i])
                    && key.is_prefix_of(line) && forall|j: int|
                    from <= j < i ==> !key.is_prefix_of(trimmed(#[trigger] lines[j])),
            None => forall|j: int|
                from <= j < lines.len() ==> !key.is_prefix_of(trimmed(#[trigger] lines[j])),
        },
    decreases lines.len() - from,
{
    if from < lines.len() {
        if key.is_prefix_of(trimmed(lines[from])) {
            assert(field_from(lines, key, from) == Some(trimmed(lines[from])));
        } else {
            a_field_is_the_first_of_its_key(lines, key, from + 1);
            if let Some(line) = field_from(lines, key, from + 1) {
                let i = choose|i: int|
                    from + 1 <= i < lines.len() && line == trimmed(#[trigger] lines[i])
                        && key.is_prefix_of(line) && forall|j: int|
                        from + 1 <= j < i ==> !key.is_prefix_of(trimmed(#[trigger] lines[j]));
                assert(line == trimmed(lines[i]));
            }
        }
    }
}

/// The end of a log is its last five lines, or all of a shorter one, and each is indented on
/// a line of its own.
pub proof fn the_end_of_a_log(log: Seq<char>, lines: Seq<Seq<char>>, line: Seq<char>)
    ensures
        lines_of(log).len() >= 5 ==> recent(log).len() == 5,
        lines_of(log).len() < 5 ==> recent(log) == lines_of(log),
        recent(log) == lines_of(log).skip(lines_of(log).len() - recent(log).len()),
        indented(Seq::<Seq<char>>::empty()).len() == 0,
        indented(lines.push(line)) == indented(lines) + "  "@ + line + "\n"@,
{
    assert(lines.push(line).drop_last() =~= lines);
    if lines_of(log).len() < 5 {
        assert(recent(log) =~= lines_of(log));
    }
}

/// The warning and the report name what they are about.
pub proof fn reports_name_their_files(
    source: Seq<char>,
    path: Seq<char>,
    program: Seq<char>,
    logs: Seq<char>,
)
    ensures
        contains(build_note(source), source),
        contains(install_report(path, program, logs), path),
        contains(install_report(path, program, logs), program),
        contains(install_report(path, program, logs), logs + "/yamete.log"@),
{
    let note = build_note(source);
    let n = "note: installing from a build directory ("@.len() as int;
    assert(note.subrange(n, n + source.len()) =~= source);
    assert(occurs_at(note, source, n));
    let r = install_report(path, program, logs);
    let a = "Installed "@ + label() + "\n  plist    "@;
    let b = a + path + "\n  program  "@;
    let c = b + program + "\n  logs     "@;
    assert(r.subrange(a.len() as int, a.len() as int + path.len()) =~= path);
    assert(occurs_at(r, path, a.len() as int));
    assert(r.subrange(b.len() as int, b.len() as int + program.len()) =~= program);
    assert(occurs_at(r, program, b.len() as int));
    reveal_strlit("/yamete.log");
    reveal_strlit(
        "/yamete.log\n\nIt will start at login and restart if it crashes.\nCheck it with `yamete status`, stop it with `yamete uninstall`.\nTo update: rebuild, then `yamete install --copy` again.\n",
    );
    let l = logs + "/yamete.log"@;
    assert(r.subrange(c.len() as int, c.len() as int + l.len()) =~= l);
    assert(occurs_at(r, l, c.len() as int));
}

} // verus!
