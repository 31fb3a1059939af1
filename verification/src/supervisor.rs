//! Owning the daemon's lifetime.
//!
//! The app runs the daemon as a child process, so opening the app starts detection and
//! quitting it stops detection. Two rules keep this honest:
//!
//! * **We only kill what we started.** If a daemon is already listening — someone has the
//!   LaunchAgent installed, or is running one from a terminal — we attach to it and leave
//!   it alone on exit.
//! * **The child cannot outlive us.** It is spawned with a stdin pipe; the pipe closes when
//!   this process dies for any reason, so there is no path that leaves an orphaned daemon
//!   holding the sensor.
//!
//! All times are in nanoseconds since the step began.
use vstd::prelude::*;

use crate::paths::{join, joined};
use crate::text::{chars, owned, put, string, texts};

verus! {

/// How long to wait for a freshly spawned daemon to start listening.
pub const STARTUP_TIMEOUT: u64 = 10_000_000_000;

/// How long a daemon may take to shut down before it is killed.
pub const SHUTDOWN_TIMEOUT: u64 = 3_000_000_000;

/// The daemon process, if this app started one.
#[derive(Debug, Clone, Copy, PartialEq, Eq, Structural)]
pub struct Supervisor {
    pub owned: bool,
}

/// What starting the daemon asks for next.
#[derive(Debug, PartialEq, Eq)]
pub enum Start {
    /// It is there; this is what happened.
    Running(String),
    /// Spawn it, then report with [`Supervisor::spawned`].
    Spawn,
    /// Look again in a moment.
    Wait,
    Failed(String),
}

/// What stopping the daemon asks for next.
#[derive(Debug, Clone, Copy, PartialEq, Eq, Structural)]
pub enum Stop {
    /// Nothing is left to do.
    Done,
    /// Close the child's stdin, which is its cue to shut down cleanly.
    CloseInput,
    /// Look again in a moment.
    Wait,
    /// It ignores the cue: kill it.
    Kill,
}

/// What became of the child when looked at.
#[derive(Debug, Clone, Copy, PartialEq, Eq, Structural)]
pub enum Child {
    Exited,
    Alive,
    Unknown,
}

/// What can happen to a supervisor: a spawn that worked or not, and a shutdown.
pub enum Happening {
    Spawned { worked: bool },
    Shutdown,
}

/// Whether a daemon is owned once something more happened.
pub open spec fn owned_with(owned: bool, happening: Happening) -> bool {
    match happening {
        Happening::Spawned { worked } => owned || worked,
        Happening::Shutdown => false,
    }
}

impl Supervisor {
    /// Owning nothing.
    pub fn new() -> (r: Supervisor)
        ensures
            !r.owned,
    {
        Supervisor { owned: false }
    }

    /// Start the daemon unless one is already running; `found` is whether there is a binary
    /// to run.
    pub fn ensure_running(&self, running: bool, found: bool) -> (r: Start)
        ensures
            match r {
                Start::Running(note) => running && note@
                    == "attached to a daemon that was already running"@,
                Start::Spawn => !running && found,
                Start::Failed(why) => !running && !found && why@
                    == "could not find the bundled spankd binary"@,
                Start::Wait => false,
            },
    {
        if running {
            Start::Running(owned("attached to a daemon that was already running"))
        } else if found {
            Start::Spawn
        } else {
            Start::Failed(owned("could not find the bundled spankd binary"))
        }
    }

    /// The daemon at `path` was spawned, or could not be.
    pub fn spawned(&mut self, path: &str, outcome: Result<(), String>) -> (r: Start)
        ensures
            final(self).owned == owned_with(
                old(self).owned,
                Happening::Spawned { worked: outcome is Ok },
            ),
            outcome is Ok ==> final(self).owned,
            outcome is Err ==> final(self).owned == old(self).owned,
            match outcome {
                Ok(()) => r is Wait,
                Err(e) => r matches Start::Failed(why) && why@ == "could not start "@ + path@
                    + ": "@ + e@,
            },
    {
        match outcome {
            Ok(()) => {
                self.owned = true;
                Start::Wait
            },
            Err(e) => {
                let mut out: Vec<char> = chars("could not start ");
                put(&mut out, path);
                put(&mut out, ": ");
                put(&mut out, e.as_str());
                Start::Failed(string(out.as_slice()))
            },
        }
    }

    /// Whether the daemon at `path` is listening yet, so the UI does not flash "not
    /// running" on every launch.
    pub fn starting(&self, path: &str, running: bool, elapsed: u64) -> (r: Start)
        ensures
            match r {
                Start::Running(note) => elapsed < STARTUP_TIMEOUT && running && note@ == "started "@
                    + path@,
                Start::Wait => elapsed < STARTUP_TIMEOUT && !running,
                Start::Failed(why) => elapsed >= STARTUP_TIMEOUT && why@
                    == "spankd did not start listening within ten seconds"@,
                Start::Spawn => false,
            },
            r is Failed <==> elapsed >= 10_000_000_000,
    {
        if elapsed >= STARTUP_TIMEOUT {
            return Start::Failed(owned("spankd did not start listening within ten seconds"));
        }
        if running {
            let mut out: Vec<char> = chars("started ");
            put(&mut out, path);
            Start::Running(string(out.as_slice()))
        } else {
            Start::Wait
        }
    }

    /// Stop the daemon, but only if this app started it.
    pub fn shutdown(&mut self) -> (r: Stop)
        ensures
            r == (if old(self).owned {
                Stop::CloseInput
            } else {
                Stop::Done
            }),
            final(self).owned == owned_with(old(self).owned, Happening::Shutdown),
            !final(self).owned,
    {
        if self.owned {
            self.owned = false;
            Stop::CloseInput
        } else {
            // Nothing we started; anything running belongs to launchd or a terminal.
            Stop::Done
        }
    }

    /// Whether the child whose input was closed has gone.
    pub fn stopping(child: Child, elapsed: u64) -> (r: Stop)
        ensures
            r == (if elapsed >= SHUTDOWN_TIMEOUT {
                Stop::Kill
            } else {
                match child {
                    Child::Exited => Stop::Done,
                    Child::Alive => Stop::Wait,
                    Child::Unknown => Stop::Kill,
                }
            }),
            r is Kill <==> elapsed >= 3_000_000_000 || child is Unknown,
    {
        if elapsed >= SHUTDOWN_TIMEOUT {
            return Stop::Kill;
        }
        match child {
            Child::Exited => Stop::Done,
            Child::Alive => Stop::Wait,
            Child::Unknown => Stop::Kill,
        }
    }

    /// Whether this app owns the running daemon.
    pub fn owns_daemon(&self) -> (r: bool)
        ensures
            r == self.owned,
    {
        self.owned
    }
}

/// Where the daemon's binary may be, in the order of preference: next to the app, or in the
/// build directories of a checkout.
pub fn sidecar_paths(dir: &str) -> (r: Vec<String>)
    ensures
        texts(r@) == seq![
            joined(dir@, "spankd"@),
            joined(dir@, "../../../../target/release/spankd"@),
            joined(dir@, "../../../../target/debug/spankd"@),
        ],
{
    let mut r: Vec<String> = Vec::new();
    r.push(join(dir, "spankd"));
    r.push(join(dir, "../../../../target/release/spankd"));
    r.push(join(dir, "../../../../target/debug/spankd"));
    proof {
        assert(texts(r@) =~= seq![
            joined(dir@, "spankd"@),
            joined(dir@, "../../../../target/release/spankd"@),
            joined(dir@, "../../../../target/debug/spankd"@),
        ]);
    }
    r
}

// ---------------------------------------------------------------------------------
// Laws
// ---------------------------------------------------------------------------------

/// Whether a daemon is owned after what happened.
pub open spec fn owned_after(history: Seq<Happening>) -> bool
    decreases history.len(),
{
    if history.len() == 0 {
        false
    } else {
        owned_with(owned_after(history.drop_last()), history.last())
    }
}

/// Whether the spawn at position `i` worked, and no shutdown came after it.
pub open spec fn still_ours(history: Seq<Happening>, i: int) -> bool {
    &&& 0 <= i < history.len()
    &&& history[i] == (Happening::Spawned { worked: true })
    &&& forall|j: int| i < j < history.len() ==> !(#[trigger] history[j] is Shutdown)
}

/// We only kill what we started: a shutdown touches a process only where a spawn of ours
/// worked since the last one.
pub proof fn only_what_we_started(history: Seq<Happening>)
    requires
        owned_after(history),
    ensures
        exists|i: int| still_ours(history, i),
    decreases history.len(),
{
    let n = history.len() as int;
    let rest = history.drop_last();
    if history.last() == (Happening::Spawned { worked: true }) {
        assert(still_ours(history, n - 1));
    } else {
        only_what_we_started(rest);
        let i = choose|i: int| still_ours(rest, i);
        assert(history[i] == rest[i]);
        assert forall|j: int| i < j < history.len() implies !(#[trigger] history[j] is Shutdown) by {
            if j < rest.len() {
                assert(history[j] == rest[j]);
            }
        }
        assert(still_ours(history, i));
    }
}

/// What we started we own until we stop it: a spawn that worked, with no shutdown after it,
/// leaves the daemon ours; and a shutdown leaves nothing ours.
pub proof fn ours_until_stopped(history: Seq<Happening>, i: int)
    ensures
        still_ours(history, i) ==> owned_after(history),
        history.len() > 0 && history.last() is Shutdown ==> !owned_after(history),
        history.len() == 0 ==> !owned_after(history),
    decreases history.len(),
{
    if still_ours(history, i) && i < history.len() - 1 {
        let rest = history.drop_last();
        assert forall|j: int| i < j < rest.len() implies !(#[trigger] rest[j] is Shutdown) by {
            assert(history[j] == rest[j]);
        }
        assert(rest[i] == history[i]);
        ours_until_stopped(rest, i);
        assert(!(history[history.len() - 1] is Shutdown));
    }
}

} // verus!
