//! The menu bar app's connection to the daemon.
//!
//! The app is a *controller*, not the detector — everything real happens in the daemon. It
//! attaches when it can, reconnects when it can't, and never assumes the daemon is there.
//!
//! Two channels run over the one socket: request and reply for config and status, and a
//! subscription stream for slaps and telemetry. Telemetry is only requested while a window
//! is actually visible, because it is the only thing that costs the daemon anything.
use vstd::prelude::*;

use crate::client::heard;
use crate::config::DaemonConfig;
use crate::protocol::{Event, Said, Status};
use crate::text::{chars, is_str, owned, put, string, trim, trim_end, trimmed, trimmed_end};

verus! {

/// Shared connection state.
#[derive(Debug, Clone, Copy, PartialEq, Eq, Structural)]
pub struct Daemon {
    /// Whether the subscription stream is currently connected.
    pub connected: bool,
    /// Whether anyone wants telemetry right now.
    pub want_telemetry: bool,
    /// Whether the scope is the section currently on screen.
    ///
    /// ANDed with window visibility, so telemetry stops both when the window is hidden
    /// and when the user is looking at a different section.
    pub scope_visible: bool,
}

impl Daemon {
    /// Not connected yet, with the scope on screen.
    pub fn new() -> (r: Daemon)
        ensures
            r == (Daemon { connected: false, want_telemetry: false, scope_visible: true }),
    {
        Daemon { connected: false, want_telemetry: false, scope_visible: true }
    }

    /// Whether the subscription stream is live.
    pub fn is_connected(&self) -> (r: bool)
        ensures
            r == self.connected,
    {
        self.connected
    }

    /// Notes whether the subscription stream is live.
    pub fn set_connected(&mut self, connected: bool)
        ensures
            *final(self) == (Daemon { connected, ..*old(self) }),
    {
        self.connected = connected;
    }

    /// Ask the daemon to start or stop streaming telemetry to us: only while the scope is
    /// on screen.
    pub fn set_telemetry(&mut self, want: bool)
        ensures
            *final(self) == (Daemon {
                want_telemetry: want && old(self).scope_visible,
                ..*old(self)
            }),
    {
        self.want_telemetry = want && self.scope_visible;
    }

    /// Record whether the scope section is on screen.
    pub fn set_scope_visible(&mut self, visible: bool)
        ensures
            *final(self) == (Daemon { scope_visible: visible, ..*old(self) }),
    {
        self.scope_visible = visible;
    }
}

// ---------------------------------------------------------------------------------
// The stream
// ---------------------------------------------------------------------------------

/// Why a read gave no full line.
#[derive(Debug, PartialEq, Eq)]
pub enum ReadError {
    WouldBlock,
    TimedOut,
    Other(String),
}

/// Whether a read merely ran out of time.
pub fn is_timeout(e: &ReadError) -> (r: bool)
    ensures
        r == (e is WouldBlock || e is TimedOut),
{
    match e {
        ReadError::WouldBlock => true,
        ReadError::TimedOut => true,
        ReadError::Other(_) => false,
    }
}

/// What to do after a read.
#[derive(Debug, PartialEq, Eq)]
pub enum Next {
    /// Nothing yet: read on.
    Continue,
    /// A whole line came in.
    Frame(String),
    /// The stream is over.
    End(String),
}

/// The subscription stream.
///
/// A read timeout is what lets the loop notice that the telemetry subscription needs
/// changing, but it also means a read can end mid-frame with part of it already taken from
/// the socket. That part is held here until the rest arrives. Throwing it away would leave
/// the rest to be parsed as a truncated line — which silently shreds exactly the large,
/// frequent telemetry frames while letting small, rare events through.
#[derive(Debug, PartialEq, Eq)]
pub struct Stream {
    /// What has arrived of the current line.
    pub line: Vec<char>,
    /// What the daemon was last asked for.
    pub subscribed_telemetry: bool,
}

/// A line of which `line` had arrived, with the `chunk` that arrived next.
pub open spec fn resumed(line: Seq<char>, chunk: Seq<char>) -> Seq<char> {
    line + chunk
}

impl Stream {
    /// A stream just subscribed.
    pub fn new(telemetry: bool) -> (r: Stream)
        ensures
            r.line@.len() == 0,
            r.subscribed_telemetry == telemetry,
    {
        Stream { line: Vec::new(), subscribed_telemetry: telemetry }
    }

    /// Whether the daemon must be asked for something else.
    pub fn resubscribe(&mut self, wanted: bool) -> (ask: bool)
        ensures
            ask == (wanted != old(self).subscribed_telemetry),
            final(self).subscribed_telemetry == wanted,
            final(self).line == old(self).line,
    {
        let ask: bool = wanted != self.subscribed_telemetry;
        self.subscribed_telemetry = wanted;
        ask
    }

    /// After a read that took `chunk` from the socket and then ended as `read` says: `Ok`
    /// at the end of a line, or of the stream where nothing was taken.
    pub fn on_read(&mut self, chunk: &str, read: Result<(), ReadError>) -> (r: Next)
        ensures
            final(self).subscribed_telemetry == old(self).subscribed_telemetry,
            match read {
                Ok(()) => if chunk@.len() == 0 {
                    r matches Next::End(why) && why@ == "daemon closed the connection"@
                } else {
                    &&& r matches Next::Frame(f) && f@ == trimmed_end(resumed(old(self).line@, chunk@))
                    &&& final(self).line@.len() == 0
                },
                Err(e) => match e {
                    ReadError::Other(why) => r matches Next::End(m) && m@ == why@,
                    _ => r is Continue && final(self).line@ == resumed(old(self).line@, chunk@),
                },
            },
            r matches Next::Frame(f) ==> f@ == trimmed_end(old(self).line@ + chunk@),
            r is Continue ==> final(self).line@ == old(self).line@ + chunk@,
            r is End ==> final(self).line@ == old(self).line@ + chunk@,
    {
        put(&mut self.line, chunk);
        match read {
            Ok(()) => {
                let c: Vec<char> = chars(chunk);
                if c.len() == 0 {
                    return Next::End(owned("daemon closed the connection"));
                }
                let f: String = string(trim_end(self.line.as_slice()));
                self.line.clear();
                Next::Frame(f)
            },
            Err(e) => match e {
                ReadError::Other(why) => Next::End(why),
                _ => Next::Continue,
            },
        }
    }
}

/// Chunks one after the other.
pub open spec fn together(chunks: Seq<Seq<char>>) -> Seq<char>
    decreases chunks.len(),
{
    if chunks.len() == 0 {
        Seq::empty()
    } else {
        together(chunks.drop_last()) + chunks.last()
    }
}

/// What is held of a line after reads that each ran out of time.
pub open spec fn held(chunks: Seq<Seq<char>>) -> Seq<char>
    decreases chunks.len(),
{
    if chunks.len() == 0 {
        Seq::empty()
    } else {
        resumed(held(chunks.drop_last()), chunks.last())
    }
}

/// However many timeouts cut a line into pieces, and wherever, nothing of it is lost: the
/// frame is the whole line.
pub proof fn timeouts_lose_nothing(chunks: Seq<Seq<char>>, rest: Seq<char>)
    ensures
        trimmed_end(resumed(held(chunks), rest)) == trimmed_end(together(chunks.push(rest))),
{
    assert(chunks.push(rest).drop_last() =~= chunks);
    held_is_together(chunks);
}

proof fn held_is_together(chunks: Seq<Seq<char>>)
    ensures
        held(chunks) == together(chunks),
    decreases chunks.len(),
{
    if chunks.len() > 0 {
        held_is_together(chunks.drop_last());
    }
}

/// The name under which an event is handed to the webview; none for a reply that only says
/// the daemon is there.
pub fn channel(event: &Event) -> (r: Option<&'static str>)
    ensures
        match r {
            None => event@ is Pong,
            Some(name) => name@ == match event@ {
                Said::Slap { .. } => "spank"@,
                Said::Telemetry { .. } => "telemetry"@,
                Said::Config { .. } => "config"@,
                Said::Status { .. } => "status"@,
                Said::Error { .. } => "daemon-error"@,
                Said::Pong => Seq::empty(),
            } && !(event@ is Pong),
        },
{
    match event {
        Event::Slap(_) => Some("spank"),
        Event::Telemetry(_) => Some("telemetry"),
        Event::Config { .. } => Some("config"),
        Event::Status(_) => Some("status"),
        Event::Error { .. } => Some("daemon-error"),
        Event::Pong => None,
    }
}

// ---------------------------------------------------------------------------------
// Replies
// ---------------------------------------------------------------------------------

/// The complaint about a daemon that cannot be reached.
pub fn not_running(e: &str) -> (r: String)
    ensures
        r@ == "yamete is not running ("@ + e@ + "). Start it with `yamete install --copy`."@,
{
    let mut out: Vec<char> = chars("yamete is not running (");
    put(&mut out, e);
    put(&mut out, "). Start it with `yamete install --copy`.");
    string(out.as_slice())
}

fn unexpected(shown: &str) -> (r: String)
    ensures
        r@ == "unexpected reply: "@ + shown@,
{
    let mut out: Vec<char> = chars("unexpected reply: ");
    put(&mut out, shown);
    string(out.as_slice())
}

/// The configuration in a reply; `shown` is how the reply prints.
pub fn config_reply(reply: Result<Event, String>, shown: &str) -> (r: Result<DaemonConfig, String>)
    ensures
        match r {
            Ok(c) => heard(reply) == Ok::<Said, Seq<char>>(Said::Config { config: c@ }),
            Err(e) => match heard(reply) {
                Ok(Said::Config { .. }) => false,
                Ok(Said::Error { message }) => e@ == message,
                Ok(_) => e@ == "unexpected reply: "@ + shown@,
                Err(why) => e@ == why,
            },
        },
{
    match reply {
        Ok(Event::Config { config }) => Ok(config),
        Ok(Event::Error { message }) => Err(message),
        Ok(_) => Err(unexpected(shown)),
        Err(e) => Err(e),
    }
}

/// The status in a reply; `shown` is how the reply prints.
pub fn status_reply(reply: Result<Event, String>, shown: &str) -> (r: Result<Status, String>)
    ensures
        match r {
            Ok(s) => heard(reply) == Ok::<Said, Seq<char>>(Said::Status { status: s@ }),
            Err(e) => match heard(reply) {
                Ok(Said::Status { .. }) => false,
                Ok(Said::Error { message }) => e@ == message,
                Ok(_) => e@ == "unexpected reply: "@ + shown@,
                Err(why) => e@ == why,
            },
        },
{
    match reply {
        Ok(Event::Status(s)) => Ok(s),
        Ok(Event::Error { message }) => Err(message),
        Ok(_) => Err(unexpected(shown)),
        Err(e) => Err(e),
    }
}

/// Whether a preview was accepted; `shown` is how the reply prints. Connect and write
/// failures and unknown action ids must surface.
pub fn test_reply(reply: Result<Event, String>, shown: &str) -> (r: Result<(), String>)
    ensures
        match r {
            Ok(()) => heard(reply) == Ok::<Said, Seq<char>>(Said::Pong),
            Err(e) => match heard(reply) {
                Ok(Said::Pong) => false,
                Ok(Said::Error { message }) => e@ == message,
                Ok(_) => e@ == "unexpected reply: "@ + shown@,
                Err(why) => e@ == why,
            },
        },
{
    match reply {
        Ok(Event::Pong) => Ok(()),
        Ok(Event::Error { message }) => Err(message),
        Ok(_) => Err(unexpected(shown)),
        Err(e) => Err(e),
    }
}

/// What to switch detection to, by the configuration in a reply; nothing where there is
/// none.
pub fn toggled(reply: &Result<Event, String>) -> (r: Option<bool>)
    ensures
        match heard(*reply) {
            Ok(Said::Config { config }) => r == Some(!config.enabled),
            _ => r is None,
        },
{
    match reply {
        Ok(Event::Config { config }) => Some(!config.enabled),
        _ => None,
    }
}

// ---------------------------------------------------------------------------------
// The menu bar item
// ---------------------------------------------------------------------------------

/// What a menu item does.
#[derive(Debug, Clone, Copy, PartialEq, Eq, Structural)]
pub enum MenuAction {
    Open,
    Toggle,
    Logs,
    Quit,
    Nothing,
}

/// What the menu item with an id does.
pub fn menu_action(id: &str) -> (r: MenuAction)
    ensures
        r == (if id@ == "open"@ {
            MenuAction::Open
        } else if id@ == "toggle"@ {
            MenuAction::Toggle
        } else if id@ == "logs"@ {
            MenuAction::Logs
        } else if id@ == "quit"@ {
            MenuAction::Quit
        } else {
            MenuAction::Nothing
        }),
{
    let v: Vec<char> = chars(id);
    let id = v.as_slice();
    if is_str(id, "open") {
        MenuAction::Open
    } else if is_str(id, "toggle") {
        MenuAction::Toggle
    } else if is_str(id, "logs") {
        MenuAction::Logs
    } else if is_str(id, "quit") {
        MenuAction::Quit
    } else {
        MenuAction::Nothing
    }
}

// ---------------------------------------------------------------------------------
// One controller at a time
// ---------------------------------------------------------------------------------

/// Outcome of the startup check.
#[derive(Debug, Clone, Copy, PartialEq, Eq, Structural)]
pub enum Instance {
    /// We are the only one.
    First,
    /// We are the only one; a crash left the socket behind, and it is to be removed.
    Reclaim,
    /// Another instance is running, and is to be asked to show itself.
    Second,
}

/// Whether this process should run. A socket file is not proof of a live process — it
/// survives a crash — so it is probed.
pub fn acquire(exists: bool, answered: bool) -> (r: Instance)
    ensures
        r == (if !exists {
            Instance::First
        } else if answered {
            Instance::Second
        } else {
            Instance::Reclaim
        }),
{
    if !exists {
        Instance::First
    } else if answered {
        Instance::Second
    } else {
        Instance::Reclaim
    }
}

/// Whether a line from a later launch asks us to show the window.
pub fn asks_to_show(line: &str) -> (r: bool)
    ensures
        r == (trimmed(line@) == "show"@),
{
    let v: Vec<char> = chars(line);
    is_str(trim(v.as_slice()), "show")
}

/// A frame of pieces is the pieces in the order in which they came, whatever their number.
pub proof fn pieces_stay_in_order(chunks: Seq<Seq<char>>, chunk: Seq<char>)
    ensures
        held(Seq::<Seq<char>>::empty()).len() == 0,
        held(chunks.push(chunk)) == held(chunks) + chunk,
        together(chunks.push(chunk)) == together(chunks) + chunk,
{
    assert(chunks.push(chunk).drop_last() =~= chunks);
}

} // verus!
