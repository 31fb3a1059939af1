//! The control socket: what each request does.
//!
//! Clients connect, optionally subscribe to slaps and telemetry, and can read or replace
//! the configuration.
use vstd::prelude::*;

use crate::config::{
    a_config_is_its_fields, current, normalize_keeps_what_was_set, problem, same_but_files,
    ConfigModel, DaemonConfig,
};
use crate::protocol::{Event, Request, Said, Status};
use crate::scalar::{clamping_stays_in_range, magnitude_order, Scalar, ONE, ZERO};
use crate::text::{chars, put, string, trim, trimmed};

verus! {

// ---------------------------------------------------------------------------------
// Claiming the socket
// ---------------------------------------------------------------------------------

/// What to do about the path of the socket.
#[derive(Debug, PartialEq, Eq)]
pub enum Claim {
    /// Nothing is there.
    Bind,
    /// A crash left it behind: remove it first.
    Reclaim,
    /// Another daemon is listening.
    Refuse(String),
}

/// What to do about a path that may be there, and may be answered when connected to.
///
/// A socket file left behind by a crash is not evidence that another daemon is running, so
/// it is probed first: if nothing answers, the path is ours to reclaim.
pub fn claim(path: &str, exists: bool, answered: bool) -> (r: Claim)
    ensures
        match r {
            Claim::Bind => !exists,
            Claim::Reclaim => exists && !answered,
            Claim::Refuse(message) => exists && answered && message@
                == "another spankd is already listening on "@ + path@,
        },
{
    if !exists {
        Claim::Bind
    } else if answered {
        let mut out: Vec<char> = chars("another spankd is already listening on ");
        put(&mut out, path);
        Claim::Refuse(string(out.as_slice()))
    } else {
        Claim::Reclaim
    }
}

/// Whether a connection is our own user's: `rc` and `uid` are what asking for the peer's
/// credentials gave, `euid` is who we are.
///
/// Belt and braces alongside the owner-only socket mode.
pub fn peer_is_owner(rc: i32, uid: u32, euid: u32) -> (r: bool)
    ensures
        r == (rc == 0 && uid == euid),
{
    rc == 0 && uid == euid
}

// ---------------------------------------------------------------------------------
// Subscriptions
// ---------------------------------------------------------------------------------

/// Per-connection subscription state.
#[derive(Debug, Clone, Copy, PartialEq, Eq, Structural)]
pub struct Subscription {
    pub slaps: bool,
    pub telemetry: bool,
}

/// One for a connection that wants telemetry.
pub open spec fn weight(sub: Subscription) -> nat {
    if sub.telemetry {
        1
    } else {
        0
    }
}

/// How many of the connections want telemetry.
pub open spec fn watchers(subs: Seq<Subscription>) -> nat
    decreases subs.len(),
{
    if subs.len() == 0 {
        0
    } else {
        watchers(subs.drop_last()) + weight(subs.last())
    }
}

/// Whether a connection receives an event unasked.
pub open spec fn wanted(sub: Subscription, event: Said) -> bool {
    match event {
        Said::Slap { .. } => sub.slaps,
        Said::Telemetry { .. } => sub.telemetry,
        _ => false,
    }
}

impl Subscription {
    /// A connection that has asked for nothing yet.
    pub fn new() -> (r: Subscription)
        ensures
            !r.slaps && !r.telemetry,
    {
        Subscription { slaps: false, telemetry: false }
    }

    /// Changes what the connection receives; `counter` is how many connections want
    /// telemetry.
    pub fn set(&mut self, slaps: bool, telemetry: bool, counter: &mut usize)
        requires
            weight(*old(self)) <= *old(counter),
            *old(counter) - weight(*old(self)) + 1 <= usize::MAX,
        ensures
            *final(self) == (Subscription { slaps, telemetry }),
            *final(counter) == *old(counter) - weight(*old(self)) + weight(*final(self)),
    {
        if telemetry && !self.telemetry {
            *counter = *counter + 1;
        } else if !telemetry && self.telemetry {
            *counter = *counter - 1;
        }
        self.slaps = slaps;
        self.telemetry = telemetry;
    }

    /// Whether the connection receives an event unasked.
    pub fn wants(&self, event: &Event) -> (r: bool)
        ensures
            r == wanted(*self, event@),
    {
        match event {
            Event::Slap(_) => self.slaps,
            Event::Telemetry(_) => self.telemetry,
            // Config, status and errors are replies, not subscriptions.
            _ => false,
        }
    }

    /// Ends the connection.
    ///
    /// On any disconnect, an abrupt one too — otherwise a client that crashes
    /// mid-subscription leaves the daemon generating telemetry forever.
    pub fn close(self, counter: &mut usize)
        requires
            weight(self) <= *old(counter),
        ensures
            *final(counter) == *old(counter) - weight(self),
    {
        if self.telemetry {
            *counter = *counter - 1;
        }
    }
}

// ---------------------------------------------------------------------------------
// Requests
// ---------------------------------------------------------------------------------

/// What requests read and change.
#[derive(Debug, PartialEq, Eq)]
pub struct Shared {
    /// The configuration in force.
    pub config: DaemonConfig,
    /// Live status, refreshed by the detector loop.
    pub status: Status,
}

/// What a request asks for next.
#[derive(Debug, PartialEq, Eq)]
pub enum Step {
    /// Nothing.
    Silent,
    /// Send this to the client.
    Reply(Event),
    /// Run one action as a preview.
    Preview { id: String, intensity: Scalar },
    /// Write the configuration, then go on with [`Shared::finish`]. Where it is `required`,
    /// a failed write is a failed change.
    Save { config: DaemonConfig, required: bool },
}

/// What a request asks for next, as a model.
#[verifier::ext_equal]
pub enum Next {
    Silent,
    Reply { event: Said },
    Preview { id: Seq<char>, intensity: Scalar },
    Save { config: ConfigModel, required: bool },
}

impl View for Step {
    type V = Next;

    open spec fn view(&self) -> Next {
        match self {
            Step::Silent => Next::Silent,
            Step::Reply(event) => Next::Reply { event: event@ },
            Step::Preview { id, intensity } => Next::Preview { id: id@, intensity: *intensity },
            Step::Save { config, required } => Next::Save { config: config@, required: *required },
        }
    }
}

/// An error for the client.
pub open spec fn complaint(message: Seq<char>) -> Next {
    Next::Reply { event: Said::Error { message } }
}

/// Whether a configuration has an action with the given id.
pub open spec fn has_action(c: ConfigModel, id: Seq<char>) -> bool {
    exists|i: int| 0 <= i < c.actions.len() && (#[trigger] c.actions[i]).id == id
}

/// What a request asks for; `slider` is how the sensitivity of the configuration in it is
/// written.
pub open spec fn answer(request: Request, slider: Seq<char>, shared: Shared) -> Next {
    match request {
        Request::Ping => Next::Reply { event: Said::Pong },
        Request::GetConfig => Next::Reply { event: Said::Config { config: shared.config@ } },
        Request::GetStatus => Next::Reply { event: Said::Status { status: shared.status@ } },
        Request::SetConfig { config } => {
            let c = current(config@);
            match problem(c, slider) {
                Some(p) => complaint("rejected: "@ + p),
                None => Next::Save { config: c, required: true },
            }
        },
        Request::SetEnabled { value } => Next::Save {
            config: ConfigModel { enabled: value, ..shared.config@ },
            required: false,
        },
        Request::Subscribe { .. } => Next::Silent,
        Request::TestAction { id, intensity } => if has_action(shared.config@, id@) {
            Next::Preview {
                id: id@,
                intensity: intensity.clamped(Scalar { bits: ZERO }, Scalar { bits: ONE }),
            }
        } else {
            complaint("no action with id `"@ + id@ + "`"@)
        },
    }
}

/// What a connection receives after a request.
pub open spec fn subscribed(sub: Subscription, request: Request) -> Subscription {
    match request {
        Request::Subscribe { slaps, telemetry } => Subscription { slaps, telemetry },
        _ => sub,
    }
}

/// Handles one request; see [`Step`] for what is left to do.
pub fn handle_request(
    request: Request,
    slider: &str,
    shared: &Shared,
    sub: &mut Subscription,
    counter: &mut usize,
) -> (r: Step)
    requires
        weight(*old(sub)) <= *old(counter),
        *old(counter) - weight(*old(sub)) + 1 <= usize::MAX,
    ensures
        r@ == answer(request, slider@, *shared),
        *final(sub) == subscribed(*old(sub), request),
        *final(counter) == *old(counter) - weight(*old(sub)) + weight(*final(sub)),
{
    match request {
        Request::Ping => Step::Reply(Event::Pong),
        Request::GetConfig => Step::Reply(Event::Config { config: shared.config.clone() }),
        Request::GetStatus => Step::Reply(Event::Status(shared.status.clone())),
        Request::SetConfig { config } => {
            let mut config = config;
            config.normalize();
            match config.validate(slider) {
                Err(e) => {
                    let mut out: Vec<char> = chars("rejected: ");
                    put(&mut out, e.as_str());
                    Step::Reply(Event::Error { message: string(out.as_slice()) })
                },
                Ok(()) => Step::Save { config, required: true },
            }
        },
        Request::SetEnabled { value } => {
            let mut config: DaemonConfig = shared.config.clone();
            config.enabled = value;
            Step::Save { config, required: false }
        },
        Request::Subscribe { slaps, telemetry } => {
            sub.set(slaps, telemetry, counter);
            Step::Silent
        },
        Request::TestAction { id, intensity } => {
            match shared.config.action(id.as_str()) {
                Some(a) => {
                    proof {
                        let i = choose|i: int|
                            0 <= i < shared.config.actions@.len() && *a
                                == #[trigger] shared.config.actions@[i];
                        assert(shared.config@.actions[i].id == id@);
                    }
                    Step::Preview {
                        id,
                        intensity: intensity.clamp(Scalar { bits: ZERO }, Scalar { bits: ONE }),
                    }
                },
                None => {
                    proof {
                        assert forall|i: int| 0 <= i < shared.config@.actions.len() implies (
                        #[trigger] shared.config@.actions[i]).id != id@ by {
                            assert(shared.config.actions@[i].id@ != id@);
                        }
                    }
                    let mut out: Vec<char> = chars("no action with id `");
                    put(&mut out, id.as_str());
                    put(&mut out, "`");
                    Step::Reply(Event::Error { message: string(out.as_slice()) })
                },
            }
        },
    }
}

/// What a saved, or not saved, configuration is answered with.
pub open spec fn concluded(
    config: ConfigModel,
    required: bool,
    written: Result<(), Seq<char>>,
) -> Said {
    match written {
        Err(e) => if required {
            Said::Error { message: "could not save config: "@ + e }
        } else {
            Said::Config { config }
        },
        Ok(()) => Said::Config { config },
    }
}

/// The model of a write.
pub open spec fn write_of(written: Result<(), String>) -> Result<(), Seq<char>> {
    match written {
        Ok(()) => Ok(()),
        Err(e) => Err(e@),
    }
}

impl Shared {
    /// Goes on after a [`Step::Save`] whose write went as `written` says. The configuration
    /// in force changes just where the client is told so.
    pub fn finish(
        &mut self,
        config: DaemonConfig,
        required: bool,
        written: Result<(), String>,
    ) -> (r: Event)
        ensures
            r@ == concluded(config@, required, write_of(written)),
            final(self).config@ == (if r@ is Config {
                config@
            } else {
                old(self).config@
            }),
            required && written is Err ==> final(self).config@ == old(self).config@,
            !(required && written is Err) ==> final(self).config@ == config@,
            final(self).status == old(self).status,
    {
        if required {
            match written {
                Err(e) => {
                    // Applying it anyway would silently revert on restart, so treat a
                    // failed write as a failed change.
                    let mut out: Vec<char> = chars("could not save config: ");
                    put(&mut out, e.as_str());
                    return Event::Error { message: string(out.as_slice()) };
                },
                Ok(()) => {},
            }
        }
        let applied: DaemonConfig = config.clone();
        self.config = config;
        Event::Config { config: applied }
    }
}

/// Whether a line from a client holds anything.
pub fn is_blank(line: &str) -> (r: bool)
    ensures
        r == (trimmed(line@).len() == 0),
{
    let v: Vec<char> = chars(line);
    trim(v.as_slice()).len() == 0
}

/// The reply to a line that is no request; `e` says why.
pub fn not_understood(e: &str) -> (r: Event)
    ensures
        r@ == (Said::Error { message: "could not parse request: "@ + e@ }),
{
    let mut out: Vec<char> = chars("could not parse request: ");
    put(&mut out, e);
    Event::Error { message: string(out.as_slice()) }
}

// ---------------------------------------------------------------------------------
// Laws
// ---------------------------------------------------------------------------------

/// Replies are never delivered to anyone who merely subscribed.
pub proof fn replies_are_not_broadcast(sub: Subscription, event: Said)
    ensures
        wanted(sub, event) ==> event is Slap || event is Telemetry,
{
}

/// A rejected configuration is answered with an error, and asks for nothing to be written.
pub proof fn rejected_changes_nothing(
    request: Request,
    slider: Seq<char>,
    shared: Shared,
)
    requires
        request is SetConfig,
        problem(current(request->config@), slider) is Some,
    ensures
        answer(request, slider, shared) is Reply,
        answer(request, slider, shared)->event is Error,
{
}

/// The count of telemetry watchers follows one connection's change: it grows by what the
/// connection now weighs, and shrinks by what it weighed.
pub proof fn count_follows_connections(subs: Seq<Subscription>, i: int, now: Subscription)
    requires
        0 <= i < subs.len(),
    ensures
        watchers(subs.update(i, now)) == watchers(subs) - weight(subs[i]) + weight(now),
        weight(subs[i]) <= watchers(subs),
    decreases subs.len(),
{
    let next = subs.update(i, now);
    if i == subs.len() - 1 {
        assert(next.drop_last() =~= subs.drop_last());
    } else {
        count_follows_connections(subs.drop_last(), i, now);
        assert(next.drop_last() =~= subs.drop_last().update(i, now));
    }
}

/// A connection that goes away takes its watcher with it, and one that asked for nothing
/// leaves the count alone.
pub proof fn closing_releases(subs: Seq<Subscription>, i: int)
    requires
        0 <= i < subs.len(),
    ensures
        watchers(subs.remove(i)) == watchers(subs) - weight(subs[i]),
    decreases subs.len(),
{
    let rest = subs.remove(i);
    if i == subs.len() - 1 {
        assert(rest =~= subs.drop_last());
    } else {
        closing_releases(subs.drop_last(), i);
        assert(rest.drop_last() =~= subs.drop_last().remove(i));
        assert(rest.last() == subs.last());
    }
}

/// A configuration is written exactly when it is valid once normalized, and then it is the
/// one that was sent: what it switches, counts and names is as the client set it, and a
/// failed write fails the change.
pub proof fn valid_config_is_saved(request: Request, slider: Seq<char>, shared: Shared, i: int)
    requires
        request is SetConfig,
    ensures
        answer(request, slider, shared) is Save <==> problem(
            current(request->config@),
            slider,
        ) is None,
        answer(request, slider, shared) is Save || answer(request, slider, shared) is Reply,
        answer(request, slider, shared) matches Next::Save { config, required } ==> {
            let sent = request->config@;
            &&& required
            &&& config.schema_version == 1
            &&& config.enabled == sent.enabled
            &&& config.detector == sent.detector
            &&& config.report_interval_us == sent.report_interval_us
            &&& config.actions.len() == sent.actions.len()
            &&& 0 <= i < sent.actions.len() ==> same_but_files(sent.actions[i], config.actions[i])
        },
        answer(request, slider, shared) matches Next::Reply { event } ==> {
            &&& event is Error
            &&& problem(current(request->config@), slider) is Some
            &&& event->message == "rejected: "@ + problem(current(request->config@), slider)->0
        },
{
    normalize_keeps_what_was_set(request->config@, i);
}

/// Switching detection on or off changes the switch and nothing else, and holds even where
/// it cannot be written.
pub proof fn switching_changes_only_the_switch(value: bool, slider: Seq<char>, shared: Shared)
    ensures
        answer(Request::SetEnabled { value }, slider, shared) matches Next::Save {
            config,
            required,
        } && {
            &&& !required
            &&& config.enabled == value
            &&& config.schema_version == shared.config.schema_version
            &&& config.detector == shared.config.detector
            &&& config.actions == shared.config@.actions
            &&& config.report_interval_us == shared.config.report_interval_us
        },
{
}

/// A preview is run exactly where an action has the id asked for; its intensity lies between
/// zero and one, and is the one asked for where that already does.
pub proof fn previews_need_an_action(
    id: String,
    intensity: Scalar,
    slider: Seq<char>,
    shared: Shared,
)
    ensures
        answer(Request::TestAction { id, intensity }, slider, shared) is Preview <==> exists|i: int|
            0 <= i < shared.config.actions@.len() && (#[trigger] shared.config.actions@[i]).id@
                == id@,
        answer(Request::TestAction { id, intensity }, slider, shared) matches Next::Preview {
            id: named,
            intensity: x,
        } ==> {
            let one = (Scalar { bits: 0x3f80_0000 }).value();
            &&& named == id@
            &&& intensity.nan() ==> x == intensity
            &&& !intensity.nan() ==> 0 <= x.value() <= one
            &&& !intensity.nan() && 0 <= intensity.value() <= one ==> x == intensity
            &&& !intensity.nan() && intensity.value() < 0 ==> x.value() == 0
            &&& !intensity.nan() && intensity.value() > one ==> x.value() == one
        },
        answer(Request::TestAction { id, intensity }, slider, shared) is Preview || answer(
            Request::TestAction { id, intensity },
            slider,
            shared,
        ) == (Next::Reply {
            event: Said::Error { message: "no action with id `"@ + id@ + "`"@ },
        }),
{
    let c = shared.config;
    a_config_is_its_fields(c, 0);
    assert forall|i: int| 0 <= i < c.actions@.len() implies (#[trigger] c@.actions[i]).id
        == c.actions@[i].id@ by {
        a_config_is_its_fields(c, i);
    }
    if exists|i: int| 0 <= i < c.actions@.len() && (#[trigger] c.actions@[i]).id@ == id@ {
        let i = choose|i: int| 0 <= i < c.actions@.len() && (#[trigger] c.actions@[i]).id@ == id@;
        assert(c@.actions[i].id == id@);
    }
    let zero = Scalar { bits: 0 };
    let one = Scalar { bits: 0x3f80_0000 };
    assert(zero.magnitude() == 0);
    assert(zero.value() == 0);
    magnitude_order(0, one.magnitude(), 0x80_0000);
    clamping_stays_in_range(intensity, zero, one);
}

/// Questions are answered with what they ask for, and change nothing.
pub proof fn questions_are_answered(slider: Seq<char>, shared: Shared)
    ensures
        answer(Request::Ping, slider, shared) matches Next::Reply { event } && event is Pong,
        answer(Request::GetConfig, slider, shared) matches Next::Reply { event } && event is Config
            && event->config == shared.config@,
        answer(Request::GetStatus, slider, shared) matches Next::Reply { event } && event is Status
            && event->status == shared.status@,
{
}

/// What a connection receives changes with its own subscription requests and with no other,
/// and then is exactly what it asked for.
pub proof fn only_subscribing_subscribes(sub: Subscription, request: Request, event: Said)
    ensures
        request !is Subscribe ==> subscribed(sub, request) == sub,
        request matches Request::Subscribe { slaps, telemetry } ==> {
            &&& wanted(subscribed(sub, request), event) <==> (event is Slap && slaps) || (
            event is Telemetry && telemetry)
            &&& weight(subscribed(sub, request)) == 1 <==> telemetry
        },
        weight(sub) <= 1,
{
}

/// The client is told of an error exactly when a change that had to be written was not, and
/// is told why; otherwise it is shown the configuration it asked for.
pub proof fn a_change_is_confirmed(
    config: ConfigModel,
    required: bool,
    written: Result<(), Seq<char>>,
)
    ensures
        concluded(config, required, written) is Error <==> required && written is Err,
        concluded(config, required, written) is Error ==> concluded(
            config,
            required,
            written,
        )->message == "could not save config: "@ + written->Err_0,
        concluded(config, required, written) !is Error ==> concluded(config, required, written)
            is Config && concluded(config, required, written)->config == config,
{
}

/// The count of telemetry watchers grows by one with a connection that wants telemetry, and
/// stays with one that does not.
pub proof fn each_watcher_counts_once(subs: Seq<Subscription>, sub: Subscription)
    ensures
        watchers(Seq::<Subscription>::empty()) == 0,
        sub.telemetry ==> watchers(subs.push(sub)) == watchers(subs) + 1,
        !sub.telemetry ==> watchers(subs.push(sub)) == watchers(subs),
{
    assert(subs.push(sub).drop_last() =~= subs);
}

/// The model of a step shows what the step holds.
pub proof fn a_step_is_its_fields(step: Step)
    ensures
        step is Silent <==> step@ is Silent,
        step is Reply <==> step@ is Reply,
        step is Preview <==> step@ is Preview,
        step is Save <==> step@ is Save,
        step matches Step::Reply(event) ==> step@->event == event@,
        step matches Step::Preview { id, intensity } ==> step@->id == id@ && step@->intensity
            == intensity,
        step matches Step::Save { config, required } ==> step@->config == config@ && step@->required
            == required,
{
}

} // verus!
