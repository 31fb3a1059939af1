//! Messages between the daemon and anything that controls it.
//!
//! The protocol is newline-delimited JSON over a unix domain socket: one object per line,
//! bidirectional, no framing beyond the newline. That choice is deliberate — it means the
//! daemon can be driven and debugged with `nc -U` and a keyboard, which matters a lot for
//! something whose failure mode is "it silently stopped noticing slaps".
use vstd::prelude::*;
use vstd::utf8::{encode_utf8, is_ascii_chars_encode_utf8};

use crate::config::{ConfigModel, DaemonConfig};
use crate::detector::{Detection, Scores, Tier};
use crate::paths::{join, joined, joining_keeps_both};
use crate::scalar::{Scalar, Scalar64, HALF};
use crate::text::{chars, contains, occurs_at, owned, put, string};

verus! {

// ---------------------------------------------------------------------------------
// Places
// ---------------------------------------------------------------------------------

/// Where config, logs and the socket live, for a home directory. Without one, or with one
/// that is not absolute, it is a place nobody can write to: a world-writable parent such as
/// `/tmp` would let another local user create the path first.
pub open spec fn state_dir_of(home: Option<Seq<char>>) -> Seq<char> {
    joined(
        match home {
            Some(h) => if h.len() > 0 && h.first() == '/' {
                h
            } else {
                "/var/empty"@
            },
            None => "/var/empty"@,
        },
        "Library/Application Support/com.chipcolate.yamete"@,
    )
}

/// The characters of an optional borrowed string.
pub open spec fn home_of(home: Option<&str>) -> Option<Seq<char>> {
    match home {
        Some(h) => Some(h@),
        None => None,
    }
}

/// Where config, logs and the socket live; `home` is the user's home directory.
pub fn state_dir(home: Option<&str>) -> (r: String)
    ensures
        r@ == state_dir_of(home_of(home)),
{
    let base: &str = match home {
        Some(h) => {
            let v: Vec<char> = chars(h);
            if v.len() > 0 && v[0] == '/' {
                h
            } else {
                "/var/empty"
            }
        },
        None => "/var/empty",
    };
    join(base, "Library/Application Support/com.chipcolate.yamete")
}

/// Where the daemon listens.
///
/// A user-owned directory rather than `/tmp`, so another local user cannot pre-create the
/// path and intercept the socket. Comfortably inside the 104-byte `sun_path` limit for any
/// plausible home directory.
pub fn socket_path(home: Option<&str>) -> (r: String)
    ensures
        r@ == joined(state_dir_of(home_of(home)), "yamete.sock"@),
{
    let dir: String = state_dir(home);
    join(dir.as_str(), "yamete.sock")
}

/// Where the configuration is kept.
pub fn config_path(home: Option<&str>) -> (r: String)
    ensures
        r@ == joined(state_dir_of(home_of(home)), "config.json"@),
{
    let dir: String = state_dir(home);
    join(dir.as_str(), "config.json")
}

/// Whatever the home directory is, everything lives at an absolute path; and one of up to
/// 41 bytes keeps the socket's path inside the 104-byte limit with its terminator.
pub proof fn state_is_absolute(home: Option<Seq<char>>)
    ensures
        state_dir_of(home).len() > 0,
        state_dir_of(home).first() == '/',
        joined(state_dir_of(home), "yamete.sock"@).first() == '/',
        joined(state_dir_of(home), "config.json"@).first() == '/',
        home is None || encode_utf8(home->0).len() <= 41 ==> encode_utf8(
            joined(state_dir_of(home), "yamete.sock"@),
        ).len() < 104,
{
    reveal_strlit("/var/empty");
    reveal_strlit("Library/Application Support/com.chipcolate.yamete");
    reveal_strlit("yamete.sock");
    reveal_strlit("config.json");
    reveal_strlit("/");
    let base = match home {
        Some(h) => if h.len() > 0 && h.first() == '/' {
            h
        } else {
            "/var/empty"@
        },
        None => "/var/empty"@,
    };
    let dir = state_dir_of(home);
    let below = "Library/Application Support/com.chipcolate.yamete"@;
    let socket = joined(dir, "yamete.sock"@);
    assert(dir.last() == below.last());
    is_ascii_chars_encode_utf8("/var/empty"@);
    is_ascii_chars_encode_utf8(below);
    is_ascii_chars_encode_utf8("yamete.sock"@);
    is_ascii_chars_encode_utf8("/"@);
    encode_joined(base, below);
    encode_joined(base, "/"@);
    encode_joined(base + "/"@, below);
    encode_joined(dir, "/"@);
    encode_joined(dir + "/"@, "yamete.sock"@);
    assert(socket == dir + "/"@ + "yamete.sock"@);
}

/// Joined texts have joined encodings.
proof fn encode_joined(a: Seq<char>, b: Seq<char>)
    ensures
        encode_utf8(a + b) == encode_utf8(a) + encode_utf8(b),
    decreases a.len(),
{
    if a.len() == 0 {
        assert(a + b =~= b);
        assert(encode_utf8(a) + encode_utf8(b) =~= encode_utf8(b));
    } else {
        encode_joined(a.drop_first(), b);
        assert((a + b).drop_first() =~= a.drop_first() + b);
        assert(encode_utf8(a + b) =~= encode_utf8(a) + encode_utf8(b));
    }
}

// ---------------------------------------------------------------------------------
// Messages
// ---------------------------------------------------------------------------------

/// A command from a client to the daemon.
#[derive(Debug, PartialEq, Eq)]
pub enum Request {
    /// Liveness check.
    Ping,
    /// Ask for the current configuration.
    GetConfig,
    /// Replace the configuration and persist it.
    SetConfig { config: DaemonConfig },
    /// Turn detection on or off without unloading the daemon.
    SetEnabled { value: bool },
    /// Start or stop receiving events on this connection.
    ///
    /// Telemetry is opt-in because it is the only expensive thing the daemon does: with no
    /// subscriber it never allocates or serialises a frame.
    Subscribe { slaps: bool, telemetry: bool },
    /// Run one action as if a slap had been detected, for previewing it in the UI.
    TestAction { id: String, intensity: Scalar },
    /// Current daemon status.
    GetStatus,
}

/// The intensity of a preview that names none.
pub fn half() -> (r: Scalar)
    ensures
        r.bits == HALF,
        r.bits == 0x3f00_0000,
{
    Scalar { bits: HALF }
}

/// A detected slap, as reported to clients.
#[derive(Debug, Clone, Copy, PartialEq, Eq)]
pub struct Slap {
    /// Seconds since the daemon started streaming.
    pub t: Scalar64,
    pub tier: Tier,
    pub peak_g: Scalar,
    pub intensity: Scalar,
    pub votes: u8,
    pub gyro_confirmed: bool,
    pub gyro_peak: Scalar,
    pub gyro_ratio: Scalar,
    pub axis: [Scalar; 3],
}

/// The report of a detection.
pub open spec fn slap_of(d: Detection) -> Slap {
    Slap {
        t: d.t,
        tier: d.tier,
        peak_g: d.peak_g,
        intensity: d.intensity,
        votes: d.votes,
        gyro_confirmed: d.gyro_confirmed,
        gyro_peak: d.gyro_peak,
        gyro_ratio: d.gyro_ratio,
        axis: d.axis,
    }
}

impl From<Detection> for Slap {
    fn from(d: Detection) -> (r: Slap) {
        Slap {
            t: d.t,
            tier: d.tier,
            peak_g: d.peak_g,
            intensity: d.intensity,
            votes: d.votes,
            gyro_confirmed: d.gyro_confirmed,
            gyro_peak: d.gyro_peak,
            gyro_ratio: d.gyro_ratio,
            axis: d.axis,
        }
    }
}

impl vstd::std_specs::convert::FromSpecImpl<Detection> for Slap {
    open spec fn obeys_from_spec() -> bool {
        true
    }

    open spec fn from_spec(d: Detection) -> Slap {
        slap_of(d)
    }
}

/// One frame of live scope data.
#[derive(Debug, PartialEq, Eq)]
pub struct Telemetry {
    /// Seconds since streaming started, at the end of this batch.
    pub t: Scalar64,
    /// Decimated high-passed acceleration envelope, in g.
    pub envelope: Vec<Scalar>,
    /// Decimated angular rate magnitude, in deg/s.
    pub gyro: Vec<Scalar>,
    /// Detector scores as of the end of the batch.
    pub scores: Scores,
    /// Samples the hardware produced that never reached us, cumulative.
    pub dropped: u64,
}

/// The daemon's state, for clients.
#[derive(Debug, PartialEq, Eq)]
pub struct Status {
    pub enabled: bool,
    pub version: String,
    /// Whether the gyroscope is present and streaming.
    pub has_gyro: bool,
    /// Seconds the daemon has been running.
    pub uptime_s: Scalar64,
    /// Slaps detected since start.
    pub slaps: u64,
    /// Measured accelerometer sample rate.
    pub rate_hz: Scalar,
    /// Still building the background estimate.
    pub warming_up: bool,
    /// How many clients are currently receiving telemetry.
    ///
    /// Exposed because "the scope is blank" has two very different causes — nobody asked
    /// for telemetry, or it was asked for and lost — and they are indistinguishable from
    /// the outside without this.
    pub telemetry_subscribers: usize,
}

/// The daemon's state, as a model.
#[verifier::ext_equal]
pub struct StatusModel {
    pub enabled: bool,
    pub version: Seq<char>,
    pub has_gyro: bool,
    pub uptime_s: Scalar64,
    pub slaps: u64,
    pub rate_hz: Scalar,
    pub warming_up: bool,
    pub telemetry_subscribers: usize,
}

impl View for Status {
    type V = StatusModel;

    open spec fn view(&self) -> StatusModel {
        StatusModel {
            enabled: self.enabled,
            version: self.version@,
            has_gyro: self.has_gyro,
            uptime_s: self.uptime_s,
            slaps: self.slaps,
            rate_hz: self.rate_hz,
            warming_up: self.warming_up,
            telemetry_subscribers: self.telemetry_subscribers,
        }
    }
}

impl Clone for Status {
    fn clone(&self) -> (r: Status)
        ensures
            r@ == self@,
    {
        Status {
            enabled: self.enabled,
            version: self.version.clone(),
            has_gyro: self.has_gyro,
            uptime_s: self.uptime_s,
            slaps: self.slaps,
            rate_hz: self.rate_hz,
            warming_up: self.warming_up,
            telemetry_subscribers: self.telemetry_subscribers,
        }
    }
}

/// A message from the daemon to a client.
#[derive(Debug, PartialEq, Eq)]
pub enum Event {
    Pong,
    Config { config: DaemonConfig },
    Status(Status),
    /// A slap was detected.
    Slap(Slap),
    /// A batch of decimated samples and detector scores, for the live scope.
    Telemetry(Telemetry),
    Error { message: String },
}

/// A message, as a model.
#[verifier::ext_equal]
pub enum Said {
    Pong,
    Config { config: ConfigModel },
    Status { status: StatusModel },
    Slap { slap: Slap },
    Telemetry { t: Scalar64, envelope: Seq<Scalar>, gyro: Seq<Scalar>, scores: Scores, dropped: u64 },
    Error { message: Seq<char> },
}

impl View for Event {
    type V = Said;

    open spec fn view(&self) -> Said {
        match self {
            Event::Pong => Said::Pong,
            Event::Config { config } => Said::Config { config: config@ },
            Event::Status(status) => Said::Status { status: status@ },
            Event::Slap(slap) => Said::Slap { slap: *slap },
            Event::Telemetry(f) => Said::Telemetry {
                t: f.t,
                envelope: f.envelope@,
                gyro: f.gyro@,
                scores: f.scores,
                dropped: f.dropped,
            },
            Event::Error { message } => Said::Error { message: message@ },
        }
    }
}

/// The protocol line of a serialised message, or of why it could not be serialised.
pub open spec fn line_of(json: Result<Seq<char>, Seq<char>>) -> Seq<char> {
    match json {
        Ok(text) => text + "\n"@,
        Err(e) => "{\"event\":\"error\",\"message\":\"could not serialise: "@ + e + "\"}"@ + "\n"@,
    }
}

/// The model of a serialised message.
pub open spec fn serialised(json: Result<String, String>) -> Result<Seq<char>, Seq<char>> {
    match json {
        Ok(s) => Ok(s@),
        Err(e) => Err(e@),
    }
}

/// One protocol line, newline at its end; `json` is the serialised message.
pub fn to_line(json: Result<String, String>) -> (r: String)
    ensures
        r@ == line_of(serialised(json)),
{
    match json {
        Ok(s) => {
            let mut out: Vec<char> = chars(s.as_str());
            put(&mut out, "\n");
            string(out.as_slice())
        },
        Err(e) => {
            let mut out: Vec<char> = chars(
                "{\"event\":\"error\",\"message\":\"could not serialise: ",
            );
            put(&mut out, e.as_str());
            put(&mut out, "\"}");
            put(&mut out, "\n");
            string(out.as_slice())
        },
    }
}

/// A serialised message without a newline of its own is one line: the newline is at the
/// end and nowhere else.
pub proof fn one_message_one_line(text: Seq<char>)
    requires
        !text.contains('\n'),
    ensures
        line_of(Ok(text)).last() == '\n',
        forall|i: int|
            0 <= i < line_of(Ok(text)).len() - 1 ==> #[trigger] line_of(Ok(text))[i] != '\n',
{
    reveal_strlit("\n");
    let line = line_of(Ok(text));
    assert forall|i: int| 0 <= i < line.len() - 1 implies #[trigger] line[i] != '\n' by {
        assert(text.contains(text[i]));
    }
}

/// A serialised message stands on its line as it is, and a message that cannot be serialised
/// is a line too, which says why.
pub proof fn a_line_holds_its_message(text: Seq<char>, e: Seq<char>)
    ensures
        line_of(Ok(text)).drop_last() == text,
        line_of(Err(e)).last() == '\n',
        contains(line_of(Err(e)), e),
        contains(line_of(Err(e)), "\"event\":\"error\""@),
{
    reveal_strlit("\n");
    reveal_strlit("\"}");
    reveal_strlit("\"event\":\"error\"");
    reveal_strlit("{\"event\":\"error\",\"message\":\"could not serialise: ");
    assert(line_of(Ok(text)).drop_last() =~= text);
    let head = "{\"event\":\"error\",\"message\":\"could not serialise: "@;
    let line = line_of(Err(e));
    assert(line.subrange(head.len() as int, head.len() as int + e.len()) =~= e);
    assert(occurs_at(line, e, head.len() as int));
    assert(line.subrange(1, 16) =~= "\"event\":\"error\""@);
    assert(occurs_at(line, "\"event\":\"error\""@, 1));
}

/// Everything lives below the home directory where that is absolute, and below the place
/// nobody can write to where it is not.
pub proof fn state_is_below_home(home: Option<Seq<char>>)
    ensures
        home matches Some(h) ==> h.len() > 0 && h[0] == '/' ==> h.is_prefix_of(state_dir_of(home)),
        !(home is Some && home->0.len() > 0 && home->0[0] == '/') ==> "/var/empty"@.is_prefix_of(
            state_dir_of(home),
        ),
        ({
            let below = "Library/Application Support/com.chipcolate.yamete"@;
            let dir = state_dir_of(home);
            dir.skip(dir.len() - below.len()) == below
        }),
{
    reveal_strlit("Library/Application Support/com.chipcolate.yamete");
    reveal_strlit("/var/empty");
    let base = match home {
        Some(h) => if h.len() > 0 && h.first() == '/' {
            h
        } else {
            "/var/empty"@
        },
        None => "/var/empty"@,
    };
    joining_keeps_both(base, "Library/Application Support/com.chipcolate.yamete"@);
    let dir = state_dir_of(home);
    assert(dir.subrange(0, base.len() as int) =~= dir.take(base.len() as int));
    assert(base.is_prefix_of(dir));
}

/// The report of a detection says what the detection does, each figure under its own name.
pub proof fn a_slap_is_its_detection(d: Detection)
    ensures
        slap_of(d).t == d.t,
        slap_of(d).tier == d.tier,
        slap_of(d).peak_g == d.peak_g,
        slap_of(d).intensity == d.intensity,
        slap_of(d).votes == d.votes,
        slap_of(d).gyro_confirmed == d.gyro_confirmed,
        slap_of(d).gyro_peak == d.gyro_peak,
        slap_of(d).gyro_ratio == d.gyro_ratio,
        slap_of(d).axis == d.axis,
{
}

/// The models of a status and of a message show what they hold.
pub proof fn messages_are_their_fields(s: Status, e: Event)
    ensures
        s@.enabled == s.enabled,
        s@.version == s.version@,
        s@.has_gyro == s.has_gyro,
        s@.uptime_s == s.uptime_s,
        s@.slaps == s.slaps,
        s@.rate_hz == s.rate_hz,
        s@.warming_up == s.warming_up,
        s@.telemetry_subscribers == s.telemetry_subscribers,
        e is Pong <==> e@ is Pong,
        e is Config <==> e@ is Config,
        e is Status <==> e@ is Status,
        e is Slap <==> e@ is Slap,
        e is Telemetry <==> e@ is Telemetry,
        e is Error <==> e@ is Error,
        e matches Event::Config { config } ==> e@->config == config@,
        e matches Event::Status(status) ==> e@->status == status@,
        e matches Event::Slap(slap) ==> e@->slap == slap,
        e matches Event::Telemetry(f) ==> e@->t == f.t && e@->envelope == f.envelope@ && e@->gyro
            == f.gyro@ && e@->scores == f.scores && e@->dropped == f.dropped,
        e matches Event::Error { message } ==> e@->message == message@,
{
}

} // verus!
