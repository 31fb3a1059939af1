//! Daemon configuration: what counts as a spank, and what happens when one lands.
//!
//! The action model is deliberately open-ended. Sounds accept any file the decoder
//! understands rather than a fixed set of bundled clips, webhooks are fully templated, and
//! the exec action hands the whole event to an arbitrary program — which is the escape
//! hatch that makes anything else possible without teaching the daemon about it.
use vstd::arithmetic::power2::lemma2_to64;
use vstd::prelude::*;

use crate::detector::Tier;
use crate::meta::{Entries, Meta};
use crate::numeral::{decimal, write_count};
use crate::scalar::{against_one, rounds, Scalar, ONE, ZERO};
use crate::text::{
    blank_is_all_space, chars, copy_maybe, copy_texts, eq, eq_ignoring_case, maybe, owned, put,
    put_chars, same_ignoring_case, space, starts_with, string, texts, trim, trimmed,
};
use crate::tuning;

verus! {

/// Current on-disk and wire config shape. Bumped only when the *meaning* of an existing
/// field changes, not when optional fields are added.
pub const SCHEMA_VERSION: u32 = 1;

/// Upper bound so a single webhook cannot stall the action worker indefinitely.
pub const MAX_WEBHOOK_TIMEOUT_MS: u64 = 30_000;

/// The longest an action may be held back.
pub const MAX_DELAY_MS: u32 = 5_000;

/// 40 percent.
pub const DEFAULT_RANGE: u32 = 0x4220_0000;

/// 100 percent.
pub const FULL_RANGE: u32 = 0x42c8_0000;

// ---------------------------------------------------------------------------------
// Model
// ---------------------------------------------------------------------------------

/// What an action does.
#[verifier::ext_equal]
pub enum KindModel {
    Sound {
        paths: Seq<Seq<char>>,
        path: Option<Seq<char>>,
        order: SoundOrder,
        volume_db: Scalar,
        scale_with_intensity: bool,
        intensity_range_pct: Scalar,
        playback_rate: Scalar,
    },
    Exec { program: Seq<char>, args: Seq<Seq<char>>, stdin_json: bool },
    Webhook {
        url: Seq<char>,
        method: Seq<char>,
        headers: Entries,
        body: Option<Seq<char>>,
        timeout_ms: u64,
    },
}

/// One action.
#[verifier::ext_equal]
pub struct ActionModel {
    pub id: Seq<char>,
    pub name: Seq<char>,
    pub enabled: bool,
    pub tiers: Seq<Tier>,
    pub min_intensity: Scalar,
    pub delay_ms: u32,
    pub kind: KindModel,
}

/// A whole configuration.
#[verifier::ext_equal]
pub struct ConfigModel {
    pub schema_version: u32,
    pub enabled: bool,
    pub detector: tuning::Config,
    pub actions: Seq<ActionModel>,
    pub report_interval_us: u32,
}

// ---------------------------------------------------------------------------------
// Types
// ---------------------------------------------------------------------------------

/// How a sound is chosen when there is more than one to choose from.
#[derive(Debug, Clone, Copy, PartialEq, Eq, Structural)]
pub enum SoundOrder {
    /// Step through the list in order, wrapping at the end.
    Sequential,
    /// Pick at random, never the same one twice running.
    Random,
}

impl Default for SoundOrder {
    fn default() -> (r: SoundOrder)
        ensures
            r == SoundOrder::Sequential,
    {
        SoundOrder::Sequential
    }
}

/// What an action does.
#[derive(Debug, PartialEq, Eq)]
pub enum ActionKind {
    /// Play an audio file.
    Sound {
        /// The sounds to choose from. Each entry is a file, or a directory whose audio
        /// files are all part of the choice.
        paths: Vec<String>,
        /// Superseded by `paths`. Still read so a config written by an earlier build
        /// keeps its sound instead of silently falling back to nothing.
        path: Option<String>,
        /// Which sound to play when several are configured. Irrelevant with one.
        order: SoundOrder,
        /// Trim in decibels, relative to the file as recorded.
        volume_db: Scalar,
        /// Vary the volume with how hard the spank was.
        scale_with_intensity: bool,
        /// How far the volume swings either side of the base, as a percentage. Only used
        /// when `scale_with_intensity` is on.
        intensity_range_pct: Scalar,
        /// 1.0 is normal speed; higher is faster and higher-pitched.
        playback_rate: Scalar,
    },
    /// Run a program.
    ///
    /// The spank is delivered twice over: as environment variables for shell one-liners,
    /// and as a JSON object on stdin for anything that wants the full event.
    Exec {
        program: String,
        args: Vec<String>,
        /// Send the spank JSON on stdin.
        stdin_json: bool,
    },
    /// Send an HTTP request.
    ///
    /// `url`, `headers` and `body` are all templated, so this can talk to Home Assistant,
    /// a Shortcut, an IFTTT hook or anything else without special-casing.
    Webhook {
        url: String,
        method: String,
        headers: Meta,
        /// Defaults to the spank event as JSON when omitted.
        body: Option<String>,
        timeout_ms: u64,
    },
}

impl View for ActionKind {
    type V = KindModel;

    open spec fn view(&self) -> KindModel {
        match self {
            ActionKind::Sound {
                paths,
                path,
                order,
                volume_db,
                scale_with_intensity,
                intensity_range_pct,
                playback_rate,
            } => KindModel::Sound {
                paths: texts(paths@),
                path: maybe(*path),
                order: *order,
                volume_db: *volume_db,
                scale_with_intensity: *scale_with_intensity,
                intensity_range_pct: *intensity_range_pct,
                playback_rate: *playback_rate,
            },
            ActionKind::Exec { program, args, stdin_json } => KindModel::Exec {
                program: program@,
                args: texts(args@),
                stdin_json: *stdin_json,
            },
            ActionKind::Webhook { url, method, headers, body, timeout_ms } => KindModel::Webhook {
                url: url@,
                method: method@,
                headers: headers@,
                body: maybe(*body),
                timeout_ms: *timeout_ms,
            },
        }
    }
}

/// One thing that happens when a spank is detected.
#[derive(Debug, PartialEq, Eq)]
pub struct Action {
    /// Stable identifier, used to target this action from the UI.
    pub id: String,
    /// Human-readable label for the UI.
    pub name: String,
    pub enabled: bool,
    /// Which severity tiers fire this action. Empty means all of them.
    pub tiers: Vec<Tier>,
    /// Skip the action below this intensity, 0.0 to 1.0.
    pub min_intensity: Scalar,
    /// Hold the action back by this many milliseconds after the spank.
    ///
    /// Detection is fast enough that a sound starts while the physical spank is still
    /// audible and gets partly masked by it — the response wants to land *after* the
    /// impact, not on top of it.
    pub delay_ms: u32,
    pub kind: ActionKind,
}

impl View for Action {
    type V = ActionModel;

    open spec fn view(&self) -> ActionModel {
        ActionModel {
            id: self.id@,
            name: self.name@,
            enabled: self.enabled,
            tiers: self.tiers@,
            min_intensity: self.min_intensity,
            delay_ms: self.delay_ms,
            kind: self.kind@,
        }
    }
}

/// The models of a list of actions.
pub open spec fn actions_of(actions: Seq<Action>) -> Seq<ActionModel> {
    Seq::new(actions.len(), |i: int| actions[i]@)
}

/// The daemon's configuration.
#[derive(Debug, PartialEq, Eq)]
pub struct DaemonConfig {
    /// On-disk schema version. Written on every save; older files migrate in
    /// [`DaemonConfig::normalize`].
    pub schema_version: u32,
    /// Master switch. False keeps the daemon resident but stops it acting on anything.
    pub enabled: bool,
    /// Detector tuning, with the sensitivity slider.
    pub detector: tuning::Config,
    /// Everything that can fire, in order.
    pub actions: Vec<Action>,
    /// Requested sensor reporting interval, in microseconds.
    ///
    /// 1000 gives the sensor's native ~805 Hz and the best detection quality. Reading two
    /// HID devices at that rate is the daemon's dominant cost, so this is the one knob that
    /// meaningfully changes idle power.
    pub report_interval_us: u32,
}

impl View for DaemonConfig {
    type V = ConfigModel;

    open spec fn view(&self) -> ConfigModel {
        ConfigModel {
            schema_version: self.schema_version,
            enabled: self.enabled,
            detector: self.detector,
            actions: actions_of(self.actions@),
            report_interval_us: self.report_interval_us,
        }
    }
}

impl Clone for ActionKind {
    fn clone(&self) -> (r: ActionKind)
        ensures
            r@ == self@,
    {
        match self {
            ActionKind::Sound {
                paths,
                path,
                order,
                volume_db,
                scale_with_intensity,
                intensity_range_pct,
                playback_rate,
            } => ActionKind::Sound {
                paths: copy_texts(paths),
                path: copy_maybe(path),
                order: *order,
                volume_db: *volume_db,
                scale_with_intensity: *scale_with_intensity,
                intensity_range_pct: *intensity_range_pct,
                playback_rate: *playback_rate,
            },
            ActionKind::Exec { program, args, stdin_json } => ActionKind::Exec {
                program: program.clone(),
                args: copy_texts(args),
                stdin_json: *stdin_json,
            },
            ActionKind::Webhook { url, method, headers, body, timeout_ms } => ActionKind::Webhook {
                url: url.clone(),
                method: method.clone(),
                headers: headers.clone(),
                body: copy_maybe(body),
                timeout_ms: *timeout_ms,
            },
        }
    }
}

fn copy_tiers(v: &Vec<Tier>) -> (r: Vec<Tier>)
    ensures
        r@ == v@,
{
    let mut r: Vec<Tier> = Vec::new();
    let n: usize = v.len();
    for i in 0..n
        invariant
            n == v@.len(),
            r@ == v@.take(i as int),
    {
        proof {
            assert(v@.take(i as int + 1) =~= v@.take(i as int).push(v@[i as int]));
        }
        r.push(v[i]);
    }
    proof {
        assert(v@.take(n as int) =~= v@);
    }
    r
}

impl Clone for Action {
    fn clone(&self) -> (r: Action)
        ensures
            r@ == self@,
    {
        Action {
            id: self.id.clone(),
            name: self.name.clone(),
            enabled: self.enabled,
            tiers: copy_tiers(&self.tiers),
            min_intensity: self.min_intensity,
            delay_ms: self.delay_ms,
            kind: self.kind.clone(),
        }
    }
}

impl Clone for DaemonConfig {
    fn clone(&self) -> (r: DaemonConfig)
        ensures
            r@ == self@,
    {
        let mut actions: Vec<Action> = Vec::new();
        let n: usize = self.actions.len();
        for i in 0..n
            invariant
                n == self.actions@.len(),
                actions@.len() == i,
                forall|k: int| 0 <= k < i ==> (#[trigger] actions@[k])@ == self.actions@[k]@,
        {
            actions.push(self.actions[i].clone());
        }
        proof {
            assert(actions_of(actions@) =~= actions_of(self.actions@));
        }
        DaemonConfig {
            schema_version: self.schema_version,
            enabled: self.enabled,
            detector: self.detector,
            actions,
            report_interval_us: self.report_interval_us,
        }
    }
}

// ---------------------------------------------------------------------------------
// Defaults
// ---------------------------------------------------------------------------------

/// The version stamped on a configuration that names none.
pub fn default_schema_version() -> (r: u32)
    ensures
        r == SCHEMA_VERSION,
        r == 1,
{
    SCHEMA_VERSION
}

/// A program gets the event on stdin unless told otherwise.
pub fn yes() -> (r: bool)
    ensures
        r,
{
    true
}

/// The method of a webhook that names none.
pub fn post() -> (r: String)
    ensures
        r@ == "POST"@,
{
    owned("POST")
}

/// The timeout of a webhook that names none, in milliseconds.
pub fn default_timeout() -> (r: u64)
    ensures
        r == 5_000,
{
    5_000
}

/// The volume swing of a sound that names none, in percent.
pub fn default_intensity_range() -> (r: Scalar)
    ensures
        r.bits == DEFAULT_RANGE,
        rounds(r, 40, 1),
{
    proof {
        lemma2_to64();
        against_one(Scalar { bits: DEFAULT_RANGE }, 132, 0x20_0000, 32);
    }
    Scalar { bits: DEFAULT_RANGE }
}

/// A macOS system sound, as it is.
pub open spec fn system_sound() -> KindModel {
    KindModel::Sound {
        paths: seq!["/System/Library/Sounds/Sosumi.aiff"@],
        path: None,
        order: SoundOrder::Sequential,
        volume_db: Scalar { bits: ZERO },
        scale_with_intensity: false,
        intensity_range_pct: Scalar { bits: DEFAULT_RANGE },
        playback_rate: Scalar { bits: ONE },
    }
}

impl Default for ActionKind {
    fn default() -> (r: ActionKind)
        ensures
            r@ == system_sound(),
    {
        let mut paths: Vec<String> = Vec::new();
        paths.push(owned("/System/Library/Sounds/Sosumi.aiff"));
        proof {
            assert(texts(paths@) =~= seq!["/System/Library/Sounds/Sosumi.aiff"@]);
        }
        ActionKind::Sound {
            paths,
            path: None,
            order: SoundOrder::default(),
            volume_db: Scalar { bits: ZERO },
            scale_with_intensity: false,
            intensity_range_pct: default_intensity_range(),
            playback_rate: Scalar { bits: ONE },
        }
    }
}

/// An action before anything about it was said.
pub open spec fn standard_action() -> ActionModel {
    ActionModel {
        id: "default"@,
        name: "Action"@,
        enabled: true,
        tiers: Seq::empty(),
        min_intensity: Scalar { bits: ZERO },
        delay_ms: 0,
        kind: system_sound(),
    }
}

/// The out-of-the-box action.
pub open spec fn standard_sound() -> ActionModel {
    ActionModel { id: "sound"@, name: "Play a sound"@, delay_ms: 200, ..standard_action() }
}

impl Default for Action {
    fn default() -> (r: Action)
        ensures
            r@ == standard_action(),
            r.id@ == "default"@,
            r.name@ == "Action"@,
            r.enabled,
            r.tiers@.len() == 0,
            r.min_intensity.bits == 0,
            r.delay_ms == 0,
    {
        let r = Action {
            id: owned("default"),
            name: owned("Action"),
            enabled: true,
            tiers: Vec::new(),
            min_intensity: Scalar { bits: ZERO },
            delay_ms: 0,
            kind: ActionKind::default(),
        };
        proof {
            assert(r@ =~= standard_action());
        }
        r
    }
}

/// A fresh install: on, with the calibrated tuning, and making a noise.
pub open spec fn standard_config(c: ConfigModel) -> bool {
    &&& c.schema_version == SCHEMA_VERSION
    &&& c.enabled
    &&& c.detector.standard()
    &&& c.actions == seq![standard_sound()]
    &&& c.report_interval_us == 1000
}

impl Default for DaemonConfig {
    fn default() -> (r: DaemonConfig)
        ensures
            standard_config(r@),
    {
        let mut actions: Vec<Action> = Vec::new();
        actions.push(Action::default_sound());
        proof {
            assert(actions_of(actions@) =~= seq![standard_sound()]);
        }
        DaemonConfig {
            schema_version: SCHEMA_VERSION,
            enabled: true,
            detector: tuning::Config::default(),
            actions,
            report_interval_us: 1000,
        }
    }
}

// ---------------------------------------------------------------------------------
// When an action runs
// ---------------------------------------------------------------------------------

/// Whether an action has enough configuration to do anything.
pub open spec fn runnable(kind: KindModel) -> bool {
    match kind {
        KindModel::Sound { paths, .. } => paths.len() > 0,
        KindModel::Exec { program, .. } => trimmed(program).len() > 0,
        KindModel::Webhook { url, .. } => trimmed(url).len() > 0,
    }
}

/// Whether an action runs for a detection of the given severity.
pub open spec fn fires(a: ActionModel, tier: Tier, intensity: Scalar) -> bool {
    &&& a.enabled
    &&& runnable(a.kind)
    &&& a.tiers.len() == 0 || a.tiers.contains(tier)
    &&& intensity.at_least(a.min_intensity)
}

fn is_blank(s: &str) -> (r: bool)
    ensures
        r == (trimmed(s@).len() == 0),
{
    let v: Vec<char> = chars(s);
    trim(v.as_slice()).len() == 0
}

fn holds_tier(tiers: &Vec<Tier>, tier: Tier) -> (r: bool)
    ensures
        r == tiers@.contains(tier),
{
    let n: usize = tiers.len();
    for i in 0..n
        invariant
            n == tiers@.len(),
            forall|k: int| 0 <= k < i ==> tiers@[k] != tier,
    {
        if tiers[i] == tier {
            return true;
        }
    }
    false
}

impl Action {
    /// The out-of-the-box action: a macOS system sound, so a fresh install makes a noise
    /// without the user having to find an audio file first.
    pub fn default_sound() -> (r: Action)
        ensures
            r@ == standard_sound(),
    {
        let base: Action = Action::default();
        Action { id: owned("sound"), name: owned("Play a sound"), delay_ms: 200, ..base }
    }

    /// Whether this action should run for a given detection.
    pub fn matches(&self, tier: Tier, intensity: Scalar) -> (r: bool)
        ensures
            r == fires(self@, tier, intensity),
    {
        self.enabled && self.is_runnable() && (self.tiers.len() == 0 || holds_tier(
            &self.tiers,
            tier,
        )) && intensity.ge(self.min_intensity)
    }

    /// Whether this action has enough configuration to do anything.
    ///
    /// Distinct from validity: an action the user has switched on but not filled in yet
    /// is incomplete, not wrong, and rejecting the whole config for it would make the UI
    /// unusable — you cannot type a URL into a field that refuses to save.
    pub fn is_runnable(&self) -> (r: bool)
        ensures
            r == runnable(self@.kind),
            match self.kind {
                ActionKind::Sound { paths, .. } => r <==> paths@.len() > 0,
                ActionKind::Exec { program, .. } => r <==> trimmed(program@).len() > 0,
                ActionKind::Webhook { url, .. } => r <==> trimmed(url@).len() > 0,
            },
    {
        match &self.kind {
            ActionKind::Sound { paths, .. } => paths.len() > 0,
            ActionKind::Exec { program, .. } => !is_blank(program.as_str()),
            ActionKind::Webhook { url, .. } => !is_blank(url.as_str()),
        }
    }
}

// ---------------------------------------------------------------------------------
// What is rejected
// ---------------------------------------------------------------------------------

/// Whether a number lies between two others.
pub open spec fn between(x: Scalar, low: u32, high: u32) -> bool {
    x.at_least(Scalar { bits: low }) && (Scalar { bits: high }).at_least(x)
}

/// The methods the action runner is willing to issue.
pub open spec fn allowed_method(m: Seq<char>) -> bool {
    ||| same_ignoring_case(m, "GET"@)
    ||| same_ignoring_case(m, "POST"@)
    ||| same_ignoring_case(m, "PUT"@)
    ||| same_ignoring_case(m, "PATCH"@)
    ||| same_ignoring_case(m, "DELETE"@)
}

/// What is wrong with an action beyond its id.
pub open spec fn action_flaw(a: ActionModel) -> Option<Seq<char>> {
    if !between(a.min_intensity, ZERO, ONE) {
        Some("min_intensity must be between 0 and 1"@)
    } else if a.delay_ms > MAX_DELAY_MS {
        Some(
            "delay_ms of "@ + decimal(a.delay_ms as nat)
                + " is longer than any response to a spank should wait"@,
        )
    } else {
        match a.kind {
            KindModel::Sound { playback_rate, intensity_range_pct, .. } => {
                if !between(intensity_range_pct, ZERO, FULL_RANGE) {
                    Some("intensity_range_pct must be between 0 and 100"@)
                } else if !(Scalar { bits: ZERO }).below(playback_rate) {
                    Some("playback_rate must be positive"@)
                } else {
                    None
                }
            },
            KindModel::Exec { .. } => None,
            KindModel::Webhook { url, method, timeout_ms, .. } => {
                let address = trimmed(url);
                let verb = trimmed(method);
                if address.len() > 0 && !"http://"@.is_prefix_of(address)
                    && !"https://"@.is_prefix_of(address) {
                    Some("webhook url must start with http:// or https://"@)
                } else if verb.len() > 0 && !allowed_method(verb) {
                    Some("webhook method must be one of GET, POST, PUT, PATCH, DELETE"@)
                } else if timeout_ms == 0 || timeout_ms > MAX_WEBHOOK_TIMEOUT_MS {
                    Some("timeout_ms must be between 1 and 30000"@)
                } else {
                    None
                }
            },
        }
    }
}

/// Whether an earlier action has the id of action `i`.
pub open spec fn repeated(actions: Seq<ActionModel>, i: int) -> bool {
    exists|j: int| 0 <= j < i && (#[trigger] actions[j]).id == actions[i].id
}

/// What is wrong with action `i`, given those before it.
pub open spec fn action_problem(actions: Seq<ActionModel>, i: int) -> Option<Seq<char>> {
    let a = actions[i];
    if trimmed(a.id).len() == 0 {
        Some("every action needs a non-empty id"@)
    } else if repeated(actions, i) {
        Some("duplicate action id `"@ + a.id + "`"@)
    } else {
        match action_flaw(a) {
            Some(flaw) => Some("action `"@ + a.id + "`: "@ + flaw),
            None => None,
        }
    }
}

/// The first thing wrong with the actions from `i` on.
pub open spec fn actions_problem(actions: Seq<ActionModel>, i: int) -> Option<Seq<char>>
    decreases actions.len() - i,
{
    if i >= actions.len() {
        None
    } else if action_problem(actions, i) is Some {
        action_problem(actions, i)
    } else {
        actions_problem(actions, i + 1)
    }
}

/// The first thing wrong with a configuration; `slider` is how its sensitivity is written.
pub open spec fn problem(c: ConfigModel, slider: Seq<char>) -> Option<Seq<char>> {
    if actions_problem(c.actions, 0) is Some {
        actions_problem(c.actions, 0)
    } else if !between(c.detector.sensitivity, ZERO, ONE) {
        Some("sensitivity must be between 0 and 1, got "@ + slider)
    } else if c.detector.cooldown_s.below(Scalar { bits: ZERO }) {
        Some("cooldown cannot be negative"@)
    } else if !(1000 <= c.report_interval_us <= 8000) {
        Some(
            "report_interval_us must be between 1000 and 8000, got "@ + decimal(
                c.report_interval_us as nat,
            ),
        )
    } else {
        None
    }
}

fn is_between(x: Scalar, low: u32, high: u32) -> (r: bool)
    ensures
        r == between(x, low, high),
{
    x.ge(Scalar { bits: low }) && (Scalar { bits: high }).ge(x)
}

fn is_verb(m: &[char], verb: &str) -> (r: bool)
    ensures
        r == same_ignoring_case(m@, verb@),
{
    let v: Vec<char> = chars(verb);
    eq_ignoring_case(m, v.as_slice())
}

fn is_allowed(m: &[char]) -> (r: bool)
    ensures
        r == allowed_method(m@),
{
    is_verb(m, "GET") || is_verb(m, "POST") || is_verb(m, "PUT") || is_verb(m, "PATCH")
        || is_verb(m, "DELETE")
}

impl Action {
    /// What is wrong with this action beyond its id.
    fn flaw(&self) -> (r: Option<String>)
        ensures
            maybe(r) == action_flaw(self@),
    {
        if !is_between(self.min_intensity, ZERO, ONE) {
            return Some(owned("min_intensity must be between 0 and 1"));
        }
        if self.delay_ms > MAX_DELAY_MS {
            let n: Vec<char> = write_count(self.delay_ms as u64);
            let mut out: Vec<char> = chars("delay_ms of ");
            put_chars(&mut out, n.as_slice());
            put(&mut out, " is longer than any response to a spank should wait");
            return Some(string(out.as_slice()));
        }
        match &self.kind {
            ActionKind::Sound { playback_rate, intensity_range_pct, .. } => {
                if !is_between(*intensity_range_pct, ZERO, FULL_RANGE) {
                    return Some(owned("intensity_range_pct must be between 0 and 100"));
                }
                if !(Scalar { bits: ZERO }).lt(*playback_rate) {
                    return Some(owned("playback_rate must be positive"));
                }
                None
            },
            ActionKind::Exec { .. } => None,
            ActionKind::Webhook { url, method, timeout_ms, .. } => {
                // An empty URL is simply not filled in yet. A non-empty one that is not
                // HTTP is a mistake worth naming.
                let u: Vec<char> = chars(url.as_str());
                let address = trim(u.as_slice());
                if address.len() > 0 && !starts_with(address, "http://") && !starts_with(
                    address,
                    "https://",
                ) {
                    return Some(owned("webhook url must start with http:// or https://"));
                }
                let m: Vec<char> = chars(method.as_str());
                let verb = trim(m.as_slice());
                if verb.len() > 0 && !is_allowed(verb) {
                    return Some(
                        owned("webhook method must be one of GET, POST, PUT, PATCH, DELETE"),
                    );
                }
                if *timeout_ms == 0 || *timeout_ms > MAX_WEBHOOK_TIMEOUT_MS {
                    return Some(owned("timeout_ms must be between 1 and 30000"));
                }
                None
            },
        }
    }
}

impl DaemonConfig {
    /// The first action with the given id.
    pub fn action(&self, id: &str) -> (r: Option<&Action>)
        ensures
            match r {
                Some(a) => exists|i: int|
                    {
                        &&& 0 <= i < self.actions@.len()
                        &&& *a == #[trigger] self.actions@[i]
                        &&& a.id@ == id@
                        &&& forall|j: int| 0 <= j < i ==> (#[trigger] self.actions@[j]).id@ != id@
                    },
                None => forall|j: int|
                    0 <= j < self.actions@.len() ==> (#[trigger] self.actions@[j]).id@ != id@,
            },
    {
        let n: usize = self.actions.len();
        for i in 0..n
            invariant
                n == self.actions@.len(),
                forall|j: int| 0 <= j < i ==> (#[trigger] self.actions@[j]).id@ != id@,
        {
            if eq(self.actions[i].id.as_str(), id) {
                let a: &Action = &self.actions[i];
                proof {
                    assert(*a == self.actions@[i as int]);
                }
                return Some(a);
            }
        }
        None
    }

    fn is_repeated(&self, i: usize) -> (r: bool)
        requires
            i < self.actions@.len(),
        ensures
            r == repeated(self@.actions, i as int),
    {
        for j in 0..i
            invariant
                i < self.actions@.len(),
                forall|k: int| 0 <= k < j ==> (#[trigger] self@.actions[k]).id
                    != self@.actions[i as int].id,
        {
            if eq(self.actions[j].id.as_str(), self.actions[i].id.as_str()) {
                proof {
                    assert(self@.actions[j as int].id == self@.actions[i as int].id);
                }
                return true;
            }
        }
        false
    }

    fn action_fault(&self, i: usize) -> (r: Option<String>)
        requires
            i < self.actions@.len(),
        ensures
            maybe(r) == action_problem(self@.actions, i as int),
    {
        let a: &Action = &self.actions[i];
        if is_blank(a.id.as_str()) {
            return Some(owned("every action needs a non-empty id"));
        }
        if self.is_repeated(i) {
            let mut out: Vec<char> = chars("duplicate action id `");
            put(&mut out, a.id.as_str());
            put(&mut out, "`");
            return Some(string(out.as_slice()));
        }
        match a.flaw() {
            Some(flaw) => {
                let mut out: Vec<char> = chars("action `");
                put(&mut out, a.id.as_str());
                put(&mut out, "`: ");
                put(&mut out, flaw.as_str());
                Some(string(out.as_slice()))
            },
            None => None,
        }
    }

    /// Reject configurations that would misbehave rather than storing them; `slider` is how
    /// the sensitivity is written.
    ///
    /// Config arrives over a socket from a UI, so it is untrusted input in the ordinary
    /// sense: not malicious, but easily wrong in ways that are miserable to debug later.
    pub fn validate(&self, slider: &str) -> (r: Result<(), String>)
        ensures
            match r {
                Ok(()) => problem(self@, slider@) is None,
                Err(e) => problem(self@, slider@) == Some(e@),
            },
    {
        let n: usize = self.actions.len();
        let mut i: usize = 0;
        while i < n
            invariant
                i <= n,
                n == self.actions@.len(),
                actions_problem(self@.actions, 0) == actions_problem(self@.actions, i as int),
            decreases n - i,
        {
            match self.action_fault(i) {
                Some(e) => return Err(e),
                None => {},
            }
            i = i + 1;
        }
        if !is_between(self.detector.sensitivity, ZERO, ONE) {
            let mut out: Vec<char> = chars("sensitivity must be between 0 and 1, got ");
            put(&mut out, slider);
            return Err(string(out.as_slice()));
        }
        if self.detector.cooldown_s.lt(Scalar { bits: ZERO }) {
            return Err(owned("cooldown cannot be negative"));
        }
        if !(1000 <= self.report_interval_us && self.report_interval_us <= 8000) {
            let m: Vec<char> = write_count(self.report_interval_us as u64);
            let mut out: Vec<char> = chars("report_interval_us must be between 1000 and 8000, got ");
            put_chars(&mut out, m.as_slice());
            return Err(string(out.as_slice()));
        }
        Ok(())
    }
}

// ---------------------------------------------------------------------------------
// Older layouts
// ---------------------------------------------------------------------------------

/// An action kind in the current layout: a single legacy path joins an empty list.
pub open spec fn current_kind(kind: KindModel) -> KindModel {
    match kind {
        KindModel::Sound {
            paths,
            path,
            order,
            volume_db,
            scale_with_intensity,
            intensity_range_pct,
            playback_rate,
        } => KindModel::Sound {
            paths: match path {
                Some(legacy) => if paths.len() == 0 && legacy.len() > 0 {
                    seq![legacy]
                } else {
                    paths
                },
                None => paths,
            },
            path: None,
            order,
            volume_db,
            scale_with_intensity,
            intensity_range_pct,
            playback_rate,
        },
        other => other,
    }
}

/// An action in the current layout.
pub open spec fn current_action(a: ActionModel) -> ActionModel {
    ActionModel { kind: current_kind(a.kind), ..a }
}

/// A configuration in the current layout.
pub open spec fn current(c: ConfigModel) -> ConfigModel {
    ConfigModel {
        schema_version: SCHEMA_VERSION,
        actions: c.actions.map_values(|a: ActionModel| current_action(a)),
        ..c
    }
}

impl Action {
    fn normalize(&mut self)
        ensures
            final(self)@ == current_action(old(self)@),
            same_but_files(old(self)@, final(self)@),
    {
        match &mut self.kind {
            ActionKind::Sound { paths, path, .. } => {
                match path.take() {
                    Some(legacy) => {
                        let letters: Vec<char> = chars(legacy.as_str());
                        if paths.len() == 0 && letters.len() > 0 {
                            paths.push(legacy);
                            proof {
                                assert(texts(paths@) =~= seq![legacy@]);
                            }
                        }
                    },
                    None => {},
                }
            },
            _ => {},
        }
        proof {
            assert(self@ =~= current_action(old(self)@));
        }
    }
}

impl DaemonConfig {
    /// Fold anything left over from an older config layout into the current one.
    ///
    /// Called after loading and after any change arrives over the socket, so the rest of
    /// the code only ever deals with the current shape.
    pub fn normalize(&mut self)
        ensures
            final(self)@ == current(old(self)@),
            final(self).enabled == old(self).enabled,
            final(self).detector == old(self).detector,
            final(self).report_interval_us == old(self).report_interval_us,
            final(self).actions@.len() == old(self).actions@.len(),
            forall|i: int|
                0 <= i < old(self).actions@.len() ==> same_but_files(
                    (#[trigger] old(self).actions@[i])@,
                    final(self).actions@[i]@,
                ),
    {
        let n: usize = self.actions.len();
        let mut i: usize = 0;
        while i < n
            invariant
                i <= n,
                n == self.actions@.len(),
                n == old(self).actions@.len(),
                self.schema_version == old(self).schema_version,
                self.enabled == old(self).enabled,
                self.detector == old(self).detector,
                self.report_interval_us == old(self).report_interval_us,
                forall|k: int|
                    0 <= k < i ==> (#[trigger] self.actions@[k])@ == current_action(
                        old(self).actions@[k]@,
                    ),
                forall|k: int|
                    i <= k < n ==> (#[trigger] self.actions@[k])@ == old(self).actions@[k]@,
            decreases n - i,
        {
            self.actions[i].normalize();
            i = i + 1;
        }
        self.schema_version = SCHEMA_VERSION;
        proof {
            assert(self@.actions =~= current(old(self)@).actions);
            assert forall|i: int| 0 <= i < old(self).actions@.len() implies same_but_files(
                (#[trigger] old(self).actions@[i])@,
                self.actions@[i]@,
            ) by {
                assert(self.actions@[i]@ == current_action(old(self).actions@[i]@));
            }
        }
    }
}

// ---------------------------------------------------------------------------------
// Laws
// ---------------------------------------------------------------------------------

/// A configuration in the current layout: no action carries a legacy path.
pub open spec fn is_current(c: ConfigModel) -> bool {
    &&& c.schema_version == SCHEMA_VERSION
    &&& forall|i: int| 0 <= i < c.actions.len() ==> #[trigger] current_action(c.actions[i])
        == c.actions[i]
}

/// Normalizing gives the current layout, leaves the current layout alone, and so changes
/// nothing the second time.
pub proof fn normalize_is_idempotent(c: ConfigModel)
    ensures
        is_current(current(c)),
        is_current(c) ==> current(c) == c,
        current(current(c)) == current(c),
{
    let d = current(c);
    assert forall|i: int| 0 <= i < d.actions.len() implies #[trigger] current_action(d.actions[i])
        == d.actions[i] by {
        let a = c.actions[i];
        assert(d.actions[i] == current_action(a));
        assert(current_kind(current_kind(a.kind)) =~= current_kind(a.kind));
    }
    if is_current(c) {
        assert forall|i: int| 0 <= i < c.actions.len() implies #[trigger] d.actions[i]
            == c.actions[i] by {
            assert(current_action(c.actions[i]) == c.actions[i]);
        }
        assert(d.actions =~= c.actions);
        assert(d =~= c);
    }
    let e = current(d);
    assert forall|i: int| 0 <= i < d.actions.len() implies #[trigger] e.actions[i]
        == d.actions[i] by {
        assert(current_action(d.actions[i]) == d.actions[i]);
    }
    assert(e.actions =~= d.actions);
    assert(e =~= d);
}

/// A legacy sound is carried over, and is then runnable; a list that is already there is
/// not touched.
pub proof fn legacy_sound_is_kept(a: ActionModel)
    requires
        a.kind is Sound,
    ensures
        a.kind->Sound_paths.len() > 0 ==> current_action(a).kind->Sound_paths
            == a.kind->Sound_paths,
        a.kind->Sound_paths.len() == 0 && a.kind->Sound_path is Some
            && a.kind->Sound_path->0.len() > 0 ==> current_action(a).kind->Sound_paths
            == seq![a.kind->Sound_path->0] && runnable(current_action(a).kind),
        current_action(a).kind->Sound_path is None,
{
}

/// A fresh install is valid, in the current layout, and makes a noise.
pub proof fn default_is_valid(c: ConfigModel, slider: Seq<char>)
    requires
        standard_config(c),
    ensures
        problem(c, slider) is None,
        is_current(c),
        runnable(c.actions[0].kind),
{
    use_order_of(c.detector.sensitivity.bits, ZERO, ONE);
    use_order_of(c.detector.cooldown_s.bits, ZERO, ONE);
    use_order_of(ZERO, ZERO, ONE);
    use_order_of(DEFAULT_RANGE, ZERO, FULL_RANGE);
    use_order_of(ONE, ZERO, ONE);
    reveal_strlit("sound");
    let a = c.actions[0];
    crate::text::trimmed_ends(a.id);
    assert(trimmed(a.id) == a.id);
    assert(action_flaw(a) is None);
    assert(!repeated(c.actions, 0));
    assert(action_problem(c.actions, 0) is None);
    assert(actions_problem(c.actions, 1) is None);
    assert(current_action(a) =~= a);
}

/// Three non-negative numbers are ordered as their bits are.
proof fn use_order_of(x: u32, low: u32, high: u32)
    requires
        x < 0x8000_0000,
        low < 0x8000_0000,
        high < 0x8000_0000,
    ensures
        (Scalar { bits: x }).value() < (Scalar { bits: low }).value() <==> x < low,
        (Scalar { bits: low }).value() < (Scalar { bits: x }).value() <==> low < x,
        (Scalar { bits: high }).value() < (Scalar { bits: x }).value() <==> high < x,
{
    crate::scalar::magnitude_order(x as int, low as int, 0x80_0000);
    crate::scalar::magnitude_order(low as int, x as int, 0x80_0000);
    crate::scalar::magnitude_order(high as int, x as int, 0x80_0000);
}

/// In a valid configuration every id is there and belongs to one action only.
pub proof fn valid_ids_are_unique(c: ConfigModel, slider: Seq<char>)
    requires
        problem(c, slider) is None,
    ensures
        forall|i: int| 0 <= i < c.actions.len() ==> trimmed((#[trigger] c.actions[i]).id).len() > 0,
        forall|i: int, j: int|
            0 <= i < j < c.actions.len() ==> (#[trigger] c.actions[i]).id != (
            #[trigger] c.actions[j]).id,
        forall|i: int| 0 <= i < c.actions.len() ==> action_flaw(#[trigger] c.actions[i]) is None,
{
    assert forall|i: int| 0 <= i < c.actions.len() implies #[trigger] action_problem(
        c.actions,
        i,
    ) is None by {
        no_action_problem(c.actions, 0, i);
    }
    assert forall|i: int| 0 <= i < c.actions.len() implies trimmed((#[trigger] c.actions[i]).id).len()
        > 0 && action_flaw(c.actions[i]) is None by {
        assert(action_problem(c.actions, i) is None);
    }
    assert forall|i: int, j: int| 0 <= i < j < c.actions.len() implies (#[trigger] c.actions[i]).id
        != (#[trigger] c.actions[j]).id by {
        assert(action_problem(c.actions, j) is None);
        if c.actions[i].id == c.actions[j].id {
            assert(repeated(c.actions, j));
        }
    }
}

proof fn no_action_problem(actions: Seq<ActionModel>, from: int, i: int)
    requires
        0 <= from <= i < actions.len(),
        actions_problem(actions, from) is None,
    ensures
        action_problem(actions, i) is None,
    decreases i - from,
{
    if from < i {
        no_action_problem(actions, from + 1, i);
    }
}

/// An action that is switched off, or has nothing to act on, never runs.
pub proof fn incomplete_never_fires(a: ActionModel, tier: Tier, intensity: Scalar)
    ensures
        !a.enabled ==> !fires(a, tier, intensity),
        !runnable(a.kind) ==> !fires(a, tier, intensity),
{
}

/// Whether two actions say the same but for where a sound's files are listed.
pub open spec fn same_but_files(a: ActionModel, b: ActionModel) -> bool {
    &&& a.id == b.id
    &&& a.name == b.name
    &&& a.enabled == b.enabled
    &&& a.tiers == b.tiers
    &&& a.min_intensity == b.min_intensity
    &&& a.delay_ms == b.delay_ms
    &&& match a.kind {
        KindModel::Sound {
            order,
            volume_db,
            scale_with_intensity,
            intensity_range_pct,
            playback_rate,
            ..
        } => {
            &&& b.kind is Sound
            &&& b.kind->order == order
            &&& b.kind->volume_db == volume_db
            &&& b.kind->scale_with_intensity == scale_with_intensity
            &&& b.kind->intensity_range_pct == intensity_range_pct
            &&& b.kind->playback_rate == playback_rate
        },
        _ => b.kind == a.kind,
    }
}

/// Normalizing moves a sound's legacy path into its list and stamps the version. It touches
/// nothing else: every switch, number and text the user set is kept, in every action.
pub proof fn normalize_keeps_what_was_set(c: ConfigModel, i: int)
    ensures
        current(c).schema_version == 1,
        current(c).enabled == c.enabled,
        current(c).detector == c.detector,
        current(c).report_interval_us == c.report_interval_us,
        current(c).actions.len() == c.actions.len(),
        0 <= i < c.actions.len() ==> {
            let a = c.actions[i];
            let b = current(c).actions[i];
            &&& same_but_files(a, b)
            &&& a.kind is Sound ==> {
                &&& b.kind->Sound_path is None
                &&& b.kind->Sound_paths == (if a.kind->Sound_paths.len() == 0
                    && a.kind->Sound_path is Some && a.kind->Sound_path->0.len() > 0 {
                    seq![a.kind->Sound_path->0]
                } else {
                    a.kind->Sound_paths
                })
            }
        },
{
}

/// A configuration of the current version, in which no sound carries a legacy path, is kept
/// exactly as it is.
pub proof fn normalize_keeps_a_current_config(c: ConfigModel)
    requires
        c.schema_version == 1,
        forall|i: int|
            0 <= i < c.actions.len() && (#[trigger] c.actions[i]).kind is Sound
                ==> c.actions[i].kind->Sound_path is None,
    ensures
        current(c) == c,
{
    let d = current(c);
    assert forall|i: int| 0 <= i < c.actions.len() implies #[trigger] d.actions[i]
        == c.actions[i] by {
        let a = c.actions[i];
        assert(d.actions[i] == current_action(a));
        assert(current_action(a).kind =~= a.kind);
        assert(current_action(a) =~= a);
    }
    assert(d.actions =~= c.actions);
    assert(d =~= c);
}

/// An action runs for a slap exactly when it is switched on and filled in, its list of tiers
/// is empty or names the slap's, and the slap is at least as hard as it asks.
pub proof fn fires_exactly_when(a: ActionModel, tier: Tier, intensity: Scalar)
    ensures
        fires(a, tier, intensity) <==> {
            &&& a.enabled
            &&& a.tiers.len() == 0 || exists|i: int|
                0 <= i < a.tiers.len() && #[trigger] a.tiers[i] == tier
            &&& !intensity.nan() && !a.min_intensity.nan() && intensity.value()
                >= a.min_intensity.value()
            &&& match a.kind {
                KindModel::Sound { paths, .. } => paths.len() > 0,
                KindModel::Exec { program, .. } => exists|i: int|
                    0 <= i < program.len() && !space(#[trigger] program[i]),
                KindModel::Webhook { url, .. } => exists|i: int|
                    0 <= i < url.len() && !space(#[trigger] url[i]),
            }
        },
{
    match a.kind {
        KindModel::Exec { program, .. } => blank_is_all_space(program),
        KindModel::Webhook { url, .. } => blank_is_all_space(url),
        _ => {},
    }
}

/// Whether an action's settings are in order, beyond its id.
pub open spec fn in_order(a: ActionModel) -> bool {
    let zero = (Scalar { bits: 0 }).value();
    let one = (Scalar { bits: 0x3f80_0000 }).value();
    &&& !a.min_intensity.nan() && zero <= a.min_intensity.value() <= one
    &&& a.delay_ms <= 5_000
    &&& match a.kind {
        KindModel::Sound { playback_rate, intensity_range_pct, .. } => {
            &&& !playback_rate.nan() && zero < playback_rate.value()
            &&& !intensity_range_pct.nan()
            &&& zero <= intensity_range_pct.value() <= (Scalar { bits: 0x42c8_0000 }).value()
        },
        KindModel::Exec { .. } => true,
        KindModel::Webhook { url, method, timeout_ms, .. } => {
            &&& 1 <= timeout_ms <= 30_000
            &&& trimmed(url).len() == 0 || "http://"@.is_prefix_of(trimmed(url))
                || "https://"@.is_prefix_of(trimmed(url))
            &&& trimmed(method).len() == 0 || same_ignoring_case(trimmed(method), "GET"@)
                || same_ignoring_case(trimmed(method), "POST"@) || same_ignoring_case(
                trimmed(method),
                "PUT"@,
            ) || same_ignoring_case(trimmed(method), "PATCH"@) || same_ignoring_case(
                trimmed(method),
                "DELETE"@,
            )
        },
    }
}

/// A configuration is accepted exactly when every action has an id of its own and settings
/// in order, and the detector's slider, cooldown and report interval are within bounds.
pub proof fn valid_exactly_when(c: ConfigModel, slider: Seq<char>)
    ensures
        problem(c, slider) is None <==> {
            &&& forall|i: int|
                0 <= i < c.actions.len() ==> in_order(#[trigger] c.actions[i]) && exists|k: int|
                    0 <= k < c.actions[i].id.len() && !space(#[trigger] c.actions[i].id[k])
            &&& forall|i: int, j: int|
                0 <= i < j < c.actions.len() ==> (#[trigger] c.actions[i]).id != (
                #[trigger] c.actions[j]).id
            &&& !c.detector.sensitivity.nan() && (Scalar { bits: 0 }).value()
                <= c.detector.sensitivity.value() <= (Scalar { bits: 0x3f80_0000 }).value()
            &&& c.detector.cooldown_s.nan() || c.detector.cooldown_s.value() >= (Scalar {
                bits: 0,
            }).value()
            &&& 1000 <= c.report_interval_us <= 8000
        },
{
    assert forall|i: int| 0 <= i < c.actions.len() implies (action_flaw(
        #[trigger] c.actions[i],
    ) is None <==> in_order(c.actions[i])) by {
        flaw_exactly_when(c.actions[i]);
    }
    if problem(c, slider) is None {
        valid_ids_are_unique(c, slider);
        assert forall|i: int| 0 <= i < c.actions.len() implies in_order(#[trigger] c.actions[i])
            && exists|k: int|
            0 <= k < c.actions[i].id.len() && !space(#[trigger] c.actions[i].id[k]) by {
            blank_is_all_space(c.actions[i].id);
        }
    }
    let fine = forall|i: int|
        0 <= i < c.actions.len() ==> in_order(#[trigger] c.actions[i]) && exists|k: int|
            0 <= k < c.actions[i].id.len() && !space(#[trigger] c.actions[i].id[k]);
    let unique = forall|i: int, j: int|
        0 <= i < j < c.actions.len() ==> (#[trigger] c.actions[i]).id != (
        #[trigger] c.actions[j]).id;
    if fine && unique {
        assert forall|i: int| 0 <= i < c.actions.len() implies #[trigger] action_problem(
            c.actions,
            i,
        ) is None by {
            let a = c.actions[i];
            assert(in_order(a));
            blank_is_all_space(a.id);
            if repeated(c.actions, i) {
                let j = choose|j: int| 0 <= j < i && (#[trigger] c.actions[j]).id == a.id;
                assert(c.actions[j].id != c.actions[i].id);
            }
        }
        no_problem_at_all(c.actions, 0);
    }
    assert((Scalar { bits: 0 }).magnitude() == 0);
}

/// An action is refused for its settings exactly when one of them is out of order.
pub proof fn flaw_exactly_when(a: ActionModel)
    ensures
        action_flaw(a) is None <==> in_order(a),
{
}

/// The first action that is out of order is the one that is named, with its id and what is
/// wrong with it.
pub proof fn first_problem_is_named(c: ConfigModel, slider: Seq<char>, i: int)
    requires
        0 <= i < c.actions.len(),
        forall|k: int| 0 <= k < i ==> action_problem(c.actions, k) is None,
        exists|k: int| 0 <= k < c.actions[i].id.len() && !space(#[trigger] c.actions[i].id[k]),
    ensures
        (exists|j: int| 0 <= j < i && (#[trigger] c.actions[j]).id == c.actions[i].id) ==> problem(
            c,
            slider,
        ) == Some("duplicate action id `"@ + c.actions[i].id + "`"@),
        (forall|j: int| 0 <= j < i ==> (#[trigger] c.actions[j]).id != c.actions[i].id) ==> (
        action_flaw(c.actions[i]) matches Some(flaw) ==> problem(c, slider) == Some(
            "action `"@ + c.actions[i].id + "`: "@ + flaw,
        )),
{
    blank_is_all_space(c.actions[i].id);
    if forall|j: int| 0 <= j < i ==> (#[trigger] c.actions[j]).id != c.actions[i].id {
        assert(!repeated(c.actions, i));
    }
    if exists|j: int| 0 <= j < i && (#[trigger] c.actions[j]).id == c.actions[i].id {
        assert(repeated(c.actions, i));
    }
    if action_problem(c.actions, i) is Some {
        first_of_problems(c.actions, 0, i);
    }
}

proof fn first_of_problems(actions: Seq<ActionModel>, from: int, i: int)
    requires
        0 <= from <= i < actions.len(),
        forall|k: int| from <= k < i ==> action_problem(actions, k) is None,
        action_problem(actions, i) is Some,
    ensures
        actions_problem(actions, from) == action_problem(actions, i),
    decreases i - from,
{
    if from < i {
        assert(action_problem(actions, from) is None);
        first_of_problems(actions, from + 1, i);
    }
}

proof fn no_problem_at_all(actions: Seq<ActionModel>, from: int)
    requires
        0 <= from <= actions.len(),
        forall|k: int| 0 <= k < actions.len() ==> #[trigger] action_problem(actions, k) is None,
    ensures
        actions_problem(actions, from) is None,
    decreases actions.len() - from,
{
    if from < actions.len() {
        assert(action_problem(actions, from) is None);
        no_problem_at_all(actions, from + 1);
    }
}

/// The model of a configuration shows each of its fields as it is.
pub proof fn a_config_is_its_fields(c: DaemonConfig, i: int)
    ensures
        c@.schema_version == c.schema_version,
        c@.enabled == c.enabled,
        c@.detector == c.detector,
        c@.report_interval_us == c.report_interval_us,
        c@.actions.len() == c.actions@.len(),
        0 <= i < c.actions@.len() ==> {
            let a = c.actions@[i];
            let m = c@.actions[i];
            &&& m.id == a.id@ && m.name == a.name@ && m.enabled == a.enabled
            &&& m.tiers == a.tiers@ && m.min_intensity == a.min_intensity && m.delay_ms
                == a.delay_ms
            &&& match a.kind {
                ActionKind::Sound {
                    paths,
                    path,
                    order,
                    volume_db,
                    scale_with_intensity,
                    intensity_range_pct,
                    playback_rate,
                } => {
                    &&& m.kind is Sound
                    &&& m.kind->Sound_paths.len() == paths@.len()
                    &&& forall|k: int|
                        0 <= k < paths@.len() ==> #[trigger] m.kind->Sound_paths[k] == paths@[k]@
                    &&& m.kind->Sound_path is Some <==> path is Some
                    &&& path is Some ==> m.kind->Sound_path->0 == path->0@
                    &&& m.kind->order == order && m.kind->volume_db == volume_db
                    &&& m.kind->scale_with_intensity == scale_with_intensity
                    &&& m.kind->intensity_range_pct == intensity_range_pct
                    &&& m.kind->playback_rate == playback_rate
                },
                ActionKind::Exec { program, args, stdin_json } => {
                    &&& m.kind is Exec
                    &&& m.kind->program == program@ && m.kind->stdin_json == stdin_json
                    &&& m.kind->args.len() == args@.len()
                    &&& forall|k: int|
                        0 <= k < args@.len() ==> #[trigger] m.kind->args[k] == args@[k]@
                },
                ActionKind::Webhook { url, method, headers, body, timeout_ms } => {
                    &&& m.kind is Webhook
                    &&& m.kind->url == url@ && m.kind->method == method@ && m.kind->timeout_ms
                        == timeout_ms
                    &&& m.kind->body is Some <==> body is Some
                    &&& body is Some ==> m.kind->body->0 == body->0@
                    &&& m.kind->headers.len() == headers.entries@.len()
                    &&& forall|k: int|
                        0 <= k < headers.entries@.len() ==> #[trigger] m.kind->headers[k] == (
                            headers.entries@[k].name@,
                            headers.entries@[k].value@,
                        )
                },
            }
        },
{
}

/// A fresh install is on and makes one noise: a system sound at its own volume and speed, two
/// tenths of a second after a slap of any tier and intensity.
pub proof fn a_fresh_install_makes_one_noise(c: ConfigModel)
    requires
        standard_config(c),
    ensures
        c.schema_version == 1,
        c.enabled,
        c.report_interval_us == 1000,
        c.actions.len() == 1,
        ({
            let a = c.actions[0];
            &&& a.id == "sound"@
            &&& a.name == "Play a sound"@
            &&& a.enabled
            &&& a.tiers.len() == 0
            &&& a.min_intensity.value() == 0 && !a.min_intensity.nan()
            &&& a.delay_ms == 200
            &&& a.kind is Sound
            &&& a.kind->Sound_paths == seq!["/System/Library/Sounds/Sosumi.aiff"@]
            &&& a.kind->Sound_path is None
            &&& a.kind->order is Sequential
            &&& a.kind->volume_db.value() == 0 && !a.kind->volume_db.nan()
            &&& !a.kind->scale_with_intensity
            &&& rounds(a.kind->intensity_range_pct, 40, 1)
            &&& rounds(a.kind->playback_rate, 1, 1)
        }),
{
    lemma2_to64();
    let zero = Scalar { bits: ZERO };
    assert(zero.magnitude() == 0);
    against_one(Scalar { bits: DEFAULT_RANGE }, 132, 0x20_0000, 32);
    against_one(Scalar { bits: ONE }, 127, 0, 1);
}

/// An action out of order is told which of its settings is, the first of them where there are
/// several.
pub proof fn flaws_are_told_apart(a: ActionModel)
    ensures
        ({
            let zero = (Scalar { bits: 0 }).value();
            let one = (Scalar { bits: 0x3f80_0000 }).value();
            let hundred = 100 * one;
            let soft = !a.min_intensity.nan() && zero <= a.min_intensity.value() <= one;
            &&& !soft ==> action_flaw(a) == Some("min_intensity must be between 0 and 1"@)
            &&& soft && a.delay_ms > 5_000 ==> action_flaw(a) == Some(
                "delay_ms of "@ + decimal(a.delay_ms as nat)
                    + " is longer than any response to a spank should wait"@,
            )
            &&& soft && a.delay_ms <= 5_000 ==> match a.kind {
                KindModel::Sound { playback_rate, intensity_range_pct, .. } => {
                    let range = !intensity_range_pct.nan() && zero <= intensity_range_pct.value()
                        <= hundred;
                    &&& !range ==> action_flaw(a) == Some(
                        "intensity_range_pct must be between 0 and 100"@,
                    )
                    &&& range && (playback_rate.nan() || playback_rate.value() <= zero)
                        ==> action_flaw(a) == Some("playback_rate must be positive"@)
                },
                KindModel::Exec { .. } => action_flaw(a) is None,
                KindModel::Webhook { url, method, timeout_ms, .. } => {
                    let address = trimmed(url).len() == 0 || "http://"@.is_prefix_of(trimmed(url))
                        || "https://"@.is_prefix_of(trimmed(url));
                    let verb = trimmed(method).len() == 0 || same_ignoring_case(
                        trimmed(method),
                        "GET"@,
                    ) || same_ignoring_case(trimmed(method), "POST"@) || same_ignoring_case(
                        trimmed(method),
                        "PUT"@,
                    ) || same_ignoring_case(trimmed(method), "PATCH"@) || same_ignoring_case(
                        trimmed(method),
                        "DELETE"@,
                    );
                    &&& !address ==> action_flaw(a) == Some(
                        "webhook url must start with http:// or https://"@,
                    )
                    &&& address && !verb ==> action_flaw(a) == Some(
                        "webhook method must be one of GET, POST, PUT, PATCH, DELETE"@,
                    )
                    &&& address && verb && !(1 <= timeout_ms <= 30_000) ==> action_flaw(a) == Some(
                        "timeout_ms must be between 1 and 30000"@,
                    )
                },
            }
        }),
{
    lemma2_to64();
    against_one(Scalar { bits: FULL_RANGE }, 133, 0x48_0000, 64);
    assert((Scalar { bits: FULL_RANGE }).value() == 100 * (Scalar { bits: 0x3f80_0000 }).value());
}

/// Where every action is in order, the detector's settings are told apart the same way.
pub proof fn detector_problems_are_told_apart(c: ConfigModel, slider: Seq<char>)
    requires
        forall|i: int| 0 <= i < c.actions.len() ==> #[trigger] action_problem(c.actions, i) is None,
    ensures
        ({
            let zero = (Scalar { bits: 0 }).value();
            let one = (Scalar { bits: 0x3f80_0000 }).value();
            let d = c.detector;
            let set = !d.sensitivity.nan() && zero <= d.sensitivity.value() <= one;
            let cool = d.cooldown_s.nan() || d.cooldown_s.value() >= zero;
            &&& !set ==> problem(c, slider) == Some(
                "sensitivity must be between 0 and 1, got "@ + slider,
            )
            &&& set && !cool ==> problem(c, slider) == Some("cooldown cannot be negative"@)
            &&& set && cool && !(1000 <= c.report_interval_us <= 8000) ==> problem(c, slider)
                == Some(
                "report_interval_us must be between 1000 and 8000, got "@ + decimal(
                    c.report_interval_us as nat,
                ),
            )
        }),
{
    no_problem_at_all(c.actions, 0);
    assert((Scalar { bits: 0 }).magnitude() == 0);
}

/// An action without an id is refused for that, first of all.
pub proof fn every_action_needs_an_id(c: ConfigModel, slider: Seq<char>, i: int)
    requires
        0 <= i < c.actions.len(),
        forall|k: int| 0 <= k < i ==> action_problem(c.actions, k) is None,
        forall|k: int| 0 <= k < c.actions[i].id.len() ==> space(#[trigger] c.actions[i].id[k]),
    ensures
        problem(c, slider) == Some("every action needs a non-empty id"@),
{
    blank_is_all_space(c.actions[i].id);
    first_of_problems(c.actions, 0, i);
}

} // verus!
