//! What a slap makes happen.
//!
//! The critical path is the sound: everything else can take as long as it likes, but the
//! gap between the hit and the noise is the entire user experience. So a slap only makes
//! jobs here; the worker runs them when they come due.
use vstd::prelude::*;

use crate::config::{fires, Action, ActionKind, ActionModel, DaemonConfig, KindModel};
use crate::detector::Tier;
use crate::meta::{
    ascending, every_name_has_its_value, lookup, neighbours_ascend, pairs, Entries, Entry, Meta,
};
use crate::numeral::{decimal, write_count};
use crate::paths::components;
use crate::protocol::Slap;
use crate::scalar::Scalar;
use crate::sounds::{
    after_choice, choice, choice_is_a_candidate, distinct, flat, has_path, holds_path, lists_of,
    playlist, Chooser, Picker,
};
use crate::template::{render, rendered};
use crate::text::{
    chars, eq_ignoring_case, less, less_at, owned, put, same_ignoring_case, string, texts, upper,
};

verus! {

// ---------------------------------------------------------------------------------
// The event in words
// ---------------------------------------------------------------------------------

/// The measurements of a slap as numerals.
#[derive(Debug, PartialEq, Eq)]
pub struct Figures {
    pub t: String,
    pub intensity: String,
    pub peak_g: String,
    pub gyro_peak: String,
    pub gyro_ratio: String,
    pub axis_x: String,
    pub axis_y: String,
    pub axis_z: String,
}

/// A slap together with its figures, and the whole of it as JSON.
#[derive(Debug, PartialEq, Eq)]
pub struct Occasion {
    pub slap: Slap,
    pub figures: Figures,
    pub payload: String,
}

/// `true` or `false`.
pub open spec fn truth(b: bool) -> Seq<char> {
    if b {
        "true"@
    } else {
        "false"@
    }
}

/// The values available to `{{...}}` placeholders, by name.
pub open spec fn vars_of(o: Occasion) -> Entries {
    seq![
        ("axis_x"@, o.figures.axis_x@),
        ("axis_y"@, o.figures.axis_y@),
        ("axis_z"@, o.figures.axis_z@),
        ("gyro_confirmed"@, truth(o.slap.gyro_confirmed)),
        ("gyro_peak"@, o.figures.gyro_peak@),
        ("gyro_ratio"@, o.figures.gyro_ratio@),
        ("intensity"@, o.figures.intensity@),
        ("peak_g"@, o.figures.peak_g@),
        ("t"@, o.figures.t@),
        ("tier"@, o.slap.tier.name()),
        ("votes"@, decimal(o.slap.votes as nat)),
    ]
}

fn entry(name: &str, value: &str) -> (r: Entry)
    ensures
        r.name@ == name@,
        r.value@ == value@,
{
    Entry { name: owned(name), value: owned(value) }
}

/// Values available to `{{...}}` placeholders.
pub fn template_vars(o: &Occasion) -> (r: Meta)
    ensures
        r@ == vars_of(*o),
        r.valid(),
        r@.len() == 11,
        lookup(r@, "axis_x"@) == Some(o.figures.axis_x@),
        lookup(r@, "axis_y"@) == Some(o.figures.axis_y@),
        lookup(r@, "axis_z"@) == Some(o.figures.axis_z@),
        lookup(r@, "gyro_confirmed"@) == Some(
            if o.slap.gyro_confirmed {
                "true"@
            } else {
                "false"@
            },
        ),
        lookup(r@, "gyro_peak"@) == Some(o.figures.gyro_peak@),
        lookup(r@, "gyro_ratio"@) == Some(o.figures.gyro_ratio@),
        lookup(r@, "intensity"@) == Some(o.figures.intensity@),
        lookup(r@, "peak_g"@) == Some(o.figures.peak_g@),
        lookup(r@, "t"@) == Some(o.figures.t@),
        lookup(r@, "tier"@) == Some(
            match o.slap.tier {
                Tier::Micro => "micro"@,
                Tier::Medium => "medium"@,
                Tier::Major => "major"@,
            },
        ),
        lookup(r@, "votes"@) == Some(decimal(o.slap.votes as nat)),
{
    let f: &Figures = &o.figures;
    let votes: Vec<char> = write_count(o.slap.votes as u64);
    let mut entries: Vec<Entry> = Vec::new();
    entries.push(entry("axis_x", f.axis_x.as_str()));
    entries.push(entry("axis_y", f.axis_y.as_str()));
    entries.push(entry("axis_z", f.axis_z.as_str()));
    entries.push(
        entry(
            "gyro_confirmed",
            if o.slap.gyro_confirmed {
                "true"
            } else {
                "false"
            },
        ),
    );
    entries.push(entry("gyro_peak", f.gyro_peak.as_str()));
    entries.push(entry("gyro_ratio", f.gyro_ratio.as_str()));
    entries.push(entry("intensity", f.intensity.as_str()));
    entries.push(entry("peak_g", f.peak_g.as_str()));
    entries.push(entry("t", f.t.as_str()));
    entries.push(entry("tier", o.slap.tier.as_str()));
    entries.push(Entry { name: owned("votes"), value: string(votes.as_slice()) });
    let r = Meta { entries };
    proof {
        assert(r@ =~= vars_of(*o));
        vars_ascend(*o);
        every_name_has_its_value(r@, 0, "axis_x"@);
        every_name_has_its_value(r@, 1, "axis_y"@);
        every_name_has_its_value(r@, 2, "axis_z"@);
        every_name_has_its_value(r@, 3, "gyro_confirmed"@);
        every_name_has_its_value(r@, 4, "gyro_peak"@);
        every_name_has_its_value(r@, 5, "gyro_ratio"@);
        every_name_has_its_value(r@, 6, "intensity"@);
        every_name_has_its_value(r@, 7, "peak_g"@);
        every_name_has_its_value(r@, 8, "t"@);
        every_name_has_its_value(r@, 9, "tier"@);
        every_name_has_its_value(r@, 10, "votes"@);
    }
    r
}

/// The names of the values stand in order.
proof fn vars_ascend(o: Occasion)
    ensures
        ascending(vars_of(o)),
{
    reveal_strlit("axis_x");
    reveal_strlit("axis_y");
    reveal_strlit("axis_z");
    reveal_strlit("gyro_confirmed");
    reveal_strlit("gyro_peak");
    reveal_strlit("gyro_ratio");
    reveal_strlit("intensity");
    reveal_strlit("peak_g");
    reveal_strlit("t");
    reveal_strlit("tier");
    reveal_strlit("votes");
    let m = vars_of(o);
    less_at("axis_x"@, "axis_y"@, 5);
    less_at("axis_y"@, "axis_z"@, 5);
    less_at("axis_z"@, "gyro_confirmed"@, 0);
    less_at("gyro_confirmed"@, "gyro_peak"@, 5);
    less_at("gyro_peak"@, "gyro_ratio"@, 5);
    less_at("gyro_ratio"@, "intensity"@, 0);
    less_at("intensity"@, "peak_g"@, 0);
    less_at("peak_g"@, "t"@, 0);
    less_at("t"@, "tier"@, 1);
    less_at("tier"@, "votes"@, 0);
    neighbours_ascend(m);
}

/// The ASCII upper-case form of a text.
pub open spec fn uppered(s: Seq<char>) -> Seq<char> {
    Seq::new(s.len(), |i: int| upper(s[i]))
}

/// Named values as environment variables.
pub open spec fn env_of(vars: Entries) -> Entries {
    Seq::new(vars.len(), |i: int| ("SPANK_"@ + uppered(vars[i].0), vars[i].1))
}

fn put_upper(out: &mut Vec<char>, s: &str)
    ensures
        final(out)@ == old(out)@ + uppered(s@),
{
    let v: Vec<char> = chars(s);
    let n: usize = v.len();
    for i in 0..n
        invariant
            n == v@.len(),
            v@ == s@,
            out@ == old(out)@ + uppered(s@).take(i as int),
    {
        let c: char = v[i];
        let u: char = if 'a' <= c && c <= 'z' {
            ((c as u8) - 32u8) as char
        } else {
            c
        };
        out.push(u);
        proof {
            assert(u == upper(c));
            assert(out@ =~= old(out)@ + uppered(s@).take(i as int + 1));
        }
    }
    proof {
        assert(uppered(s@).take(n as int) =~= uppered(s@));
    }
}

/// The same values as `SPANK_*` environment variables, for shell one-liners.
pub fn env_vars(o: &Occasion) -> (r: Vec<Entry>)
    ensures
        pairs(r@) == env_of(vars_of(*o)),
        r@.len() == 11,
        lookup(pairs(r@), "SPANK_AXIS_X"@) == Some(o.figures.axis_x@),
        lookup(pairs(r@), "SPANK_AXIS_Y"@) == Some(o.figures.axis_y@),
        lookup(pairs(r@), "SPANK_AXIS_Z"@) == Some(o.figures.axis_z@),
        lookup(pairs(r@), "SPANK_GYRO_CONFIRMED"@) == Some(
            if o.slap.gyro_confirmed {
                "true"@
            } else {
                "false"@
            },
        ),
        lookup(pairs(r@), "SPANK_GYRO_PEAK"@) == Some(o.figures.gyro_peak@),
        lookup(pairs(r@), "SPANK_GYRO_RATIO"@) == Some(o.figures.gyro_ratio@),
        lookup(pairs(r@), "SPANK_INTENSITY"@) == Some(o.figures.intensity@),
        lookup(pairs(r@), "SPANK_PEAK_G"@) == Some(o.figures.peak_g@),
        lookup(pairs(r@), "SPANK_T"@) == Some(o.figures.t@),
        lookup(pairs(r@), "SPANK_TIER"@) == Some(
            match o.slap.tier {
                Tier::Micro => "micro"@,
                Tier::Medium => "medium"@,
                Tier::Major => "major"@,
            },
        ),
        lookup(pairs(r@), "SPANK_VOTES"@) == Some(decimal(o.slap.votes as nat)),
{
    let vars: Meta = template_vars(o);
    let n: usize = vars.entries.len();
    let mut entries: Vec<Entry> = Vec::new();
    for i in 0..n
        invariant
            n == vars.entries@.len(),
            vars@ == vars_of(*o),
            entries@.len() == i,
            forall|k: int|
                0 <= k < i ==> (#[trigger] entries@[k]).name@ == "SPANK_"@ + uppered(vars@[k].0)
                    && entries@[k].value@ == vars@[k].1,
    {
        let mut name: Vec<char> = chars("SPANK_");
        put_upper(&mut name, vars.entries[i].name.as_str());
        entries.push(
            Entry { name: string(name.as_slice()), value: vars.entries[i].value.clone() },
        );
    }
    proof {
        assert(pairs(entries@) =~= env_of(vars_of(*o)));
        env_names(*o);
        let m = pairs(entries@);
        every_name_has_its_value(m, 0, m[0].0);
        every_name_has_its_value(m, 1, m[1].0);
        every_name_has_its_value(m, 2, m[2].0);
        every_name_has_its_value(m, 3, m[3].0);
        every_name_has_its_value(m, 4, m[4].0);
        every_name_has_its_value(m, 5, m[5].0);
        every_name_has_its_value(m, 6, m[6].0);
        every_name_has_its_value(m, 7, m[7].0);
        every_name_has_its_value(m, 8, m[8].0);
        every_name_has_its_value(m, 9, m[9].0);
        every_name_has_its_value(m, 10, m[10].0);
    }
    entries
}

/// The names of the environment variables, in order.
proof fn env_names(o: Occasion)
    ensures
        env_of(vars_of(o))[0].0 == "SPANK_AXIS_X"@,
        env_of(vars_of(o))[1].0 == "SPANK_AXIS_Y"@,
        env_of(vars_of(o))[2].0 == "SPANK_AXIS_Z"@,
        env_of(vars_of(o))[3].0 == "SPANK_GYRO_CONFIRMED"@,
        env_of(vars_of(o))[4].0 == "SPANK_GYRO_PEAK"@,
        env_of(vars_of(o))[5].0 == "SPANK_GYRO_RATIO"@,
        env_of(vars_of(o))[6].0 == "SPANK_INTENSITY"@,
        env_of(vars_of(o))[7].0 == "SPANK_PEAK_G"@,
        env_of(vars_of(o))[8].0 == "SPANK_T"@,
        env_of(vars_of(o))[9].0 == "SPANK_TIER"@,
        env_of(vars_of(o))[10].0 == "SPANK_VOTES"@,
        ascending(env_of(vars_of(o))),
{
    reveal_strlit("SPANK_");
    reveal_strlit("axis_x");
    reveal_strlit("SPANK_AXIS_X");
    reveal_strlit("axis_y");
    reveal_strlit("SPANK_AXIS_Y");
    reveal_strlit("axis_z");
    reveal_strlit("SPANK_AXIS_Z");
    reveal_strlit("gyro_confirmed");
    reveal_strlit("SPANK_GYRO_CONFIRMED");
    reveal_strlit("gyro_peak");
    reveal_strlit("SPANK_GYRO_PEAK");
    reveal_strlit("gyro_ratio");
    reveal_strlit("SPANK_GYRO_RATIO");
    reveal_strlit("intensity");
    reveal_strlit("SPANK_INTENSITY");
    reveal_strlit("peak_g");
    reveal_strlit("SPANK_PEAK_G");
    reveal_strlit("t");
    reveal_strlit("SPANK_T");
    reveal_strlit("tier");
    reveal_strlit("SPANK_TIER");
    reveal_strlit("votes");
    reveal_strlit("SPANK_VOTES");
    let m = env_of(vars_of(o));
    assert(m[0].0 =~= "SPANK_AXIS_X"@);
    assert(m[1].0 =~= "SPANK_AXIS_Y"@);
    assert(m[2].0 =~= "SPANK_AXIS_Z"@);
    assert(m[3].0 =~= "SPANK_GYRO_CONFIRMED"@);
    assert(m[4].0 =~= "SPANK_GYRO_PEAK"@);
    assert(m[5].0 =~= "SPANK_GYRO_RATIO"@);
    assert(m[6].0 =~= "SPANK_INTENSITY"@);
    assert(m[7].0 =~= "SPANK_PEAK_G"@);
    assert(m[8].0 =~= "SPANK_T"@);
    assert(m[9].0 =~= "SPANK_TIER"@);
    assert(m[10].0 =~= "SPANK_VOTES"@);
    less_at("SPANK_AXIS_X"@, "SPANK_AXIS_Y"@, 11);
    less_at("SPANK_AXIS_Y"@, "SPANK_AXIS_Z"@, 11);
    less_at("SPANK_AXIS_Z"@, "SPANK_GYRO_CONFIRMED"@, 6);
    less_at("SPANK_GYRO_CONFIRMED"@, "SPANK_GYRO_PEAK"@, 11);
    less_at("SPANK_GYRO_PEAK"@, "SPANK_GYRO_RATIO"@, 11);
    less_at("SPANK_GYRO_RATIO"@, "SPANK_INTENSITY"@, 6);
    less_at("SPANK_INTENSITY"@, "SPANK_PEAK_G"@, 6);
    less_at("SPANK_PEAK_G"@, "SPANK_T"@, 6);
    less_at("SPANK_T"@, "SPANK_TIER"@, 7);
    less_at("SPANK_TIER"@, "SPANK_VOTES"@, 6);
    neighbours_ascend(m);
}

// ---------------------------------------------------------------------------------
// Jobs
// ---------------------------------------------------------------------------------

/// What `str::to_uppercase` gives: the Unicode upper-case form.
pub uninterp spec fn uppercased(s: Seq<char>) -> Seq<char>;

/// Text of ASCII characters only.
pub open spec fn ascii(s: Seq<char>) -> bool {
    forall|i: int| 0 <= i < s.len() ==> (#[trigger] s[i] as u32) < 0x80
}

/// `str::to_uppercase`: the Unicode upper-case form, which for ASCII text is the ASCII
/// one.
#[verifier::external_body]
fn to_uppercase(s: &str) -> (r: String)
    ensures
        r@ == uppercased(s@),
        ascii(s@) ==> r@ == uppered(s@),
{
    s.to_uppercase()
}

/// Work for the background executor.
#[derive(Debug, PartialEq, Eq)]
pub enum Job {
    Sound {
        path: String,
        volume_db: Scalar,
        /// How far the volume follows the intensity, in percent; not at all without one.
        swing: Option<Scalar>,
        intensity: Scalar,
        playback_rate: Scalar,
    },
    Exec {
        program: String,
        args: Vec<String>,
        stdin_json: bool,
        env: Vec<Entry>,
        payload: String,
    },
    Webhook {
        url: String,
        method: String,
        headers: Meta,
        body: String,
        timeout_ms: u64,
    },
}

/// Work, as a model.
#[verifier::ext_equal]
pub enum JobModel {
    Sound {
        path: Seq<char>,
        volume_db: Scalar,
        swing: Option<Scalar>,
        intensity: Scalar,
        playback_rate: Scalar,
    },
    Exec {
        program: Seq<char>,
        args: Seq<Seq<char>>,
        stdin_json: bool,
        env: Entries,
        payload: Seq<char>,
    },
    Webhook {
        url: Seq<char>,
        method: Seq<char>,
        headers: Entries,
        body: Seq<char>,
        timeout_ms: u64,
    },
}

impl View for Job {
    type V = JobModel;

    open spec fn view(&self) -> JobModel {
        match self {
            Job::Sound { path, volume_db, swing, intensity, playback_rate } => JobModel::Sound {
                path: path@,
                volume_db: *volume_db,
                swing: *swing,
                intensity: *intensity,
                playback_rate: *playback_rate,
            },
            Job::Exec { program, args, stdin_json, env, payload } => JobModel::Exec {
                program: program@,
                args: texts(args@),
                stdin_json: *stdin_json,
                env: pairs(env@),
                payload: payload@,
            },
            Job::Webhook { url, method, headers, body, timeout_ms } => JobModel::Webhook {
                url: url@,
                method: method@,
                headers: headers@,
                body: body@,
                timeout_ms: *timeout_ms,
            },
        }
    }
}

/// A job and the moment it should run, in nanoseconds.
#[derive(Debug, PartialEq, Eq)]
pub struct Scheduled {
    pub due: u64,
    pub job: Job,
}

/// Every text of a list rendered.
pub open spec fn rendered_all(args: Seq<Seq<char>>, vars: Entries) -> Seq<Seq<char>> {
    Seq::new(args.len(), |i: int| rendered(args[i], vars))
}

/// Every value of a table rendered, under its own name.
pub open spec fn rendered_values(headers: Entries, vars: Entries) -> Entries {
    Seq::new(headers.len(), |i: int| (headers[i].0, rendered(headers[i].1, vars)))
}

/// The job of an action; none for a sound when there is no file to play, or the one chosen
/// is not among those `loaded`, in whatever spelling. `sounds` are the files the action may play, and `c` is where
/// their choice stands.
pub open spec fn job_of(
    kind: KindModel,
    o: Occasion,
    sounds: Seq<Seq<char>>,
    loaded: Seq<Seq<char>>,
    c: Chooser,
) -> Option<JobModel> {
    match kind {
        KindModel::Sound {
            order,
            volume_db,
            scale_with_intensity,
            intensity_range_pct,
            playback_rate,
            ..
        } => match choice(c, sounds, order) {
            None => None,
            Some(path) => if has_path(loaded, path) {
                Some(
                    JobModel::Sound {
                        path,
                        volume_db,
                        swing: if scale_with_intensity {
                            Some(intensity_range_pct)
                        } else {
                            None
                        },
                        intensity: o.slap.intensity,
                        playback_rate,
                    },
                )
            } else {
                None
            },
        },
        KindModel::Exec { program, args, stdin_json } => Some(
            JobModel::Exec {
                program,
                args: rendered_all(args, vars_of(o)),
                stdin_json,
                env: env_of(vars_of(o)),
                payload: o.payload@,
            },
        ),
        KindModel::Webhook { url, method, headers, body, timeout_ms } => Some(
            JobModel::Webhook {
                url: rendered(url, vars_of(o)),
                method: uppercased(method),
                headers: rendered_values(headers, vars_of(o)),
                body: match body {
                    Some(t) => rendered(t, vars_of(o)),
                    None => o.payload@,
                },
                timeout_ms,
            },
        ),
    }
}

/// Where the choice of sounds stands after an action ran.
pub open spec fn chooser_after(kind: KindModel, sounds: Seq<Seq<char>>, c: Chooser) -> Chooser {
    match kind {
        KindModel::Sound { order, .. } => after_choice(c, sounds, order),
        _ => c,
    }
}

/// When an action that was set off at `now` is due, in nanoseconds.
pub open spec fn due_at(a: ActionModel, now: u64) -> int {
    now + a.delay_ms * 1_000_000
}

fn render_all(args: &Vec<String>, vars: &Meta) -> (r: Vec<String>)
    ensures
        texts(r@) == rendered_all(texts(args@), vars@),
{
    let n: usize = args.len();
    let mut r: Vec<String> = Vec::new();
    for i in 0..n
        invariant
            n == args@.len(),
            r@.len() == i,
            forall|k: int| 0 <= k < i ==> (#[trigger] r@[k])@ == rendered(args@[k]@, vars@),
    {
        r.push(render(args[i].as_str(), vars));
    }
    proof {
        assert(texts(r@) =~= rendered_all(texts(args@), vars@));
    }
    r
}

fn render_values(headers: &Meta, vars: &Meta) -> (r: Meta)
    ensures
        r@ == rendered_values(headers@, vars@),
        headers.valid() ==> r.valid(),
{
    let n: usize = headers.entries.len();
    let mut entries: Vec<Entry> = Vec::new();
    for i in 0..n
        invariant
            n == headers.entries@.len(),
            entries@.len() == i,
            forall|k: int|
                0 <= k < i ==> (#[trigger] entries@[k]).name@ == headers.entries@[k].name@
                    && entries@[k].value@ == rendered(headers.entries@[k].value@, vars@),
    {
        entries.push(
            Entry {
                name: headers.entries[i].name.clone(),
                value: render(headers.entries[i].value.as_str(), vars),
            },
        );
    }
    let r = Meta { entries };
    proof {
        assert(r@ =~= rendered_values(headers@, vars@));
        if headers.valid() {
            assert forall|i: int, j: int| 0 <= i < j < r@.len() implies less(
                #[trigger] r@[i].0,
                #[trigger] r@[j].0,
            ) by {
                assert(less(headers@[i].0, headers@[j].0));
            }
        }
    }
    r
}

/// What several actions make happen at once: the jobs, and where the choice of sounds then
/// stands. Goes through the actions from `i` on.
pub open spec fn dispatched(
    actions: Seq<ActionModel>,
    o: Occasion,
    sounds: Seq<Seq<Seq<char>>>,
    loaded: Seq<Seq<char>>,
    c: Chooser,
    now: u64,
    i: int,
) -> (Seq<(int, JobModel)>, Chooser)
    decreases actions.len() - i,
{
    if i < 0 || i >= actions.len() {
        (Seq::empty(), c)
    } else {
        let a = actions[i];
        if fires(a, o.slap.tier, o.slap.intensity) {
            let rest = dispatched(
                actions,
                o,
                sounds,
                loaded,
                chooser_after(a.kind, sounds[i], c),
                now,
                i + 1,
            );
            match job_of(a.kind, o, sounds[i], loaded, c) {
                Some(job) => (seq![(due_at(a, now), job)] + rest.0, rest.1),
                None => rest,
            }
        } else {
            dispatched(actions, o, sounds, loaded, c, now, i + 1)
        }
    }
}

/// The due times and jobs of a list.
pub open spec fn schedule_of(v: Seq<Scheduled>) -> Seq<(int, JobModel)> {
    Seq::new(v.len(), |i: int| (v[i].due as int, v[i].job@))
}

/// Turns slaps into jobs.
#[derive(Debug, PartialEq, Eq)]
pub struct Executor {
    pub picker: Picker,
}

impl Executor {
    /// Seeded so two runs do not play the same sequence.
    pub fn new(seed: u64) -> (r: Executor)
        ensures
            r.picker@ == (Chooser { rotation: 0, rng: seed | 1, last: None }),
    {
        Executor { picker: Picker::new(seed) }
    }

    /// The job of one action regardless of its tier and intensity filters, for UI
    /// previews. `sounds` are the files the action may play, and `loaded` those that are
    /// decoded already.
    pub fn run(
        &mut self,
        action: &Action,
        o: &Occasion,
        sounds: &Vec<String>,
        loaded: &Vec<String>,
        now: u64,
    ) -> (r: Option<Scheduled>)
        requires
            due_at(action@, now) <= u64::MAX,
        ensures
            match r {
                Some(s) => s.due == due_at(action@, now) && s.due == now + action.delay_ms * 1_000_000
                    && job_of(
                    action@.kind,
                    *o,
                    texts(sounds@),
                    texts(loaded@),
                    old(self).picker@,
                ) == Some(s.job@),
                None => job_of(
                    action@.kind,
                    *o,
                    texts(sounds@),
                    texts(loaded@),
                    old(self).picker@,
                ) is None,
            },
            final(self).picker@ == chooser_after(
                action@.kind,
                texts(sounds@),
                old(self).picker@,
            ),
    {
        let job: Job = match &action.kind {
            ActionKind::Sound {
                order,
                volume_db,
                scale_with_intensity,
                intensity_range_pct,
                playback_rate,
                ..
            } => {
                let path: String = match self.picker.pick_sound(sounds, *order) {
                    Some(p) => p,
                    None => {
                        return None;
                    },
                };
                if !holds_path(loaded, path.as_str()) {
                    return None;
                }
                Job::Sound {
                    path,
                    volume_db: *volume_db,
                    swing: if *scale_with_intensity {
                        Some(*intensity_range_pct)
                    } else {
                        None
                    },
                    intensity: o.slap.intensity,
                    playback_rate: *playback_rate,
                }
            },
            ActionKind::Exec { program, args, stdin_json } => {
                let vars: Meta = template_vars(o);
                Job::Exec {
                    program: program.clone(),
                    args: render_all(args, &vars),
                    stdin_json: *stdin_json,
                    env: env_vars(o),
                    payload: o.payload.clone(),
                }
            },
            ActionKind::Webhook { url, method, headers, body, timeout_ms } => {
                let vars: Meta = template_vars(o);
                Job::Webhook {
                    url: render(url.as_str(), &vars),
                    method: to_uppercase(method.as_str()),
                    headers: render_values(headers, &vars),
                    body: match body {
                        Some(t) => render(t.as_str(), &vars),
                        None => o.payload.clone(),
                    },
                    timeout_ms: *timeout_ms,
                }
            },
        };
        Some(Scheduled { due: now + action.delay_ms as u64 * 1_000_000, job })
    }

    /// The jobs of every action that matches this slap. `sounds` holds, for each action,
    /// the files it may play, and `loaded` those that are decoded already.
    pub fn dispatch(
        &mut self,
        config: &DaemonConfig,
        o: &Occasion,
        sounds: &Vec<Vec<String>>,
        loaded: &Vec<String>,
        now: u64,
    ) -> (r: Vec<Scheduled>)
        requires
            sounds@.len() == config.actions@.len(),
            now + 0xffff_ffff * 1_000_000 <= u64::MAX,
        ensures
            schedule_of(r@) == dispatched(
                config@.actions,
                *o,
                lists_of(sounds@),
                texts(loaded@),
                old(self).picker@,
                now,
                0,
            ).0,
            forall|i: int|
                0 <= i < r@.len() ==> (#[trigger] r@[i]).due == schedule_of(r@)[i].0 && r@[i].job@
                    == schedule_of(r@)[i].1,
            r@.len() == schedule_of(r@).len(),
            final(self).picker@ == dispatched(
                config@.actions,
                *o,
                lists_of(sounds@),
                texts(loaded@),
                old(self).picker@,
                now,
                0,
            ).1,
    {
        let n: usize = config.actions.len();
        let mut r: Vec<Scheduled> = Vec::new();
        let mut i: usize = 0;
        let ghost whole = dispatched(
            config@.actions,
            *o,
            lists_of(sounds@),
            texts(loaded@),
            old(self).picker@,
            now,
            0,
        );
        proof {
            assert(schedule_of(r@) + whole.0 =~= whole.0);
        }
        while i < n
            invariant
                i <= n,
                n == config.actions@.len(),
                sounds@.len() == n,
                now + 0xffff_ffff * 1_000_000 <= u64::MAX,
                ({
                    let rest = dispatched(
                        config@.actions,
                        *o,
                        lists_of(sounds@),
                        texts(loaded@),
                        self.picker@,
                        now,
                        i as int,
                    );
                    whole.0 == schedule_of(r@) + rest.0 && whole.1 == rest.1
                }),
            decreases n - i,
        {
            let action: &Action = &config.actions[i];
            let ghost before = self.picker@;
            let ghost done = schedule_of(r@);
            proof {
                assert(config@.actions[i as int] == action@);
                assert(lists_of(sounds@)[i as int] == texts(sounds@[i as int]@));
            }
            if action.matches(o.slap.tier, o.slap.intensity) {
                match self.run(action, o, &sounds[i], loaded, now) {
                    Some(s) => {
                        r.push(s);
                        proof {
                            let rest = dispatched(
                                config@.actions,
                                *o,
                                lists_of(sounds@),
                                texts(loaded@),
                                self.picker@,
                                now,
                                i as int + 1,
                            );
                            assert(schedule_of(r@) =~= done.push((s.due as int, s.job@)));
                            assert(done + (seq![(due_at(action@, now), s.job@)] + rest.0)
                                =~= schedule_of(r@) + rest.0);
                        }
                    },
                    None => {},
                }
            }
            i = i + 1;
        }
        proof {
            assert(schedule_of(r@) + Seq::<(int, JobModel)>::empty() =~= schedule_of(r@));
        }
        r
    }
}

// ---------------------------------------------------------------------------------
// Decoded sounds
// ---------------------------------------------------------------------------------

/// The files of every sound action among the first `n`, in order.
pub open spec fn wanted_among(
    actions: Seq<ActionModel>,
    resolved: Seq<Seq<Seq<Seq<char>>>>,
    n: int,
) -> Seq<Seq<char>>
    decreases n,
{
    if n <= 0 {
        Seq::empty()
    } else if actions[n - 1].kind is Sound {
        wanted_among(actions, resolved, n - 1) + distinct(flat(resolved[n - 1]))
    } else {
        wanted_among(actions, resolved, n - 1)
    }
}

/// The resolved files of each entry of each action.
pub open spec fn entries_of(v: Seq<Vec<Vec<String>>>) -> Seq<Seq<Seq<Seq<char>>>> {
    Seq::new(v.len(), |i: int| lists_of(v[i]@))
}

/// Every sound the configuration refers to; `resolved` holds the files of each entry of
/// each action. These are to be decoded before a slap needs them, so switching sounds in
/// the UI does not put a file read on the trigger path.
pub fn wanted_sounds(config: &DaemonConfig, resolved: &Vec<Vec<Vec<String>>>) -> (r: Vec<String>)
    requires
        resolved@.len() == config.actions@.len(),
    ensures
        texts(r@) == wanted_among(
            config@.actions,
            entries_of(resolved@),
            config.actions@.len() as int,
        ),
{
    let n: usize = config.actions.len();
    let mut r: Vec<String> = Vec::new();
    proof {
        assert(texts(r@) =~= Seq::<Seq<char>>::empty());
    }
    for i in 0..n
        invariant
            n == config.actions@.len(),
            resolved@.len() == n,
            texts(r@) == wanted_among(config@.actions, entries_of(resolved@), i as int),
    {
        proof {
            assert(config@.actions[i as int] == config.actions@[i as int]@);
            assert(entries_of(resolved@)[i as int] == lists_of(resolved@[i as int]@));
        }
        match &config.actions[i].kind {
            ActionKind::Sound { .. } => {
                let files: Vec<String> = playlist(&resolved[i]);
                let m: usize = files.len();
                let ghost before = texts(r@);
                proof {
                    assert(before + texts(files@).take(0) =~= before);
                }
                for j in 0..m
                    invariant
                        m == files@.len(),
                        texts(r@) == before + texts(files@).take(j as int),
                {
                    let ghost was = texts(r@);
                    r.push(files[j].clone());
                    proof {
                        assert(texts(r@) =~= was.push(texts(files@)[j as int]));
                        assert(texts(r@) =~= before + texts(files@).take(j as int + 1));
                    }
                }
                proof {
                    assert(texts(files@).take(m as int) =~= texts(files@));
                }
            },
            _ => {},
        }
    }
    r
}

// ---------------------------------------------------------------------------------
// Requests
// ---------------------------------------------------------------------------------

/// Whether a table of headers says what the content is.
pub open spec fn has_content_type(headers: Entries) -> bool {
    exists|i: int|
        0 <= i < headers.len() && same_ignoring_case((#[trigger] headers[i]).0, "content-type"@)
}

/// The headers of a webhook request: those configured, and JSON as the content type where
/// they name none.
pub fn request_headers(headers: &Meta) -> (r: Vec<Entry>)
    ensures
        pairs(r@) == (if has_content_type(headers@) {
            headers@
        } else {
            headers@.push(("content-type"@, "application/json"@))
        }),
        (exists|i: int|
            0 <= i < headers@.len() && same_ignoring_case(
                (#[trigger] headers@[i]).0,
                "content-type"@,
            )) ==> pairs(r@) == headers@,
        (forall|i: int|
            0 <= i < headers@.len() ==> !same_ignoring_case(
                (#[trigger] headers@[i]).0,
                "content-type"@,
            )) ==> pairs(r@) == headers@.push(("content-type"@, "application/json"@)),
{
    let n: usize = headers.entries.len();
    let wanted: Vec<char> = chars("content-type");
    let own: Meta = headers.clone();
    let mut r: Vec<Entry> = own.entries;
    for i in 0..n
        invariant
            n == headers.entries@.len(),
            pairs(r@) == headers@,
            wanted@ == "content-type"@,
            forall|k: int|
                0 <= k < i ==> !same_ignoring_case(
                    (#[trigger] headers@[k]).0,
                    "content-type"@,
                ),
    {
        let name: Vec<char> = chars(headers.entries[i].name.as_str());
        if eq_ignoring_case(name.as_slice(), wanted.as_slice()) {
            proof {
                assert(same_ignoring_case(headers@[i as int].0, "content-type"@));
            }
            return r;
        }
    }
    r.push(entry("content-type", "application/json"));
    proof {
        assert(pairs(r@) =~= headers@.push(("content-type"@, "application/json"@)));
    }
    r
}

// ---------------------------------------------------------------------------------
// Laws
// ---------------------------------------------------------------------------------

/// Nothing unprefixed reaches a program's environment, and every value of the event does.
pub proof fn env_is_prefixed(o: Occasion, i: int)
    requires
        0 <= i < vars_of(o).len(),
    ensures
        env_of(vars_of(o)).len() == vars_of(o).len(),
        "SPANK_"@.is_prefix_of(env_of(vars_of(o))[i].0),
        env_of(vars_of(o))[i].1 == vars_of(o)[i].1,
{
    let name = env_of(vars_of(o))[i].0;
    assert(name.take("SPANK_"@.len() as int) =~= "SPANK_"@);
}

/// What was preloaded for a configuration is what its sounds are picked from: whichever
/// file action `i` picks, there is a job for it.
pub proof fn preloaded_sounds_play(
    actions: Seq<ActionModel>,
    resolved: Seq<Seq<Seq<Seq<char>>>>,
    i: int,
    o: Occasion,
    c: Chooser,
)
    requires
        0 <= i < actions.len(),
        actions[i].kind is Sound,
        distinct(flat(resolved[i])).len() > 0,
    ensures
        job_of(
            actions[i].kind,
            o,
            distinct(flat(resolved[i])),
            wanted_among(actions, resolved, actions.len() as int),
            c,
        ) is Some,
{
    let sounds = distinct(flat(resolved[i]));
    let order = actions[i].kind->order;
    choice_is_a_candidate(c, sounds, order);
    let path = choice(c, sounds, order)->0;
    let wanted = wanted_among(actions, resolved, actions.len() as int);
    wanted_holds(actions, resolved, actions.len() as int, i, path);
    let k = choose|k: int| 0 <= k < wanted.len() && wanted[k] == path;
    assert(components(wanted[k]) == components(path));
}

proof fn wanted_holds(
    actions: Seq<ActionModel>,
    resolved: Seq<Seq<Seq<Seq<char>>>>,
    n: int,
    i: int,
    path: Seq<char>,
)
    requires
        0 <= i < n <= actions.len(),
        actions[i].kind is Sound,
        distinct(flat(resolved[i])).contains(path),
    ensures
        wanted_among(actions, resolved, n).contains(path),
    decreases n,
{
    let all = wanted_among(actions, resolved, n);
    let head = wanted_among(actions, resolved, n - 1);
    if i == n - 1 {
        let own = distinct(flat(resolved[i]));
        let k = choose|k: int| 0 <= k < own.len() && own[k] == path;
        assert(all[head.len() + k] == path);
    } else {
        wanted_holds(actions, resolved, n - 1, i, path);
        let k = choose|k: int| 0 <= k < head.len() && head[k] == path;
        assert(all[k] == path);
    }
}

/// An action is held back by its own delay, whatever kind it is, and never set off early.
pub proof fn delay_is_generic(a: ActionModel, now: u64)
    ensures
        due_at(a, now) - now == a.delay_ms * 1_000_000,
        due_at(a, now) >= now,
{
}

/// A slap that no action matches makes nothing happen and changes no choice.
pub proof fn no_match_no_job(
    actions: Seq<ActionModel>,
    o: Occasion,
    sounds: Seq<Seq<Seq<char>>>,
    loaded: Seq<Seq<char>>,
    c: Chooser,
    now: u64,
    i: int,
)
    requires
        0 <= i,
        forall|k: int|
            i <= k < actions.len() ==> !fires(
                #[trigger] actions[k],
                o.slap.tier,
                o.slap.intensity,
            ),
    ensures
        dispatched(actions, o, sounds, loaded, c, now, i) == (Seq::<(int, JobModel)>::empty(), c),
    decreases actions.len() - i,
{
    if i < actions.len() {
        no_match_no_job(actions, o, sounds, loaded, c, now, i + 1);
    }
}

/// Where the choice of sounds stands when action `k` has its turn: every action before it
/// that fires has moved it on, and no other.
pub open spec fn chooser_at(
    actions: Seq<ActionModel>,
    slap: Slap,
    sounds: Seq<Seq<Seq<char>>>,
    c: Chooser,
    k: int,
) -> Chooser
    decreases k,
{
    if k <= 0 {
        c
    } else {
        let before = chooser_at(actions, slap, sounds, c, k - 1);
        if fires(actions[k - 1], slap.tier, slap.intensity) {
            chooser_after(actions[k - 1].kind, sounds[k - 1], before)
        } else {
            before
        }
    }
}

/// The job action `k` has for a slap, where it fires and has one.
pub open spec fn job_at(
    actions: Seq<ActionModel>,
    o: Occasion,
    sounds: Seq<Seq<Seq<char>>>,
    loaded: Seq<Seq<char>>,
    c: Chooser,
    k: int,
) -> Option<JobModel> {
    if fires(actions[k], o.slap.tier, o.slap.intensity) {
        job_of(
            actions[k].kind,
            o,
            sounds[k],
            loaded,
            chooser_at(actions, o.slap, sounds, c, k),
        )
    } else {
        None
    }
}

/// How many of the actions from `from` up to `k` have a job for a slap.
pub open spec fn jobs_between(
    actions: Seq<ActionModel>,
    o: Occasion,
    sounds: Seq<Seq<Seq<char>>>,
    loaded: Seq<Seq<char>>,
    c: Chooser,
    from: int,
    k: int,
) -> nat
    decreases k - from,
{
    if k <= from {
        0
    } else {
        jobs_between(actions, o, sounds, loaded, c, from, k - 1) + (if job_at(
            actions,
            o,
            sounds,
            loaded,
            c,
            k - 1,
        ) is Some {
            1nat
        } else {
            0
        })
    }
}

/// Every action that fires and has a job sets it off, whatever stands before or after it:
/// the schedule holds one job for each, in the order of the actions, at the slap's time
/// plus the action's delay, and nothing else.
pub proof fn every_matching_action_runs(
    actions: Seq<ActionModel>,
    o: Occasion,
    sounds: Seq<Seq<Seq<char>>>,
    loaded: Seq<Seq<char>>,
    c: Chooser,
    now: u64,
    k: int,
)
    requires
        0 <= k < actions.len(),
    ensures
        ({
            let jobs = dispatched(actions, o, sounds, loaded, c, now, 0).0;
            let n = actions.len() as int;
            let at = jobs_between(actions, o, sounds, loaded, c, 0, k) as int;
            &&& jobs.len() == jobs_between(actions, o, sounds, loaded, c, 0, n)
            &&& job_at(actions, o, sounds, loaded, c, k) matches Some(job) ==> at < jobs.len()
                && jobs[at] == (now + actions[k].delay_ms * 1_000_000, job)
            &&& dispatched(actions, o, sounds, loaded, c, now, 0).1 == chooser_at(
                actions,
                o.slap,
                sounds,
                c,
                n,
            )
        }),
{
    dispatch_from(actions, o, sounds, loaded, c, now, 0, k);
}

proof fn dispatch_from(
    actions: Seq<ActionModel>,
    o: Occasion,
    sounds: Seq<Seq<Seq<char>>>,
    loaded: Seq<Seq<char>>,
    c: Chooser,
    now: u64,
    i: int,
    k: int,
)
    requires
        0 <= i <= actions.len(),
        k < actions.len(),
    ensures
        ({
            let here = chooser_at(actions, o.slap, sounds, c, i);
            let jobs = dispatched(actions, o, sounds, loaded, here, now, i).0;
            let n = actions.len() as int;
            &&& jobs.len() == jobs_between(actions, o, sounds, loaded, c, i, n)
            &&& dispatched(actions, o, sounds, loaded, here, now, i).1 == chooser_at(
                actions,
                o.slap,
                sounds,
                c,
                n,
            )
            &&& i <= k ==> (job_at(actions, o, sounds, loaded, c, k) matches Some(job) ==> {
                let at = jobs_between(actions, o, sounds, loaded, c, i, k) as int;
                at < jobs.len() && jobs[at] == (now + actions[k].delay_ms * 1_000_000, job)
            })
        }),
    decreases actions.len() - i,
{
    let n = actions.len() as int;
    if i < n {
        dispatch_from(actions, o, sounds, loaded, c, now, i + 1, k);
        jobs_from_next(actions, o, sounds, loaded, c, i, n);
        if i < k {
            jobs_from_next(actions, o, sounds, loaded, c, i, k);
        }
    }
}

proof fn jobs_from_next(
    actions: Seq<ActionModel>,
    o: Occasion,
    sounds: Seq<Seq<Seq<char>>>,
    loaded: Seq<Seq<char>>,
    c: Chooser,
    from: int,
    k: int,
)
    requires
        from < k,
    ensures
        jobs_between(actions, o, sounds, loaded, c, from, k) == jobs_between(
            actions,
            o,
            sounds,
            loaded,
            c,
            from + 1,
            k,
        ) + (if job_at(actions, o, sounds, loaded, c, from) is Some {
            1nat
        } else {
            0
        }),
    decreases k - from,
{
    if from + 1 < k {
        jobs_from_next(actions, o, sounds, loaded, c, from, k - 1);
    } else {
        assert(jobs_between(actions, o, sounds, loaded, c, from, from) == 0);
        assert(jobs_between(actions, o, sounds, loaded, c, k, k) == 0);
    }
}

/// What an action does is what it was configured to do: a program is run with its arguments
/// filled in, a request goes out with its address, headers and body filled in, and a sound
/// plays as it is set, each where nothing else stands in its place.
pub proof fn jobs_are_what_was_configured(
    kind: KindModel,
    o: Occasion,
    sounds: Seq<Seq<char>>,
    loaded: Seq<Seq<char>>,
    c: Chooser,
)
    ensures
        match kind {
            KindModel::Exec { program, args, stdin_json } => {
                &&& job_of(kind, o, sounds, loaded, c) matches Some(JobModel::Exec {
                    program: p,
                    args: a,
                    stdin_json: s,
                    env,
                    payload,
                })
                &&& p == program
                &&& s == stdin_json
                &&& payload == o.payload@
                &&& a.len() == args.len()
                &&& forall|i: int|
                    0 <= i < args.len() ==> #[trigger] a[i] == rendered(args[i], vars_of(o))
                &&& env.len() == vars_of(o).len()
                &&& forall|i: int| 0 <= i < env.len() ==> (#[trigger] env[i]).1 == vars_of(o)[i].1
            },
            KindModel::Webhook { url, method, headers, body, timeout_ms } => {
                &&& job_of(kind, o, sounds, loaded, c) matches Some(JobModel::Webhook {
                    url: u,
                    method: m,
                    headers: h,
                    body: b,
                    timeout_ms: t,
                })
                &&& u == rendered(url, vars_of(o))
                &&& m == uppercased(method)
                &&& t == timeout_ms
                &&& b == (match body {
                    Some(text) => rendered(text, vars_of(o)),
                    None => o.payload@,
                })
                &&& h.len() == headers.len()
                &&& forall|i: int|
                    0 <= i < h.len() ==> (#[trigger] h[i]).0 == headers[i].0 && h[i].1 == rendered(
                        headers[i].1,
                        vars_of(o),
                    )
            },
            KindModel::Sound {
                order,
                volume_db,
                scale_with_intensity,
                intensity_range_pct,
                playback_rate,
                ..
            } => match choice(c, sounds, order) {
                Some(file) => {
                    let here = exists|i: int|
                        0 <= i < loaded.len() && components(#[trigger] loaded[i]) == components(
                            file,
                        );
                    &&& job_of(kind, o, sounds, loaded, c) is Some <==> here
                    &&& here ==> job_of(kind, o, sounds, loaded, c) == Some(
                        JobModel::Sound {
                            path: file,
                            volume_db,
                            swing: if scale_with_intensity {
                                Some(intensity_range_pct)
                            } else {
                                None
                            },
                            intensity: o.slap.intensity,
                            playback_rate,
                        },
                    )
                },
                None => job_of(kind, o, sounds, loaded, c) is None,
            },
        },
{
}

/// A sound is chosen only for an action that plays one: any other leaves the choice where
/// it stands.
pub proof fn only_sounds_move_the_choice(kind: KindModel, sounds: Seq<Seq<char>>, c: Chooser)
    ensures
        !(kind is Sound) ==> chooser_after(kind, sounds, c) == c,
        kind matches KindModel::Sound { order, .. } ==> chooser_after(kind, sounds, c)
            == after_choice(c, sounds, order),
{
}

/// The model of a job shows each of its fields as it is.
pub proof fn a_job_is_its_fields(job: Job)
    ensures
        match job {
            Job::Sound { path, volume_db, swing, intensity, playback_rate } => {
                &&& job@ matches JobModel::Sound {
                    path: p,
                    volume_db: v,
                    swing: s,
                    intensity: i,
                    playback_rate: r,
                }
                &&& p == path@ && v == volume_db && s == swing && i == intensity && r
                    == playback_rate
            },
            Job::Exec { program, args, stdin_json, env, payload } => {
                &&& job@ matches JobModel::Exec {
                    program: p,
                    args: a,
                    stdin_json: s,
                    env: e,
                    payload: l,
                }
                &&& p == program@ && s == stdin_json && l == payload@
                &&& a.len() == args@.len() && forall|k: int|
                    0 <= k < a.len() ==> #[trigger] a[k] == args@[k]@
                &&& e.len() == env@.len() && forall|k: int|
                    0 <= k < e.len() ==> #[trigger] e[k] == (env@[k].name@, env@[k].value@)
            },
            Job::Webhook { url, method, headers, body, timeout_ms } => {
                &&& job@ matches JobModel::Webhook {
                    url: u,
                    method: m,
                    headers: h,
                    body: b,
                    timeout_ms: t,
                }
                &&& u == url@ && m == method@ && b == body@ && t == timeout_ms
                &&& h.len() == headers.entries@.len() && forall|k: int|
                    0 <= k < h.len() ==> #[trigger] h[k] == (
                        headers.entries@[k].name@,
                        headers.entries@[k].value@,
                    )
            },
        },
{
}

/// A sound action more has its own files decoded after those of the others, and any other
/// action has none.
pub proof fn each_sound_adds_its_files(
    actions: Seq<ActionModel>,
    resolved: Seq<Seq<Seq<Seq<char>>>>,
    a: ActionModel,
    files: Seq<Seq<Seq<char>>>,
)
    requires
        actions.len() == resolved.len(),
    ensures
        wanted_among(Seq::<ActionModel>::empty(), resolved, 0).len() == 0,
        wanted_among(actions.push(a), resolved.push(files), actions.len() as int + 1) == (
        if a.kind is Sound {
            wanted_among(actions, resolved, actions.len() as int) + distinct(flat(files))
        } else {
            wanted_among(actions, resolved, actions.len() as int)
        }),
{
    wanted_of_prefix(actions, resolved, a, files, actions.len() as int);
}

proof fn wanted_of_prefix(
    actions: Seq<ActionModel>,
    resolved: Seq<Seq<Seq<Seq<char>>>>,
    a: ActionModel,
    files: Seq<Seq<Seq<char>>>,
    n: int,
)
    requires
        0 <= n <= actions.len(),
        actions.len() == resolved.len(),
    ensures
        wanted_among(actions.push(a), resolved.push(files), n) == wanted_among(
            actions,
            resolved,
            n,
        ),
    decreases n,
{
    if n > 0 {
        wanted_of_prefix(actions, resolved, a, files, n - 1);
        assert(actions.push(a)[n - 1] == actions[n - 1]);
        assert(resolved.push(files)[n - 1] == resolved[n - 1]);
    }
}

} // verus!
