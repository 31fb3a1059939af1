//! Reading and writing the config file.
use vstd::prelude::*;

use crate::config::{
    current, is_current, normalize_is_idempotent, problem, standard_config, DaemonConfig,
};
use crate::numeral::{decimal, decimal_digits, write_count};
use crate::paths::{
    after_last_holds_none, file_name, file_name_of, sibling_has_its_name, sibling_of, stripped,
    with_file_name,
};
use crate::text::{chars, contains, maybe, occurs_at, put, put_chars, string};

verus! {

/// What reading the config file gave.
#[derive(Debug, PartialEq, Eq)]
pub enum Contents {
    /// There is no such file.
    Missing,
    /// It could not be read.
    Unreadable(String),
    /// It is not a configuration.
    Malformed(String),
    Parsed(DaemonConfig),
}

/// What to start with.
#[derive(Debug, PartialEq, Eq)]
pub struct Loaded {
    pub config: DaemonConfig,
    pub warning: Option<String>,
    /// Whether the file is to be moved aside, so the next save cannot silently overwrite a
    /// hand-edited broken config, and a restart does not keep warning about it.
    pub quarantine: bool,
}

/// What is wrong with the contents of the config file at `path`; `slider` is how the
/// sensitivity in it is written.
pub open spec fn complaint(path: Seq<char>, contents: Contents, slider: Seq<char>) -> Option<
    Seq<char>,
> {
    match contents {
        Contents::Missing => None,
        Contents::Unreadable(e) => Some("could not read "@ + path + ": "@ + e@),
        Contents::Malformed(e) => Some("could not parse "@ + path + ": "@ + e@),
        Contents::Parsed(config) => match problem(current(config@), slider) {
            Some(p) => Some(path + " is invalid: "@ + p),
            None => None,
        },
    }
}

/// Whether the contents are a configuration that is to be used.
pub open spec fn usable(contents: Contents, slider: Seq<char>) -> bool {
    contents matches Contents::Parsed(config) && problem(current(config@), slider) is None
}

/// Whether the contents are there and no configuration that can be used.
pub open spec fn broken(contents: Contents, slider: Seq<char>) -> bool {
    match contents {
        Contents::Malformed(_) => true,
        Contents::Parsed(_) => !usable(contents, slider),
        _ => false,
    }
}

/// Load the config, falling back to defaults.
///
/// Returns any complaint alongside the config rather than failing: a daemon that refuses
/// to start because one field is malformed is worse than one that starts with defaults and
/// says so, especially when it is launched by launchd where nobody sees the exit code.
pub fn load(path: &str, contents: Contents, slider: &str) -> (r: Loaded)
    ensures
        maybe(r.warning) == complaint(path@, contents, slider@),
        r.quarantine == broken(contents, slider@),
        if usable(contents, slider@) {
            r.config@ == current(contents->Parsed_0@)
        } else {
            standard_config(r.config@)
        },
        r.warning is None <==> contents is Missing || (contents is Parsed && problem(
            current(contents->Parsed_0@),
            slider@,
        ) is None),
        r.quarantine <==> contents is Malformed || (contents is Parsed && problem(
            current(contents->Parsed_0@),
            slider@,
        ) is Some),
        contents is Parsed && problem(current(contents->Parsed_0@), slider@) is None ==> r.config@
            == current(contents->Parsed_0@),
        !(contents is Parsed && problem(current(contents->Parsed_0@), slider@) is None)
            ==> standard_config(r.config@),
{
    match contents {
        Contents::Missing => Loaded {
            config: DaemonConfig::default(),
            warning: None,
            quarantine: false,
        },
        Contents::Unreadable(e) => {
            let mut out: Vec<char> = chars("could not read ");
            put(&mut out, path);
            put(&mut out, ": ");
            put(&mut out, e.as_str());
            Loaded {
                config: DaemonConfig::default(),
                warning: Some(string(out.as_slice())),
                quarantine: false,
            }
        },
        Contents::Malformed(e) => {
            let mut out: Vec<char> = chars("could not parse ");
            put(&mut out, path);
            put(&mut out, ": ");
            put(&mut out, e.as_str());
            Loaded {
                config: DaemonConfig::default(),
                warning: Some(string(out.as_slice())),
                quarantine: true,
            }
        },
        Contents::Parsed(config) => {
            // Fold any older layout forward before anything else looks at it.
            let mut config = config;
            config.normalize();
            match config.validate(slider) {
                Ok(()) => Loaded { config, warning: None, quarantine: false },
                Err(p) => {
                    let mut out: Vec<char> = chars(path);
                    put(&mut out, " is invalid: ");
                    put(&mut out, p.as_str());
                    Loaded {
                        config: DaemonConfig::default(),
                        warning: Some(string(out.as_slice())),
                        quarantine: true,
                    }
                },
            }
        },
    }
}

/// The file name of a path, or the usual one.
pub open spec fn config_name(path: Seq<char>) -> Seq<char> {
    match file_name_of(path) {
        Some(name) => name,
        None => "config.json"@,
    }
}

/// The file name a bad config is given; `stamp` is the time in seconds.
pub open spec fn aside_name(path: Seq<char>, stamp: u64) -> Seq<char> {
    config_name(path) + ".broken-"@ + decimal(stamp as nat)
}

/// Where a bad config is moved to.
pub open spec fn aside_of(path: Seq<char>, stamp: u64) -> Seq<char> {
    sibling_of(path, aside_name(path, stamp))
}

/// Where a bad config is moved to; `stamp` is the time in seconds.
pub fn quarantine_path(path: &str, stamp: u64) -> (r: String)
    ensures
        r@ == aside_of(path@, stamp),
{
    let v: Vec<char> = chars(path);
    let mut name: Vec<char> = match file_name(v.as_slice()) {
        Some(n) => {
            let mut name: Vec<char> = Vec::new();
            put_chars(&mut name, n);
            proof {
                assert(name@ =~= n@);
            }
            name
        },
        None => chars("config.json"),
    };
    put(&mut name, ".broken-");
    let digits: Vec<char> = write_count(stamp);
    put_chars(&mut name, digits.as_slice());
    let name: String = string(name.as_slice());
    with_file_name(path, name.as_str())
}

/// The warning about a bad config that was moved to `dest`, or could not be.
pub fn quarantined(reason: &str, dest: &str, moved: Result<(), String>) -> (r: String)
    ensures
        r@ == (match moved {
            Ok(()) => reason@ + " — moved aside to "@ + dest@ + " so defaults can start cleanly"@,
            Err(e) => reason@ + " (could not quarantine: "@ + e@ + ")"@,
        }),
{
    let mut out: Vec<char> = chars(reason);
    match moved {
        Ok(()) => {
            put(&mut out, " — moved aside to ");
            put(&mut out, dest);
            put(&mut out, " so defaults can start cleanly");
        },
        Err(e) => {
            put(&mut out, " (could not quarantine: ");
            put(&mut out, e.as_str());
            put(&mut out, ")");
        },
    }
    string(out.as_slice())
}

/// The file name a config is first written under; `pid` is the process's id.
pub open spec fn draft_name(path: Seq<char>, pid: u32) -> Seq<char> {
    (match file_name_of(path) {
        Some(name) => name,
        None => Seq::empty(),
    }) + "."@ + decimal(pid as nat) + ".tmp"@
}

/// Where a config is first written.
pub open spec fn draft_of(path: Seq<char>, pid: u32) -> Seq<char> {
    sibling_of(path, draft_name(path, pid))
}

/// Where a config is written before it is renamed into place, so a crash mid-write cannot
/// leave a truncated config; `pid` is the process's id.
pub fn temp_sibling(path: &str, pid: u32) -> (r: String)
    ensures
        r@ == draft_of(path@, pid),
{
    let v: Vec<char> = chars(path);
    let mut name: Vec<char> = Vec::new();
    match file_name(v.as_slice()) {
        Some(n) => {
            put_chars(&mut name, n);
            proof {
                assert(name@ =~= n@);
            }
        },
        None => {},
    }
    put(&mut name, ".");
    let digits: Vec<char> = write_count(pid as u64);
    put_chars(&mut name, digits.as_slice());
    put(&mut name, ".tmp");
    let name: String = string(name.as_slice());
    with_file_name(path, name.as_str())
}

// ---------------------------------------------------------------------------------
// Laws
// ---------------------------------------------------------------------------------

/// A first run, without a file, warns of nothing and moves nothing; a file that is moved
/// aside is always warned about.
pub proof fn first_run_is_quiet(path: Seq<char>, contents: Contents, slider: Seq<char>)
    ensures
        contents is Missing ==> complaint(path, contents, slider) is None && !broken(
            contents,
            slider,
        ),
        broken(contents, slider) ==> complaint(path, contents, slider) is Some,
        usable(contents, slider) ==> complaint(path, contents, slider) is None && !broken(
            contents,
            slider,
        ),
{
}

/// A bad config never stays at the live path, and a write in progress never touches it: a
/// file moved aside, like the one written first, has another name next to it.
pub proof fn moved_aside(path: Seq<char>, stamp: u64, pid: u32)
    ensures
        aside_of(path, stamp) != path,
        file_name_of(aside_of(path, stamp)) == Some(aside_name(path, stamp)),
        draft_of(path, pid) != path,
        file_name_of(draft_of(path, pid)) == Some(draft_name(path, pid)),
{
    reveal_strlit(".");
    reveal_strlit("..");
    reveal_strlit("config.json");
    reveal_strlit(".broken-");
    reveal_strlit(".tmp");
    decimal_digits(stamp as nat);
    decimal_digits(pid as nat);
    after_last_holds_none(stripped(path), '/');
    let own = match file_name_of(path) {
        Some(name) => name,
        None => Seq::empty(),
    };
    let a = aside_name(path, stamp);
    let d = draft_name(path, pid);
    assert(!own.contains('/'));
    assert(a.len() > own.len() && a.len() > 2);
    assert(d.len() > own.len() && d.len() > 2);
    assert forall|i: int| 0 <= i < a.len() implies a[i] != '/' by {
        let base = config_name(path);
        if i < base.len() {
            assert(own.len() > 0 ==> own.contains(own[i]));
        } else if i < base.len() + 8 {
            assert(a[i] == ".broken-"@[i - base.len()]);
        } else {
            assert(a[i] == decimal(stamp as nat)[i - base.len() - 8]);
        }
    }
    assert forall|i: int| 0 <= i < d.len() implies d[i] != '/' by {
        let n = decimal(pid as nat).len();
        if i < own.len() {
            assert(own.contains(own[i]));
        } else if i < own.len() + 1 {
            assert(d[i] == "."@[0]);
        } else if i < own.len() + 1 + n {
            assert(d[i] == decimal(pid as nat)[i - own.len() - 1]);
        } else {
            assert(d[i] == ".tmp"@[i - own.len() - 1 - n]);
        }
    }
    sibling_has_its_name(path, a);
    sibling_has_its_name(path, d);
}

/// A valid configuration in the current layout, read back after a restart, is what the
/// daemon starts with, without a warning.
pub proof fn saved_config_survives(config: DaemonConfig, path: Seq<char>, slider: Seq<char>)
    requires
        is_current(config@),
        problem(config@, slider) is None,
    ensures
        usable(Contents::Parsed(config), slider),
        current(config@) == config@,
        complaint(path, Contents::Parsed(config), slider) is None,
{
    normalize_is_idempotent(config@);
}

/// Every warning names the file and ends with what is wrong with it.
pub proof fn warnings_name_the_file(path: Seq<char>, contents: Contents, slider: Seq<char>)
    ensures
        complaint(path, contents, slider) matches Some(w) ==> {
            let reason = match contents {
                Contents::Unreadable(e) => e@,
                Contents::Malformed(e) => e@,
                Contents::Parsed(config) => problem(current(config@), slider)->0,
                Contents::Missing => Seq::empty(),
            };
            &&& contains(w, path)
            &&& w.len() >= reason.len()
            &&& w.skip(w.len() - reason.len()) == reason
        },
        contents is Unreadable ==> complaint(path, contents, slider) is Some && "could not read "@
            .is_prefix_of(complaint(path, contents, slider)->0),
        contents is Malformed ==> complaint(path, contents, slider) is Some && "could not parse "@
            .is_prefix_of(complaint(path, contents, slider)->0),
        contents matches Contents::Parsed(config) ==> (complaint(path, contents, slider) is Some
            <==> problem(current(config@), slider) is Some),
{
    if let Some(w) = complaint(path, contents, slider) {
        let lead = match contents {
            Contents::Unreadable(_) => "could not read "@,
            Contents::Malformed(_) => "could not parse "@,
            _ => Seq::empty(),
        };
        let reason = match contents {
            Contents::Unreadable(e) => e@,
            Contents::Malformed(e) => e@,
            Contents::Parsed(config) => problem(current(config@), slider)->0,
            Contents::Missing => Seq::empty(),
        };
        assert(w.subrange(lead.len() as int, lead.len() as int + path.len()) =~= path);
        assert(occurs_at(w, path, lead.len() as int));
        assert(w.skip(w.len() - reason.len()) =~= reason);
        assert(w.subrange(0, lead.len() as int) =~= lead);
        assert(lead.is_prefix_of(w));
    }
}

/// A file moved aside keeps its own name in front and the time behind, so that two moved at
/// different times stay apart; a file written first carries the process's id the same way.
pub proof fn names_carry_their_stamp(path: Seq<char>, s: u64, t: u64, p: u32, q: u32)
    ensures
        file_name_of(path) matches Some(name) ==> name.is_prefix_of(aside_name(path, s))
            && name.is_prefix_of(draft_name(path, p)),
        file_name_of(path) is None ==> "config.json"@.is_prefix_of(aside_name(path, s)),
        s != t ==> aside_name(path, s) != aside_name(path, t),
        p != q ==> draft_name(path, p) != draft_name(path, q),
{
    let base = config_name(path);
    let own = match file_name_of(path) {
        Some(name) => name,
        None => Seq::empty(),
    };
    let a = aside_name(path, s);
    let d = draft_name(path, p);
    assert(a.subrange(0, base.len() as int) =~= base);
    assert(d.subrange(0, own.len() as int) =~= own);
    assert(base.is_prefix_of(a));
    assert(own.is_prefix_of(d));
    decimal_digits(s as nat);
    decimal_digits(t as nat);
    decimal_digits(p as nat);
    decimal_digits(q as nat);
    if a == aside_name(path, t) {
        let from = base.len() + ".broken-"@.len();
        assert(a.skip(from as int) =~= decimal(s as nat));
        assert(aside_name(path, t).skip(from as int) =~= decimal(t as nat));
    }
    if d == draft_name(path, q) {
        let from = (own.len() + "."@.len()) as int;
        let end = d.len() - ".tmp"@.len();
        assert(d.subrange(from, end) =~= decimal(p as nat));
        assert(draft_name(path, q).subrange(from, end) =~= decimal(q as nat));
    }
}

} // verus!
