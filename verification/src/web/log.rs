//! What the server says about itself while it runs: which events there are,
//! how loud each is, and what each carries. Writing them out is the caller's.
//!
//! A healthy server logs nothing per request; a refusal is the one event
//! worth an alert.

use vstd::prelude::*;

use crate::text::{chars_of, decimal, decimal_of, owned, push_char, push_str};
use tracing_subscriber::filter::{LevelFilter, Targets};

verus! {

/// A person or a program.
#[derive(Clone, Copy, PartialEq, Eq, Debug, Structural)]
pub enum Format {
    /// For a person, at a terminal.
    Text,
    /// One JSON object per line, for something that collects them.
    Json,
}

impl Default for Format {
    fn default() -> (r: Format)
        ensures
            r == Format::Text,
    {
        Format::Text
    }
}

/// How loud an event is.
#[derive(Clone, Copy, PartialEq, Eq, Debug, Structural)]
pub enum Level {
    Error,
    Warn,
    Info,
    Debug,
}

/// One event: its level, its name, its fields in order, and its message.
/// Attacker-controlled values go in fields, which a formatter quotes, never
/// in the message.
pub struct Record {
    pub level: Level,
    pub event: &'static str,
    pub fields: Vec<(String, String)>,
    pub message: &'static str,
}

/// A request this slow is a WARN rather than a DEBUG, in nanoseconds: the
/// most expensive page is tens of milliseconds, so a second means something
/// is wrong.
pub const SLOW_REQUEST_NANOS: u64 = 1_000_000_000;

/// The route of a request that matched nothing; never its path.
pub const UNMATCHED: &'static str = "<unmatched>";

/// What stands in a field for a header that was not sent.
pub const NONE: &'static str = "<none>";

pub open spec fn or_none(value: Option<&str>) -> Seq<char> {
    match value {
        Some(v) => v@,
        None => NONE@,
    }
}

fn field(name: &str, value: &str) -> (r: (String, String))
    ensures
        r.0@ == name@,
        r.1@ == value@,
{
    (owned(name), owned(value))
}

fn value_or_none(value: Option<&str>) -> (r: &str)
    ensures
        r@ == or_none(value),
{
    match value {
        Some(v) => v,
        None => NONE,
    }
}

/// The guard turned a request away: a misconfiguration, or the rebinding
/// attack the guard exists for. `Host` and `Origin` are what was decided on.
pub fn refused(host: Option<&str>, origin: Option<&str>, why: &str) -> (r: Record)
    ensures
        r.level == Level::Warn,
        r.event@ == "http.refused"@,
        r.message@ == "the guard turned a request away"@,
        r.fields@.len() == 3,
        r.fields@[0].0@ == "host"@ && r.fields@[0].1@ == or_none(host),
        r.fields@[1].0@ == "origin"@ && r.fields@[1].1@ == or_none(origin),
        r.fields@[2].0@ == "why"@ && r.fields@[2].1@ == why@,
{
    let fields = vec![
        field("host", value_or_none(host)),
        field("origin", value_or_none(origin)),
        field("why", why),
    ];
    Record { level: Level::Warn, event: "http.refused", fields, message: "the guard turned a request away" }
}

/// What a failure page showed. The library's own text, so it may go in the
/// message.
pub fn failed(error: &str) -> (r: Record)
    ensures
        r.level == Level::Error,
        r.event@ == "http.failed"@,
        r.message@ == "the request could not be answered"@,
        r.fields@.len() == 1,
        r.fields@[0].0@ == "error"@ && r.fields@[0].1@ == error@,
{
    let fields = vec![field("error", error)];
    Record { level: Level::Error, event: "http.failed", fields, message: "the request could not be answered" }
}

/// A panic in a handler, or a shutdown under way.
pub fn lost() -> (r: Record)
    ensures
        r.level == Level::Error,
        r.event@ == "http.lost"@,
        r.message@ == "a request did not finish — the blocking task was lost"@,
        r.fields@.len() == 0,
{
    let fields: Vec<(String, String)> = Vec::new();
    Record { level: Level::Error, event: "http.lost", fields, message: "a request did not finish — the blocking task was lost" }
}

/// The matched route template, or [`UNMATCHED`]: ids, filenames and query
/// strings are somebody's notes and words, so a path is never logged.
pub fn route_of(matched: Option<&str>) -> (r: &str)
    ensures
        matched matches Some(m) ==> r@ == m@,
        matched is None ==> r@ == UNMATCHED@,
{
    match matched {
        Some(m) => m,
        None => UNMATCHED,
    }
}

/// A remainder of nanoseconds with its trailing zeros taken off, and how many
/// of its six digits are left.
pub open spec fn stripped(r: nat, k: nat) -> (nat, nat)
    decreases k,
{
    if k > 0 && r % 10 == 0 && r > 0 {
        stripped(r / 10, (k - 1) as nat)
    } else {
        (r, k)
    }
}

/// `n` zeros, or none.
pub open spec fn zeros(n: int) -> Seq<char> {
    Seq::new(if n > 0 { n as nat } else { 0 }, |_i: int| '0')
}

/// The fraction of a millisecond in `r` nanoseconds (below a million): nothing
/// for none, else a point and the digits that matter.
pub open spec fn fraction(r: nat) -> Seq<char> {
    if r == 0 {
        Seq::empty()
    } else {
        let (d, k) = stripped(r, 6);
        "."@ + zeros(k - decimal(d).len()) + decimal(d)
    }
}

/// Nanoseconds as milliseconds, exactly: `12`, `1.5`, `0.000001`.
pub open spec fn millis(nanos: nat) -> Seq<char> {
    decimal(nanos / 1_000_000) + fraction(nanos % 1_000_000)
}

pub fn millis_of(nanos: u64) -> (r: String)
    ensures
        r@ == millis(nanos as nat),
{
    let mut out = decimal_of(nanos / 1_000_000);
    let rest = nanos % 1_000_000;
    if rest > 0 {
        let ghost whole = out@;
        let mut d = rest;
        let mut k: u64 = 6;
        while k > 0 && d % 10 == 0
            invariant
                0 < d <= rest,
                k <= 6,
                stripped(rest as nat, 6) == stripped(d as nat, k as nat),
            decreases k,
        {
            d = d / 10;
            k = k - 1;
        }
        push_str(&mut out, ".");
        let digits = decimal_of(d);
        let n = chars_of(digits.as_str()).len() as u64;
        let ghost dot = out@;
        let mut j = n;
        while j < k
            invariant
                n <= j <= k || (k < n && j == n),
                out@ == dot + zeros(j - n),
            decreases k - j,
        {
            push_char(&mut out, '0');
            j += 1;
            assert(out@ =~= dot + zeros(j - n));
        }
        assert(zeros(j - n) =~= zeros(k - n));
        push_str(&mut out, digits.as_str());
        proof { reveal_strlit("."); }
        assert(out@ =~= whole + ("."@ + zeros(k - decimal(d as nat).len()) + decimal(d as nat)));
    } else {
        assert(out@ =~= millis(nanos as nat));
    }
    out
}

/// A request finished: DEBUG, or WARN from the threshold on. The route is the
/// matched template, never the path. Milliseconds are for totalling; the
/// duration as a person reads it is the writer's to add.
pub fn finished(method: &str, route: &str, status: u16, elapsed_nanos: u64) -> (r: Record)
    ensures
        elapsed_nanos >= SLOW_REQUEST_NANOS ==> r.level == Level::Warn && r.event@ == "http.slow_request"@
            && r.message@ == "request took longer than the slow-request threshold"@
            && r.fields@.len() == 5
            && r.fields@[4].0@ == "threshold_ms"@ && r.fields@[4].1@ == millis(SLOW_REQUEST_NANOS as nat),
        elapsed_nanos < SLOW_REQUEST_NANOS ==> r.level == Level::Debug && r.event@ == "http.request"@
            && r.message@ == "request finished"@
            && r.fields@.len() == 4,
        r.fields@[0].0@ == "method"@ && r.fields@[0].1@ == method@,
        r.fields@[1].0@ == "route"@ && r.fields@[1].1@ == route@,
        r.fields@[2].0@ == "status"@ && r.fields@[2].1@ == decimal(status as nat),
        r.fields@[3].0@ == "elapsed_ms"@ && r.fields@[3].1@ == millis(elapsed_nanos as nat),
{
    let code = decimal_of(status as u64);
    let ms = millis_of(elapsed_nanos);
    let mut fields = vec![field("method", method), field("route", route), field("status", code.as_str()), field("elapsed_ms", ms.as_str())];
    if elapsed_nanos >= SLOW_REQUEST_NANOS {
        let threshold = millis_of(SLOW_REQUEST_NANOS);
        fields.push(field("threshold_ms", threshold.as_str()));
        Record {
            level: Level::Warn,
            event: "http.slow_request",
            fields,
            message: "request took longer than the slow-request threshold",
        }
    } else {
        Record { level: Level::Debug, event: "http.request", fields, message: "request finished" }
    }
}

/// How much a filter lets through, quietest first: `LevelFilter`'s six
/// settings.
#[derive(Clone, Copy, PartialEq, Eq, Debug, Structural)]
pub enum Sieve {
    Off,
    Error,
    Warn,
    Info,
    Debug,
    Trace,
}

/// A filter as plain values: the setting for any target nothing names, if
/// one is set, and each target named with its setting. Applied in order, a
/// later entry for a target replaces an earlier one.
pub struct Directives {
    pub default: Option<Sieve>,
    pub targets: Vec<(String, Sieve)>,
}

/// The targets of a filter, as texts.
pub open spec fn named(targets: Seq<(String, Sieve)>) -> Seq<(Seq<char>, Sieve)> {
    targets.map_values(|p: (String, Sieve)| (p.0@, p.1))
}

/// What `tracing-subscriber` reads a `RUST_LOG` value as: nothing when it
/// does not parse, else its bare level and its `target=level` pairs.
pub uninterp spec fn parsed(directives: Seq<char>) -> Option<(Option<Sieve>, Seq<(Seq<char>, Sieve)>)>;

/// `tracing`'s `LevelFilter`, carried opaque into the one function that
/// reads it.
#[verifier::external_type_specification]
#[verifier::external_body]
pub struct ExLevelFilter(LevelFilter);

/// `LevelFilter`'s six settings told apart; nothing is claimed of which is
/// which beyond the names.
#[verifier::external_body]
fn sieve_of(level: LevelFilter) -> (r: Sieve) {
    match level {
        LevelFilter::OFF => Sieve::Off,
        LevelFilter::ERROR => Sieve::Error,
        LevelFilter::WARN => Sieve::Warn,
        LevelFilter::INFO => Sieve::Info,
        LevelFilter::DEBUG => Sieve::Debug,
        _ => Sieve::Trace,
    }
}

/// `Targets::from_str`, with `default_level` and `iter` to read the result:
/// `None` where it fails to parse, else its bare level and its target pairs,
/// each target once (a directive for a target already held replaces it).
/// The pairs' order is the crate's own and is left unsaid.
#[verifier::external_body]
fn parse_directives(directives: &str) -> (r: Option<Directives>)
    ensures
        match parsed(directives@) {
            None => r is None,
            Some((default, targets)) => r matches Some(d) && d.default == default && named(d.targets@) == targets,
        },
{
    let parsed = directives.parse::<Targets>().ok()?;
    let default = parsed.default_level().map(sieve_of);
    let targets = parsed.iter().map(|(target, level)| (target.to_owned(), sieve_of(level))).collect();
    Some(Directives { default, targets })
}

/// The quiet default, `error,noda=info`: errors from anything, and noda's
/// own events from `info` up.
pub open spec fn default_targets() -> Seq<(Seq<char>, Sieve)> {
    seq![("noda"@, Sieve::Info)]
}

/// The filter for a `RUST_LOG` value. It is layered onto the default,
/// because a bare word reads as a target at `trace`: a typo would otherwise
/// silence everything, warnings included. A bare level is the exception and
/// replaces the default outright (`RUST_LOG=off` means all of it); a value
/// that does not parse is not there at all.
pub fn wanted(rust_log: Option<&str>) -> (r: Directives)
    ensures
        ({
            let asked = match rust_log { Some(s) => parsed(s@), None => None };
            &&& r.default == match asked {
                Some((Some(level), _)) => Some(level),
                _ => Some(Sieve::Error),
            }
            &&& named(r.targets@) == match asked {
                Some((Some(_), targets)) => targets,
                Some((None, targets)) => default_targets() + targets,
                None => default_targets(),
            }
        }),
{
    let asked = match rust_log {
        Some(s) => parse_directives(s),
        None => None,
    };
    let mut targets: Vec<(String, Sieve)> = Vec::new();
    let bare = match &asked {
        Some(d) => d.default,
        None => None,
    };
    let default = match bare {
        Some(level) => Some(level),
        None => {
            targets.push((owned("noda"), Sieve::Info));
            Some(Sieve::Error)
        },
    };
    proof {
        reveal_strlit("noda");
        assert(bare is None ==> named(targets@) =~= default_targets());
        assert(bare is Some ==> named(targets@) =~= Seq::empty());
    }
    match asked {
        Some(d) => {
            let ghost start = named(targets@);
            let mut k: usize = 0;
            while k < d.targets.len()
                invariant
                    k <= d.targets.len(),
                    named(targets@) == start + named(d.targets@).subrange(0, k as int),
                decreases d.targets.len() - k,
            {
                let ghost before = named(targets@);
                let entry = &d.targets[k];
                let copied = owned(entry.0.as_str());
                targets.push((copied, entry.1));
                assert(named(targets@) =~= before.push((entry.0@, entry.1)));
                assert(named(d.targets@)[k as int] == (entry.0@, entry.1));
                k += 1;
                assert(named(targets@) =~= start + named(d.targets@).subrange(0, k as int));
            }
            assert(named(d.targets@).subrange(0, k as int) =~= named(d.targets@));
            Directives { default, targets }
        },
        None => Directives { default, targets },
    }
}

} // verus!
