//! Who is allowed to be talking to this server.
//!
//! There are no accounts: the server is meant for a tailnet or behind an
//! authenticating proxy. These checks are the whole defence against the two
//! attacks that borrow a browser you already have open:
//!
//! **Cross-site requests.** A form on any site can post to `localhost:8080`,
//! and with no session cookie to be missing, only `Origin` stops it.
//!
//! **DNS rebinding**, where `evil.example` resolves to `127.0.0.1` and both
//! headers agree. The attack needs a *name*, so a bare address always passes
//! and a name must be one given with `--allow-host` (needed behind a proxy or on
//! a tailnet). It fails closed and says what to add.

use vstd::prelude::*;

use crate::text::{
    chars_of, eq_ignoring_ascii_case, find_from, first_from, lowercase, push_str, same_ignoring_ascii_case,
    string_of, to_lower, trim_end,
};
use crate::web::addr::{ip, is_ip};

verus! {

/// Why a request was turned away, in the words the reader needs to fix it.
pub struct Refusal(pub String);

/// The hostnames this server answers to.
pub struct Guard {
    allowed: Vec<String>,
}

/// The name out of a `host:port`, including a bracketed `[::1]:8080`.
pub open spec fn hostname(host: Seq<char>) -> Seq<char> {
    if host.len() > 0 && host[0] == '[' {
        let rest = host.drop_first();
        match first_from(rest, seq![']'], 0) {
            Some(at) => rest.subrange(0, at),
            None => rest,
        }
    } else {
        match first_from(host, seq![':'], 0) {
            Some(at) => host.subrange(0, at),
            None => host,
        }
    }
}

/// The `host:port` out of an origin; the port is kept, since it is part of
/// the origin.
pub open spec fn authority(origin: Seq<char>) -> Seq<char> {
    let rest = match first_from(origin, "://"@, 0) {
        Some(at) => origin.subrange(at + 3, origin.len() as int),
        None => origin,
    };
    trim_end(rest, '/')
}

pub open spec fn no_host() -> Seq<char> {
    "the request carried no Host header"@
}

pub open spec fn opaque() -> Seq<char> {
    "the request came from an opaque origin, which cannot be checked"@
}

pub open spec fn elsewhere(origin: Seq<char>, host: Seq<char>) -> Seq<char> {
    "the request says it came from "@ + origin + ", which is not "@ + host
        + " — a page on another site cannot make changes here"@
}

pub open spec fn unasked(name: Seq<char>) -> Seq<char> {
    "this server was not told to answer to the name "@ + name + " — start it with `--allow-host "@
        + name + "` if that is where you meant to reach it"@
}

/// An address cannot be rebound, and resolvers pin `localhost`; any other
/// name must be one that was asked for.
pub open spec fn host_refusal(allowed: Seq<Seq<char>>, host: Seq<char>) -> Option<Seq<char>> {
    let name = hostname(host);
    if ip(name) || same_ignoring_ascii_case(name, "localhost"@) {
        None
    } else if exists|i: int| 0 <= i < allowed.len() && same_ignoring_ascii_case(#[trigger] allowed[i], name) {
        None
    } else {
        Some(unasked(name))
    }
}

/// Why a request is refused, or `None` when it is admitted. A missing `Host`
/// is refused (HTTP/1.1 requires it); a missing `Origin` is not, as ordinary
/// navigation omits it.
pub open spec fn refusal(allowed: Seq<Seq<char>>, host: Option<Seq<char>>, origin: Option<Seq<char>>) -> Option<Seq<char>> {
    match host {
        None => Some(no_host()),
        Some(host) => match host_refusal(allowed, host) {
            Some(why) => Some(why),
            None => match origin {
                None => None,
                Some(origin) => if origin == "null"@ {
                    // A sandboxed frame or `file://` page sends `null`; it
                    // would fail the comparison anyway, but deserves its own
                    // message.
                    Some(opaque())
                } else if same_ignoring_ascii_case(authority(origin), host) {
                    None
                } else {
                    Some(elsewhere(origin, host))
                },
            },
        },
    }
}

pub open spec fn opt_view(s: Option<&str>) -> Option<Seq<char>> {
    match s {
        Some(s) => Some(s@),
        None => None,
    }
}

fn host_name(host: &Vec<char>) -> (r: Vec<char>)
    ensures
        r@ == hostname(host@),
{
    if host.len() > 0 && host[0] == '[' {
        let rest = slice(host, 1, host.len());
        assert(rest@ =~= host@.drop_first());
        let close = vec![']'];
        assert(close@ =~= seq![']']);
        match find_from(&rest, &close, 0) {
            Some(at) => {
                proof { crate::text::lemma_first_is(rest@, seq![']'], 0, at as int); }
                slice(&rest, 0, at)
            },
            None => rest,
        }
    } else {
        let colon = vec![':'];
        assert(colon@ =~= seq![':']);
        match find_from(host, &colon, 0) {
            Some(at) => {
                proof { crate::text::lemma_first_is(host@, seq![':'], 0, at as int); }
                slice(host, 0, at)
            },
            None => slice(host, 0, host.len()),
        }
    }
}

fn slice(v: &Vec<char>, from: usize, to: usize) -> (r: Vec<char>)
    requires
        from <= to <= v.len(),
    ensures
        r@ == v@.subrange(from as int, to as int),
{
    let mut out: Vec<char> = Vec::new();
    let mut i = from;
    while i < to
        invariant
            from <= i <= to <= v.len(),
            out@ == v@.subrange(from as int, i as int),
        decreases to - i,
    {
        out.push(v[i]);
        i += 1;
        assert(out@ =~= v@.subrange(from as int, i as int));
    }
    out
}

fn authority_of(origin: &Vec<char>) -> (r: Vec<char>)
    ensures
        r@ == authority(origin@),
{
    let mark = chars_of("://");
    proof { reveal_strlit("://"); }
    let mut rest = match find_from(origin, &mark, 0) {
        Some(at) => {
            proof { crate::text::lemma_first_is(origin@, "://"@, 0, at as int); }
            assert(crate::text::occurs_at(origin@, mark@, at as int));
            assert(at + mark@.len() <= origin@.len());
            let skip = mark.len();
            assert(skip == mark@.len());
            let n = origin.len();
            assert(at + skip <= n);
            slice(origin, at + skip, n)
        },
        None => slice(origin, 0, origin.len()),
    };
    assert(origin@.subrange(0, origin.len() as int) =~= origin@);
    let ghost whole = rest@;
    while rest.len() > 0 && rest[rest.len() - 1] == '/'
        invariant
            trim_end(rest@, '/') == trim_end(whole, '/'),
        decreases rest.len(),
    {
        rest.pop();
    }
    assert(trim_end(rest@, '/') == rest@);
    rest
}

impl Guard {
    /// The names asked for, as compared: lowered.
    pub closed spec fn allowed(&self) -> Seq<Seq<char>> {
        self.allowed@.map_values(|name: String| name@)
    }

    /// `extra` is `--allow-host`.
    pub fn new(extra: &[String]) -> (r: Guard)
        ensures
            r.allowed().len() == extra@.len(),
            forall|i: int| 0 <= i < extra@.len() ==> r.allowed()[i] == lowercase(#[trigger] extra@[i]@),
    {
        let mut allowed: Vec<String> = Vec::new();
        let mut i: usize = 0;
        while i < extra.len()
            invariant
                i <= extra.len(),
                allowed@.len() == i,
                forall|j: int| 0 <= j < i ==> (#[trigger] allowed@[j])@ == lowercase(extra@[j]@),
            decreases extra.len() - i,
        {
            let name = to_lower(extra[i].as_str());
            allowed.push(name);
            i += 1;
        }
        Guard { allowed }
    }

    /// Whether the request may be answered, and if not, why not.
    pub fn admits(&self, host: Option<&str>, origin: Option<&str>) -> (r: Result<(), Refusal>)
        ensures
            match refusal(self.allowed(), opt_view(host), opt_view(origin)) {
                None => r is Ok,
                Some(why) => r matches Err(refused) && refused.0@ == why,
            },
    {
        let host = match host {
            None => return Err(Refusal(crate::text::owned("the request carried no Host header"))),
            Some(host) => host,
        };
        let host_chars = chars_of(host);
        if let Err(refused) = self.admits_host(&host_chars) {
            return Err(refused);
        }
        match origin {
            None => Ok(()),
            Some(origin) => {
                let origin_chars = chars_of(origin);
                let null = chars_of("null");
                if crate::text::same(&origin_chars, &null) {
                    return Err(Refusal(crate::text::owned(
                        "the request came from an opaque origin, which cannot be checked",
                    )));
                }
                let from = authority_of(&origin_chars);
                if eq_ignoring_ascii_case(&from, &host_chars) {
                    Ok(())
                } else {
                    let mut why = String::new();
                    push_str(&mut why, "the request says it came from ");
                    push_str(&mut why, origin);
                    push_str(&mut why, ", which is not ");
                    push_str(&mut why, host);
                    push_str(&mut why, " — a page on another site cannot make changes here");
                    Err(Refusal(why))
                }
            },
        }
    }

    fn admits_host(&self, host: &Vec<char>) -> (r: Result<(), Refusal>)
        ensures
            match host_refusal(self.allowed(), host@) {
                None => r is Ok,
                Some(why) => r matches Err(refused) && refused.0@ == why,
            },
    {
        let name = host_name(host);
        let localhost = chars_of("localhost");
        if is_ip(&name) || eq_ignoring_ascii_case(&name, &localhost) {
            return Ok(());
        }
        let mut i: usize = 0;
        while i < self.allowed.len()
            invariant
                i <= self.allowed.len(),
                name@ == hostname(host@),
                forall|j: int| 0 <= j < i ==> !same_ignoring_ascii_case(#[trigger] self.allowed()[j], name@),
            decreases self.allowed.len() - i,
        {
            let allowed = chars_of(self.allowed[i].as_str());
            if eq_ignoring_ascii_case(&allowed, &name) {
                assert(self.allowed()[i as int] == allowed@);
                return Ok(());
            }
            i += 1;
        }
        let spelled = crate::text::string_all(&name);
        let mut why = String::new();
        push_str(&mut why, "this server was not told to answer to the name ");
        push_str(&mut why, spelled.as_str());
        push_str(&mut why, " — start it with `--allow-host ");
        push_str(&mut why, spelled.as_str());
        push_str(&mut why, "` if that is where you meant to reach it");
        Err(Refusal(why))
    }
}


/// What is let through, exactly: a request that named its host, by an
/// address, as `localhost` or by a name `--allow-host` gave (case aside); and
/// that came from nowhere in particular, or from that same host and not from
/// an opaque (`null`) origin. Everything else is refused, so the guard fails
/// closed.
pub proof fn only_a_named_host_and_its_own_pages_are_let_through(
    allowed: Seq<Seq<char>>,
    host: Option<Seq<char>>,
    origin: Option<Seq<char>>,
)
    ensures
        refusal(allowed, host, origin) is None <==> {
            &&& host is Some
            &&& ({
                let name = hostname(host->0);
                ip(name) || same_ignoring_ascii_case(name, "localhost"@)
                    || exists|i: int| 0 <= i < allowed.len() && same_ignoring_ascii_case(#[trigger] allowed[i], name)
            })
            &&& origin matches Some(o) ==> o != "null"@ && same_ignoring_ascii_case(authority(o), host->0)
        },
{
}

/// A bare address is never a rebinding, so it is let through on any list,
/// when the request came from nowhere in particular.
pub proof fn an_address_always_passes(allowed: Seq<Seq<char>>, host: Seq<char>)
    requires
        ip(hostname(host)),
    ensures
        refusal(allowed, Some(host), None) is None,
{
}

} // verus!
