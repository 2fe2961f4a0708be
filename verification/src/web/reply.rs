//! What a handler decided, as HTTP: a status, headers and a body, before any
//! server sees them. The server only copies them out.

use vstd::prelude::*;

use crate::text::{owned, push_str};
use crate::web::asset::{self, asset_body, asset_kind, found};
use crate::web::guard::{opt_view, refusal, Guard};
use crate::web::log::{self, Record, Level};
use crate::web::page::{failure, failure_page};
use crate::web::{encoded, percent, utf8, PART};

verus! {

/// What a reply carries.
#[derive(Debug)]
pub enum Body {
    Text(String),
    Bytes(Vec<u8>),
}

/// A reply: its status, its headers by lower-case name, in order, and its
/// body.
#[derive(Debug)]
pub struct Reply {
    pub status: u16,
    pub headers: Vec<(&'static str, String)>,
    pub body: Body,
}

/// The headers as the contracts read them.
pub open spec fn heads(h: Seq<(&'static str, String)>) -> Seq<(Seq<char>, Seq<char>)> {
    h.map_values(|p: (&'static str, String)| (p.0@, p.1@))
}

pub open spec fn text_body(b: Body) -> Option<Seq<char>> {
    match b {
        Body::Text(t) => Some(t@),
        Body::Bytes(_) => None,
    }
}

/// What a handler decided, before it is HTTP.
#[derive(Debug)]
pub enum Answer {
    Page(String),
    /// A `303`.
    Elsewhere(String),
    /// A heading and a detail, for a `404`.
    Missing(String, String),
    /// A file of the notebook.
    Held(Held),
}

/// A file of the notebook, as it is handed over.
#[derive(Debug)]
pub struct Held {
    pub bytes: Vec<u8>,
    pub kind: &'static str,
    /// Whether it may be shown in the page's place; see `holding`.
    pub inline: bool,
    pub name: String,
}

/// How a handler's work ended on the blocking pool.
#[derive(Debug)]
pub enum Ran {
    Done(Answer),
    /// The handler's error, as its text.
    Failed(String),
    /// A panic, or a shutdown under way.
    Lost,
}

fn header(name: &'static str, value: &str) -> (r: (&'static str, String))
    ensures
        r.0 == name,
        r.1@ == value@,
{
    (name, owned(value))
}

/// The headers of a page: HTML; a cache must keep a fragment from the next
/// reader (`Vary`); a link out must not carry a note's address
/// (`Referrer-Policy`, not `no-referrer`, under which a form's `Origin` is
/// nulled and every write refused); and a kept page must be revalidated, as
/// it could name assets this build no longer has.
pub open spec fn page_heads() -> Seq<(Seq<char>, Seq<char>)> {
    seq![
        ("content-type"@, "text/html; charset=utf-8"@),
        ("vary"@, PART@),
        ("referrer-policy"@, "same-origin"@),
        ("cache-control"@, "no-cache"@),
    ]
}

/// A page with this status.
pub fn html(status: u16, body: String) -> (r: Reply)
    ensures
        r.status == status,
        heads(r.headers@) == page_heads(),
        text_body(r.body) == Some(body@),
{
    let headers = vec![
        header("content-type", "text/html; charset=utf-8"),
        header("vary", PART),
        header("referrer-policy", "same-origin"),
        header("cache-control", "no-cache"),
    ];
    let r = Reply { status, headers, body: Body::Text(body) };
    assert(heads(r.headers@) =~= page_heads());
    r
}

/// The headers of a plain answer: `no-store`, so a cache cannot report a
/// stopped server as running.
pub open spec fn plain_heads() -> Seq<(Seq<char>, Seq<char>)> {
    seq![
        ("content-type"@, "text/plain; charset=utf-8"@),
        ("cache-control"@, "no-store"@),
        ("x-content-type-options"@, "nosniff"@),
    ]
}

pub fn plain(status: u16, body: &str) -> (r: Reply)
    ensures
        r.status == status,
        heads(r.headers@) == plain_heads(),
        text_body(r.body) == Some(body@),
{
    let headers = vec![
        header("content-type", "text/plain; charset=utf-8"),
        header("cache-control", "no-store"),
        header("x-content-type-options", "nosniff"),
    ];
    let r = Reply { status, headers, body: Body::Text(owned(body)) };
    assert(heads(r.headers@) =~= plain_heads());
    r
}

/// How an attachment is named: inline or not, and the name in UTF-8 rather
/// than as a bare `filename=`, since a notebook's file may be `réunion.pdf`.
pub open spec fn disposition(inline: bool, name: Seq<char>) -> Seq<char> {
    (if inline { "inline"@ } else { "attachment"@ }) + "; filename*=UTF-8''"@ + percent(utf8(name))
}

/// A notebook's file handed over: its type, never sniffed, named, and
/// sandboxed in case a format turns out able to run a script, as SVG does.
pub fn attachment(held: Held) -> (r: Reply)
    ensures
        r.status == 200,
        heads(r.headers@) == seq![
            ("content-type"@, held.kind@),
            ("x-content-type-options"@, "nosniff"@),
            ("content-disposition"@, disposition(held.inline, held.name@)),
            ("content-security-policy"@, "default-src 'none'; sandbox"@),
        ],
        r.body matches Body::Bytes(b) && b@ == held.bytes@,
{
    let mut named = owned(if held.inline { "inline" } else { "attachment" });
    push_str(&mut named, "; filename*=UTF-8''");
    let code = encoded(held.name.as_str());
    push_str(&mut named, code.as_str());
    let headers = vec![
        header("content-type", held.kind),
        header("x-content-type-options", "nosniff"),
        (("content-disposition"), named),
        header("content-security-policy", "default-src 'none'; sandbox"),
    ];
    let r = Reply { status: 200, headers, body: Body::Bytes(held.bytes) };
    assert(heads(r.headers@) =~= seq![
        ("content-type"@, held.kind@),
        ("x-content-type-options"@, "nosniff"@),
        ("content-disposition"@, disposition(held.inline, held.name@)),
        ("content-security-policy"@, "default-src 'none'; sandbox"@),
    ]);
    r
}

/// The stylesheet or a script, kept for a year: its address carries a hash of
/// its bytes. A name this build did not embed is a `404`; nothing is ever
/// read from disk.
pub fn asset(file: &str) -> (r: Reply)
    ensures
        match found(file@) {
            Some(a) => r.status == 200
                && heads(r.headers@) == seq![
                    ("content-type"@, asset_kind(a)),
                    ("cache-control"@, "public, max-age=31536000, immutable"@),
                    ("x-content-type-options"@, "nosniff"@),
                ]
                && text_body(r.body) == Some(asset_body(a)),
            None => r.status == 404 && heads(r.headers@) == plain_heads()
                && text_body(r.body) == Some("no such asset\n"@),
        },
{
    match asset::find(file) {
        None => plain(404, "no such asset\n"),
        Some(held) => {
            let headers = vec![
                header("content-type", held.kind),
                header("cache-control", "public, max-age=31536000, immutable"),
                header("x-content-type-options", "nosniff"),
            ];
            let r = Reply { status: 200, headers, body: Body::Text(held.body) };
            assert(heads(r.headers@) =~= seq![
                ("content-type"@, held.kind@),
                ("cache-control"@, "public, max-age=31536000, immutable"@),
                ("x-content-type-options"@, "nosniff"@),
            ]);
            r
        },
    }
}

/// Whether this process can still answer; `alive` is whether the blocking
/// pool ran a task. A lost pool is logged.
pub fn health(alive: bool) -> (r: (Reply, Option<Record>))
    ensures
        alive ==> r.0.status == 200 && text_body(r.0.body) == Some("ok\n"@) && r.1 is None,
        !alive ==> r.0.status == 503 && text_body(r.0.body) == Some("unavailable\n"@)
            && (r.1 matches Some(rec) && rec.event@ == "http.lost"@),
        heads(r.0.headers@) == plain_heads(),
{
    if alive {
        (plain(200, "ok\n"), None)
    } else {
        (plain(503, "unavailable\n"), Some(log::lost()))
    }
}

/// The page an error shows.
pub open spec fn went_wrong(detail: Seq<char>) -> Seq<char> {
    failure_page("Something went wrong"@, detail)
}

/// A handler's outcome as HTTP, with what to log: a page; a `303` to where
/// it sent the reader; a `404` that says what is missing; a file; and for an
/// error or a lost task a `500` that says so, logged.
pub fn answered(ran: Ran) -> (r: (Reply, Option<Record>))
    ensures
        match ran {
            Ran::Done(Answer::Page(body)) => r.0.status == 200 && heads(r.0.headers@) == page_heads()
                && text_body(r.0.body) == Some(body@) && r.1 is None,
            Ran::Done(Answer::Elsewhere(to)) => r.0.status == 303
                && heads(r.0.headers@) == seq![("location"@, to@)]
                && (r.0.body matches Body::Bytes(b) && b@.len() == 0) && r.1 is None,
            Ran::Done(Answer::Missing(heading, detail)) => r.0.status == 404 && heads(r.0.headers@) == page_heads()
                && text_body(r.0.body) == Some(failure_page(heading@, detail@)) && r.1 is None,
            Ran::Done(Answer::Held(held)) => r.0.status == 200
                && heads(r.0.headers@) == seq![
                    ("content-type"@, held.kind@),
                    ("x-content-type-options"@, "nosniff"@),
                    ("content-disposition"@, disposition(held.inline, held.name@)),
                    ("content-security-policy"@, "default-src 'none'; sandbox"@),
                ]
                && (r.0.body matches Body::Bytes(b) && b@ == held.bytes@) && r.1 is None,
            Ran::Failed(e) => r.0.status == 500 && heads(r.0.headers@) == page_heads()
                && text_body(r.0.body) == Some(went_wrong(e@))
                && (r.1 matches Some(rec) && rec.event@ == "http.failed"@ && rec.fields@[0].1@ == e@),
            Ran::Lost => r.0.status == 500 && heads(r.0.headers@) == page_heads()
                && text_body(r.0.body) == Some(went_wrong("the request did not finish"@))
                && (r.1 matches Some(rec) && rec.event@ == "http.lost"@),
        },
{
    match ran {
        Ran::Done(Answer::Page(body)) => (html(200, body), None),
        Ran::Done(Answer::Elsewhere(to)) => {
            let headers = vec![(("location"), to)];
            let r = Reply { status: 303, headers, body: Body::Bytes(Vec::new()) };
            assert(heads(r.headers@) =~= seq![("location"@, to@)]);
            (r, None)
        },
        Ran::Done(Answer::Missing(heading, detail)) => (html(404, failure(heading.as_str(), detail.as_str())), None),
        Ran::Done(Answer::Held(held)) => (attachment(held), None),
        Ran::Failed(e) => {
            let record = log::failed(e.as_str());
            (html(500, failure("Something went wrong", e.as_str())), Some(record))
        },
        Ran::Lost => (html(500, failure("Something went wrong", "the request did not finish")), Some(log::lost())),
    }
}

/// The guard's decision on a request: `None` lets it through; a refusal is a
/// `403` that says why, and is logged with what was decided on.
pub fn admitted(guard: &Guard, host: Option<&str>, origin: Option<&str>) -> (r: Option<(Reply, Record)>)
    ensures
        match refusal(guard.allowed(), opt_view(host), opt_view(origin)) {
            None => r is None,
            Some(why) => r matches Some((reply, rec)) && reply.status == 403
                && heads(reply.headers@) == page_heads()
                && text_body(reply.body) == Some(failure_page("Not answered"@, why))
                && rec.level == Level::Warn && rec.event@ == "http.refused"@
                && rec.fields@[2].1@ == why,
        },
{
    match guard.admits(host, origin) {
        Ok(()) => None,
        Err(refused) => {
            let record = log::refused(host, origin, refused.0.as_str());
            Some((html(403, failure("Not answered", refused.0.as_str())), record))
        },
    }
}


/// A note's address, as a `303` answers with it.
pub open spec fn note_address(book: Seq<char>, id: Seq<char>) -> Seq<char> {
    "/nb/"@ + book + "/n/"@ + id
}

/// A `303` back to the note, so a reload does not resend the form.
pub fn back_to_note(book: &str, id: &str) -> (r: Answer)
    ensures
        r matches Answer::Elsewhere(to) && to@ == note_address(book@, id@),
{
    let mut to = owned("/nb/");
    push_str(&mut to, book);
    push_str(&mut to, "/n/");
    push_str(&mut to, id);
    Answer::Elsewhere(to)
}

/// No notebook by that name on this machine: one that fails to open is an
/// error instead, not a `404` that sends somebody looking for a typo.
pub fn missing_notebook(book: &str) -> (r: Answer)
    ensures
        r matches Answer::Missing(heading, detail) && heading@ == "No such notebook"@
            && detail@ == "There is no notebook called "@ + book@ + " on this machine."@,
{
    let mut detail = owned("There is no notebook called ");
    push_str(&mut detail, book);
    push_str(&mut detail, " on this machine.");
    Answer::Missing(owned("No such notebook"), detail)
}

/// Nothing in the notebook answers to the key.
pub fn no_such_note(book: &str, key: &str) -> (r: Answer)
    ensures
        r matches Answer::Missing(heading, detail) && heading@ == "No such note"@
            && detail@ == "Nothing in "@ + book@ + " is called "@ + key@ + "."@,
{
    let mut detail = owned("Nothing in ");
    push_str(&mut detail, book);
    push_str(&mut detail, " is called ");
    push_str(&mut detail, key);
    push_str(&mut detail, ".");
    Answer::Missing(owned("No such note"), detail)
}

/// A note reached by a key other than its id (a prefix, or its slug) is sent
/// to the id's address, keeping the rest of the path; `None` when the key is
/// the id.
pub fn aimed(book: &str, key: &str, id: &str, tail: &str) -> (r: Option<Answer>)
    ensures
        key@ == id@ ==> r is None,
        key@ != id@ ==> (r matches Some(Answer::Elsewhere(to)) && to@ == note_address(book@, id@) + tail@),
{
    let k = crate::text::chars_of(key);
    let i = crate::text::chars_of(id);
    if crate::text::same(&k, &i) {
        return None;
    }
    let mut to = owned("/nb/");
    push_str(&mut to, book);
    push_str(&mut to, "/n/");
    push_str(&mut to, id);
    push_str(&mut to, tail);
    Some(Answer::Elsewhere(to))
}

} // verus!
