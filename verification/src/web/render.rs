//! A note's body, as HTML.
//!
//! `pulldown-cmark` parses and renders; this module rewrites the event stream
//! between the two, for four decisions:
//!
//! **Where a destination leads.** Relative paths (what reads well on a git
//! host) become `/nb/<book>/n/<id>` and `/nb/<book>/f/<name>`.
//!
//! **What raw HTML turns into.** A code block: shown, not run. A destination
//! with a scheme noda does not allow keeps its text and loses its link.
//!
//! **Bare URLs.** GFM's autolink literals, narrowed to `http://` and
//! `https://`.
//!
//! **What a link that leaves carries**: `target="_blank"` and
//! `rel="noopener noreferrer"`, since a note's address holds its id.

#![verifier::spinoff_prover]

use vstd::prelude::*;

use crate::text::{chars_of, first_from, owned, push_char, push_str, starts, string_of, white, is_white};
use crate::web::markup::{esc, push_esc};
use crate::text::{split, split_vec, views};
use crate::web::markup::join;
use crate::web::{hex, hex_digit, hex_digit_of, hex_pair, lossy, text_of_bytes, unreserved, utf8};
use pulldown_cmark::{html, DefaultBrokenLinkCallback, Event, Options, Parser, TagEnd};
use pulldown_cmark::CodeBlockKind::Fenced;
use pulldown_cmark::Event::{Code, End, Html, InlineHtml, Start, Text};
use pulldown_cmark::LinkType::Email;
use pulldown_cmark::Tag::{CodeBlock, HtmlBlock, Image, Link};

verus! {

/// An event of the parser, as far as the rewrite reads it. The rest pass
/// through as they came, by their place in the stream.
#[derive(Debug)]
pub enum Ev {
    /// Text, escaped when written.
    Text(String),
    /// Raw HTML: a block's (`false`) or an inline tag (`true`).
    Raw(bool, String),
    /// A code block opens: raw HTML's (`true`) or a real one (`false`).
    Open(bool),
    /// A code block, or raw HTML's block, closes.
    Close,
    /// A link opens: whether it is `<me@example.com>`, and where it leads.
    Link(bool, String),
    EndLink,
    /// An image: where it is fetched from.
    Image(String),
    EndImage,
    /// Anything else.
    Other,
}

/// An event of the rewritten stream.
#[derive(Debug)]
pub enum Out {
    /// The parser's event at this place: unchanged, or a link's or an image's
    /// opening with the destination given in place of its own.
    Keep(usize, Option<String>),
    Text(String),
    /// Written out as it stands: only markup this module wrote.
    Html(String),
    /// Inline code, escaped when written.
    Code(String),
    /// A fenced code block opens, in this language.
    OpenCode(String),
    CloseCode,
}

/// An event as the contracts read it.
pub enum Seen {
    Text(Seq<char>),
    Raw(bool, Seq<char>),
    Open(bool),
    Close,
    Link(bool, Seq<char>),
    EndLink,
    Image(Seq<char>),
    EndImage,
    Other,
}

/// A rewritten event as the contracts read it.
pub enum Piece {
    Keep(nat, Option<Seq<char>>),
    Text(Seq<char>),
    Html(Seq<char>),
    Code(Seq<char>),
    OpenCode(Seq<char>),
    CloseCode,
}

pub open spec fn seen(e: Ev) -> Seen {
    match e {
        Ev::Text(t) => Seen::Text(t@),
        Ev::Raw(inline, t) => Seen::Raw(inline, t@),
        Ev::Open(html) => Seen::Open(html),
        Ev::Close => Seen::Close,
        Ev::Link(email, dest) => Seen::Link(email, dest@),
        Ev::EndLink => Seen::EndLink,
        Ev::Image(dest) => Seen::Image(dest@),
        Ev::EndImage => Seen::EndImage,
        Ev::Other => Seen::Other,
    }
}

pub open spec fn piece(o: Out) -> Piece {
    match o {
        Out::Keep(i, d) => Piece::Keep(i as nat, match d {
            Some(s) => Some(s@),
            None => None,
        }),
        Out::Text(t) => Piece::Text(t@),
        Out::Html(t) => Piece::Html(t@),
        Out::Code(t) => Piece::Code(t@),
        Out::OpenCode(t) => Piece::OpenCode(t@),
        Out::CloseCode => Piece::CloseCode,
    }
}

pub open spec fn pieces(v: Seq<Out>) -> Seq<Piece> {
    v.map_values(|o: Out| piece(o))
}

/// `pulldown_cmark::Parser`, carried from where a parse is made to where its
/// events are read; nothing inside it is read here.
#[verifier::external_type_specification]
#[verifier::external_body]
#[verifier::reject_recursive_types(F)]
pub struct ExParser<'input, F>(Parser<'input, F>);

/// The parser's default for a reference with no definition: none is made up.
#[verifier::external_type_specification]
#[verifier::external_body]
pub struct ExDefaultBrokenLinkCallback(DefaultBrokenLinkCallback);

/// What `pulldown_cmark::Parser` yields for a text, with tables,
/// strikethrough and task lists on (task lists because the todo list reads
/// them), each event as far as the rewrite reads it.
pub uninterp spec fn parsed(markdown: Seq<char>) -> Seq<Seen>;

/// The events a parser has still to yield, each as far as the rewrite reads
/// it.
pub uninterp spec fn yields(p: Parser) -> Seq<Seen>;

/// The text a parser was made for.
pub uninterp spec fn source(p: Parser) -> Seq<char>;

/// What `pulldown_cmark::html::push_html` writes for the rewritten stream,
/// where `Keep(i, ..)` is the `i`-th event the parser yields for `markdown`.
pub uninterp spec fn rendered(markdown: Seq<char>, stream: Seq<Piece>) -> Seq<char>;

/// `pulldown_cmark::Parser::new_ext` with tables, strikethrough and task
/// lists: what it will yield is named, not stated.
#[verifier::external_body]
fn parse(markdown: &str) -> (r: Parser<'_>)
    ensures
        yields(r) == parsed(markdown@),
        source(r) == markdown@,
{
    Parser::new_ext(markdown, Options::ENABLE_TABLES | Options::ENABLE_STRIKETHROUGH | Options::ENABLE_TASKLISTS)
}

/// Every event a parser yields, in order, as far as the rewrite reads it.
#[verifier::external_body]
fn events(p: Parser<'_>) -> (r: Vec<Ev>)
    ensures
        r@.map_values(|e: Ev| seen(e)) == yields(p),
{
    p.map(|e| match e {
        Text(t) => Ev::Text(t.into()),
        Html(t) => Ev::Raw(false, t.into()),
        InlineHtml(t) => Ev::Raw(true, t.into()),
        Start(HtmlBlock) => Ev::Open(true),
        Start(CodeBlock(_)) => Ev::Open(false),
        End(TagEnd::HtmlBlock | TagEnd::CodeBlock) => Ev::Close,
        Start(Link { link_type, dest_url, .. }) => Ev::Link(link_type == Email, dest_url.into()),
        End(TagEnd::Link) => Ev::EndLink,
        Start(Image { dest_url, .. }) => Ev::Image(dest_url.into()),
        End(TagEnd::Image) => Ev::EndImage,
        _ => Ev::Other,
    }).collect()
}

/// `pulldown_cmark::html::push_html` over the rewritten stream, `Keep(i, ..)`
/// being the parser's own `i`-th event, its destination replaced where one is
/// given: what it writes is named, not stated. The parser has yielded nothing
/// yet, so its events are those of its whole text.
#[verifier::external_body]
fn render(p: Parser<'_>, stream: Vec<Out>) -> (r: String)
    requires
        yields(p) == parsed(source(p)),
        kept_before(stream@, 0, yields(p).len()),
    ensures
        r@ == rendered(source(p), pieces(stream@)),
{
    let mut parsed: Vec<Event> = p.collect();
    let mut out = String::new();
    html::push_html(&mut out, stream.into_iter().map(|o| match o {
        Out::Keep(i, d) => {
            if let (Some(d), Start(Link { dest_url, .. } | Image { dest_url, .. })) = (d, &mut parsed[i]) { *dest_url = d.into() }
            parsed[i].clone()
        },
        Out::Text(t) => Text(t.into()),
        Out::Html(t) => Html(t.into()),
        Out::Code(t) => Code(t.into()),
        Out::OpenCode(l) => Start(CodeBlock(Fenced(l.into()))),
        Out::CloseCode => End(TagEnd::CodeBlock),
    }));
    out
}


/// Which notebook the page belongs to, and which filenames are notes.
pub struct Around<'a> {
    pub book: &'a str,
    /// Filename to id: the spelling a body uses, and the address the web has.
    /// A later pair for the same filename stands over an earlier one.
    pub notes: Vec<(String, String)>,
}

/// A note's filename: `<id>-<slug>.md`.
pub open spec fn note_file(id: Seq<char>, slug: Seq<char>) -> Seq<char> {
    id + "-"@ + slug + ".md"@
}

/// Each `(id, slug)` pair filed under its note's filename, in order.
pub open spec fn filed(named: Seq<(String, String)>, notes: Seq<(String, String)>) -> bool {
    &&& notes.len() == named.len()
    &&& forall|i: int| 0 <= i < named.len() ==> #[trigger] notes[i].0@ == note_file(named[i].0@, named[i].1@)
    &&& forall|i: int| 0 <= i < named.len() ==> #[trigger] notes[i].1@ == named[i].0@
}

impl<'a> Around<'a> {
    /// From the notebook's `(id, slug)` pairs, which opens nothing: rendering
    /// one note is not a reason to parse every other one.
    pub fn of(book: &'a str, named: &[(String, String)]) -> (r: Around<'a>)
        ensures
            r.book@ == book@,
            filed(named@, r.notes@),
    {
        let mut notes: Vec<(String, String)> = Vec::new();
        let mut i: usize = 0;
        while i < named.len()
            invariant
                i <= named.len(),
                filed(named@.subrange(0, i as int), notes@),
            decreases named.len() - i,
        {
            let ghost before = notes@;
            let (id, slug) = &named[i];
            let mut file = owned(id.as_str());
            push_str(&mut file, "-");
            push_str(&mut file, slug.as_str());
            push_str(&mut file, ".md");
            let pair = (file, owned(id.as_str()));
            assert(pair.0@ == note_file(named@[i as int].0@, named@[i as int].1@));
            assert(pair.1@ == named@[i as int].0@);
            notes.push(pair);
            let ghost done = named@.subrange(0, i + 1);
            assert forall|j: int| 0 <= j < done.len() implies #[trigger] notes@[j].0@ == note_file(done[j].0@, done[j].1@) by {
                if j < i {
                    assert(notes@[j] == before[j]);
                    assert(done[j] == named@.subrange(0, i as int)[j]);
                    assert(before[j].0@ == note_file(named@.subrange(0, i as int)[j].0@, named@.subrange(0, i as int)[j].1@));
                } else {
                    assert(notes@[j] == pair);
                }
            }
            assert forall|j: int| 0 <= j < done.len() implies #[trigger] notes@[j].1@ == done[j].0@ by {
                if j < i {
                    assert(notes@[j] == before[j]);
                    assert(done[j] == named@.subrange(0, i as int)[j]);
                    assert(before[j].1@ == named@.subrange(0, i as int)[j].0@);
                } else {
                    assert(notes@[j] == pair);
                }
            }
            i += 1;
        }
        assert(named@.subrange(0, named@.len() as int) =~= named@);
        Around { book, notes }
    }
}

/// The id a filename names among `notes`: the last pair for it, as a map
/// built from them in order would keep.
pub open spec fn note_id(notes: Seq<(String, String)>, file: Seq<char>) -> Option<Seq<char>>
    decreases notes.len(),
{
    if notes.len() == 0 {
        None
    } else if notes.last().0@ == file {
        Some(notes.last().1@)
    } else {
        note_id(notes.drop_last(), file)
    }
}

fn id_of(notes: &Vec<(String, String)>, file: &Vec<char>) -> (r: Option<String>)
    ensures
        match note_id(notes@, file@) {
            Some(id) => r matches Some(s) && s@ == id,
            None => r is None,
        },
{
    let mut i: usize = notes.len();
    assert(notes@.subrange(0, i as int) =~= notes@);
    while i > 0
        invariant
            i <= notes.len(),
            note_id(notes@, file@) == note_id(notes@.subrange(0, i as int), file@),
        decreases i,
    {
        let name = chars_of(notes[i - 1].0.as_str());
        assert(notes@.subrange(0, i as int).drop_last() =~= notes@.subrange(0, i - 1));
        if crate::text::same(&name, file) {
            return Some(owned(notes[i - 1].1.as_str()));
        }
        i -= 1;
    }
    None
}

/// A byte a path keeps as it is: the unreserved set, and `/` so a nested path
/// means the same as on disk.
pub open spec fn path_safe(b: u8) -> bool {
    unreserved(b) || b == 47u8
}

/// A path percent-encoded: a space, `#` or `?` would end it.
pub open spec fn path_percent(b: Seq<u8>) -> Seq<char>
    decreases b.len(),
{
    if b.len() == 0 {
        Seq::empty()
    } else {
        let last = b.last();
        let tail = if path_safe(last) {
            seq![last as char]
        } else {
            seq!['%', hex_digit(last / 16), hex_digit(last % 16)]
        };
        path_percent(b.drop_last()) + tail
    }
}

/// Percent-encodes a path; `/` is kept.
pub fn url_path(text: &str) -> (r: String)
    ensures
        r@ == path_percent(utf8(text@)),
{
    let bytes = text.as_bytes();
    let mut out = String::new();
    let mut i: usize = 0;
    while i < bytes.len()
        invariant
            i <= bytes@.len(),
            bytes@ == utf8(text@),
            out@ == path_percent(bytes@.subrange(0, i as int)),
        decreases bytes.len() - i,
    {
        let b = bytes[i];
        let ghost before = bytes@.subrange(0, i as int);
        if (97u8 <= b && b <= 122u8) || (65u8 <= b && b <= 90u8) || (48u8 <= b && b <= 57u8)
            || b == 45u8 || b == 95u8 || b == 46u8 || b == 126u8 || b == 47u8 {
            push_char(&mut out, b as char);
        } else {
            push_char(&mut out, '%');
            push_char(&mut out, hex_digit_of(b / 16));
            push_char(&mut out, hex_digit_of(b % 16));
        }
        i += 1;
        assert(bytes@.subrange(0, i as int).drop_last() =~= before);
        assert(out@ =~= path_percent(bytes@.subrange(0, i as int)));
    }
    assert(bytes@.subrange(0, bytes@.len() as int) =~= bytes@);
    out
}

/// `%XX` as its byte; a stray `%` stays as written. A `+` is a `+` in a
/// path.
pub open spec fn unescaped(b: Seq<u8>) -> Seq<u8>
    decreases b.len(),
{
    if b.len() == 0 {
        Seq::empty()
    } else if b[0] == 37u8 && b.len() >= 3 && hex_pair(b[1], b[2]) is Some {
        seq![hex_pair(b[1], b[2])->0] + unescaped(b.subrange(3, b.len() as int))
    } else {
        seq![b[0]] + unescaped(b.drop_first())
    }
}

/// A destination's path as the file system spells it: `%20` is a space.
pub open spec fn path_decoded(s: Seq<char>) -> Seq<char> {
    lossy(unescaped(utf8(s)))
}

pub fn path_decode(value: &str) -> (r: String)
    ensures
        r@ == path_decoded(value@),
{
    let bytes = value.as_bytes();
    let mut out: Vec<u8> = Vec::new();
    let mut at: usize = 0;
    assert(bytes@.subrange(0, bytes@.len() as int) =~= bytes@);
    assert(out@ + unescaped(bytes@.subrange(0, bytes@.len() as int)) =~= unescaped(bytes@));
    while at < bytes.len()
        invariant
            at <= bytes@.len(),
            bytes@ == utf8(value@),
            out@ + unescaped(bytes@.subrange(at as int, bytes@.len() as int)) == unescaped(bytes@),
        decreases bytes.len() - at,
    {
        let ghost rest = bytes@.subrange(at as int, bytes@.len() as int);
        let b = bytes[at];
        if b == 37u8 && bytes.len() - at > 2 {
            match hex(bytes[at + 1], bytes[at + 2]) {
                Some(byte) => {
                    out.push(byte);
                    at += 3;
                    assert(rest.subrange(3, rest.len() as int) =~= bytes@.subrange(at as int, bytes@.len() as int));
                },
                None => {
                    out.push(37u8);
                    at += 1;
                    assert(rest.drop_first() =~= bytes@.subrange(at as int, bytes@.len() as int));
                },
            }
        } else {
            out.push(b);
            at += 1;
            assert(rest.drop_first() =~= bytes@.subrange(at as int, bytes@.len() as int));
        }
    }
    assert(bytes@.subrange(at as int, bytes@.len() as int) =~= Seq::<u8>::empty());
    assert(out@ =~= unescaped(bytes@));
    text_of_bytes(&out)
}

/// A letter of ASCII.
pub open spec fn ascii_alpha(c: char) -> bool {
    ('a' <= c && c <= 'z') || ('A' <= c && c <= 'Z')
}

/// What may follow a scheme's first letter: letters, digits, `+`, `-`, `.`.
pub open spec fn scheme_char(c: char) -> bool {
    ascii_alpha(c) || ('0' <= c && c <= '9') || c == '+' || c == '-' || c == '.'
}

/// The scheme a destination names, by RFC 3986's shape: a letter, then
/// letters, digits, `+`, `-` or `.`, up to the first `:`.
pub open spec fn scheme_of(dest: Seq<char>) -> Option<Seq<char>> {
    match first_from(dest, ":"@, 0) {
        Some(at) => if at >= 1 && ascii_alpha(dest[0]) && forall|j: int| 1 <= j < at ==> scheme_char(#[trigger] dest[j]) {
            Some(dest.subrange(0, at))
        } else {
            None
        },
        None => None,
    }
}

fn is_scheme_char(c: char) -> (r: bool)
    ensures
        r == scheme_char(c),
{
    ('a' <= c && c <= 'z') || ('A' <= c && c <= 'Z') || ('0' <= c && c <= '9') || c == '+' || c == '-' || c == '.'
}

pub fn scheme(dest: &Vec<char>) -> (r: Option<Vec<char>>)
    ensures
        match scheme_of(dest@) {
            Some(s) => r matches Some(v) && v@ == s,
            None => r is None,
        },
{
    let colon = vec![':'];
    proof { reveal_strlit(":"); }
    assert(colon@ =~= ":"@);
    match crate::text::find_from(dest, &colon, 0) {
        None => {
            proof { crate::text::lemma_first_none(dest@, colon@, 0); }
            None
        },
        Some(at) => {
            proof { crate::text::lemma_first_is(dest@, colon@, 0, at as int); }
            if at < 1 || !(('a' <= dest[0] && dest[0] <= 'z') || ('A' <= dest[0] && dest[0] <= 'Z')) {
                return None;
            }
            let mut j: usize = 1;
            while j < at
                invariant
                    1 <= j <= at,
                    at < dest.len(),
                    first_from(dest@, ":"@, 0) == Some(at as int),
                    ascii_alpha(dest@[0]),
                    forall|k: int| 1 <= k < j ==> scheme_char(#[trigger] dest@[k]),
                decreases at - j,
            {
                if !is_scheme_char(dest[j]) {
                    return None;
                }
                j += 1;
            }
            let mut out: Vec<char> = Vec::new();
            let mut k: usize = 0;
            while k < at
                invariant
                    k <= at,
                    at < dest.len(),
                    out@ == dest@.subrange(0, k as int),
                decreases at - k,
            {
                out.push(dest[k]);
                k += 1;
                assert(out@ =~= dest@.subrange(0, k as int));
            }
            Some(out)
        },
    }
}

/// What is left of a destination before its anchor.
pub open spec fn before_anchor(dest: Seq<char>) -> Seq<char> {
    match first_from(dest, "#"@, 0) {
        Some(at) => dest.subrange(0, at),
        None => dest,
    }
}

/// A path's segments walked from the notebook's root: empty and `.` segments
/// stay put, `..` goes back one, and going back from the root is refused.
pub open spec fn resolve(segs: Seq<Seq<char>>) -> Option<Seq<Seq<char>>>
    decreases segs.len(),
{
    if segs.len() == 0 {
        Some(Seq::empty())
    } else {
        match resolve(segs.drop_last()) {
            None => None,
            Some(stack) => {
                let s = segs.last();
                if s.len() == 0 || s == "."@ {
                    Some(stack)
                } else if s == ".."@ {
                    if stack.len() == 0 { None } else { Some(stack.drop_last()) }
                } else {
                    Some(stack.push(s))
                }
            },
        }
    }
}

/// What a relative destination names inside the notebook: the anchor cut
/// off, `%XX` decoded, then walked from the root. Nothing for a destination
/// with a scheme, an absolute path, one that climbs out of the notebook, or
/// one that names no file.
pub open spec fn target_of(dest: Seq<char>) -> Option<Seq<char>> {
    if scheme_of(dest) is Some {
        None
    } else {
        let path = path_decoded(before_anchor(dest));
        if path.len() > 0 && path[0] == '/' {
            None
        } else {
            match resolve(split(path, '/')) {
                Some(stack) => if stack.len() > 0 { Some(join(stack, "/"@)) } else { None },
                None => None,
            }
        }
    }
}

proof fn lemma_refused_stays_refused(segs: Seq<Seq<char>>, i: int)
    requires
        0 <= i <= segs.len(),
        resolve(segs.subrange(0, i)) is None,
    ensures
        resolve(segs) is None,
    decreases segs.len() - i,
{
    if i < segs.len() {
        let next = segs.subrange(0, i + 1);
        assert(next.drop_last() =~= segs.subrange(0, i));
        lemma_refused_stays_refused(segs, i + 1);
    } else {
        assert(segs.subrange(0, i) =~= segs);
    }
}

fn is_word(v: &Vec<char>, word: &str) -> (r: bool)
    ensures
        r == (v@ == word@),
{
    let w = chars_of(word);
    crate::text::same(v, &w)
}

/// The notebook path a relative destination names, if any.
pub fn target(dest: &str) -> (r: Option<String>)
    ensures
        match target_of(dest@) {
            Some(p) => r matches Some(s) && s@ == p,
            None => r is None,
        },
{
    let d = chars_of(dest);
    if scheme(&d).is_some() {
        return None;
    }
    let hash = vec!['#'];
    proof { reveal_strlit("#"); }
    assert(hash@ =~= "#"@);
    let end = match crate::text::find_from(&d, &hash, 0) {
        Some(at) => {
            proof { crate::text::lemma_first_is(d@, hash@, 0, at as int); }
            at
        },
        None => {
            proof { crate::text::lemma_first_none(d@, hash@, 0); }
            d.len()
        },
    };
    let kept = string_of(&d, 0, end);
    assert(kept@ == before_anchor(dest@));
    assert(scheme_of(dest@) is None);
    let decoded = path_decode(kept.as_str());
    let p = chars_of(decoded.as_str());
    if p.len() > 0 && p[0] == '/' {
        return None;
    }
    let segs = split_vec(&p, 0, p.len(), '/');
    assert(p@.subrange(0, p@.len() as int) =~= p@);
    let mut stack: Vec<Vec<char>> = Vec::new();
    let mut i: usize = 0;
    proof { reveal_strlit("."); reveal_strlit(".."); }
    while i < segs.len()
        invariant
            i <= segs.len(),
            views(segs@) == split(p@, '/'),
            resolve(views(segs@).subrange(0, i as int)) == Some(views(stack@)),
            scheme_of(dest@) is None,
            p@ == path_decoded(before_anchor(dest@)),
            !(p@.len() > 0 && p@[0] == '/'),
        decreases segs.len() - i,
    {
        let ghost done = views(segs@).subrange(0, i + 1);
        assert(done.drop_last() =~= views(segs@).subrange(0, i as int));
        let ghost before = views(stack@);
        let seg = &segs[i];
        if seg.len() == 0 || is_word(seg, ".") {
        } else if is_word(seg, "..") {
            if stack.len() == 0 {
                proof {
                    assert(resolve(done) is None);
                    lemma_refused_stays_refused(views(segs@), i + 1);
                }
                return None;
            }
            stack.pop();
            assert(views(stack@) =~= before.drop_last());
        } else {
            let copy = seg.clone();
            stack.push(copy);
            assert(views(stack@) =~= before.push(seg@));
        }
        i += 1;
    }
    assert(views(segs@).subrange(0, segs@.len() as int) =~= views(segs@));
    if stack.len() == 0 {
        return None;
    }
    let mut out = String::new();
    let mut k: usize = 0;
    while k < stack.len()
        invariant
            k <= stack.len(),
            out@ == join(views(stack@).subrange(0, k as int), "/"@),
        decreases stack.len() - k,
    {
        let ghost done = views(stack@).subrange(0, k + 1);
        assert(done.drop_last() =~= views(stack@).subrange(0, k as int));
        if k > 0 {
            push_str(&mut out, "/");
        }
        let piece = crate::text::string_all(&stack[k]);
        push_str(&mut out, piece.as_str());
        k += 1;
    }
    assert(views(stack@).subrange(0, stack@.len() as int) =~= views(stack@));
    Some(out)
}

/// Whether a scheme may be followed: an allow-list, so `data:` and any
/// scheme invented later are refused too. `embed` (an image, fetched unasked)
/// narrows it to the web.
pub open spec fn serveable(scheme: Seq<char>, embed: bool) -> bool {
    let web = crate::text::same_ignoring_ascii_case(scheme, "http"@)
        || crate::text::same_ignoring_ascii_case(scheme, "https"@);
    if embed {
        web
    } else {
        web || crate::text::same_ignoring_ascii_case(scheme, "mailto"@)
            || crate::text::same_ignoring_ascii_case(scheme, "tel"@)
    }
}

fn is_scheme(scheme: &Vec<char>, word: &str) -> (r: bool)
    ensures
        r == crate::text::same_ignoring_ascii_case(scheme@, word@),
{
    let w = chars_of(word);
    crate::text::eq_ignoring_ascii_case(scheme, &w)
}

/// Where a destination is allowed to lead.
#[derive(Debug)]
pub enum Route {
    /// Given a class, so a reader can see before pressing that it stays
    /// inside.
    Note(String),
    /// A fragment, a notebook file, `mailto:` or `tel:`: this origin or not a
    /// page, so no new tab.
    To(String),
    /// `http(s)`: opened by hand, with the two attributes.
    Away(String),
    /// The link is dropped; its text stays.
    Nowhere,
}

/// A route as the contracts read it.
pub enum Way {
    Note(Seq<char>),
    To(Seq<char>),
    Away(Seq<char>),
    Nowhere,
}

pub open spec fn way(r: Route) -> Way {
    match r {
        Route::Note(s) => Way::Note(s@),
        Route::To(s) => Way::To(s@),
        Route::Away(s) => Way::Away(s@),
        Route::Nowhere => Way::Nowhere,
    }
}

/// Where `dest` leads from a note in `book`: a fragment stays; a path inside
/// the notebook is a note's address when a note has that filename and a
/// download otherwise; a scheme on the allow-list is followed, the web's in
/// a new tab; anything else leads nowhere.
#[verifier::opaque]
pub open spec fn route_of(dest: Seq<char>, book: Seq<char>, notes: Seq<(String, String)>, embed: bool) -> Way {
    if dest.len() > 0 && dest[0] == '#' {
        Way::To(dest)
    } else {
        match target_of(dest) {
            Some(path) => match note_id(notes, path) {
                Some(id) => Way::Note("/nb/"@ + path_percent(utf8(book)) + "/n/"@ + path_percent(utf8(id))),
                None => Way::To("/nb/"@ + path_percent(utf8(book)) + "/f/"@ + path_percent(utf8(path))),
            },
            None => match scheme_of(dest) {
                Some(scheme) => if serveable(scheme, embed) {
                    if crate::text::same_ignoring_ascii_case(scheme, "http"@)
                        || crate::text::same_ignoring_ascii_case(scheme, "https"@) {
                        Way::Away(dest)
                    } else {
                        Way::To(dest)
                    }
                } else {
                    Way::Nowhere
                },
                None => Way::Nowhere,
            },
        }
    }
}

pub fn route(dest: &str, around: &Around, embed: bool) -> (r: Route)
    ensures
        way(r) == route_of(dest@, around.book@, around.notes@, embed),
{
    proof { reveal(route_of); }
    let d = chars_of(dest);
    if d.len() > 0 && d[0] == '#' {
        return Route::To(owned(dest));
    }
    match target(dest) {
        Some(path) => {
            let p = chars_of(path.as_str());
            match id_of(&around.notes, &p) {
                Some(id) => {
                    let mut out = owned("/nb/");
                    let b = url_path(around.book);
                    push_str(&mut out, b.as_str());
                    push_str(&mut out, "/n/");
                    let i = url_path(id.as_str());
                    push_str(&mut out, i.as_str());
                    Route::Note(out)
                },
                None => {
                    let mut out = owned("/nb/");
                    let b = url_path(around.book);
                    push_str(&mut out, b.as_str());
                    push_str(&mut out, "/f/");
                    let f = url_path(path.as_str());
                    push_str(&mut out, f.as_str());
                    Route::To(out)
                },
            }
        },
        None => match scheme(&d) {
            Some(sc) => {
                let web = is_scheme(&sc, "http") || is_scheme(&sc, "https");
                let allowed = if embed { web } else { web || is_scheme(&sc, "mailto") || is_scheme(&sc, "tel") };
                if !allowed {
                    Route::Nowhere
                } else if web {
                    Route::Away(owned(dest))
                } else {
                    Route::To(owned(dest))
                }
            },
            None => Route::Nowhere,
        },
    }
}

/// The anchor for a destination that leaves the notebook, shared by written
/// and bare links so both behave the same.
pub open spec fn leaving(url: Seq<char>) -> Seq<char> {
    "<a href=\""@ + esc(url) + "\" target=\"_blank\" rel=\"noopener noreferrer\">"@
}

fn leaving_of(url: &str) -> (r: String)
    ensures
        r@ == leaving(url@),
{
    let mut out = owned("<a href=\"");
    push_esc(&mut out, url);
    push_str(&mut out, "\" target=\"_blank\" rel=\"noopener noreferrer\">");
    out
}

/// Where an address may start: after nothing, whitespace or one of `*_~(`,
/// so `xhttps://example.com` does not match.
pub open spec fn may_start(t: Seq<char>, at: int) -> bool {
    at == 0 || white(t[at - 1]) || t[at - 1] == '*' || t[at - 1] == '_' || t[at - 1] == '~' || t[at - 1] == '('
}

/// How long the scheme standing at `at` is: `https://`, `http://`, or none.
pub open spec fn scheme_len(t: Seq<char>, at: int) -> int {
    if starts(t.subrange(at, t.len() as int), "https://"@) {
        8
    } else if starts(t.subrange(at, t.len() as int), "http://"@) {
        7
    } else {
        0
    }
}

/// The first whitespace or `<` at or after `from`, or the end.
pub open spec fn stop_from(t: Seq<char>, from: int) -> int
    decreases t.len() - from,
{
    if from < 0 || from >= t.len() {
        t.len() as int
    } else if white(t[from]) || t[from] == '<' {
        from
    } else {
        stop_from(t, from + 1)
    }
}

/// How many times `c` stands in `s`.
pub open spec fn times(s: Seq<char>, c: char) -> nat
    decreases s.len(),
{
    if s.len() == 0 {
        0
    } else {
        times(s.drop_last(), c) + (if s.last() == c { 1nat } else { 0nat })
    }
}

/// The sentence's punctuation an address does not end with.
pub open spec fn trailing(c: char) -> bool {
    c == '?' || c == '!' || c == '.' || c == ',' || c == ':' || c == '*' || c == '_' || c == '~'
}

/// `end` walked back over the sentence's punctuation; a `)` only while it is
/// unbalanced, so `https://en.example.org/A_(b)` keeps it. `host` is where
/// the address's own text begins, so the walk cannot eat the scheme.
pub open spec fn sentence_off(t: Seq<char>, host: int, end: int) -> int
    decreases end - host,
{
    if end <= host {
        end
    } else {
        let last = t[end - 1];
        if trailing(last) {
            sentence_off(t, host, end - 1)
        } else if last == ')' && times(t.subrange(host, end), ')') > times(t.subrange(host, end), '(') {
            sentence_off(t, host, end - 1)
        } else {
            end
        }
    }
}

pub proof fn lemma_stop_bounds(t: Seq<char>, from: int)
    requires
        0 <= from <= t.len(),
    ensures
        from <= stop_from(t, from) <= t.len(),
    decreases t.len() - from,
{
    if from < t.len() && !(white(t[from]) || t[from] == '<') {
        lemma_stop_bounds(t, from + 1);
    }
}

pub proof fn lemma_off_bounds(t: Seq<char>, host: int, end: int)
    requires
        host <= end,
    ensures
        host <= sentence_off(t, host, end) <= end,
    decreases end - host,
{
    if end > host {
        lemma_off_bounds(t, host, end - 1);
    }
}

/// The bare `http://` and `https://` addresses in a run of prose from `from`
/// on, as character ranges: GFM's autolink literals narrowed to two schemes.
/// An address runs to the first whitespace or `<`, less the sentence's
/// punctuation; after one, the search resumes where it ended.
#[verifier::opaque]
pub open spec fn bare_from(t: Seq<char>, from: int) -> Seq<(int, int)>
    decreases t.len() - from,
{
    if from < 0 || from > t.len() {
        Seq::empty()
    } else {
        match first_from(t, "http"@, from) {
            None => Seq::empty(),
            Some(start) => {
                proof {
                    crate::text::lemma_first_from(t, "http"@, from);
                    reveal_strlit("http");
                }
                let sl = scheme_len(t, start);
                if !may_start(t, start) || sl == 0 {
                    bare_from(t, start + 4)
                } else {
                    let host = start + sl;
                    proof {
                        reveal_strlit("https://");
                        reveal_strlit("http://");
                        lemma_stop_bounds(t, host);
                        lemma_off_bounds(t, host, stop_from(t, host));
                    }
                    let end = sentence_off(t, host, stop_from(t, host));
                    if end > host {
                        seq![(start, end)] + bare_from(t, end)
                    } else {
                        bare_from(t, start + 4)
                    }
                }
            },
        }
    }
}

fn times_in(t: &Vec<char>, from: usize, to: usize, c: char) -> (r: usize)
    requires
        from <= to <= t.len(),
    ensures
        r == times(t@.subrange(from as int, to as int), c),
{
    let mut n: usize = 0;
    let mut i = from;
    assert(t@.subrange(from as int, from as int) =~= Seq::<char>::empty());
    while i < to
        invariant
            from <= i <= to <= t.len(),
            n == times(t@.subrange(from as int, i as int), c),
            n <= i - from,
        decreases to - i,
    {
        assert(t@.subrange(from as int, i + 1).drop_last() =~= t@.subrange(from as int, i as int));
        if t[i] == c {
            n += 1;
        }
        i += 1;
    }
    n
}

fn is_trailing(c: char) -> (r: bool)
    ensures
        r == trailing(c),
{
    c == '?' || c == '!' || c == '.' || c == ',' || c == ':' || c == '*' || c == '_' || c == '~'
}

/// Walks `end` back over the sentence's punctuation.
fn off(t: &Vec<char>, host: usize, stop: usize) -> (r: usize)
    requires
        host <= stop <= t.len(),
    ensures
        r == sentence_off(t@, host as int, stop as int),
{
    let mut end = stop;
    while end > host
        invariant
            host <= end <= t.len(),
            sentence_off(t@, host as int, end as int) == sentence_off(t@, host as int, stop as int),
        decreases end - host,
    {
        let last = t[end - 1];
        if is_trailing(last) {
            end -= 1;
        } else if last == ')' && times_in(t, host, end, ')') > times_in(t, host, end, '(') {
            end -= 1;
        } else {
            return end;
        }
    }
    end
}

/// What the scan does with an `http` found at `start`.
pub open spec fn bare_at(t: Seq<char>, start: int) -> Seq<(int, int)> {
    let sl = scheme_len(t, start);
    if !may_start(t, start) || sl == 0 {
        bare_from(t, start + 4)
    } else {
        let end = sentence_off(t, start + sl, stop_from(t, start + sl));
        if end > start + sl {
            seq![(start, end)] + bare_from(t, end)
        } else {
            bare_from(t, start + 4)
        }
    }
}

proof fn lemma_bare_step(t: Seq<char>, from: int)
    requires
        0 <= from <= t.len(),
    ensures
        match first_from(t, "http"@, from) {
            Some(start) => bare_from(t, from) == bare_at(t, start),
            None => bare_from(t, from) == Seq::<(int, int)>::empty(),
        },
{
    reveal(bare_from);
}

fn stop_of(t: &Vec<char>, host: usize) -> (r: usize)
    requires
        host <= t.len(),
    ensures
        r == stop_from(t@, host as int),
        host <= r <= t.len(),
{
    let mut i = host;
    while i < t.len() && !(is_white(t[i]) || t[i] == '<')
        invariant
            host <= i <= t.len(),
            stop_from(t@, i as int) == stop_from(t@, host as int),
        decreases t.len() - i,
    {
        i += 1;
    }
    i
}

fn starts_at(t: &Vec<char>, at: usize, prefix: &Vec<char>) -> (r: bool)
    requires
        at <= t.len(),
    ensures
        r == starts(t@.subrange(at as int, t@.len() as int), prefix@),
{
    if prefix.len() > t.len() - at {
        return false;
    }
    let mut i: usize = 0;
    while i < prefix.len()
        invariant
            i <= prefix.len() <= t.len() - at,
            forall|j: int| 0 <= j < i ==> t@[at + j] == prefix@[j],
        decreases prefix.len() - i,
    {
        if t[at + i] != prefix[i] {
            assert(t@.subrange(at as int, t@.len() as int).subrange(0, prefix@.len() as int)[i as int] != prefix@[i as int]);
            return false;
        }
        i += 1;
    }
    assert(t@.subrange(at as int, t@.len() as int).subrange(0, prefix@.len() as int) =~= prefix@);
    true
}

/// The spans as the contracts read them.
pub open spec fn spans(v: Seq<(usize, usize)>) -> Seq<(int, int)> {
    v.map_values(|p: (usize, usize)| (p.0 as int, p.1 as int))
}

/// The bare `http://` and `https://` addresses in a run of prose, as
/// character ranges.
///
/// Running after the parser, an address the parser actually turned into
/// emphasis is not found. That is rare, fails towards prose, and fixing it
/// would mean owning an inline parser.
#[verifier::rlimit(30)]
pub fn bare_urls(t: &Vec<char>) -> (r: Vec<(usize, usize)>)
    ensures
        spans(r@) == bare_from(t@, 0),
{
    let http = chars_of("http");
    let secure = chars_of("https://");
    let plain = chars_of("http://");
    proof {
        reveal_strlit("http");
        reveal_strlit("https://");
        reveal_strlit("http://");
    }
    let mut found: Vec<(usize, usize)> = Vec::new();
    let mut from: usize = 0;
    while from <= t.len()
        invariant
            from <= t.len() + 1,
            http@ == "http"@,
            secure@ == "https://"@,
            plain@ == "http://"@,
            spans(found@) + bare_from(t@, from as int) == bare_from(t@, 0),
        decreases t.len() + 1 - from,
    {
        let ghost before = found@;
        proof {
            reveal_strlit("http");
            reveal_strlit("https://");
            reveal_strlit("http://");
        }
        if from <= t.len() {
            proof { lemma_bare_step(t@, from as int); }
        }
        match crate::text::find_from(t, &http, from) {
            None => {
                proof { crate::text::lemma_first_none(t@, http@, from as int); }
                assert(bare_from(t@, from as int) =~= Seq::<(int, int)>::empty());
                assert(spans(found@) =~= spans(found@) + bare_from(t@, from as int));
                return found;
            },
            Some(start) => {
                proof { crate::text::lemma_first_is(t@, http@, from as int, start as int); }
                assert(crate::text::occurs_at(t@, http@, start as int));
                let ok = start == 0 || is_white(t[start - 1]) || t[start - 1] == '*' || t[start - 1] == '_'
                    || t[start - 1] == '~' || t[start - 1] == '(';
                let sl: usize = if starts_at(t, start, &secure) { 8 } else if starts_at(t, start, &plain) { 7 } else { 0 };
                assert(ok == may_start(t@, start as int));
                assert(sl == scheme_len(t@, start as int));
                if !ok || sl == 0 {
                    from = start + 4;
                } else {
                    let host = start + sl;
                    assert(host <= t@.len()) by {
                        if sl == 8 {
                            assert(starts(t@.subrange(start as int, t@.len() as int), "https://"@));
                        } else {
                            assert(starts(t@.subrange(start as int, t@.len() as int), "http://"@));
                        }
                    }
                    let stop = stop_of(t, host);
                    let end = off(t, host, stop);
                    proof { lemma_off_bounds(t@, host as int, stop as int); }
                    if end > host {
                        found.push((start, end));
                        from = end;
                        assert(spans(found@) =~= spans(before) + seq![(start as int, end as int)]);
                    } else {
                        from = start + 4;
                    }
                }
            },
        }
    }
    proof { reveal(bare_from); }
    assert(spans(found@) =~= spans(found@) + bare_from(t@, from as int));
    found
}

/// Spans in order, each inside the text, none before `from` nor empty.
pub open spec fn spans_ok(spans: Seq<(int, int)>, from: int, len: int) -> bool
    decreases spans.len(),
{
    spans.len() == 0 || (from <= spans[0].0 && spans[0].0 < spans[0].1 && spans[0].1 <= len
        && spans_ok(spans.drop_first(), spans[0].1, len))
}

proof fn lemma_bare_ok(t: Seq<char>, from: int)
    requires
        0 <= from <= t.len(),
    ensures
        spans_ok(bare_from(t, from), from, t.len() as int),
    decreases t.len() - from,
{
    lemma_bare_step(t, from);
    crate::text::lemma_first_from(t, "http"@, from);
    reveal_strlit("http");
    reveal_strlit("https://");
    reveal_strlit("http://");
    match first_from(t, "http"@, from) {
        None => {},
        Some(start) => {
            let sl = scheme_len(t, start);
            if !may_start(t, start) || sl == 0 {
                lemma_bare_ok(t, start + 4);
                lemma_spans_ok_earlier(bare_from(t, start + 4), start + 4, from, t.len() as int);
            } else {
                let host = start + sl;
                lemma_stop_bounds(t, host);
                lemma_off_bounds(t, host, stop_from(t, host));
                let end = sentence_off(t, host, stop_from(t, host));
                if end > host {
                    lemma_bare_ok(t, end);
                    let rest = bare_from(t, end);
                    assert((seq![(start, end)] + rest).drop_first() =~= rest);
                } else {
                    lemma_bare_ok(t, start + 4);
                    lemma_spans_ok_earlier(bare_from(t, start + 4), start + 4, from, t.len() as int);
                }
            }
        },
    }
}

proof fn lemma_spans_ok_earlier(spans: Seq<(int, int)>, from: int, earlier: int, len: int)
    requires
        spans_ok(spans, from, len),
        earlier <= from,
    ensures
        spans_ok(spans, earlier, len),
{
}

/// A run of prose written out, each bare address in it opened as a link that
/// leaves: text before it, the anchor, the address as text (so the renderer
/// escapes it), the closing tag, and the text after the last.
pub open spec fn spill_spans(t: Seq<char>, spans: Seq<(int, int)>, at: int) -> Seq<Piece>
    decreases spans.len(),
{
    if spans.len() == 0 {
        if at < t.len() { seq![Piece::Text(t.subrange(at, t.len() as int))] } else { Seq::empty() }
    } else {
        let (s, e) = spans[0];
        (if s > at { seq![Piece::Text(t.subrange(at, s))] } else { Seq::empty() })
            + seq![Piece::Html(leaving(t.subrange(s, e))), Piece::Text(t.subrange(s, e)), Piece::Html("</a>"@)]
            + spill_spans(t, spans.drop_first(), e)
    }
}

/// A gathered run of prose, written out with its bare addresses opened.
pub open spec fn spilled(t: Seq<char>) -> Seq<Piece> {
    if t.len() == 0 { Seq::empty() } else { spill_spans(t, bare_from(t, 0), 0) }
}

/// Writes a gathered run of prose out onto `out` and empties it.
fn spill(prose: &mut String, out: &mut Vec<Out>)
    ensures
        final(prose)@ == Seq::<char>::empty(),
        pieces(final(out)@) == pieces(old(out)@) + spilled(old(prose)@),
        final(out)@.len() >= old(out)@.len(),
        forall|k: int| 0 <= k < old(out)@.len() ==> final(out)@[k] == old(out)@[k],
        forall|k: int| old(out)@.len() <= k < final(out)@.len() ==> place(#[trigger] final(out)@[k]) is None,
{
    let t = chars_of(prose.as_str());
    if t.len() == 0 {
        *prose = String::new();
        assert(pieces(out@) =~= pieces(old(out)@) + spilled(old(prose)@));
        return;
    }
    let found = bare_urls(&t);
    proof { lemma_bare_ok(t@, 0); }
    let ghost start = out@;
    let mut at: usize = 0;
    let mut k: usize = 0;
    assert(spans(found@).subrange(0, found@.len() as int) =~= spans(found@));
    while k < found.len()
        invariant
            k <= found.len(),
            t@ == old(prose)@,
            t@.len() > 0,
            spans(found@) == bare_from(t@, 0),
            spans_ok(spans(found@).subrange(k as int, found@.len() as int), at as int, t@.len() as int),
            at <= t@.len(),
            pieces(out@) + spill_spans(t@, spans(found@).subrange(k as int, found@.len() as int), at as int)
                == pieces(start) + spill_spans(t@, spans(found@), 0),
            out@.len() >= start.len(),
            forall|j: int| 0 <= j < start.len() ==> out@[j] == start[j],
            forall|j: int| start.len() <= j < out@.len() ==> place(#[trigger] out@[j]) is None,
        decreases found.len() - k,
    {
        let ghost rest = spans(found@).subrange(k as int, found@.len() as int);
        let ghost before = out@;
        let ghost was = at as int;
        let (s, e) = found[k];
        assert(rest[0] == (s as int, e as int));
        assert(rest.drop_first() =~= spans(found@).subrange(k + 1, found@.len() as int));
        if s > at {
            out.push(Out::Text(string_of(&t, at, s)));
        }
        let url = string_of(&t, s, e);
        out.push(Out::Html(leaving_of(url.as_str())));
        out.push(Out::Text(url));
        out.push(Out::Html(owned("</a>")));
        at = e;
        k += 1;
        let ghost added = (if s as int > was { seq![Piece::Text(t@.subrange(was, s as int))] } else { Seq::empty() })
            + seq![Piece::Html(leaving(t@.subrange(s as int, e as int))), Piece::Text(t@.subrange(s as int, e as int)),
                Piece::Html("</a>"@)];
        assert(pieces(out@) =~= pieces(before) + added);
        assert(spill_spans(t@, rest, was) == added + spill_spans(t@, rest.drop_first(), e as int));
    }
    assert(spans(found@).subrange(0, found@.len() as int) =~= spans(found@));
    if at < t.len() {
        out.push(Out::Text(string_of(&t, at, t.len())));
    }
    *prose = String::new();
}

/// What has to be written when a link ends.
#[derive(Clone, Copy, PartialEq, Eq, Debug, Structural)]
pub enum Closing {
    Nothing,
    /// The renderer's own `</a>`.
    Rendered,
    /// A literal `</a>`, for an anchor this module wrote itself.
    Written,
}

/// Where the rewrite stands between two events: the links open (two stacks,
/// not a counter: an image's alt text may contain a link), the images open
/// (`true` for one whose own tags are dropped), whether inside a code block
/// (where an address is not a link), and the prose gathered so far.
pub struct State {
    pub links: Seq<Closing>,
    pub images: Seq<bool>,
    pub fenced: bool,
    pub prose: Seq<char>,
}

pub open spec fn start_state() -> State {
    State { links: Seq::empty(), images: Seq::empty(), fenced: false, prose: Seq::empty() }
}

/// A note link's anchor: given a class, so a reader can see before pressing
/// that it stays inside.
pub open spec fn note_anchor(url: Seq<char>) -> Seq<char> {
    "<a class=\"note\" href=\""@ + esc(url) + "\">"@
}

/// A link opening, routed.
pub open spec fn link_opened(st: State, i: nat, dest: Seq<char>, book: Seq<char>, notes: Seq<(String, String)>) -> (State, Seq<Piece>) {
    match route_of(dest, book, notes, false) {
        Way::Note(url) => (State { links: st.links.push(Closing::Written), ..st }, seq![Piece::Html(note_anchor(url))]),
        Way::To(url) => (State { links: st.links.push(Closing::Rendered), ..st }, seq![Piece::Keep(i, Some(url))]),
        Way::Away(url) => (State { links: st.links.push(Closing::Written), ..st }, seq![Piece::Html(leaving(url))]),
        Way::Nowhere => (State { links: st.links.push(Closing::Nothing), ..st }, Seq::empty()),
    }
}

/// A link closing, as it was opened.
pub open spec fn link_closed(st: State, i: nat) -> (State, Seq<Piece>) {
    if st.links.len() == 0 {
        (st, seq![Piece::Keep(i, None)])
    } else {
        let rest = State { links: st.links.drop_last(), ..st };
        match st.links.last() {
            Closing::Rendered => (rest, seq![Piece::Keep(i, None)]),
            Closing::Written => (rest, seq![Piece::Html("</a>"@)]),
            Closing::Nothing => (rest, Seq::empty()),
        }
    }
}

/// An image opening. Only the alt text is kept of one that leads nowhere or
/// to a note: `![x](a-note.md)` would display a page as a picture.
pub open spec fn image_opened(st: State, i: nat, dest: Seq<char>, book: Seq<char>, notes: Seq<(String, String)>) -> (State, Seq<Piece>) {
    match route_of(dest, book, notes, true) {
        Way::To(url) => (State { images: st.images.push(false), ..st }, seq![Piece::Keep(i, Some(url))]),
        Way::Away(url) => (State { images: st.images.push(false), ..st }, seq![Piece::Keep(i, Some(url))]),
        _ => (State { images: st.images.push(true), ..st }, Seq::empty()),
    }
}

/// An image closing: its tag stays unless its opening was dropped.
pub open spec fn image_closed(st: State, i: nat) -> (State, Seq<Piece>) {
    let dropped = st.images.len() > 0 && st.images.last();
    let rest = if st.images.len() > 0 { State { images: st.images.drop_last(), ..st } } else { st };
    (rest, if dropped { Seq::empty() } else { seq![Piece::Keep(i, None)] })
}

/// One event through the rewrite. Prose is gathered before it is scanned:
/// the parser splits text at every `_` or `*` it considered, which would cut
/// an address at its first underscore; any other event spills the run first.
pub open spec fn after(st: State, i: nat, e: Seen, book: Seq<char>, notes: Seq<(String, String)>) -> (State, Seq<Piece>) {
    if e is Text && st.links.len() == 0 && st.images.len() == 0 && !st.fenced {
        (State { prose: st.prose + e->Text_0, ..st }, Seq::empty())
    } else {
        let spill = spilled(st.prose);
        let st = State { prose: Seq::empty(), ..st };
        let (next, more) = match e {
            Seen::Open(html) => (State { fenced: true, ..st }, if html { seq![Piece::OpenCode("html"@)] } else { seq![Piece::Keep(i, None)] }),
            Seen::Close => (State { fenced: false, ..st }, seq![Piece::CloseCode]),
            Seen::Raw(inline, t) => (st, if inline { seq![Piece::Code(t)] } else { seq![Piece::Text(t)] }),
            Seen::Link(email, dest) => if email {
                (State { links: st.links.push(Closing::Rendered), ..st }, seq![Piece::Keep(i, None)])
            } else {
                link_opened(st, i, dest, book, notes)
            },
            Seen::EndLink => link_closed(st, i),
            Seen::Image(dest) => image_opened(st, i, dest, book, notes),
            Seen::EndImage => image_closed(st, i),
            _ => (st, seq![Piece::Keep(i, None)]),
        };
        (next, spill + more)
    }
}

/// The first `k` events through the rewrite.
pub open spec fn run(evs: Seq<Seen>, k: int, book: Seq<char>, notes: Seq<(String, String)>) -> (State, Seq<Piece>)
    decreases k,
{
    if k <= 0 {
        (start_state(), Seq::empty())
    } else {
        let (st, out) = run(evs, k - 1, book, notes);
        let (next, more) = after(st, (k - 1) as nat, evs[k - 1], book, notes);
        (next, out + more)
    }
}

/// The whole stream rewritten, the last run of prose spilled.
pub open spec fn rewritten(evs: Seq<Seen>, book: Seq<char>, notes: Seq<(String, String)>) -> Seq<Piece> {
    let (st, out) = run(evs, evs.len() as int, book, notes);
    out + spilled(st.prose)
}

/// The rewrite's state, as it runs.
pub struct Machine {
    pub links: Vec<Closing>,
    pub images: Vec<bool>,
    pub fenced: bool,
    pub prose: String,
}

pub open spec fn state(m: Machine) -> State {
    State { links: m.links@, images: m.images@, fenced: m.fenced, prose: m.prose@ }
}

/// The parser's event an element of the stream stands on, if any.
pub open spec fn place(o: Out) -> Option<nat> {
    match o {
        Out::Keep(i, _) => Some(i as nat),
        _ => None,
    }
}

/// Whether every parser's event that `out` names from `from` on is one
/// before `limit`.
pub open spec fn kept_before(out: Seq<Out>, from: int, limit: nat) -> bool {
    forall|k: int| from <= k < out.len() ==> (place(#[trigger] out[k]) matches Some(j) ==> j < limit)
}

fn push_piece(out: &mut Vec<Out>, o: Out)
    ensures
        final(out)@ == old(out)@.push(o),
        pieces(final(out)@) == pieces(old(out)@).push(piece(o)),
{
    out.push(o);
    assert(pieces(out@) =~= pieces(old(out)@).push(piece(o)));
}

fn opened_link(i: usize, dest: &str, around: &Around, m: &mut Machine, out: &mut Vec<Out>)
    ensures
        state(*final(m)) == link_opened(state(*old(m)), i as nat, dest@, around.book@, around.notes@).0,
        pieces(final(out)@) == pieces(old(out)@) + link_opened(state(*old(m)), i as nat, dest@, around.book@, around.notes@).1,
        final(out)@.len() >= old(out)@.len(),
        forall|k: int| 0 <= k < old(out)@.len() ==> final(out)@[k] == old(out)@[k],
        kept_before(final(out)@, old(out)@.len() as int, (i + 1) as nat),
{
    match route(dest, around, false) {
        Route::Note(url) => {
            m.links.push(Closing::Written);
            let mut anchor = owned("<a class=\"note\" href=\"");
            push_esc(&mut anchor, url.as_str());
            push_str(&mut anchor, "\">");
            push_piece(out, Out::Html(anchor));
        },
        Route::To(url) => {
            m.links.push(Closing::Rendered);
            push_piece(out, Out::Keep(i, Some(url)));
        },
        Route::Away(url) => {
            m.links.push(Closing::Written);
            push_piece(out, Out::Html(leaving_of(url.as_str())));
        },
        Route::Nowhere => {
            m.links.push(Closing::Nothing);
        },
    }
    assert(pieces(out@) =~= pieces(old(out)@) + link_opened(state(*old(m)), i as nat, dest@, around.book@, around.notes@).1);
}

fn closed_link(i: usize, m: &mut Machine, out: &mut Vec<Out>)
    ensures
        state(*final(m)) == link_closed(state(*old(m)), i as nat).0,
        pieces(final(out)@) == pieces(old(out)@) + link_closed(state(*old(m)), i as nat).1,
        final(out)@.len() >= old(out)@.len(),
        forall|k: int| 0 <= k < old(out)@.len() ==> final(out)@[k] == old(out)@[k],
        kept_before(final(out)@, old(out)@.len() as int, (i + 1) as nat),
{
    match m.links.pop() {
        None => push_piece(out, Out::Keep(i, None)),
        Some(Closing::Rendered) => push_piece(out, Out::Keep(i, None)),
        Some(Closing::Written) => push_piece(out, Out::Html(owned("</a>"))),
        Some(Closing::Nothing) => {},
    }
    assert(pieces(out@) =~= pieces(old(out)@) + link_closed(state(*old(m)), i as nat).1);
}

fn opened_image(i: usize, dest: &str, around: &Around, m: &mut Machine, out: &mut Vec<Out>)
    ensures
        state(*final(m)) == image_opened(state(*old(m)), i as nat, dest@, around.book@, around.notes@).0,
        pieces(final(out)@) == pieces(old(out)@) + image_opened(state(*old(m)), i as nat, dest@, around.book@, around.notes@).1,
        final(out)@.len() >= old(out)@.len(),
        forall|k: int| 0 <= k < old(out)@.len() ==> final(out)@[k] == old(out)@[k],
        kept_before(final(out)@, old(out)@.len() as int, (i + 1) as nat),
{
    match route(dest, around, true) {
        Route::To(url) => {
            m.images.push(false);
            push_piece(out, Out::Keep(i, Some(url)));
        },
        Route::Away(url) => {
            m.images.push(false);
            push_piece(out, Out::Keep(i, Some(url)));
        },
        _ => {
            m.images.push(true);
        },
    }
    assert(pieces(out@) =~= pieces(old(out)@) + image_opened(state(*old(m)), i as nat, dest@, around.book@, around.notes@).1);
}

fn closed_image(i: usize, m: &mut Machine, out: &mut Vec<Out>)
    ensures
        state(*final(m)) == image_closed(state(*old(m)), i as nat).0,
        pieces(final(out)@) == pieces(old(out)@) + image_closed(state(*old(m)), i as nat).1,
        final(out)@.len() >= old(out)@.len(),
        forall|k: int| 0 <= k < old(out)@.len() ==> final(out)@[k] == old(out)@[k],
        kept_before(final(out)@, old(out)@.len() as int, (i + 1) as nat),
{
    let dropped = match m.images.pop() {
        Some(d) => d,
        None => false,
    };
    if !dropped {
        push_piece(out, Out::Keep(i, None));
    }
    assert(pieces(out@) =~= pieces(old(out)@) + image_closed(state(*old(m)), i as nat).1);
}

/// One event through the rewrite, as `after` says.
fn advance(e: &Ev, i: usize, around: &Around, m: &mut Machine, out: &mut Vec<Out>)
    ensures
        state(*final(m)) == after(state(*old(m)), i as nat, seen(*e), around.book@, around.notes@).0,
        pieces(final(out)@) == pieces(old(out)@) + after(state(*old(m)), i as nat, seen(*e), around.book@, around.notes@).1,
        final(out)@.len() >= old(out)@.len(),
        forall|k: int| 0 <= k < old(out)@.len() ==> final(out)@[k] == old(out)@[k],
        kept_before(final(out)@, old(out)@.len() as int, (i + 1) as nat),
{
    let gather = match e {
        Ev::Text(_) => m.links.len() == 0 && m.images.len() == 0 && !m.fenced,
        _ => false,
    };
    if gather {
        match e {
            Ev::Text(t) => push_str(&mut m.prose, t.as_str()),
            _ => {},
        }
        assert(pieces(out@) =~= pieces(old(out)@) + Seq::<Piece>::empty());
        return;
    }
    spill(&mut m.prose, out);
    let ghost spilt = out@;
    let ghost st = state(*m);
    assert(st == State { prose: Seq::empty(), ..state(*old(m)) });
    match e {
        Ev::Open(html) => {
            m.fenced = true;
            if *html {
                push_piece(out, Out::OpenCode(owned("html")));
            } else {
                push_piece(out, Out::Keep(i, None));
            }
        },
        Ev::Close => {
            m.fenced = false;
            push_piece(out, Out::CloseCode);
        },
        Ev::Raw(inline, t) => {
            if *inline {
                push_piece(out, Out::Code(owned(t.as_str())));
            } else {
                push_piece(out, Out::Text(owned(t.as_str())));
            }
        },
        Ev::Link(email, dest) => {
            if *email {
                m.links.push(Closing::Rendered);
                push_piece(out, Out::Keep(i, None));
            } else {
                opened_link(i, dest.as_str(), around, m, out);
            }
        },
        Ev::EndLink => closed_link(i, m, out),
        Ev::Image(dest) => opened_image(i, dest.as_str(), around, m, out),
        Ev::EndImage => closed_image(i, m, out),
        _ => push_piece(out, Out::Keep(i, None)),
    }
    proof { reveal_strlit("html"); }
    assert(pieces(out@) =~= pieces(old(out)@) + after(state(*old(m)), i as nat, seen(*e), around.book@, around.notes@).1);
}

/// The parser's events rewritten for `around`: the stream the renderer is
/// handed, a kept event named by its place.
pub fn rewrite(evs: &Vec<Ev>, around: &Around) -> (r: Vec<Out>)
    ensures
        pieces(r@) == rewritten(evs@.map_values(|e: Ev| seen(e)), around.book@, around.notes@),
        kept_before(r@, 0, evs@.len()),
{
    let ghost seq = evs@.map_values(|e: Ev| seen(e));
    let mut m = Machine { links: Vec::new(), images: Vec::new(), fenced: false, prose: String::new() };
    let mut out: Vec<Out> = Vec::new();
    let mut i: usize = 0;
    assert(state(m) == start_state());
    assert(pieces(out@) =~= Seq::<Piece>::empty());
    while i < evs.len()
        invariant
            i <= evs@.len(),
            seq == evs@.map_values(|e: Ev| seen(e)),
            (state(m), pieces(out@)) == run(seq, i as int, around.book@, around.notes@),
            kept_before(out@, 0, i as nat),
        decreases evs.len() - i,
    {
        let ghost was = out@;
        advance(&evs[i], i, around, &mut m, &mut out);
        assert(seq[i as int] == seen(evs@[i as int]));
        assert forall|k: int| 0 <= k < out@.len() implies (place(#[trigger] out@[k]) matches Some(j) ==> j < i + 1) by {
            if k < was.len() {
                assert(out@[k] == was[k]);
            }
        }
        i += 1;
    }
    let ghost ran = out@;
    spill(&mut m.prose, &mut out);
    assert forall|k: int| 0 <= k < out@.len() implies (place(#[trigger] out@[k]) matches Some(j) ==> j < evs@.len()) by {
        if k < ran.len() {
            assert(out@[k] == ran[k]);
        }
    }
    out
}

/// `markdown`, rendered: parsed, the events rewritten for `around`, and the
/// result written as HTML.
pub fn body(markdown: &str, around: &Around) -> (r: String)
    ensures
        r@ == rendered(markdown@, rewritten(parsed(markdown@), around.book@, around.notes@)),
{
    let evs = events(parse(markdown));
    let stream = rewrite(&evs, around);
    render(parse(markdown), stream)
}


/// Markup this module writes itself: a note's anchor, an anchor that leaves,
/// and the tag that closes either.
pub open spec fn ours(h: Seq<char>) -> bool {
    ||| h == "</a>"@
    ||| exists|u: Seq<char>| h == #[trigger] note_anchor(u)
    ||| exists|u: Seq<char>| h == #[trigger] leaving(u)
}

/// A rewritten event that cannot carry the note's own HTML: a kept event that
/// was neither raw HTML nor the opening of an HTML block, or markup of ours.
pub open spec fn harmless(p: Piece, evs: Seq<Seen>) -> bool {
    match p {
        Piece::Keep(i, _) => i < evs.len() && !(evs[i as int] is Raw) && evs[i as int] != Seen::Open(true),
        Piece::Html(h) => ours(h),
        _ => true,
    }
}

pub open spec fn all_harmless(ps: Seq<Piece>, evs: Seq<Seen>) -> bool {
    forall|k: int| 0 <= k < ps.len() ==> harmless(#[trigger] ps[k], evs)
}

proof fn lemma_joined(a: Seq<Piece>, b: Seq<Piece>, evs: Seq<Seen>)
    requires
        all_harmless(a, evs),
        all_harmless(b, evs),
    ensures
        all_harmless(a + b, evs),
{
    assert forall|k: int| 0 <= k < (a + b).len() implies harmless(#[trigger] (a + b)[k], evs) by {
        if k < a.len() {
            assert((a + b)[k] == a[k]);
        } else {
            assert((a + b)[k] == b[k - a.len()]);
        }
    }
}

proof fn lemma_spill_harmless(t: Seq<char>, spans: Seq<(int, int)>, at: int, evs: Seq<Seen>)
    ensures
        all_harmless(spill_spans(t, spans, at), evs),
    decreases spans.len(),
{
    if spans.len() > 0 {
        let (s, e) = spans[0];
        let url = t.subrange(s, e);
        lemma_spill_harmless(t, spans.drop_first(), e, evs);
        let front: Seq<Piece> = if s > at { seq![Piece::Text(t.subrange(at, s))] } else { Seq::empty() };
        let mid = seq![Piece::Html(leaving(url)), Piece::Text(url), Piece::Html("</a>"@)];
        assert(ours(leaving(url)));
        assert(all_harmless(mid, evs)) by {
            assert forall|k: int| 0 <= k < mid.len() implies harmless(#[trigger] mid[k], evs) by {
                if k == 0 {
                    assert(ours(leaving(url)));
                }
            }
        }
        assert(all_harmless(front, evs));
        lemma_joined(front, mid, evs);
        lemma_joined(front + mid, spill_spans(t, spans.drop_first(), e), evs);
    }
}

proof fn lemma_spilled_harmless(t: Seq<char>, evs: Seq<Seen>)
    ensures
        all_harmless(spilled(t), evs),
{
    if t.len() > 0 {
        lemma_spill_harmless(t, bare_from(t, 0), 0, evs);
    }
}

proof fn lemma_after_harmless(st: State, i: nat, evs: Seq<Seen>, book: Seq<char>, notes: Seq<(String, String)>)
    requires
        i < evs.len(),
    ensures
        all_harmless(after(st, i, evs[i as int], book, notes).1, evs),
{
    let e = evs[i as int];
    if !(e is Text && st.links.len() == 0 && st.images.len() == 0 && !st.fenced) {
        lemma_spilled_harmless(st.prose, evs);
        let cleared = State { prose: Seq::empty(), ..st };
        let more: Seq<Piece> = match e {
            Seen::Open(html) => if html { seq![Piece::OpenCode("html"@)] } else { seq![Piece::Keep(i, None)] },
            Seen::Close => seq![Piece::CloseCode],
            Seen::Raw(inline, t) => if inline { seq![Piece::Code(t)] } else { seq![Piece::Text(t)] },
            Seen::Link(email, dest) => if email {
                seq![Piece::Keep(i, None)]
            } else {
                link_opened(cleared, i, dest, book, notes).1
            },
            Seen::EndLink => link_closed(cleared, i).1,
            Seen::Image(dest) => image_opened(cleared, i, dest, book, notes).1,
            Seen::EndImage => image_closed(cleared, i).1,
            _ => seq![Piece::Keep(i, None)],
        };
        assert(after(st, i, e, book, notes).1 == spilled(st.prose) + more);
        match e {
            Seen::Link(email, dest) => if !email {
                match route_of(dest, book, notes, false) {
                    Way::Note(url) => assert(ours(note_anchor(url))),
                    Way::Away(url) => assert(ours(leaving(url))),
                    _ => {},
                }
            },
            _ => {},
        }
        assert(all_harmless(more, evs));
        lemma_joined(spilled(st.prose), more, evs);
    }
}

proof fn lemma_run_harmless(evs: Seq<Seen>, k: int, book: Seq<char>, notes: Seq<(String, String)>)
    requires
        0 <= k <= evs.len(),
    ensures
        all_harmless(run(evs, k, book, notes).1, evs),
    decreases k,
{
    if k > 0 {
        lemma_run_harmless(evs, k - 1, book, notes);
        let (st, out) = run(evs, k - 1, book, notes);
        lemma_after_harmless(st, (k - 1) as nat, evs, book, notes);
        lemma_joined(out, after(st, (k - 1) as nat, evs[k - 1], book, notes).1, evs);
    }
}

/// The note's own HTML never reaches the page as markup: every event handed
/// to the renderer is either one the parser made that was not raw HTML nor an
/// HTML block's opening, or markup this module wrote (an anchor into a note,
/// one that leaves, or `</a>`), or text and code the renderer escapes.
pub proof fn raw_html_never_reaches_the_page_as_markup(evs: Seq<Seen>, book: Seq<char>, notes: Seq<(String, String)>)
    ensures
        all_harmless(rewritten(evs, book, notes), evs),
{
    lemma_run_harmless(evs, evs.len() as int, book, notes);
    let (st, out) = run(evs, evs.len() as int, book, notes);
    lemma_spilled_harmless(st.prose, evs);
    lemma_joined(out, spilled(st.prose), evs);
}


/// How many links are open after the first `k` events, by the parser's own
/// count of openings and closings.
pub open spec fn depth(evs: Seq<Seen>, k: int) -> int
    decreases k,
{
    if k <= 0 {
        0
    } else {
        depth(evs, k - 1) + if evs[k - 1] is Link { 1int } else if evs[k - 1] is EndLink { -1int } else { 0int }
    }
}

/// Every link the parser opens it closes, and never closes one it did not
/// open: what the parser's events always are.
pub open spec fn balanced(evs: Seq<Seen>) -> bool {
    &&& forall|k: int| 0 <= k <= evs.len() ==> #[trigger] depth(evs, k) >= 0
    &&& depth(evs, evs.len() as int) == 0
}

/// How many anchors of ours a stream opens.
pub open spec fn anchors(ps: Seq<Piece>) -> int
    decreases ps.len(),
{
    if ps.len() == 0 {
        0
    } else {
        anchors(ps.drop_last()) + if ps.last() is Html && ps.last()->Html_0 != "</a>"@ { 1int } else { 0int }
    }
}

/// How many `</a>` a stream writes as markup of its own.
pub open spec fn closings(ps: Seq<Piece>) -> int
    decreases ps.len(),
{
    if ps.len() == 0 {
        0
    } else {
        closings(ps.drop_last()) + if ps.last() == Piece::Html("</a>"@) { 1int } else { 0int }
    }
}

/// How many open links were opened by an anchor of ours.
pub open spec fn written(links: Seq<Closing>) -> int
    decreases links.len(),
{
    if links.len() == 0 {
        0
    } else {
        written(links.drop_last()) + if links.last() == Closing::Written { 1int } else { 0int }
    }
}

proof fn lemma_counts_join(a: Seq<Piece>, b: Seq<Piece>)
    ensures
        anchors(a + b) == anchors(a) + anchors(b),
        closings(a + b) == closings(a) + closings(b),
    decreases b.len(),
{
    if b.len() == 0 {
        assert(a + b =~= a);
    } else {
        lemma_counts_join(a, b.drop_last());
        assert((a + b).drop_last() =~= a + b.drop_last());
        assert((a + b).last() == b.last());
    }
}

proof fn lemma_two(x: Piece, y: Piece)
    ensures
        anchors(seq![x, y]) == anchors(seq![x]) + anchors(seq![y]),
        closings(seq![x, y]) == closings(seq![x]) + closings(seq![y]),
{
    lemma_counts_join(seq![x], seq![y]);
    assert(seq![x] + seq![y] =~= seq![x, y]);
}

proof fn lemma_one(x: Piece)
    ensures
        anchors(seq![x]) == if x is Html && x->Html_0 != "</a>"@ { 1int } else { 0int },
        closings(seq![x]) == if x == Piece::Html("</a>"@) { 1int } else { 0int },
{
    assert(seq![x].drop_last() =~= Seq::<Piece>::empty());
    assert(seq![x].last() == x);
    assert(anchors(Seq::<Piece>::empty()) == 0);
    assert(closings(Seq::<Piece>::empty()) == 0);
}

proof fn lemma_ours_are_not_closings(url: Seq<char>)
    ensures
        note_anchor(url) != "</a>"@,
        leaving(url) != "</a>"@,
{
    reveal_strlit("</a>");
    reveal_strlit("<a class=\"note\" href=\"");
    reveal_strlit("<a href=\"");
    assert(note_anchor(url).len() != 4 || note_anchor(url)[1] != '/') by {
        assert(note_anchor(url)[1] == "<a class=\"note\" href=\""@[1]);
    }
    assert(leaving(url).len() != 4 || leaving(url)[1] != '/') by {
        assert(leaving(url)[1] == "<a href=\""@[1]);
    }
}

proof fn lemma_spill_balances(t: Seq<char>, spans: Seq<(int, int)>, at: int)
    ensures
        anchors(spill_spans(t, spans, at)) == closings(spill_spans(t, spans, at)),
    decreases spans.len(),
{
    reveal_strlit("</a>");
    if spans.len() == 0 {
        if at < t.len() {
            lemma_one(Piece::Text(t.subrange(at, t.len() as int)));
        }
    } else {
        let (s, e) = spans[0];
        let url = t.subrange(s, e);
        lemma_spill_balances(t, spans.drop_first(), e);
        let front: Seq<Piece> = if s > at { seq![Piece::Text(t.subrange(at, s))] } else { Seq::empty() };
        let mid = seq![Piece::Html(leaving(url)), Piece::Text(url), Piece::Html("</a>"@)];
        lemma_ours_are_not_closings(url);
        lemma_one(Piece::Html(leaving(url)));
        lemma_one(Piece::Text(url));
        lemma_one(Piece::Html("</a>"@));
        lemma_counts_join(seq![Piece::Html(leaving(url))], seq![Piece::Text(url), Piece::Html("</a>"@)]);
        lemma_two(Piece::Text(url), Piece::Html("</a>"@));
        assert(seq![Piece::Html(leaving(url))] + seq![Piece::Text(url), Piece::Html("</a>"@)] =~= mid);
        if s > at {
            lemma_one(Piece::Text(t.subrange(at, s)));
        }
        lemma_counts_join(front, mid);
        lemma_counts_join(front + mid, spill_spans(t, spans.drop_first(), e));
    }
}

proof fn lemma_spilled_balances(t: Seq<char>)
    ensures
        anchors(spilled(t)) == closings(spilled(t)),
{
    if t.len() > 0 {
        lemma_spill_balances(t, bare_from(t, 0), 0);
    }
}

proof fn lemma_written_push(links: Seq<Closing>, c: Closing)
    ensures
        written(links.push(c)) == written(links) + if c == Closing::Written { 1int } else { 0int },
{
    assert(links.push(c).drop_last() =~= links);
}

proof fn lemma_after_balances(st: State, i: nat, evs: Seq<Seen>, book: Seq<char>, notes: Seq<(String, String)>)
    requires
        i < evs.len(),
        evs[i as int] is EndLink ==> st.links.len() > 0,
    ensures
        ({
            let (next, more) = after(st, i, evs[i as int], book, notes);
            &&& anchors(more) - closings(more) == written(next.links) - written(st.links)
            &&& next.links.len() == st.links.len() + if evs[i as int] is Link { 1int } else if evs[i as int] is EndLink { -1int } else { 0int }
        }),
{
    let e = evs[i as int];
    reveal_strlit("</a>");
    if e is Text && st.links.len() == 0 && st.images.len() == 0 && !st.fenced {
        assert(anchors(Seq::<Piece>::empty()) == 0);
        assert(closings(Seq::<Piece>::empty()) == 0);
    } else {
        lemma_spilled_balances(st.prose);
        let cleared = State { prose: Seq::empty(), ..st };
        let (next, more) = match e {
            Seen::Open(html) => (State { fenced: true, ..cleared }, if html { seq![Piece::OpenCode("html"@)] } else { seq![Piece::Keep(i, None)] }),
            Seen::Close => (State { fenced: false, ..cleared }, seq![Piece::CloseCode]),
            Seen::Raw(inline, t) => (cleared, if inline { seq![Piece::Code(t)] } else { seq![Piece::Text(t)] }),
            Seen::Link(email, dest) => if email {
                (State { links: cleared.links.push(Closing::Rendered), ..cleared }, seq![Piece::Keep(i, None)])
            } else {
                link_opened(cleared, i, dest, book, notes)
            },
            Seen::EndLink => link_closed(cleared, i),
            Seen::Image(dest) => image_opened(cleared, i, dest, book, notes),
            Seen::EndImage => image_closed(cleared, i),
            _ => (cleared, seq![Piece::Keep(i, None)]),
        };
        assert(after(st, i, e, book, notes) == (next, spilled(st.prose) + more));
        lemma_counts_join(spilled(st.prose), more);
        match e {
            Seen::Open(html) => {
                if html { lemma_one(Piece::OpenCode("html"@)); } else { lemma_one(Piece::Keep(i, None)); }
            },
            Seen::Close => lemma_one(Piece::CloseCode),
            Seen::Raw(inline, t) => {
                if inline { lemma_one(Piece::Code(t)); } else { lemma_one(Piece::Text(t)); }
            },
            Seen::Link(email, dest) => {
                if email {
                    lemma_one(Piece::Keep(i, None));
                    lemma_written_push(st.links, Closing::Rendered);
                } else {
                    match route_of(dest, book, notes, false) {
                        Way::Note(url) => {
                            lemma_ours_are_not_closings(url);
                            lemma_one(Piece::Html(note_anchor(url)));
                            lemma_written_push(st.links, Closing::Written);
                        },
                        Way::To(url) => {
                            lemma_one(Piece::Keep(i, Some(url)));
                            lemma_written_push(st.links, Closing::Rendered);
                        },
                        Way::Away(url) => {
                            lemma_ours_are_not_closings(url);
                            lemma_one(Piece::Html(leaving(url)));
                            lemma_written_push(st.links, Closing::Written);
                        },
                        Way::Nowhere => {
                            lemma_written_push(st.links, Closing::Nothing);
                            assert(anchors(Seq::<Piece>::empty()) == 0);
                            assert(closings(Seq::<Piece>::empty()) == 0);
                        },
                    }
                }
            },
            Seen::EndLink => {
                let last = st.links.last();
                lemma_written_push(st.links.drop_last(), last);
                assert(st.links.drop_last().push(last) =~= st.links);
                match last {
                    Closing::Rendered => lemma_one(Piece::Keep(i, None)),
                    Closing::Written => lemma_one(Piece::Html("</a>"@)),
                    Closing::Nothing => {
                        assert(anchors(Seq::<Piece>::empty()) == 0);
                        assert(closings(Seq::<Piece>::empty()) == 0);
                    },
                }
            },
            Seen::Image(dest) => {
                match route_of(dest, book, notes, true) {
                    Way::To(url) => lemma_one(Piece::Keep(i, Some(url))),
                    Way::Away(url) => lemma_one(Piece::Keep(i, Some(url))),
                    _ => {
                        assert(anchors(Seq::<Piece>::empty()) == 0);
                        assert(closings(Seq::<Piece>::empty()) == 0);
                    },
                }
            },
            Seen::EndImage => {
                if st.images.len() > 0 && st.images.last() {
                    assert(anchors(Seq::<Piece>::empty()) == 0);
                    assert(closings(Seq::<Piece>::empty()) == 0);
                } else {
                    lemma_one(Piece::Keep(i, None));
                }
            },
            _ => lemma_one(Piece::Keep(i, None)),
        }
    }
}

proof fn lemma_run_balances(evs: Seq<Seen>, k: int, book: Seq<char>, notes: Seq<(String, String)>)
    requires
        0 <= k <= evs.len(),
        forall|j: int| 0 <= j <= evs.len() ==> #[trigger] depth(evs, j) >= 0,
    ensures
        ({
            let (st, out) = run(evs, k, book, notes);
            &&& st.links.len() == depth(evs, k)
            &&& anchors(out) - closings(out) == written(st.links)
        }),
    decreases k,
{
    if k == 0 {
        assert(anchors(Seq::<Piece>::empty()) == 0);
        assert(closings(Seq::<Piece>::empty()) == 0);
        assert(written(Seq::<Closing>::empty()) == 0);
    } else {
        lemma_run_balances(evs, k - 1, book, notes);
        let (st, out) = run(evs, k - 1, book, notes);
        assert(depth(evs, k) >= 0);
        lemma_after_balances(st, (k - 1) as nat, evs, book, notes);
        lemma_counts_join(out, after(st, (k - 1) as nat, evs[k - 1], book, notes).1);
    }
}

/// Every anchor the rewrite writes by hand (into a note, or one that leaves,
/// written or bare) is closed by a `</a>` of its own, and no `</a>` is
/// written without one: the anchors balance wherever the parser's links do.
pub proof fn the_anchors_written_by_hand_balance(evs: Seq<Seen>, book: Seq<char>, notes: Seq<(String, String)>)
    requires
        balanced(evs),
    ensures
        anchors(rewritten(evs, book, notes)) == closings(rewritten(evs, book, notes)),
{
    lemma_run_balances(evs, evs.len() as int, book, notes);
    let (st, out) = run(evs, evs.len() as int, book, notes);
    assert(st.links.len() == 0);
    assert(st.links =~= Seq::<Closing>::empty());
    lemma_spilled_balances(st.prose);
    lemma_counts_join(out, spilled(st.prose));
}

} // verus!
