//! The HTML, and nothing else.
//!
//! Every function takes what a page is about and returns a string; nothing opens
//! a repository, binds a socket or knows what a request is, so a page is tested
//! without either.
//!
//! Machinery — ids, filenames, tags, stamps — is set in monospace and the
//! reader's own words in a text face: the line the palette draws with colour.
//!
//! No JavaScript required: the search field is a form and every row is a link.
//! Filtering as you type is an enhancement, never a replacement.

#![verifier::spinoff_prover]
#![verifier::rlimit(30)]

use vstd::prelude::*;

use crate::note::NoteFile;
use crate::sort::Sort;
use crate::text::{
    contains, lemma_contains_middle, lemma_contains_within,
    chars_of, decimal, decimal_of, find_from, first_from, lemma_views_push, lowercase, occurs_at, owned,
    push_str, to_lower, views,
};
use crate::web::asset::{tag_of, Asset};
use crate::web::{encoded, percent, utf8};
use crate::web::markup::day;
use crate::web::markup::day_of;
use crate::sort::sort_name;
use crate::text::starts_with;
use crate::web::layout::{css, CSS_1, CSS_2, CSS_3, CSS_4, CSS_5, CSS_6, CSS_7};
use crate::web::markup::{
    esc, join, lemma_texts_prefix, lemma_texts_push, plural, push_count, push_esc, push_esc_range, push_joined, push_plural,
    texts,
};

verus! {

/// `noda status` compressed to a row. Every field but `last` is already in
/// the notebook's status, and `last` is one commit read.
pub struct Book {
    pub name: String,
    pub notes: usize,
    /// Shown only when non-zero, as `noda status` prints it.
    pub files: usize,
    pub uncommitted: usize,
    /// Already in words. `None` means no remote, and the cell is then not a link.
    pub drift: Option<String>,
    /// The one `noda notebook ls` marks with `*`.
    pub active: bool,
    /// The day of its last commit, already rendered.
    pub last: String,
}

/// `ls -l`'s row in `ls -l`'s order — id, title, day, tags — minus the slug and
/// the created stamp, which are on the note's own page.
pub struct Row {
    pub id: String,
    pub title: String,
    pub tags: Vec<String>,
    /// The stamp the listing is sorted by (`created` for `created`, otherwise
    /// `updated`); a column of days in no order beside a sorted list reads as a
    /// broken sort.
    pub stamp: Option<String>,
    /// Rows a query excludes arrive `hidden` rather than left out, because a
    /// script cannot put back a row the server never sent.
    pub shown: bool,
    /// Explains a row above one with a newer stamp.
    pub pinned: bool,
}

/// A file the notebook holds that is not a note, as the files page lists it.
pub struct Held {
    pub name: String,
    pub size: u64,
    /// The same type the download is served with.
    pub kind: String,
    /// How many notes link to it. Zero is what `doctor --links` calls an orphan.
    pub used: usize,
}

/// One tag, and how many notes carry it.
pub struct Tally {
    pub tag: String,
    pub notes: usize,
}

/// A todo item, named by its note's title; the id is the address.
pub struct Task {
    pub id: String,
    pub title: String,
    /// The item's words with the `due:` term already lifted out.
    pub text: String,
    pub due: Option<String>,
    /// Against the reader's day, which only the server knows.
    pub overdue: bool,
}

/// What a backlinks page is about: a note, or one of the notebook's files.
pub struct Subject {
    /// A note's title or a file's name.
    pub what: String,
    /// Where it is, for the way back.
    pub at: String,
    /// A filename is set in monospace, a title never is.
    pub mono: bool,
}

/// A note, as its own page shows it.
pub struct Reading {
    pub id: String,
    pub slug: String,
    pub title: String,
    pub tags: Vec<String>,
    pub created: Option<String>,
    pub updated: Option<String>,
    /// **Already HTML**, from `render::body` — the one string these pages
    /// write out unescaped, hence not called `body`.
    pub rendered: String,
    /// Which way the bar's pin item goes.
    pub pinned: bool,
}

pub open spec fn opt_text(s: Option<String>) -> Option<Seq<char>> {
    match s {
        Some(s) => Some(s@),
        None => None,
    }
}

pub open spec fn opt_str(s: Option<&str>) -> Option<Seq<char>> {
    match s {
        Some(s) => Some(s@),
        None => None,
    }
}

fn copy_opt(s: &Option<String>) -> (r: Option<String>)
    ensures
        opt_text(r) == opt_text(*s),
{
    match s {
        Some(s) => Some(s.clone()),
        None => None,
    }
}

fn copy_strings(v: &Vec<String>) -> (r: Vec<String>)
    ensures
        texts(r@) == texts(v@),
{
    let mut out: Vec<String> = Vec::new();
    let mut i: usize = 0;
    while i < v.len()
        invariant
            i <= v.len(),
            texts(out@) == texts(v@).subrange(0, i as int),
        decreases v.len() - i,
    {
        let c = v[i].clone();
        proof {
            lemma_texts_push(out@, c);
            lemma_texts_prefix(v@, i as int);
        }
        out.push(c);
        i += 1;
    }
    assert(texts(v@).subrange(0, v@.len() as int) =~= texts(v@));
    out
}

impl Row {
    /// `by` decides only the stamp. A page that is not a listing passes the
    /// default order and gets `updated`.
    pub fn of(file: &NoteFile, by: Sort) -> (r: Row)
        ensures
            r.id@ == file.id@,
            r.title@ == file.note.title@,
            texts(r.tags@) == texts(file.note.tags@),
            opt_text(r.stamp) == (if by == Sort::Created { opt_text(file.note.created) } else {
                opt_text(file.note.updated)
            }),
            r.shown,
            r.pinned == (file.note.pinned == Some(true)),
    {
        Row {
            id: file.id.clone(),
            title: file.note.title.clone(),
            tags: copy_strings(&file.note.tags),
            stamp: match by {
                Sort::Created => copy_opt(&file.note.created),
                Sort::Slug | Sort::Updated | Sort::Title => copy_opt(&file.note.updated),
            },
            shown: true,
            pinned: file.note.is_pinned(),
        }
    }
}

/// Hand-written: five characters, so the one place escaping happens reads in
/// one screen.
pub fn escape(text: &str) -> (r: String)
    ensures
        r@ == esc(text@),
{
    let mut out = String::new();
    push_esc(&mut out, text);
    out
}

/// Where `term` first stands in `hay` at or after `at`, and how long it is.
#[verifier::opaque]
pub open spec fn candidate(hay: Seq<char>, term: Seq<char>, at: int) -> Option<(int, int)> {
    if term.len() == 0 {
        None
    } else {
        match first_from(hay, term, at) {
            Some(p) => Some((p, term.len() as int)),
            None => None,
        }
    }
}

/// Earliest, then longest: overlapping terms mark one run rather than nesting.
pub open spec fn better(a: (int, int), b: (int, int)) -> bool {
    a.0 < b.0 || (a.0 == b.0 && a.1 > b.1)
}

/// The run to mark next, the first of the best kept on a tie.
pub open spec fn best(hay: Seq<char>, terms: Seq<Seq<char>>, at: int) -> Option<(int, int)>
    decreases terms.len(),
{
    if terms.len() == 0 {
        None
    } else {
        combine(best(hay, terms.drop_last(), at), candidate(hay, terms.last(), at))
    }
}

/// The better of two runs, the first kept on a tie.
pub open spec fn combine(prev: Option<(int, int)>, next: Option<(int, int)>) -> Option<(int, int)> {
    match (prev, next) {
        (None, n) => n,
        (p, None) => p,
        (Some(p), Some(n)) => if better(n, p) { Some(n) } else { Some(p) },
    }
}

pub open spec fn as_ints(o: Option<(usize, usize)>) -> Option<(int, int)> {
    match o {
        Some((p, l)) => Some((p as int, l as int)),
        None => None,
    }
}

/// `text` from `at` on, escaped, with each run `best` finds in `hay` marked.
#[verifier::opaque]
pub open spec fn marked(text: Seq<char>, hay: Seq<char>, terms: Seq<Seq<char>>, at: int) -> Seq<char>
    decreases text.len() - at,
{
    if at < 0 || at >= text.len() {
        Seq::empty()
    } else {
        match best(hay, terms, at) {
            Some((start, length)) => if at <= start && 1 <= length && start + length <= text.len() {
                esc(text.subrange(at, start)) + "<mark>"@ + esc(text.subrange(start, start + length))
                    + "</mark>"@ + marked(text, hay, terms, start + length)
            } else {
                esc(text.subrange(at, text.len() as int))
            },
            None => esc(text.subrange(at, text.len() as int)),
        }
    }
}

/// `text`, escaped, with every run matching one of `terms` (found in the
/// lowered text) in `<mark>`.
///
/// Matched before escaping and escaped as the pieces are cut: escaping first
/// would search `&amp;` for `&`.
pub open spec fn highlighted(text: Seq<char>, terms: Seq<Seq<char>>) -> Seq<char> {
    if terms.len() == 0 {
        esc(text)
    } else {
        marked(text, lowercase(text), terms, 0)
    }
}

proof fn lemma_best_bounds(hay: Seq<char>, terms: Seq<Seq<char>>, at: int)
    ensures
        best(hay, terms, at) matches Some((p, l)) ==> at <= p && l >= 1,
    decreases terms.len(),
{
    if terms.len() > 0 {
        lemma_best_bounds(hay, terms.drop_last(), at);
        crate::text::lemma_first_from(hay, terms.last(), at);
        reveal(candidate);
    }
}

/// Where `term` first stands in `hay` from `at`, with its length; nothing
/// for an empty term.
fn candidate_of(hay: &Vec<char>, term: &Vec<char>, at: usize) -> (r: Option<(usize, usize)>)
    ensures
        as_ints(r) == candidate(hay@, term@, at as int),
{
    reveal(candidate);
    if term.len() == 0 {
        return None;
    }
    match find_from(hay, term, at) {
        Some(p) => {
            proof { crate::text::lemma_first_is(hay@, term@, at as int, p as int); }
            Some((p, term.len()))
        },
        None => {
            proof { crate::text::lemma_first_none(hay@, term@, at as int); }
            None
        },
    }
}

fn combine_of(prev: Option<(usize, usize)>, next: Option<(usize, usize)>) -> (r: Option<(usize, usize)>)
    ensures
        as_ints(r) == combine(as_ints(prev), as_ints(next)),
{
    match (prev, next) {
        (None, n) => n,
        (p, None) => p,
        (Some((q, l)), Some((p, m))) => if p < q || (p == q && m > l) {
            Some((p, m))
        } else {
            Some((q, l))
        },
    }
}

proof fn lemma_best_prefix(hay: Seq<char>, terms: Seq<Seq<char>>, at: int, i: int)
    requires
        0 <= i < terms.len(),
    ensures
        best(hay, terms.subrange(0, i + 1), at)
            == combine(best(hay, terms.subrange(0, i), at), candidate(hay, terms[i], at)),
{
    let ts = terms.subrange(0, i + 1);
    assert(ts.drop_last() =~= terms.subrange(0, i));
}

/// The best run among all of `terms`, each looked for in `hay` from `at`.
fn best_of(hay: &Vec<char>, terms: &Vec<Vec<char>>, at: usize) -> (r: Option<(usize, usize)>)
    ensures
        as_ints(r) == best(hay@, views(terms@), at as int),
{
    let mut out: Option<(usize, usize)> = None;
    let mut i: usize = 0;
    while i < terms.len()
        invariant
            i <= terms.len(),
            as_ints(out) == best(hay@, views(terms@).subrange(0, i as int), at as int),
        decreases terms.len() - i,
    {
        let next = candidate_of(hay, &terms[i], at);
        proof {
            lemma_best_prefix(hay@, views(terms@), at as int, i as int);
        }
        out = combine_of(out, next);
        i += 1;
    }
    assert(views(terms@).subrange(0, terms@.len() as int) =~= views(terms@));
    out
}

fn chars_of_all(terms: &[String]) -> (r: Vec<Vec<char>>)
    ensures
        views(r@) == texts(terms@),
{
    let mut out: Vec<Vec<char>> = Vec::new();
    let mut i: usize = 0;
    while i < terms.len()
        invariant
            i <= terms.len(),
            views(out@) == texts(terms@).subrange(0, i as int),
        decreases terms.len() - i,
    {
        let c = chars_of(terms[i].as_str());
        proof {
            lemma_views_push(out@, c);
            lemma_texts_prefix(terms@, i as int);
        }
        out.push(c);
        i += 1;
    }
    assert(texts(terms@).subrange(0, terms@.len() as int) =~= texts(terms@));
    out
}

proof fn lemma_marked_run(text: Seq<char>, hay: Seq<char>, terms: Seq<Seq<char>>, at: int, start: int, length: int)
    requires
        0 <= at < text.len(),
        best(hay, terms, at) == Some((start, length)),
        at <= start,
        1 <= length,
        start + length <= text.len(),
    ensures
        marked(text, hay, terms, at) == esc(text.subrange(at, start)) + "<mark>"@
            + esc(text.subrange(start, start + length)) + "</mark>"@
            + marked(text, hay, terms, start + length),
{
    reveal(marked);
}

proof fn lemma_marked_end(text: Seq<char>, hay: Seq<char>, terms: Seq<Seq<char>>, at: int)
    requires
        at >= text.len(),
    ensures
        marked(text, hay, terms, at) == Seq::<char>::empty(),
{
    reveal(marked);
}

proof fn lemma_marked_tail(text: Seq<char>, hay: Seq<char>, terms: Seq<Seq<char>>, at: int)
    requires
        0 <= at < text.len(),
        !(best(hay, terms, at) matches Some((start, length)) && at <= start && 1 <= length
            && start + length <= text.len()),
    ensures
        marked(text, hay, terms, at) == esc(text.subrange(at, text.len() as int)),
{
    reveal(marked);
}

pub fn highlight(text: &str, terms: &[String]) -> (r: String)
    ensures
        r@ == highlighted(text@, texts(terms@)),
{
    if terms.len() == 0 {
        return escape(text);
    }
    let t = chars_of(text);
    let lowered = to_lower(text);
    let hay = chars_of(lowered.as_str());
    let wanted = chars_of_all(terms);
    let mut out = String::new();
    let mut at: usize = 0;
    let ghost ts = texts(terms@);
    let ghost whole = marked(t@, hay@, ts, 0);
    assert(whole == highlighted(text@, ts));
    while at < t.len()
        invariant
            t@ == text@,
            hay@ == lowercase(text@),
            views(wanted@) == ts,
            at <= t.len(),
            out@ + marked(t@, hay@, ts, at as int) == whole,
            whole == highlighted(text@, ts),
            ts == texts(terms@),
        decreases t.len() - at,
    {
        let found = best_of(&hay, &wanted, at);
        let ghost before = out@;
        match found {
            Some((start, length)) => {
                if start >= at && length >= 1 && length <= t.len() && start <= t.len() - length {
                    proof {
                        lemma_marked_run(t@, hay@, ts, at as int, start as int, length as int);
                    }
                    let ghost here = marked(t@, hay@, ts, at as int);
                    let ghost next = marked(t@, hay@, ts, (start + length) as int);
                    push_esc_range(&mut out, &t, at, start);
                    push_str(&mut out, "<mark>");
                    push_esc_range(&mut out, &t, start, start + length);
                    push_str(&mut out, "</mark>");
                    at = start + length;
                    assert(out@ + next =~= before + here);
                } else {
                    proof { lemma_marked_tail(t@, hay@, ts, at as int); }
                    push_esc_range(&mut out, &t, at, t.len());
                    assert(out@ =~= whole);
                    return out;
                }
            },
            None => {
                proof { lemma_marked_tail(t@, hay@, ts, at as int); }
                push_esc_range(&mut out, &t, at, t.len());
                assert(out@ =~= whole);
                return out;
            },
        }
    }
    proof {
        lemma_marked_end(t@, hay@, ts, at as int);
    }
    assert(out@ =~= whole);
    out
}

/// A tag list, comma-joined as the CLI prints it but without the brackets: a
/// page separates things by position.
pub open spec fn tag_line(tags: Seq<Seq<char>>) -> Seq<char> {
    if tags.len() == 0 {
        Seq::empty()
    } else {
        "<span class=\"tags\">"@ + esc(join(tags, ", "@)) + "</span>"@
    }
}

fn push_tag_line(out: &mut String, tags: &Vec<String>)
    ensures
        final(out)@ == old(out)@ + tag_line(texts(tags@)),
{
    if tags.len() == 0 {
        return;
    }
    push_str(out, "<span class=\"tags\">");
    let mut joined = String::new();
    push_joined(&mut joined, tags, ", ");
    push_esc(out, joined.as_str());
    push_str(out, "</span>");
}

/// The tab's title.
pub open spec fn titled(title: Seq<char>) -> Seq<char> {
    "<title>"@ + esc(title) + "</title>"@
}

fn push_titled(out: &mut String, title: &str)
    ensures
        final(out)@ == old(out)@ + titled(title@),
{
    push_str(out, "<title>");
    push_esc(out, title);
    push_str(out, "</title>");
}

/// The `<meta http-equiv="refresh">` by which the scriptless network screen
/// comes back for news.
pub open spec fn refresh(again_in: Option<u32>) -> Seq<char> {
    match again_in {
        Some(seconds) => "<meta http-equiv=\"refresh\" content=\""@ + decimal(seconds as nat) + "\">\n"@,
        None => Seq::empty(),
    }
}

fn push_refresh(out: &mut String, again_in: Option<u32>)
    ensures
        final(out)@ == old(out)@ + refresh(again_in),
{
    match again_in {
        Some(seconds) => {
            push_str(out, "<meta http-equiv=\"refresh\" content=\"");
            let n = decimal_of(seconds as u64);
            push_str(out, n.as_str());
            push_str(out, "\">\n");
        },
        None => {},
    }
}

/// The tags a page links, one after another.
pub open spec fn asset_tags(scripts: Seq<Asset>) -> Seq<char>
    decreases scripts.len(),
{
    if scripts.len() == 0 {
        Seq::empty()
    } else {
        asset_tags(scripts.drop_last()) + tag_of(scripts.last())
    }
}

/// What every page is wrapped in. The stylesheet is linked, and the
/// `referrer` meta keeps an address (somebody's note id) from leaving;
/// `same-origin` rather than `no-referrer`, which would null a form post's
/// `Origin` that the guard needs.
pub open spec fn dressed(title: Seq<char>, app: Seq<char>, again_in: Option<u32>, scripts: Seq<Asset>, body: Seq<char>) -> Seq<char> {
    let classes = if app.len() == 0 { "app"@ } else { "app "@ + app };
    "<!doctype html>\n<html lang=\"en\">\n<head>\n<meta charset=\"utf-8\">\n<meta name=\"viewport\" content=\"width=device-width, initial-scale=1\">\n<meta name=\"referrer\" content=\"same-origin\">\n"@
        + refresh(again_in) + titled(title) + "\n"@ + tag_of(Asset::Style) + asset_tags(scripts)
        + "\n</head>\n<body>\n<div class=\""@ + classes + "\">\n"@ + body + "</div>\n</body>\n</html>\n"@
}

fn dress(title: &str, app: &str, again_in: Option<u32>, scripts: &Vec<Asset>, body: &str) -> (r: String)
    ensures
        r@ == dressed(title@, app@, again_in, scripts@, body@),
{
    let mut out = String::new();
    push_str(&mut out, "<!doctype html>\n<html lang=\"en\">\n<head>\n<meta charset=\"utf-8\">\n<meta name=\"viewport\" content=\"width=device-width, initial-scale=1\">\n<meta name=\"referrer\" content=\"same-origin\">\n");
    push_refresh(&mut out, again_in);
    push_titled(&mut out, title);
    push_str(&mut out, "\n");
    let style = Asset::Style.tag();
    push_str(&mut out, style.as_str());
    let mut i: usize = 0;
    let ghost start = out@;
    while i < scripts.len()
        invariant
            i <= scripts.len(),
            out@ == start + asset_tags(scripts@.subrange(0, i as int)),
        decreases scripts.len() - i,
    {
        let tag = scripts[i].tag();
        push_str(&mut out, tag.as_str());
        i += 1;
        assert(scripts@.subrange(0, i as int).drop_last() =~= scripts@.subrange(0, i - 1));
    }
    assert(scripts@.subrange(0, scripts@.len() as int) =~= scripts@);
    push_str(&mut out, "\n</head>\n<body>\n<div class=\"");
    if app.is_empty() {
        push_str(&mut out, "app");
    } else {
        push_str(&mut out, "app ");
        push_str(&mut out, app);
    }
    push_str(&mut out, "\">\n");
    push_str(&mut out, body);
    push_str(&mut out, "</div>\n</body>\n</html>\n");
    out
}

/// Kept as typed, so a refused write hands the reader's words back unchanged.
pub struct Draft {
    pub title: String,
    pub tags: String,
    pub body: String,
}

impl Default for Draft {
    fn default() -> (r: Draft)
        ensures
            r.title@.len() == 0,
            r.tags@.len() == 0,
            r.body@.len() == 0,
    {
        Draft { title: String::new(), tags: String::new(), body: String::new() }
    }
}

/// Which note a form is about.
pub struct About {
    pub id: String,
    pub slug: String,
    pub title: String,
}

impl About {
    pub fn of(id: &str, slug: &str, title: &str) -> (r: About)
        ensures
            r.id@ == id@,
            r.slug@ == slug@,
            r.title@ == title@,
    {
        About { id: owned(id), slug: owned(slug), title: owned(title) }
    }
}

/// A note's address.
pub open spec fn about_at(book: Seq<char>, id: Seq<char>) -> Seq<char> {
    "/nb/"@ + esc(book) + "/n/"@ + esc(id)
}

fn push_about_at(out: &mut String, book: &str, id: &str)
    ensures
        final(out)@ == old(out)@ + about_at(book@, id@),
{
    push_str(out, "/nb/");
    push_esc(out, book);
    push_str(out, "/n/");
    push_esc(out, id);
}


/// The layout, both widths and both themes' shapes; the colours are
/// `theme::stylesheet`'s.
pub fn stylesheet() -> (r: String)
    ensures
        r@ == css(),
{
    let mut out = String::new();
    crate::text::push_str(&mut out, CSS_1);
    crate::text::push_str(&mut out, CSS_2);
    crate::text::push_str(&mut out, CSS_3);
    crate::text::push_str(&mut out, CSS_4);
    crate::text::push_str(&mut out, CSS_5);
    crate::text::push_str(&mut out, CSS_6);
    crate::text::push_str(&mut out, CSS_7);
    out
}


/// A plus: a new note.
pub const NEW: &'static str = "<path d=\"M12 4.5v15M4.5 12h15\"/>";
/// A page with a folded corner: a notebook is a directory of files.
pub const NOTES: &'static str = "<path d=\"M5.5 4.5h9L19 9v10.5h-13.5z\"/><path d=\"M14.5 4.5V9H19\"/><path d=\"M9 13h6\"/><path d=\"M9 16.5h4\"/>";
pub const EDIT: &'static str = "<path d=\"M4 20h4L19 9l-4-4L4 16z\"/>";
pub const TAGS: &'static str = "<path d=\"M4 4h7l9 9-7 7-9-9z\"/><circle cx=\"8\" cy=\"8\" r=\"1.4\"/>";
pub const RENAME: &'static str = "<path d=\"M4 7V5h16v2\"/><path d=\"M12 5v14\"/><path d=\"M9 19h6\"/>";
pub const TODO: &'static str = "<rect x=\"4\" y=\"4\" width=\"16\" height=\"16\" rx=\"3.5\"/><path d=\"M8.5 12.2l2.6 2.6 4.6-5.4\"/>";
pub const FILES: &'static str = "<path d=\"M18.5 10.5 11 18a4 4 0 0 1-5.7-5.7l7.8-7.8a2.6 2.6 0 0 1 3.7 3.7l-7.7 7.7a1.2 1.2 0 0 1-1.7-1.7l7.1-7.1\"/>";
/// An arrow arriving at a line: what points at the note.
pub const LINKS: &'static str = "<path d=\"M19 5v14\"/><path d=\"M4 12h11\"/><path d=\"M11 8l4 4-4 4\"/>";
/// A thumbtack, for both Pin and Unpin: the label says which way.
pub const PIN: &'static str = "<path d=\"M9 3h6l-1 5.5 3.5 3v1.5h-11V11.5l3.5-3z\"/><path d=\"M12 13v8\"/>";
/// Same stroke as the rest: the warning is the colour alone.
pub const TRASH: &'static str = "<path d=\"M5 7h14\"/><path d=\"M9.5 7V4.5h5V7\"/><path d=\"M6.5 7l1 12.5h9L17.5 7\"/><path d=\"M10 10.5v6\"/><path d=\"M14 10.5v6\"/>";
/// Two arrows passing, not a cloud: a remote is often the reader's own machine.
pub const SYNC: &'static str = "<path d=\"M7 9l5-5 5 5\"/><path d=\"M12 4v10\"/><path d=\"M17 15l-5 5-5-5\"/><path d=\"M12 20V10\"/>";
/// A glyph rather than the word `order`, which costs 55px.
pub const ORDER: &'static str = "<path d=\"M4 7h13\"/><path d=\"M4 12h9\"/><path d=\"M4 17h5\"/>";
/// Down is `--sort`'s order, up is `-r`.
pub const DOWNWARDS: &'static str = "<path d=\"M12 5v14\"/><path d=\"M6 13l6 6 6-6\"/>";
pub const UPWARDS: &'static str = "<path d=\"M12 19V5\"/><path d=\"M6 11l6-6 6 6\"/>";
/// Inline SVG rather than `‹`, whose weight and position the reader's font
/// would decide.
pub const BACK: &'static str = "<svg viewBox=\"0 0 24 24\" aria-hidden=\"true\"><path d=\"M15 4.5 7.5 12 15 19.5\"/></svg>";

/// One enum rather than two flags, which would allow "here" and "danger" at once.
#[derive(Clone, Copy, PartialEq, Eq, Debug, Structural)]
pub enum Mark {
    Plain,
    /// The screen the bar is being drawn on.
    Here,
    /// The one item that cannot be undone by doing it again.
    Danger,
}

/// `aria-current` so a screen reader says "current page"; danger is only a
/// class, as the word Delete already says it.
pub open spec fn mark_attr(mark: Mark) -> Seq<char> {
    match mark {
        Mark::Plain => Seq::empty(),
        Mark::Here => " aria-current=\"page\""@,
        Mark::Danger => " class=\"danger\""@,
    }
}

fn push_mark(out: &mut String, mark: Mark)
    ensures
        final(out)@ == old(out)@ + mark_attr(mark),
{
    match mark {
        Mark::Plain => {},
        Mark::Here => push_str(out, " aria-current=\"page\""),
        Mark::Danger => push_str(out, " class=\"danger\""),
    }
}

/// The icon and the word of a bar item.
pub open spec fn item_face(icon: Seq<char>, label: Seq<char>) -> Seq<char> {
    "><svg viewBox=\"0 0 24 24\" aria-hidden=\"true\">"@ + icon + "</svg><span>"@ + label + "</span>"@
}

fn push_face(out: &mut String, icon: &str, label: &str)
    ensures
        final(out)@ == old(out)@ + item_face(icon@, label@),
{
    push_str(out, "><svg viewBox=\"0 0 24 24\" aria-hidden=\"true\">");
    push_str(out, icon);
    push_str(out, "</svg><span>");
    push_str(out, label);
    push_str(out, "</span>");
}

/// A bar item that is a link.
#[verifier::opaque]
pub open spec fn go_item(icon: Seq<char>, label: Seq<char>, href: Seq<char>, mark: Mark) -> Seq<char> {
    "<a href=\""@ + esc(href) + "\""@ + mark_attr(mark) + item_face(icon, label) + "</a>"@
}

fn push_go(out: &mut String, icon: &str, label: &str, href: &str, mark: Mark)
    ensures
        final(out)@ == old(out)@ + go_item(icon@, label@, href@, mark),
{
    let ghost start = out@;
    push_str(out, "<a href=\"");
    push_esc(out, href);
    push_str(out, "\"");
    push_mark(out, mark);
    push_face(out, icon, label);
    push_str(out, "</a>");
    assert(out@ =~= start + go_item(icon@, label@, href@, mark)) by { reveal(go_item); }
}

/// A bar item that writes. A write is a `POST`, never a link: the guard has
/// nothing to check when another site loads a link as an image. The form sits
/// beside the button, tied by `form=`, so the button stays the bar's flex item.
#[verifier::opaque]
pub open spec fn post_item(icon: Seq<char>, label: Seq<char>, to: Seq<char>, id: Seq<char>, mark: Mark) -> Seq<char> {
    "<form method=\"post\" action=\""@ + esc(to) + "\" id=\""@ + id + "\" hidden></form><button type=\"submit\" form=\""@
        + id + "\""@ + mark_attr(mark) + item_face(icon, label) + "</button>"@
}

fn push_post(out: &mut String, icon: &str, label: &str, to: &str, id: &str, mark: Mark)
    ensures
        final(out)@ == old(out)@ + post_item(icon@, label@, to@, id@, mark),
{
    let ghost start = out@;
    push_str(out, "<form method=\"post\" action=\"");
    push_esc(out, to);
    push_str(out, "\" id=\"");
    push_str(out, id);
    push_str(out, "\" hidden></form><button type=\"submit\" form=\"");
    push_str(out, id);
    push_str(out, "\"");
    push_mark(out, mark);
    push_face(out, icon, label);
    push_str(out, "</button>");
    assert(out@ =~= start + post_item(icon@, label@, to@, id@, mark)) by { reveal(post_item); }
}

/// The way to the network screen, showing its answer. The link around the pill
/// is the 48px touch target; the label repeats the words because a narrow
/// screen may ellipsize the text.
#[verifier::opaque]
pub open spec fn drift_chip(book: Seq<char>, drift: Seq<char>) -> Seq<char> {
    "<a class=\"drift\" href=\"/nb/"@ + esc(book) + "/status\" aria-label=\"Status: "@ + esc(drift)
        + "\"><span class=\"pill\"><svg viewBox=\"0 0 24 24\" aria-hidden=\"true\">"@ + SYNC@
        + "</svg><span>"@ + esc(drift) + "</span></span></a>"@
}

fn push_drift_chip(out: &mut String, book: &str, drift: &str)
    ensures
        final(out)@ == old(out)@ + drift_chip(book@, drift@),
{
    let ghost start = out@;
    push_str(out, "<a class=\"drift\" href=\"/nb/");
    push_esc(out, book);
    push_str(out, "/status\" aria-label=\"Status: ");
    push_esc(out, drift);
    push_str(out, "\"><span class=\"pill\"><svg viewBox=\"0 0 24 24\" aria-hidden=\"true\">");
    push_str(out, SYNC);
    push_str(out, "</svg><span>");
    push_esc(out, drift);
    push_str(out, "</span></span></a>");
    assert(out@ =~= start + drift_chip(book@, drift@)) by { reveal(drift_chip); }
}

/// The way back, labelled for a screen reader.
#[verifier::opaque]
pub open spec fn back(href: Seq<char>, label: Seq<char>) -> Seq<char> {
    "<a class=\"back\" href=\""@ + esc(href) + "\" aria-label=\"Back to "@ + esc(label) + "\">"@ + BACK@ + "</a>"@
}

fn push_back(out: &mut String, href: &str, label: &str)
    ensures
        final(out)@ == old(out)@ + back(href@, label@),
{
    let ghost start = out@;
    push_str(out, "<a class=\"back\" href=\"");
    push_esc(out, href);
    push_str(out, "\" aria-label=\"Back to ");
    push_esc(out, label);
    push_str(out, "\">");
    push_str(out, BACK);
    push_str(out, "</a>");
    assert(out@ =~= start + back(href@, label@)) by { reveal(back); }
}

/// Which of the notebook's screens is being drawn, so the bar can say so.
#[derive(Clone, Copy, PartialEq, Eq, Debug, Structural)]
pub enum At {
    Notes,
    Tags,
    Todo,
    Files,
    /// Not on the bar (reached from the drift chip), so no item is marked.
    Status,
}

pub open spec fn mark_at(here: At, screen: At) -> Mark {
    if here == screen { Mark::Here } else { Mark::Plain }
}

fn mark_of(here: At, screen: At) -> (r: Mark)
    ensures
        r == mark_at(here, screen),
{
    if here == screen { Mark::Here } else { Mark::Plain }
}

/// Where a notebook lives, escaped once for the page.
pub open spec fn home(book: Seq<char>) -> Seq<char> {
    "/nb/"@ + esc(book)
}

fn home_of(book: &str) -> (r: String)
    ensures
        r@ == home(book@),
{
    let mut out = String::new();
    push_str(&mut out, "/nb/");
    push_esc(&mut out, book);
    out
}

/// Four places on the bar, the same on every screen, and one action, New,
/// apart from it as a floating button. The wrapper sticks, not the bar inside
/// it: on a short page the bar sits under the last row.
///
/// Each link is the notebook's address (escaped once) written as an attribute
/// (escaped again).
#[verifier::opaque]
pub open spec fn notebook_bar(book: Seq<char>, here: At) -> Seq<char> {
    let at = home(book);
    "<div class=\"foot\"><nav class=\"actionbar\">"@
        + go_item(NOTES@, "Notes"@, at, mark_at(here, At::Notes))
        + go_item(TAGS@, "Tags"@, at + "/tags"@, mark_at(here, At::Tags))
        + go_item(TODO@, "Todo"@, at + "/todo"@, mark_at(here, At::Todo))
        + go_item(FILES@, "Files"@, at + "/files"@, mark_at(here, At::Files))
        + "</nav><a class=\"fab\" href=\""@ + at + "/new\" aria-label=\"New note\"><svg viewBox=\"0 0 24 24\" aria-hidden=\"true\">"@
        + NEW@ + "</svg></a></div>"@
}

fn with_tail(head: &String, tail: &str) -> (r: String)
    ensures
        r@ == head@ + tail@,
{
    let mut out = String::new();
    push_str(&mut out, head.as_str());
    push_str(&mut out, tail);
    out
}

fn push_notebook_bar(out: &mut String, book: &str, here: At)
    ensures
        final(out)@ == old(out)@ + notebook_bar(book@, here),
{
    let ghost start = out@;
    let at = home_of(book);
    push_str(out, "<div class=\"foot\"><nav class=\"actionbar\">");
    push_go(out, NOTES, "Notes", at.as_str(), mark_of(here, At::Notes));
    let tags = with_tail(&at, "/tags");
    push_go(out, TAGS, "Tags", tags.as_str(), mark_of(here, At::Tags));
    let todo = with_tail(&at, "/todo");
    push_go(out, TODO, "Todo", todo.as_str(), mark_of(here, At::Todo));
    let files = with_tail(&at, "/files");
    push_go(out, FILES, "Files", files.as_str(), mark_of(here, At::Files));
    push_str(out, "</nav><a class=\"fab\" href=\"");
    push_str(out, at.as_str());
    push_str(out, "/new\" aria-label=\"New note\"><svg viewBox=\"0 0 24 24\" aria-hidden=\"true\">");
    push_str(out, NEW);
    push_str(out, "</svg></a></div>");
    assert(out@ =~= start + notebook_bar(book@, here)) by { reveal(notebook_bar); }
}


/// Between the facts under a row.
pub const SEP: &'static str = "<span class=\"sep\">·</span>";

/// Every page inside the frame, linking only the stylesheet.
pub open spec fn shell(title: Seq<char>, app: Seq<char>, body: Seq<char>) -> Seq<char> {
    dressed(title, app, None, Seq::empty(), body)
}

fn shell_of(title: &str, app: &str, body: &str) -> (r: String)
    ensures
        r@ == shell(title@, app@, body@),
{
    let none: Vec<Asset> = Vec::new();
    dress(title, app, None, &none, body)
}

/// How many notes the notebooks hold between them.
pub open spec fn notes_of(books: Seq<Book>) -> nat
    decreases books.len(),
{
    if books.len() == 0 {
        0
    } else {
        notes_of(books.drop_last()) + books.last().notes as nat
    }
}

proof fn lemma_notes_prefix(books: Seq<Book>, i: int)
    requires
        0 <= i <= books.len(),
    ensures
        notes_of(books.subrange(0, i)) <= notes_of(books),
    decreases books.len(),
{
    if i < books.len() {
        assert(books.drop_last().subrange(0, i) =~= books.subrange(0, i));
        lemma_notes_prefix(books.drop_last(), i);
    } else {
        assert(books.subrange(0, i) =~= books);
    }
}

/// The second clause is in a `.more` span the stylesheet drops on a phone: the
/// server does not know the screen's width.
pub open spec fn tally(books: Seq<Book>) -> Seq<char> {
    plural(books.len(), "notebook"@) + "<span class=\"more\"> · "@ + plural(notes_of(books), "note"@) + "</span>"@
}

/// A dot for `noda notebook ls`'s `*`, with words for a screen reader.
pub open spec fn active_mark(active: bool) -> Seq<char> {
    if active {
        "<span class=\"mark\" aria-hidden=\"true\"></span><span class=\"sr\">Active — </span>"@
    } else {
        Seq::empty()
    }
}

/// What a notebook holds, each fact only where it says something.
pub open spec fn book_facts(book: Book) -> Seq<char> {
    "<span class=\"holds\">"@ + plural(book.notes as nat, "note"@) + "</span>"@
        + (if book.files > 0 {
            SEP@ + "<span class=\"holds files\">"@ + plural(book.files as nat, "file"@) + "</span>"@
        } else {
            Seq::empty()
        })
        + (if book.uncommitted > 0 {
            SEP@ + "<span class=\"holds\">"@ + decimal(book.uncommitted as nat) + " uncommitted</span>"@
        } else {
            Seq::empty()
        })
}

/// The chip to the network screen, or plain words with no remote.
pub open spec fn book_aside(book: Book) -> Seq<char> {
    match book.drift {
        Some(drift) => "<a class=\"aside\" href=\"/nb/"@ + esc(book.name@) + "/status\" aria-label=\"Status: "@
            + esc(drift@) + "\"><span class=\"pill\"><svg viewBox=\"0 0 24 24\" aria-hidden=\"true\">"@ + SYNC@
            + "</svg><span>"@ + esc(drift@) + "</span></span></a>"@,
        None => "<span class=\"aside\">no remote</span>"@,
    }
}

/// Two links side by side rather than nested: the row goes to the listing, the
/// chip to the network screen.
pub open spec fn book_row(book: Book) -> Seq<char> {
    "<div class=\"row split book\"><a class=\"most\" href=\"/nb/"@ + esc(book.name@) + "\"><span class=\"name\">"@
        + active_mark(book.active) + esc(book.name@) + "</span><div class=\"under\">"@ + book_facts(book)
        + "</div><span class=\"stamp\">"@ + esc(book.last@) + "</span></a>"@ + book_aside(book) + "</div>"@
}

pub open spec fn book_rows(books: Seq<Book>) -> Seq<char>
    decreases books.len(),
{
    if books.len() == 0 {
        Seq::empty()
    } else {
        book_rows(books.drop_last()) + book_row(books.last())
    }
}

/// The one screen not inside a notebook, so it has no rail or bar; `root`
/// stops the layout reserving a column for the rail.
pub open spec fn notebooks_page(books: Seq<Book>) -> Seq<char> {
    let rows = if books.len() == 0 {
        "<div class=\"empty\"><b>No notebooks yet</b>Run <code>noda init</code> in a terminal to make the first one.</div>"@
    } else {
        book_rows(books)
    };
    shell("noda"@, "root"@, "<section class=\"pane\"><header class=\"topbar\"><span class=\"here lead\">noda</span><span class=\"count\">"@
        + tally(books) + "</span></header><main class=\"rows books\">"@ + rows + "</main></section>"@)
}

fn push_book_facts(out: &mut String, book: &Book)
    ensures
        final(out)@ == old(out)@ + book_facts(*book),
{
    let ghost start = out@;
    push_str(out, "<span class=\"holds\">");
    push_plural(out, book.notes, "note");
    push_str(out, "</span>");
    let ghost first = out@;
    if book.files > 0 {
        push_str(out, SEP);
        push_str(out, "<span class=\"holds files\">");
        push_plural(out, book.files, "file");
        push_str(out, "</span>");
    }
    let ghost second = out@;
    if book.uncommitted > 0 {
        push_str(out, SEP);
        push_str(out, "<span class=\"holds\">");
        push_count(out, book.uncommitted);
        push_str(out, " uncommitted</span>");
    }
    assert(out@ =~= start + book_facts(*book));
}

fn push_book_aside(out: &mut String, book: &Book)
    ensures
        final(out)@ == old(out)@ + book_aside(*book),
{
    let ghost start = out@;
    match &book.drift {
        Some(drift) => {
            push_str(out, "<a class=\"aside\" href=\"/nb/");
            push_esc(out, book.name.as_str());
            push_str(out, "/status\" aria-label=\"Status: ");
            push_esc(out, drift.as_str());
            push_str(out, "\"><span class=\"pill\"><svg viewBox=\"0 0 24 24\" aria-hidden=\"true\">");
            push_str(out, SYNC);
            push_str(out, "</svg><span>");
            push_esc(out, drift.as_str());
            push_str(out, "</span></span></a>");
        },
        None => push_str(out, "<span class=\"aside\">no remote</span>"),
    }
    assert(out@ =~= start + book_aside(*book));
}

fn push_book_row(out: &mut String, book: &Book)
    ensures
        final(out)@ == old(out)@ + book_row(*book),
{
    let ghost start = out@;
    push_str(out, "<div class=\"row split book\"><a class=\"most\" href=\"/nb/");
    push_esc(out, book.name.as_str());
    push_str(out, "\"><span class=\"name\">");
    if book.active {
        push_str(out, "<span class=\"mark\" aria-hidden=\"true\"></span><span class=\"sr\">Active — </span>");
    }
    push_esc(out, book.name.as_str());
    push_str(out, "</span><div class=\"under\">");
    push_book_facts(out, book);
    push_str(out, "</div><span class=\"stamp\">");
    push_esc(out, book.last.as_str());
    push_str(out, "</span></a>");
    push_book_aside(out, book);
    push_str(out, "</div>");
    assert(out@ =~= start + book_row(*book));
}

/// The notebooks, one row each, with how many notes they hold between them.
#[verifier::rlimit(40)]
pub fn notebooks(books: &[Book]) -> (r: String)
    requires
        notes_of(books@) <= usize::MAX,
    ensures
        r@ == notebooks_page(books@),
{
    let mut rows = String::new();
    let mut notes: usize = 0;
    let mut i: usize = 0;
    while i < books.len()
        invariant
            i <= books.len(),
            notes_of(books@) <= usize::MAX,
            notes == notes_of(books@.subrange(0, i as int)),
            rows@ == book_rows(books@.subrange(0, i as int)),
        decreases books.len() - i,
    {
        proof {
            lemma_notes_prefix(books@, i + 1);
            assert(books@.subrange(0, i + 1).drop_last() =~= books@.subrange(0, i as int));
        }
        notes = notes + books[i].notes;
        push_book_row(&mut rows, &books[i]);
        i += 1;
    }
    assert(books@.subrange(0, books@.len() as int) =~= books@);
    let mut body = String::new();
    push_str(&mut body, "<section class=\"pane\"><header class=\"topbar\"><span class=\"here lead\">noda</span><span class=\"count\">");
    push_plural(&mut body, books.len(), "notebook");
    push_str(&mut body, "<span class=\"more\"> · ");
    push_plural(&mut body, notes, "note");
    push_str(&mut body, "</span>");
    push_str(&mut body, "</span></header><main class=\"rows books\">");
    if books.len() == 0 {
        push_str(&mut body, "<div class=\"empty\"><b>No notebooks yet</b>Run <code>noda init</code> in a terminal to make the first one.</div>");
    } else {
        push_str(&mut body, rows.as_str());
    }
    push_str(&mut body, "</main></section>");
    let ghost rows_v = if books@.len() == 0 {
        "<div class=\"empty\"><b>No notebooks yet</b>Run <code>noda init</code> in a terminal to make the first one.</div>"@
    } else {
        book_rows(books@)
    };
    assert(body@ =~= "<section class=\"pane\"><header class=\"topbar\"><span class=\"here lead\">noda</span><span class=\"count\">"@
        + tally(books@) + "</span></header><main class=\"rows books\">"@ + rows_v + "</main></section>"@);
    shell_of("noda", "root", body.as_str())
}


/// The line in the search field, and everything the page has to say about it.
/// One struct because the four are only ever right together.
pub struct Asked<'a> {
    /// The line exactly as it arrived, which is what goes back in the field.
    pub typed: &'a str,
    /// The query's grouping; empty when the line is not a query yet.
    pub grouping: &'a [Vec<String>],
    /// What is worth marking in a title.
    pub terms: &'a [String],
    /// Why the line is not a query yet. It is said and the notes are left
    /// alone: half a query is how every query looks while being typed.
    pub problem: Option<&'a str>,
}

impl Asked<'_> {
    /// An empty field, as a note route sends it.
    pub fn nothing() -> (r: Asked<'static>)
        ensures
            r.typed@.len() == 0,
            r.grouping@.len() == 0,
            r.terms@.len() == 0,
            r.problem.is_none(),
    {
        proof {
            reveal_strlit("");
        }
        Asked { typed: "", grouping: &[], terms: &[], problem: None }
    }
}


/// An order and a reversal applied after it, as `--sort` and `-r` are at the
/// prompt, rather than one enum of eight.
#[derive(Clone, Copy, PartialEq, Eq, Debug, Structural)]
pub struct Order {
    pub sort: Sort,
    pub reversed: bool,
}

impl Default for Order {
    fn default() -> (r: Order)
        ensures
            r == (Order { sort: Sort::Slug, reversed: false }),
    {
        Order { sort: Sort::Slug, reversed: false }
    }
}

/// `a` and `b` with `sep` between, or whichever is not empty.
pub open spec fn beside(a: Seq<char>, sep: Seq<char>, b: Seq<char>) -> Seq<char> {
    if a.len() == 0 {
        b
    } else if b.len() == 0 {
        a
    } else {
        a + sep + b
    }
}

fn push_beside(out: &mut String, sep: &str, b: &str)
    ensures
        final(out)@ == beside(old(out)@, sep@, b@),
{
    if out.as_str().is_empty() {
        push_str(out, b);
    } else if !b.is_empty() {
        push_str(out, sep);
        push_str(out, b);
    }
}

/// The query string an order is asked for by, `q` carried through it. The
/// default order writes nothing, so the default listing has one address.
pub open spec fn order_asked(order: Order, typed: Seq<char>) -> Seq<char> {
    let q = if typed.len() > 0 { "q="@ + percent(utf8(typed)) } else { Seq::empty() };
    let s = if order.sort != Sort::Slug { "sort="@ + sort_name(order.sort) } else { Seq::empty() };
    let r = if order.reversed { "r=1"@ } else { Seq::empty() };
    let parts = beside(beside(q, "&"@, s), "&"@, r);
    if parts.len() == 0 { Seq::empty() } else { "?"@ + parts }
}

impl Order {
    /// The query string this order is asked for by, `q` carried through it.
    pub fn asked(self, typed: &str) -> (r: String)
        ensures
            r@ == order_asked(self, typed@),
    {
        let mut parts = String::new();
        if !typed.is_empty() {
            push_str(&mut parts, "q=");
            let q = encoded(typed);
            push_str(&mut parts, q.as_str());
        }
        if self.sort != Sort::Slug {
            let mut s = String::new();
            push_str(&mut s, "sort=");
            push_str(&mut s, self.sort.name());
            push_beside(&mut parts, "&", s.as_str());
        }
        if self.reversed {
            push_beside(&mut parts, "&", "r=1");
        }
        proof {
            reveal_strlit("r=1");
            reveal_strlit("sort=");
            reveal_strlit("q=");
        }
        if parts.as_str().is_empty() {
            parts
        } else {
            let mut out = String::new();
            push_str(&mut out, "?");
            push_str(&mut out, parts.as_str());
            out
        }
    }
}

/// `None` writes nothing: a hidden input carrying a default would put it in
/// the address on every search.
pub open spec fn held_input(name: Seq<char>, value: Option<Seq<char>>) -> Seq<char> {
    match value {
        Some(v) => "<input type=\"hidden\" name=\""@ + esc(name) + "\" value=\""@ + esc(v) + "\">"@,
        None => Seq::empty(),
    }
}

fn push_held(out: &mut String, name: &str, value: Option<&str>)
    ensures
        final(out)@ == old(out)@ + held_input(name@, opt_str(value)),
{
    let ghost start = out@;
    match value {
        Some(v) => {
            push_str(out, "<input type=\"hidden\" name=\"");
            push_esc(out, name);
            push_str(out, "\" value=\"");
            push_esc(out, v);
            push_str(out, "\">");
        },
        None => {},
    }
    assert(out@ =~= start + held_input(name@, opt_str(value)));
}

/// Unhidden by the script only when its answer and the server's can differ: a
/// bare word or `text:` reads the body, which is not on the page.
pub const HINT: &'static str = "<p class=\"hint\" hidden>Filtered by title and tag — press ⏎ to search the text.</p>";

pub fn hint() -> (r: String)
    ensures
        r@ == HINT@,
{
    owned(HINT)
}

/// The reading pane with no note picked, which only a two-pane screen sees:
/// the notebook's `README.md` if it has one, otherwise an invitation.
pub open spec fn front_pane(book: Seq<char>, front: Option<Seq<char>>) -> Seq<char> {
    match front {
        Some(rendered) => "<section class=\"pane read\"><header class=\"topbar\"><span class=\"here lead\">"@ + esc(book)
            + "</span><span class=\"count mono\">README.md</span></header><main class=\"note\"><div class=\"body\">"@
            + rendered + "</div></main></section>"@,
        None => "<section class=\"pane read\"><header class=\"topbar\"><span class=\"here lead\">Reading</span></header><main><div class=\"empty\"><b>Pick a note</b>Its text opens here. Narrow the list with a search, or press + to write a new one.</div></main></section>"@,
    }
}

fn push_front_pane(out: &mut String, book: &str, front: Option<&str>)
    ensures
        final(out)@ == old(out)@ + front_pane(book@, opt_str(front)),
{
    let ghost start = out@;
    match front {
        Some(rendered) => {
            push_str(out, "<section class=\"pane read\"><header class=\"topbar\"><span class=\"here lead\">");
            push_esc(out, book);
            push_str(out, "</span><span class=\"count mono\">README.md</span></header><main class=\"note\"><div class=\"body\">");
            push_str(out, rendered);
            push_str(out, "</div></main></section>");
        },
        None => push_str(out, "<section class=\"pane read\"><header class=\"topbar\"><span class=\"here lead\">Reading</span></header><main><div class=\"empty\"><b>Pick a note</b>Its text opens here. Narrow the list with a search, or press + to write a new one.</div></main></section>"),
    }
    assert(out@ =~= start + front_pane(book@, opt_str(front)));
}

/// A listing's stamp: the day, and nothing that could be read as a clock.
pub open spec fn when(updated: Option<Seq<char>>) -> Seq<char> {
    match updated {
        Some(v) => "<time class=\"when\" datetime=\""@ + esc(v) + "\">"@ + esc(day_of(v)) + "</time>"@,
        None => Seq::empty(),
    }
}

fn push_when(out: &mut String, updated: Option<&str>)
    ensures
        final(out)@ == old(out)@ + when(opt_str(updated)),
{
    let ghost start = out@;
    match updated {
        Some(v) => {
            push_str(out, "<time class=\"when\" datetime=\"");
            push_esc(out, v);
            push_str(out, "\">");
            let d = day(v);
            push_esc(out, d.as_str());
            push_str(out, "</time>");
        },
        None => {},
    }
    assert(out@ =~= start + when(opt_str(updated)));
}

/// A note page's stamp, written whole with its offset so it cannot be misread;
/// `data-clock` says there is room for a time of day, which a listing's has not.
pub open spec fn stamp(what: Seq<char>, value: Option<Seq<char>>) -> Seq<char> {
    match value {
        Some(v) => "<span class=\"when\">"@ + what + " <time datetime=\""@ + esc(v) + "\" data-clock>"@ + esc(v) + "</time></span>"@,
        None => Seq::empty(),
    }
}

fn push_stamp(out: &mut String, what: &str, value: Option<&str>)
    ensures
        final(out)@ == old(out)@ + stamp(what@, opt_str(value)),
{
    let ghost start = out@;
    match value {
        Some(v) => {
            push_str(out, "<span class=\"when\">");
            push_str(out, what);
            push_str(out, " <time datetime=\"");
            push_esc(out, v);
            push_str(out, "\" data-clock>");
            push_esc(out, v);
            push_str(out, "</time></span>");
        },
        None => {},
    }
    assert(out@ =~= start + stamp(what@, opt_str(value)));
}

/// Only a `tag:` term is coloured, in the tag's colour.
pub open spec fn tag_term(term: Seq<char>) -> bool {
    crate::text::starts(term, "tag:"@) || crate::text::starts(term, "-tag:"@)
}

/// A group's terms, joined by `or`.
pub open spec fn either(terms: Seq<Seq<char>>) -> Seq<char>
    decreases terms.len(),
{
    if terms.len() == 0 {
        Seq::empty()
    } else {
        either(terms.drop_last()) + (if terms.len() > 1 { "<i>or</i>"@ } else { Seq::empty() }) + "<b"@
            + (if tag_term(terms.last()) { " class=\"t\""@ } else { Seq::empty() }) + ">"@ + esc(terms.last()) + "</b>"@
    }
}

/// Each group a pill, the pills joined by `and`.
pub open spec fn pills(groups: Seq<Vec<String>>) -> Seq<char>
    decreases groups.len(),
{
    if groups.len() == 0 {
        Seq::empty()
    } else {
        pills(groups.drop_last()) + (if groups.len() > 1 { "<span class=\"and\">and</span>"@ } else { Seq::empty() })
            + "<span class=\"g\">"@ + either(texts(groups.last()@)) + "</span>"@
    }
}

/// What was typed, as noda grouped it: each pill a group joined by `or`, the
/// pills joined by `and`, in the reader's own tokens. `a OR b c` is
/// `(a OR b) AND c`, and neither reading looks wrong from a list of notes.
/// Written hidden when there is no grouping.
pub open spec fn grouping(groups: Seq<Vec<String>>) -> Seq<char> {
    if groups.len() == 0 {
        "<div class=\"parse\" hidden></div>"@
    } else {
        "<div class=\"parse\">"@ + pills(groups) + "</div>"@
    }
}

fn push_either(out: &mut String, terms: &Vec<String>)
    ensures
        final(out)@ == old(out)@ + either(texts(terms@)),
{
    let ghost start = out@;
    let tag = chars_of("tag:");
    let untag = chars_of("-tag:");
    let mut i: usize = 0;
    while i < terms.len()
        invariant
            i <= terms.len(),
            tag@ == "tag:"@,
            untag@ == "-tag:"@,
            out@ == start + either(texts(terms@).subrange(0, i as int)),
        decreases terms.len() - i,
    {
        let ghost before = out@;
        proof {
            lemma_texts_prefix(terms@, i as int);
        }
        let ghost done = texts(terms@).subrange(0, i + 1);
        assert(done.drop_last() =~= texts(terms@).subrange(0, i as int));
        if i > 0 {
            push_str(out, "<i>or</i>");
        }
        push_str(out, "<b");
        let term = chars_of(terms[i].as_str());
        if starts_with(&term, &tag) || starts_with(&term, &untag) {
            push_str(out, " class=\"t\"");
        }
        push_str(out, ">");
        push_esc(out, terms[i].as_str());
        push_str(out, "</b>");
        i += 1;
        assert(out@ =~= start + either(done));
    }
    assert(texts(terms@).subrange(0, terms@.len() as int) =~= texts(terms@));
}

fn push_grouping(out: &mut String, groups: &[Vec<String>])
    ensures
        final(out)@ == old(out)@ + grouping(groups@),
{
    if groups.len() == 0 {
        push_str(out, "<div class=\"parse\" hidden></div>");
        return;
    }
    let ghost start = out@;
    push_str(out, "<div class=\"parse\">");
    let ghost inner = out@;
    let mut i: usize = 0;
    while i < groups.len()
        invariant
            i <= groups.len(),
            out@ == inner + pills(groups@.subrange(0, i as int)),
        decreases groups.len() - i,
    {
        let ghost done = groups@.subrange(0, i + 1);
        assert(done.drop_last() =~= groups@.subrange(0, i as int));
        if i > 0 {
            push_str(out, "<span class=\"and\">and</span>");
        }
        push_str(out, "<span class=\"g\">");
        push_either(out, &groups[i]);
        push_str(out, "</span>");
        i += 1;
        assert(out@ =~= inner + pills(done));
    }
    assert(groups@.subrange(0, groups@.len() as int) =~= groups@);
    push_str(out, "</div>");
    assert(out@ =~= start + grouping(groups@));
}


/// What an order chip is called for a screen reader: the arrow is hidden, so
/// direction and effect are said in words.
pub open spec fn chip_label(sort: Sort, order: Order) -> Seq<char> {
    if sort == order.sort {
        "Ordered by "@ + sort_name(sort) + (if order.reversed { ", reversed"@ } else { Seq::empty() }) + ". Press to "@
            + (if order.reversed { "undo"@ } else { "reverse"@ }) + "."@
    } else {
        "Order by "@ + sort_name(sort)
    }
}

/// One order's chip. Pressing the order in force toggles `-r`, like a sortable
/// heading, and its chip carries the direction arrow; a different order drops
/// the reversal.
pub open spec fn chip(book: Seq<char>, typed: Seq<char>, sort: Sort, order: Order) -> Seq<char> {
    let here = sort == order.sort;
    let next = Order { sort: sort, reversed: here && !order.reversed };
    "<a href=\"/nb/"@ + esc(book) + esc(order_asked(next, typed)) + "\""@
        + (if here { " aria-current=\"true\""@ } else { Seq::empty() }) + " aria-label=\""@ + esc(chip_label(sort, order))
        + "\"><span class=\"pill\">"@ + esc(sort_name(sort))
        + (if here {
            "<svg viewBox=\"0 0 24 24\" aria-hidden=\"true\">"@ + (if order.reversed { UPWARDS@ } else { DOWNWARDS@ }) + "</svg>"@
        } else {
            Seq::empty()
        }) + "</span></a>"@
}

/// The four orders `--sort` names as four links, no menu, so it works without
/// the script.
pub open spec fn sortbar(book: Seq<char>, typed: Seq<char>, order: Order) -> Seq<char> {
    "<nav class=\"sortbar\" aria-label=\"Order\"><span class=\"lab\"><svg viewBox=\"0 0 24 24\" aria-hidden=\"true\">"@ + ORDER@
        + "</svg></span>"@ + chip(book, typed, Sort::Slug, order) + chip(book, typed, Sort::Created, order)
        + chip(book, typed, Sort::Updated, order) + chip(book, typed, Sort::Title, order) + "</nav>"@
}

fn chip_label_of(sort: Sort, order: Order) -> (r: String)
    ensures
        r@ == chip_label(sort, order),
{
    let mut out = String::new();
    if sort == order.sort {
        push_str(&mut out, "Ordered by ");
        push_str(&mut out, sort.name());
        if order.reversed {
            push_str(&mut out, ", reversed");
        }
        push_str(&mut out, ". Press to ");
        if order.reversed {
            push_str(&mut out, "undo");
        } else {
            push_str(&mut out, "reverse");
        }
        push_str(&mut out, ".");
    } else {
        push_str(&mut out, "Order by ");
        push_str(&mut out, sort.name());
    }
    out
}

#[verifier::spinoff_prover]
#[verifier::rlimit(30)]
fn push_chip(out: &mut String, book: &str, typed: &str, sort: Sort, order: Order)
    ensures
        final(out)@ == old(out)@ + chip(book@, typed@, sort, order),
{
    let ghost start = out@;
    let here = sort == order.sort;
    let next = Order { sort: sort, reversed: here && !order.reversed };
    push_str(out, "<a href=\"/nb/");
    push_esc(out, book);
    let asked = next.asked(typed);
    push_esc(out, asked.as_str());
    push_str(out, "\"");
    if here {
        push_str(out, " aria-current=\"true\"");
    }
    push_str(out, " aria-label=\"");
    let label = chip_label_of(sort, order);
    push_esc(out, label.as_str());
    push_str(out, "\"><span class=\"pill\">");
    push_esc(out, sort.name());
    if here {
        push_str(out, "<svg viewBox=\"0 0 24 24\" aria-hidden=\"true\">");
        if order.reversed {
            push_str(out, UPWARDS);
        } else {
            push_str(out, DOWNWARDS);
        }
        push_str(out, "</svg>");
    }
    push_str(out, "</span></a>");
    assert(out@ =~= start + chip(book@, typed@, sort, order));
}

fn push_sortbar(out: &mut String, book: &str, typed: &str, order: Order)
    ensures
        final(out)@ == old(out)@ + sortbar(book@, typed@, order),
{
    let ghost start = out@;
    push_str(out, "<nav class=\"sortbar\" aria-label=\"Order\"><span class=\"lab\"><svg viewBox=\"0 0 24 24\" aria-hidden=\"true\">");
    push_str(out, ORDER);
    push_str(out, "</svg></span>");
    push_chip(out, book, typed, Sort::Slug, order);
    push_chip(out, book, typed, Sort::Created, order);
    push_chip(out, book, typed, Sort::Updated, order);
    push_chip(out, book, typed, Sort::Title, order);
    push_str(out, "</nav>");
    assert(out@ =~= start + sortbar(book@, typed@, order));
}

/// The `<p class="problem">` saying why the line is not a query yet.
pub open spec fn problem_line(problem: Option<Seq<char>>) -> Seq<char> {
    match problem {
        Some(why) => "<p class=\"problem\">"@ + esc(why) + "</p>"@,
        None => Seq::empty(),
    }
}

/// The sort chosen, as the form carries it: nothing for the default.
pub open spec fn held_sort(order: Option<Order>) -> Option<Seq<char>> {
    match order {
        Some(o) => if o.sort != Sort::Slug { Some(sort_name(o.sort)) } else { None },
        None => None,
    }
}

pub open spec fn held_reversed(order: Option<Order>) -> Option<Seq<char>> {
    match order {
        Some(o) => if o.reversed { Some("1"@) } else { None },
        None => None,
    }
}

/// The bar of the index pane and the start of its search form.
pub open spec fn index_head(book: Seq<char>, typed: Seq<char>, counted: Seq<char>, drift: Seq<char>) -> Seq<char> {
    "<section class=\"pane index\"><header class=\"topbar\">"@ + back("/"@, "the notebooks"@) + "<span class=\"here\">"@
        + esc(book) + "</span>"@ + drift_chip(book, drift) + "<span class=\"count\">"@ + counted
        + "</span></header><form class=\"searchbar\" method=\"get\" action=\"/nb/"@ + esc(book)
        + "\"><input type=\"search\" name=\"q\" value=\""@ + esc(typed)
        + "\" placeholder=\"tag:work OR tag:q3 budget\" autocomplete=\"off\" autocapitalize=\"off\" spellcheck=\"false\" enterkeyhint=\"search\" aria-label=\"Search this notebook\">"@
}

/// What the search form carries besides the line: the order (only a
/// non-default one is written), the hint, the grouping, the problem, and last
/// the order chips, so they do not split the query from the three answers.
pub open spec fn index_form(book: Seq<char>, typed: Seq<char>, groups: Seq<Vec<String>>, problem: Option<Seq<char>>, order: Option<Order>) -> Seq<char> {
    held_input("sort"@, held_sort(order)) + held_input("r"@, held_reversed(order)) + HINT@ + grouping(groups)
        + problem_line(problem)
        + (match order { Some(o) => sortbar(book, typed, o), None => Seq::empty() })
}

/// The index pane's frame, the same on both routes, with a `GET` search form a
/// scriptless reader can submit from a note page. `counted` and `rows` are
/// already markup.
pub open spec fn index_pane(book: Seq<char>, typed: Seq<char>, groups: Seq<Vec<String>>, problem: Option<Seq<char>>, order: Option<Order>, counted: Seq<char>, drift: Seq<char>, rows: Seq<char>) -> Seq<char> {
    index_head(book, typed, counted, drift) + index_form(book, typed, groups, problem, order) + "</form><main class=\"rows\">"@
        + rows + "</main></section>"@
}

fn push_index_head(out: &mut String, book: &str, typed: &str, counted: &str, drift: &str)
    ensures
        final(out)@ == old(out)@ + index_head(book@, typed@, counted@, drift@),
{
    let ghost start = out@;
    push_str(out, "<section class=\"pane index\"><header class=\"topbar\">");
    push_back(out, "/", "the notebooks");
    push_str(out, "<span class=\"here\">");
    push_esc(out, book);
    push_str(out, "</span>");
    push_drift_chip(out, book, drift);
    push_str(out, "<span class=\"count\">");
    push_str(out, counted);
    push_str(out, "</span></header><form class=\"searchbar\" method=\"get\" action=\"/nb/");
    push_esc(out, book);
    push_str(out, "\"><input type=\"search\" name=\"q\" value=\"");
    push_esc(out, typed);
    push_str(out, "\" placeholder=\"tag:work OR tag:q3 budget\" autocomplete=\"off\" autocapitalize=\"off\" spellcheck=\"false\" enterkeyhint=\"search\" aria-label=\"Search this notebook\">");
    assert(out@ =~= start + index_head(book@, typed@, counted@, drift@));
}

fn push_problem(out: &mut String, problem: Option<&str>)
    ensures
        final(out)@ == old(out)@ + problem_line(opt_str(problem)),
{
    let ghost start = out@;
    match problem {
        Some(why) => {
            push_str(out, "<p class=\"problem\">");
            push_esc(out, why);
            push_str(out, "</p>");
        },
        None => {},
    }
    assert(out@ =~= start + problem_line(opt_str(problem)));
}

fn sort_held(order: Option<Order>) -> (r: Option<&'static str>)
    ensures
        opt_str(r) == held_sort(order),
{
    match order {
        Some(o) => if o.sort != Sort::Slug { Some(o.sort.name()) } else { None },
        None => None,
    }
}

fn reversed_held(order: Option<Order>) -> (r: Option<&'static str>)
    ensures
        opt_str(r) == held_reversed(order),
{
    match order {
        Some(o) => if o.reversed {
            proof { reveal_strlit("1"); }
            Some("1")
        } else {
            None
        },
        None => None,
    }
}

#[verifier::spinoff_prover]
#[verifier::rlimit(60)]
fn push_index_form(out: &mut String, book: &str, asked: &Asked, order: Option<Order>)
    ensures
        final(out)@ == old(out)@ + index_form(book@, asked.typed@, asked.grouping@, opt_str(asked.problem), order),
{
    let ghost start = out@;
    push_held(out, "sort", sort_held(order));
    push_held(out, "r", reversed_held(order));
    push_str(out, HINT);
    push_grouping(out, asked.grouping);
    push_problem(out, asked.problem);
    let ghost mid = out@;
    match order {
        Some(o) => push_sortbar(out, book, asked.typed, o),
        None => {},
    }
    assert(out@ == mid + (match order { Some(o) => sortbar(book@, asked.typed@, o), None => Seq::empty() }));
    assert(out@ =~= start + index_form(book@, asked.typed@, asked.grouping@, opt_str(asked.problem), order));
}

fn push_index_pane(out: &mut String, book: &str, asked: &Asked, order: Option<Order>, counted: &str, drift: &str, rows: &str)
    ensures
        final(out)@ == old(out)@ + index_pane(book@, asked.typed@, asked.grouping@, opt_str(asked.problem), order, counted@, drift@, rows@),
{
    let ghost start = out@;
    push_index_head(out, book, asked.typed, counted, drift);
    push_index_form(out, book, asked, order);
    push_str(out, "</form><main class=\"rows\">");
    push_str(out, rows);
    push_str(out, "</main></section>");
    assert(out@ =~= start + index_pane(book@, asked.typed@, asked.grouping@, opt_str(asked.problem), order, counted@, drift@, rows@));
}


/// The pin mark that ends a pinned row.
pub open spec fn pin_mark(pinned: bool) -> Seq<char> {
    if pinned { "<span class=\"pin\">"@ + crate::palette::PIN_MARK@ + "</span>"@ } else { Seq::empty() }
}

/// The facts under a row, in `ls -l`'s order, those with something to say.
pub open spec fn row_under(row: Row) -> Seq<char> {
    beside(beside(when(opt_text(row.stamp)), SEP@, tag_line(texts(row.tags@))), SEP@, pin_mark(row.pinned))
}

/// The day beside the id. It is written twice, here and under the title, and
/// the stylesheet shows one, as the server does not know the screen's width.
pub open spec fn day_beside(value: Option<Seq<char>>) -> Seq<char> {
    match value {
        Some(v) => "<span class=\"day\">"@ + esc(day_of(v)) + "</span>"@,
        None => Seq::empty(),
    }
}

/// One row of a listing. A hidden row's title is unmarked, as the script
/// would leave it.
pub open spec fn listed_row(book: Seq<char>, row: Row, terms: Seq<Seq<char>>) -> Seq<char> {
    row_head(book, row) + (if row.shown { highlighted(row.title@, terms) } else { esc(row.title@) }) + "</div><div class=\"under\">"@
        + row_under(row) + "</div></a>"@
}

pub open spec fn listed_rows(book: Seq<char>, rows: Seq<Row>, terms: Seq<Seq<char>>) -> Seq<char>
    decreases rows.len(),
{
    if rows.len() == 0 {
        Seq::empty()
    } else {
        listed_rows(book, rows.drop_last(), terms) + listed_row(book, rows.last(), terms)
    }
}

/// How many of the rows a query left showing.
pub open spec fn shown_of(rows: Seq<Row>) -> nat
    decreases rows.len(),
{
    if rows.len() == 0 {
        0
    } else {
        shown_of(rows.drop_last()) + (if rows.last().shown { 1nat } else { 0nat })
    }
}

proof fn lemma_shown_bound(rows: Seq<Row>)
    ensures
        shown_of(rows) <= rows.len(),
    decreases rows.len(),
{
    if rows.len() > 0 {
        lemma_shown_bound(rows.drop_last());
    }
}

/// The sentence under the rows: only the no-match one is ever hidden, as
/// typing cannot fill an empty notebook.
pub open spec fn none_shown(book: Seq<char>, typed: Seq<char>, total: nat, shown: nat) -> Seq<char> {
    if total == 0 {
        "<div class=\"empty\"><b>No notes yet</b>Run <code>noda add \"First note\"</code> in a terminal to start one.</div>"@
    } else {
        "<div class=\"empty\""@ + (if shown > 0 { " hidden"@ } else { Seq::empty() })
            + "><b>No notes match <span class=\"asked\">"@ + esc(typed) + "</span></b>This notebook holds "@
            + plural(total, "note"@) + ". <a href=\"/nb/"@ + esc(book) + "\">Clear the search</a> to see them.</div>"@
    }
}

/// The count in the bar: all of them, or how many a search left of them.
pub open spec fn counted(typed: Seq<char>, total: nat, shown: nat) -> Seq<char> {
    if typed.len() == 0 { decimal(total) } else { decimal(shown) + " of "@ + decimal(total) }
}

/// The index pane with rows.
#[verifier::opaque]
pub open spec fn listing_pane_html(book: Seq<char>, rows: Seq<Row>, asked: Asked, order: Order, drift: Seq<char>) -> Seq<char> {
    let body = listed_rows(book, rows, texts(asked.terms@)) + none_shown(book, asked.typed@, rows.len(), shown_of(rows));
    index_pane(book, asked.typed@, asked.grouping@, opt_str(asked.problem), Some(order),
        counted(asked.typed@, rows.len(), shown_of(rows)), drift, body)
}

fn push_pin_mark(out: &mut String, pinned: bool)
    ensures
        final(out)@ == old(out)@ + pin_mark(pinned),
{
    if pinned {
        push_str(out, "<span class=\"pin\">");
        push_str(out, crate::palette::PIN_MARK);
        push_str(out, "</span>");
    }
}

fn row_under_of(row: &Row) -> (r: String)
    ensures
        r@ == row_under(*row),
{
    let mut out = String::new();
    let s = copy_opt(&row.stamp);
    let stamp: Option<&str> = match &s {
        Some(v) => Some(v.as_str()),
        None => None,
    };
    push_when(&mut out, stamp);
    let mut tags = String::new();
    push_tag_line(&mut tags, &row.tags);
    push_beside(&mut out, SEP, tags.as_str());
    let mut pin = String::new();
    push_pin_mark(&mut pin, row.pinned);
    push_beside(&mut out, SEP, pin.as_str());
    out
}

/// A listed row up to its title.
pub open spec fn row_head(book: Seq<char>, row: Row) -> Seq<char> {
    row_open(book, row) + "<div class=\"ident\"><span class=\"id\">"@ + esc(row.id@) + "</span>"@
        + day_beside(opt_text(row.stamp)) + "</div><div class=\"title\">"@
}

fn push_row_head(out: &mut String, book: &str, row: &Row)
    ensures
        final(out)@ == old(out)@ + row_head(book@, *row),
{
    let ghost start = out@;
    push_str(out, "<a class=\"row\"");
    if !row.shown {
        push_str(out, " hidden");
    }
    push_str(out, " href=\"/nb/");
    push_esc(out, book);
    push_str(out, "/n/");
    push_esc(out, row.id.as_str());
    push_str(out, "\">");
    push_str(out, "<div class=\"ident\"><span class=\"id\">");
    push_esc(out, row.id.as_str());
    push_str(out, "</span>");
    let ghost mid = out@;
    match &row.stamp {
        Some(v) => {
            push_str(out, "<span class=\"day\">");
            let d = day(v.as_str());
            push_esc(out, d.as_str());
            push_str(out, "</span>");
        },
        None => {},
    }
    assert(out@ =~= mid + day_beside(opt_text(row.stamp)));
    push_str(out, "</div><div class=\"title\">");
    assert(out@ =~= start + row_head(book@, *row));
}

fn push_listed_row(out: &mut String, book: &str, row: &Row, terms: &[String])
    ensures
        final(out)@ == old(out)@ + listed_row(book@, *row, texts(terms@)),
{
    let ghost start = out@;
    push_row_head(out, book, row);
    let title = if row.shown {
        highlight(row.title.as_str(), terms)
    } else {
        escape(row.title.as_str())
    };
    push_str(out, title.as_str());
    push_str(out, "</div><div class=\"under\">");
    let under = row_under_of(row);
    push_str(out, under.as_str());
    push_str(out, "</div></a>");
    let ghost t = if row.shown { highlighted(row.title@, texts(terms@)) } else { esc(row.title@) };
    assert(out@ =~= start + row_head(book@, *row) + t + "</div><div class=\"under\">"@ + row_under(*row) + "</div></a>"@);
}

fn push_none_shown(out: &mut String, book: &str, typed: &str, total: usize, shown: usize)
    ensures
        final(out)@ == old(out)@ + none_shown(book@, typed@, total as nat, shown as nat),
{
    let ghost start = out@;
    if total == 0 {
        push_str(out, "<div class=\"empty\"><b>No notes yet</b>Run <code>noda add \"First note\"</code> in a terminal to start one.</div>");
    } else {
        push_str(out, "<div class=\"empty\"");
        if shown > 0 {
            push_str(out, " hidden");
        }
        push_str(out, "><b>No notes match <span class=\"asked\">");
        push_esc(out, typed);
        push_str(out, "</span></b>This notebook holds ");
        push_plural(out, total, "note");
        push_str(out, ". <a href=\"/nb/");
        push_esc(out, book);
        push_str(out, "\">Clear the search</a> to see them.</div>");
    }
    assert(out@ =~= start + none_shown(book@, typed@, total as nat, shown as nat));
}

fn counted_of(typed: &str, total: usize, shown: usize) -> (r: String)
    ensures
        r@ == counted(typed@, total as nat, shown as nat),
{
    let mut out = String::new();
    if typed.is_empty() {
        push_count(&mut out, total);
    } else {
        push_count(&mut out, shown);
        push_str(&mut out, " of ");
        push_count(&mut out, total);
    }
    out
}

/// The index pane with rows. A note page sends it empty, since a phone never
/// draws it, and the pane script asks for this where it will be drawn.
#[verifier::rlimit(40)]
pub fn listing_pane(book: &str, rows: &[Row], asked: &Asked, order: Order, drift: &str) -> (r: String)
    ensures
        r@ == listing_pane_html(book@, rows@, *asked, order, drift@),
{
    let mut body = String::new();
    let mut shown: usize = 0;
    let mut i: usize = 0;
    while i < rows.len()
        invariant
            i <= rows.len(),
            shown == shown_of(rows@.subrange(0, i as int)),
            body@ == listed_rows(book@, rows@.subrange(0, i as int), texts(asked.terms@)),
        decreases rows.len() - i,
    {
        proof {
            let ghost done = rows@.subrange(0, i + 1);
            assert(done.drop_last() =~= rows@.subrange(0, i as int));
            lemma_shown_bound(rows@.subrange(0, i as int));
        }
        if rows[i].shown {
            shown = shown + 1;
        }
        push_listed_row(&mut body, book, &rows[i], asked.terms);
        i += 1;
    }
    assert(rows@.subrange(0, rows@.len() as int) =~= rows@);
    push_none_shown(&mut body, book, asked.typed, rows.len(), shown);
    let count = counted_of(asked.typed, rows.len(), shown);
    let mut out = String::new();
    push_index_pane(&mut out, book, asked, Some(order), count.as_str(), drift, body.as_str());
    proof { reveal(listing_pane_html); }
    out
}

/// The tab's title on a notebook's listing.
pub open spec fn listing_title(book: Seq<char>) -> Seq<char> {
    book + " — noda"@
}

fn listing_title_of(book: &str) -> (r: String)
    ensures
        r@ == listing_title(book@),
{
    let mut out = owned(book);
    push_str(&mut out, " — noda");
    out
}

/// Both of the listing's panes.
pub open spec fn listing_panes(book: Seq<char>, rows: Seq<Row>, asked: Asked, order: Order, drift: Seq<char>, front: Option<Seq<char>>) -> Seq<char> {
    listing_pane_html(book, rows, asked, order, drift) + front_pane(book, front)
}

fn listing_panes_of(book: &str, rows: &[Row], asked: &Asked, order: Order, drift: &str, front: Option<&str>) -> (r: String)
    ensures
        r@ == listing_panes(book@, rows@, *asked, order, drift@, opt_str(front)),
{
    let mut out = listing_pane(book, rows, asked, order, drift);
    push_front_pane(&mut out, book, front);
    out
}

/// A notebook's notes, narrowed by whatever was typed; `indexed`, as the rows
/// are in the markup.
pub open spec fn listing_page(book: Seq<char>, rows: Seq<Row>, asked: Asked, order: Order, drift: Seq<char>, front: Option<Seq<char>>) -> Seq<char> {
    dressed(listing_title(book), "split at-list indexed"@, None, seq![Asset::Listing, Asset::Panes, Asset::Beside, Asset::Stamps],
        listing_panes(book, rows, asked, order, drift, front) + notebook_bar(book, At::Notes))
}

/// A notebook's notes, narrowed by whatever was typed. `drift` is the chip
/// linking to the network screen.
pub fn listing(book: &str, rows: &[Row], asked: &Asked, order: Order, drift: &str, front: Option<&str>) -> (r: String)
    ensures
        r@ == listing_page(book@, rows@, *asked, order, drift@, opt_str(front)),
{
    let title = listing_title_of(book);
    let mut body = listing_panes_of(book, rows, asked, order, drift, front);
    push_notebook_bar(&mut body, book, At::Notes);
    let scripts = vec![Asset::Listing, Asset::Panes, Asset::Beside, Asset::Stamps];
    assert(scripts@ =~= seq![Asset::Listing, Asset::Panes, Asset::Beside, Asset::Stamps]);
    dress(title.as_str(), "split at-list indexed", None, &scripts, body.as_str())
}

/// Both panes and the title, for a screen going back to the listing from a
/// note in one round trip.
pub fn listing_screen(book: &str, rows: &[Row], asked: &Asked, order: Order, drift: &str, front: Option<&str>) -> (r: String)
    ensures
        r@ == titled(listing_title(book@)) + listing_panes(book@, rows@, *asked, order, drift@, opt_str(front)),
{
    let title = listing_title_of(book);
    let mut out = String::new();
    push_titled(&mut out, title.as_str());
    let panes = listing_panes_of(book, rows, asked, order, drift, front);
    push_str(&mut out, panes.as_str());
    out
}


/// `n / d` rounded to the nearest whole number, a tie to the even one.
pub open spec fn round_even(n: nat, d: nat) -> nat
    recommends
        d > 0,
{
    let q = n / d;
    let r = n % d;
    if 2 * r > d || (2 * r == d && q % 2 == 1) { q + 1 } else { q }
}

/// The spacing of the doubles around `b`: one below 2^53, doubling with each
/// power of two above it.
pub open spec fn spacing(b: nat) -> nat {
    if b < 0x20000000000000 { 1 }
    else if b < 0x40000000000000 { 2 }
    else if b < 0x80000000000000 { 4 }
    else if b < 0x100000000000000 { 8 }
    else if b < 0x200000000000000 { 16 }
    else if b < 0x400000000000000 { 32 }
    else if b < 0x800000000000000 { 64 }
    else if b < 0x1000000000000000 { 128 }
    else if b < 0x2000000000000000 { 256 }
    else if b < 0x4000000000000000 { 512 }
    else if b < 0x8000000000000000 { 1024 }
    else { 2048 }
}

/// `b` as the nearest double, ties to even, as `as f64` converts a `u64`.
pub open spec fn double_of(b: nat) -> nat {
    round_even(b, spacing(b)) * spacing(b)
}

/// A size in tenths as one decimal place: `15` is `1.5`.
pub open spec fn tenths(t: nat) -> Seq<char> {
    decimal(t / 10) + "."@ + decimal(t % 10)
}

/// Powers of two and one decimal place, as file managers show it: the size as
/// a double, divided (exactly) by the unit and rounded to a tenth, a tie to
/// the even tenth, as the standard formatter writes `{:.1}`.
pub open spec fn size_text(b: nat) -> Seq<char> {
    if b < 1024 {
        decimal(b) + " B"@
    } else if b < 1048576 {
        tenths(round_even(b * 10, 1024)) + " KB"@
    } else if b < 1073741824 {
        tenths(round_even(b * 10, 1048576)) + " MB"@
    } else {
        tenths(round_even(double_of(b) * 10, 1073741824)) + " GB"@
    }
}

fn round_even_of(n: u128, d: u128) -> (r: u128)
    requires
        0 < d <= 1073741824,
        n < 0x1000000000000000000000000,
    ensures
        r == round_even(n as nat, d as nat),
        r <= n / d + 1,
{
    let q = n / d;
    let r = n % d;
    if 2 * r > d || (2 * r == d && q % 2 == 1) { q + 1 } else { q }
}

fn spacing_of(b: u64) -> (r: u128)
    ensures
        r == spacing(b as nat),
        1 <= r <= 2048,
{
    if b < 0x20000000000000 { 1 }
    else if b < 0x40000000000000 { 2 }
    else if b < 0x80000000000000 { 4 }
    else if b < 0x100000000000000 { 8 }
    else if b < 0x200000000000000 { 16 }
    else if b < 0x400000000000000 { 32 }
    else if b < 0x800000000000000 { 64 }
    else if b < 0x1000000000000000 { 128 }
    else if b < 0x2000000000000000 { 256 }
    else if b < 0x4000000000000000 { 512 }
    else if b < 0x8000000000000000 { 1024 }
    else { 2048 }
}

proof fn lemma_rounded_bound(n: nat, d: nat, q: nat)
    requires
        1 <= d <= 2048,
        n < 0x10000000000000000,
        q <= n / d + 1,
    ensures
        q * d <= 0x10000000000000000 + 2048,
{
    assert((n / d) * d <= n) by (nonlinear_arith)
        requires
            d > 0;
    assert(q * d <= (n / d + 1) * d) by (nonlinear_arith)
        requires
            q <= n / d + 1,
            d > 0;
    assert((n / d + 1) * d == (n / d) * d + d) by (nonlinear_arith);
}

proof fn lemma_tenths_bound(n: nat, d: nat, t: nat)
    requires
        d >= 1024,
        n <= (0x10000000000000000 + 2048) * 10,
        t <= n / d + 1,
    ensures
        t / 10 < 0x10000000000000000,
{
    assert(n / d <= n / 1024) by (nonlinear_arith)
        requires
            d >= 1024;
}

fn push_tenths(out: &mut String, t: u128)
    requires
        t / 10 < 0x10000000000000000,
    ensures
        final(out)@ == old(out)@ + tenths(t as nat),
{
    let whole = decimal_of((t / 10) as u64);
    push_str(out, whole.as_str());
    push_str(out, ".");
    let part = decimal_of((t % 10) as u64);
    push_str(out, part.as_str());
}

/// A file's size as the files page says it.
pub fn size(bytes: u64) -> (r: String)
    ensures
        r@ == size_text(bytes as nat),
{
    let mut out = String::new();
    if bytes < 1024 {
        let n = decimal_of(bytes);
        push_str(&mut out, n.as_str());
        push_str(&mut out, " B");
        return out;
    }
    let value: u128 = if bytes < 1073741824 {
        bytes as u128
    } else {
        let unit = spacing_of(bytes);
        let rounded = round_even_of(bytes as u128, unit);
        proof { lemma_rounded_bound(bytes as nat, unit as nat, rounded as nat); }
        rounded * unit
    };
    let (divisor, name): (u128, &str) = if bytes < 1048576 {
        (1024, " KB")
    } else if bytes < 1073741824 {
        (1048576, " MB")
    } else {
        (1073741824, " GB")
    };
    let t = round_even_of(value * 10, divisor);
    proof { lemma_tenths_bound((value * 10) as nat, divisor as nat, t as nat); }
    push_tenths(&mut out, t);
    push_str(&mut out, name);
    out
}


/// One of the notebook's screens: the way back, its name and count, the rows
/// laid out as `laid` says, and the bar.
pub open spec fn screen(book: Seq<char>, name: Seq<char>, count: nat, laid: Seq<char>, body: Seq<char>, here: At) -> Seq<char> {
    "<section class=\"pane\"><header class=\"topbar\">"@ + back(home(book), book) + "<span class=\"here\">"@ + name
        + "</span><span class=\"count\">"@ + decimal(count) + "</span></header><main class=\""@ + laid + "\">"@ + body
        + "</main></section>"@ + notebook_bar(book, here)
}

fn push_screen(out: &mut String, book: &str, name: &str, count: usize, laid: &str, body: &str, here: At)
    ensures
        final(out)@ == old(out)@ + screen(book@, name@, count as nat, laid@, body@, here),
{
    let ghost start = out@;
    push_str(out, "<section class=\"pane\"><header class=\"topbar\">");
    let at = home_of(book);
    push_back(out, at.as_str(), book);
    push_str(out, "<span class=\"here\">");
    push_str(out, name);
    push_str(out, "</span><span class=\"count\">");
    push_count(out, count);
    push_str(out, "</span></header><main class=\"");
    push_str(out, laid);
    push_str(out, "\">");
    push_str(out, body);
    push_str(out, "</main></section>");
    push_notebook_bar(out, book, here);
    assert(out@ =~= start + screen(book@, name@, count as nat, laid@, body@, here));
}

/// A screen's tab title: `Files — work — noda`.
pub open spec fn screen_title(name: Seq<char>, book: Seq<char>) -> Seq<char> {
    name + " — "@ + book + " — noda"@
}

fn screen_title_of(name: &str, book: &str) -> (r: String)
    ensures
        r@ == screen_title(name@, book@),
{
    let mut out = owned(name);
    push_str(&mut out, " — ");
    push_str(&mut out, book);
    push_str(&mut out, " — noda");
    out
}

/// Side by side, since links cannot nest: the row goes to the file, the count
/// to its backlinks. Zero is not a link.
pub open spec fn file_row(book: Seq<char>, file: Held) -> Seq<char> {
    "<div class=\"row split\"><a class=\"most\" href=\"/nb/"@ + esc(book) + "/f/"@ + esc(file.name@)
        + "\"><div class=\"title mono\">"@ + esc(file.name@) + "</div><div class=\"under\">"@ + size_text(file.size as nat)
        + SEP@ + esc(file.kind@) + "</div></a>"@
        + (if file.used == 0 {
            "<span class=\"aside\">nothing links to it</span>"@
        } else {
            "<a class=\"aside\" href=\"/nb/"@ + esc(book) + "/f/"@ + esc(file.name@) + "/backlinks\">in "@
                + plural(file.used as nat, "note"@) + "</a>"@
        }) + "</div>"@
}

pub open spec fn file_rows(book: Seq<char>, files: Seq<Held>) -> Seq<char>
    decreases files.len(),
{
    if files.len() == 0 {
        Seq::empty()
    } else {
        file_rows(book, files.drop_last()) + file_row(book, files.last())
    }
}

/// One row per file: size, type and how many notes point at it. Columns only
/// when there are rows: the empty sentence poured into columns would arrive as
/// fragments with a rule through them.
pub open spec fn files_page(book: Seq<char>, files: Seq<Held>) -> Seq<char> {
    let (laid, body) = if files.len() == 0 {
        ("rows"@, "<div class=\"empty\"><b>No files yet</b>Run <code>noda file add diagram.png</code> in a terminal to put one here.</div>"@)
    } else {
        ("rows cols wide"@, file_rows(book, files))
    };
    shell(screen_title("Files"@, book), Seq::empty(), screen(book, "Files"@, files.len(), laid, body, At::Files))
}

#[verifier::spinoff_prover]
#[verifier::rlimit(40)]
fn push_file_row(out: &mut String, book: &str, file: &Held)
    ensures
        final(out)@ == old(out)@ + file_row(book@, *file),
{
    let ghost start = out@;
    push_str(out, "<div class=\"row split\"><a class=\"most\" href=\"/nb/");
    push_esc(out, book);
    push_str(out, "/f/");
    push_esc(out, file.name.as_str());
    push_str(out, "\"><div class=\"title mono\">");
    push_esc(out, file.name.as_str());
    push_str(out, "</div><div class=\"under\">");
    let s = size(file.size);
    push_str(out, s.as_str());
    push_str(out, SEP);
    push_esc(out, file.kind.as_str());
    push_str(out, "</div></a>");
    let ghost mid = out@;
    if file.used == 0 {
        push_str(out, "<span class=\"aside\">nothing links to it</span>");
    } else {
        push_str(out, "<a class=\"aside\" href=\"/nb/");
        push_esc(out, book);
        push_str(out, "/f/");
        push_esc(out, file.name.as_str());
        push_str(out, "/backlinks\">in ");
        push_plural(out, file.used, "note");
        push_str(out, "</a>");
    }
    push_str(out, "</div>");
    assert(out@ =~= start + file_row(book@, *file));
}

/// What the notebook holds that is not a note.
pub fn files(book: &str, held: &[Held]) -> (r: String)
    ensures
        r@ == files_page(book@, held@),
{
    let mut body = String::new();
    let mut i: usize = 0;
    while i < held.len()
        invariant
            i <= held.len(),
            body@ == file_rows(book@, held@.subrange(0, i as int)),
        decreases held.len() - i,
    {
        proof {
            assert(held@.subrange(0, i + 1).drop_last() =~= held@.subrange(0, i as int));
        }
        push_file_row(&mut body, book, &held[i]);
        i += 1;
    }
    assert(held@.subrange(0, held@.len() as int) =~= held@);
    let laid = if held.len() == 0 {
        body = owned("<div class=\"empty\"><b>No files yet</b>Run <code>noda file add diagram.png</code> in a terminal to put one here.</div>");
        "rows"
    } else {
        "rows cols wide"
    };
    let mut page = String::new();
    push_screen(&mut page, book, "Files", held.len(), laid, body.as_str(), At::Files);
    let title = screen_title_of("Files", book);
    proof { reveal_strlit(""); }
    shell_of(title.as_str(), "", page.as_str())
}

/// A tag, linking to the listing narrowed to it; the query is quoted where the
/// tag has a space, then made safe for the address, then for the attribute.
pub open spec fn tag_row(book: Seq<char>, tally: Tally) -> Seq<char> {
    "<a class=\"row\" href=\"/nb/"@ + esc(book) + "?q="@ + esc(percent(utf8(crate::query::scoped_query(tally.tag@))))
        + "\"><div class=\"name tags\">"@ + esc(tally.tag@) + "</div><div class=\"under\"><span class=\"when\">"@
        + plural(tally.notes as nat, "note"@) + "</span></div></a>"@
}

pub open spec fn tag_rows(book: Seq<char>, tallies: Seq<Tally>) -> Seq<char>
    decreases tallies.len(),
{
    if tallies.len() == 0 {
        Seq::empty()
    } else {
        tag_rows(book, tallies.drop_last()) + tag_row(book, tallies.last())
    }
}

/// Tags commonest first, alphabetical within a count (as the caller orders
/// them), each linking to the listing narrowed to it.
pub open spec fn tags_page(book: Seq<char>, tallies: Seq<Tally>) -> Seq<char> {
    let (laid, body) = if tallies.len() == 0 {
        ("rows"@, "<div class=\"empty\"><b>No tags yet</b>Tags come from a note's frontmatter. Open a note and press Tags to add one.</div>"@)
    } else {
        ("rows cols"@, tag_rows(book, tallies))
    };
    shell(screen_title("Tags"@, book), Seq::empty(), screen(book, "Tags"@, tallies.len(), laid, body, At::Tags))
}

fn push_tag_row(out: &mut String, book: &str, tally: &Tally)
    ensures
        final(out)@ == old(out)@ + tag_row(book@, *tally),
{
    let ghost start = out@;
    push_str(out, "<a class=\"row\" href=\"/nb/");
    push_esc(out, book);
    push_str(out, "?q=");
    let query = crate::query::scoped(tally.tag.as_str());
    let address = encoded(query.as_str());
    push_esc(out, address.as_str());
    push_str(out, "\"><div class=\"name tags\">");
    push_esc(out, tally.tag.as_str());
    push_str(out, "</div><div class=\"under\"><span class=\"when\">");
    push_plural(out, tally.notes, "note");
    push_str(out, "</span></div></a>");
    assert(out@ =~= start + tag_row(book@, *tally));
}

/// The notebook's tags, each with how many notes carry it.
pub fn tags(book: &str, tallies: &[Tally]) -> (r: String)
    ensures
        r@ == tags_page(book@, tallies@),
{
    let mut body = String::new();
    let mut i: usize = 0;
    while i < tallies.len()
        invariant
            i <= tallies.len(),
            body@ == tag_rows(book@, tallies@.subrange(0, i as int)),
        decreases tallies.len() - i,
    {
        proof {
            assert(tallies@.subrange(0, i + 1).drop_last() =~= tallies@.subrange(0, i as int));
        }
        push_tag_row(&mut body, book, &tallies[i]);
        i += 1;
    }
    assert(tallies@.subrange(0, tallies@.len() as int) =~= tallies@);
    let laid = if tallies.len() == 0 {
        body = owned("<div class=\"empty\"><b>No tags yet</b>Tags come from a note's frontmatter. Open a note and press Tags to add one.</div>");
        "rows"
    } else {
        "rows cols"
    };
    let mut page = String::new();
    push_screen(&mut page, book, "Tags", tallies.len(), laid, body.as_str(), At::Tags);
    let title = screen_title_of("Tags", book);
    proof { reveal_strlit(""); }
    shell_of(title.as_str(), "", page.as_str())
}

/// When an item is due: red once it is past.
pub open spec fn due_of(task: Task) -> Seq<char> {
    match task.due {
        Some(due) => if task.overdue {
            "<span class=\"overdue\">"@ + esc(due@) + "</span>"@
        } else {
            "<span class=\"when\">"@ + esc(due@) + "</span>"@
        },
        None => Seq::empty(),
    }
}

/// An item, named by its note's title; the row goes to the note, since an
/// item has no stable address of its own.
pub open spec fn task_row(book: Seq<char>, task: Task) -> Seq<char> {
    "<a class=\"row\" href=\"/nb/"@ + esc(book) + "/n/"@ + esc(task.id@) + "\"><div class=\"title\">"@ + esc(task.text@)
        + "</div><div class=\"under\">"@
        + beside(due_of(task), SEP@, "<span class=\"in\">"@ + esc(task.title@) + "</span>"@) + "</div></a>"@
}

pub open spec fn task_rows(book: Seq<char>, tasks: Seq<Task>) -> Seq<char>
    decreases tasks.len(),
{
    if tasks.len() == 0 {
        Seq::empty()
    } else {
        task_rows(book, tasks.drop_last()) + task_row(book, tasks.last())
    }
}

/// Everything in the notebook that is not done, in the order `noda todo`
/// gives it.
pub open spec fn todo_page(book: Seq<char>, tasks: Seq<Task>) -> Seq<char> {
    let body = if tasks.len() == 0 {
        "<div class=\"empty\"><b>Nothing to do</b>An unticked <code>- [ ]</code> in any note turns up here, with a <code>due:2026-08-20</code> if you give it one.</div>"@
    } else {
        task_rows(book, tasks)
    };
    shell(screen_title("Todo"@, book), Seq::empty(), screen(book, "Todo"@, tasks.len(), "rows"@, body, At::Todo))
}

fn push_task_row(out: &mut String, book: &str, task: &Task)
    ensures
        final(out)@ == old(out)@ + task_row(book@, *task),
{
    let ghost start = out@;
    push_str(out, "<a class=\"row\" href=\"/nb/");
    push_esc(out, book);
    push_str(out, "/n/");
    push_esc(out, task.id.as_str());
    push_str(out, "\"><div class=\"title\">");
    push_esc(out, task.text.as_str());
    push_str(out, "</div><div class=\"under\">");
    let mut under = String::new();
    match &task.due {
        Some(due) => {
            if task.overdue {
                push_str(&mut under, "<span class=\"overdue\">");
            } else {
                push_str(&mut under, "<span class=\"when\">");
            }
            push_esc(&mut under, due.as_str());
            push_str(&mut under, "</span>");
        },
        None => {},
    }
    assert(under@ =~= due_of(*task));
    let mut title = String::new();
    push_str(&mut title, "<span class=\"in\">");
    push_esc(&mut title, task.title.as_str());
    push_str(&mut title, "</span>");
    push_beside(&mut under, SEP, title.as_str());
    push_str(out, under.as_str());
    push_str(out, "</div></a>");
    assert(out@ =~= start + task_row(book@, *task));
}

/// No box can be ticked here: an item has no stable address (line numbers
/// move, text collides), and giving it an id would make the file noda-only.
pub fn todo(book: &str, tasks: &[Task]) -> (r: String)
    ensures
        r@ == todo_page(book@, tasks@),
{
    let mut body = String::new();
    let mut i: usize = 0;
    while i < tasks.len()
        invariant
            i <= tasks.len(),
            body@ == task_rows(book@, tasks@.subrange(0, i as int)),
        decreases tasks.len() - i,
    {
        proof {
            assert(tasks@.subrange(0, i + 1).drop_last() =~= tasks@.subrange(0, i as int));
        }
        push_task_row(&mut body, book, &tasks[i]);
        i += 1;
    }
    assert(tasks@.subrange(0, tasks@.len() as int) =~= tasks@);
    if tasks.len() == 0 {
        body = owned("<div class=\"empty\"><b>Nothing to do</b>An unticked <code>- [ ]</code> in any note turns up here, with a <code>due:2026-08-20</code> if you give it one.</div>");
    }
    let mut page = String::new();
    push_screen(&mut page, book, "Todo", tasks.len(), "rows", body.as_str(), At::Todo);
    let title = screen_title_of("Todo", book);
    proof { reveal_strlit(""); }
    shell_of(title.as_str(), "", page.as_str())
}

/// A note that links here, with its tags.
pub open spec fn link_row(book: Seq<char>, row: Row) -> Seq<char> {
    "<a class=\"row\" href=\"/nb/"@ + esc(book) + "/n/"@ + esc(row.id@) + "\"><div class=\"title\">"@ + esc(row.title@)
        + "</div><div class=\"under\">"@ + tag_line(texts(row.tags@)) + "</div></a>"@
}

pub open spec fn link_rows(book: Seq<char>, rows: Seq<Row>) -> Seq<char>
    decreases rows.len(),
{
    if rows.len() == 0 {
        Seq::empty()
    } else {
        link_rows(book, rows.drop_last()) + link_row(book, rows.last())
    }
}

/// The part of the backlinks page a wide screen fetches, per note read, to
/// rebuild the rows in the margin.
pub open spec fn backlinks_part(book: Seq<char>, subject: Subject, rows: Seq<Row>) -> Seq<char> {
    let body = if rows.len() == 0 {
        "<div class=\"empty\"><b>Nothing links here</b>No note in "@ + esc(book) + " points at "@ + esc(subject.what@)
            + ".</div>"@
    } else {
        link_rows(book, rows)
    };
    "<main class=\"rows\"><p class=\"said\">What links to <span class=\""@
        + (if subject.mono { "mono"@ } else { "subject"@ }) + "\">"@ + esc(subject.what@) + "</span></p>"@ + body
        + "</main>"@
}

fn push_link_row(out: &mut String, book: &str, row: &Row)
    ensures
        final(out)@ == old(out)@ + link_row(book@, *row),
{
    let ghost start = out@;
    push_str(out, "<a class=\"row\" href=\"/nb/");
    push_esc(out, book);
    push_str(out, "/n/");
    push_esc(out, row.id.as_str());
    push_str(out, "\"><div class=\"title\">");
    push_esc(out, row.title.as_str());
    push_str(out, "</div><div class=\"under\">");
    push_tag_line(out, &row.tags);
    push_str(out, "</div></a>");
    assert(out@ =~= start + link_row(book@, *row));
}

/// What links to a note or a file: the rows, under a line naming it.
pub fn backlinks_rows(book: &str, subject: &Subject, rows: &[Row]) -> (r: String)
    ensures
        r@ == backlinks_part(book@, *subject, rows@),
{
    let mut body = String::new();
    let mut i: usize = 0;
    while i < rows.len()
        invariant
            i <= rows.len(),
            body@ == link_rows(book@, rows@.subrange(0, i as int)),
        decreases rows.len() - i,
    {
        proof {
            assert(rows@.subrange(0, i + 1).drop_last() =~= rows@.subrange(0, i as int));
        }
        push_link_row(&mut body, book, &rows[i]);
        i += 1;
    }
    assert(rows@.subrange(0, rows@.len() as int) =~= rows@);
    if rows.len() == 0 {
        body = String::new();
        push_str(&mut body, "<div class=\"empty\"><b>Nothing links here</b>No note in ");
        push_esc(&mut body, book);
        push_str(&mut body, " points at ");
        push_esc(&mut body, subject.what.as_str());
        push_str(&mut body, ".</div>");
    }
    let mut out = String::new();
    push_str(&mut out, "<main class=\"rows\"><p class=\"said\">What links to <span class=\"");
    if subject.mono {
        push_str(&mut out, "mono");
    } else {
        push_str(&mut out, "subject");
    }
    push_str(&mut out, "\">");
    push_esc(&mut out, subject.what.as_str());
    push_str(&mut out, "</span></p>");
    push_str(&mut out, body.as_str());
    push_str(&mut out, "</main>");
    out
}

/// What links to a note, or to one of the notebook's files. Inbound only: what
/// a note points at is already in the note.
pub open spec fn backlinks_page(book: Seq<char>, subject: Subject, rows: Seq<Row>) -> Seq<char> {
    shell("Links to "@ + subject.what@ + " — noda"@, Seq::empty(),
        "<section class=\"pane\"><header class=\"topbar\">"@ + back(subject.at@, subject.what@)
            + "<span class=\"here\">Backlinks</span><span class=\"count\">"@ + decimal(rows.len())
            + "</span></header>"@ + backlinks_part(book, subject, rows) + "</section>"@)
}

pub fn backlinks(book: &str, subject: &Subject, rows: &[Row]) -> (r: String)
    ensures
        r@ == backlinks_page(book@, *subject, rows@),
{
    let mut page = String::new();
    push_str(&mut page, "<section class=\"pane\"><header class=\"topbar\">");
    push_back(&mut page, subject.at.as_str(), subject.what.as_str());
    push_str(&mut page, "<span class=\"here\">Backlinks</span><span class=\"count\">");
    push_count(&mut page, rows.len());
    push_str(&mut page, "</span></header>");
    let part = backlinks_rows(book, subject, rows);
    push_str(&mut page, part.as_str());
    push_str(&mut page, "</section>");
    let mut title = owned("Links to ");
    push_str(&mut title, subject.what.as_str());
    push_str(&mut title, " — noda");
    proof { reveal_strlit(""); }
    shell_of(title.as_str(), "", page.as_str())
}


/// A note's facts under its title: tags, then the two stamps, those it has.
pub open spec fn note_meta(reading: Reading) -> Seq<char> {
    beside(beside(tag_line(texts(reading.tags@)), SEP@, stamp("created"@, opt_text(reading.created))), SEP@,
        stamp("updated"@, opt_text(reading.updated)))
}

/// The box for the backlinks a wide screen shows in the margin, filled by the
/// script where it shows; a scriptless reader has the Links button.
pub const BESIDE: &'static str = "<aside class=\"beside\" hidden><div class=\"pane-head\">Backlinks</div><div class=\"answer\"></div></aside>";

/// Things to do to the note, so none is marked current. Pin is labelled with
/// what a press does, and is the one item that writes without a page in
/// between: it is undone by pressing it again.
pub open spec fn note_bar(at: Seq<char>, pinned: bool) -> Seq<char> {
    "<nav class=\"actionbar\">"@ + go_item(EDIT@, "Edit"@, at + "/edit"@, Mark::Plain)
        + go_item(TAGS@, "Tags"@, at + "/tags"@, Mark::Plain) + go_item(RENAME@, "Rename"@, at + "/rename"@, Mark::Plain)
        + go_item(LINKS@, "Links"@, at + "/backlinks"@, Mark::Plain)
        + (if pinned {
            post_item(PIN@, "Unpin"@, at + "/unpin"@, "pin"@, Mark::Plain)
        } else {
            post_item(PIN@, "Pin"@, at + "/pin"@, "pin"@, Mark::Plain)
        }) + go_item(TRASH@, "Delete"@, at + "/delete"@, Mark::Danger) + "</nav>"@
}

/// The reading pane: the note's head, its body (already markup), the margin
/// box and the bar.
/// The note's file named as on disk: `<id>-<slug>.md`, in three spans.
pub open spec fn filename(reading: Reading) -> Seq<char> {
    "<span class=\"id\">"@ + esc(reading.id@) + "</span><span class=\"slug\">-"@
        + esc(reading.slug@) + "</span><span class=\"ext\">.md</span>"@
}

pub open spec fn read_pane(book: Seq<char>, reading: Reading) -> Seq<char> {
    "<section class=\"pane read\"><header class=\"topbar\">"@ + back(home(book), book) + "<span class=\"here\">"@
        + esc(reading.title@) + "</span></header><main class=\"note\"><div class=\"note-head\"><h1>"@ + esc(reading.title@)
        + "</h1><div class=\"filename\">"@ + filename(reading) + "</div><div class=\"note-meta\">"@ + note_meta(reading)
        + "</div></div><div class=\"body\">"@ + reading.rendered@ + "</div>"@ + BESIDE@ + "</main>"@
        + note_bar(about_at(book, reading.id@), reading.pinned) + "</section>"@
}

fn note_meta_of(reading: &Reading) -> (r: String)
    ensures
        r@ == note_meta(*reading),
{
    let mut out = String::new();
    push_tag_line(&mut out, &reading.tags);
    let mut created = String::new();
    let c = copy_opt(&reading.created);
    let cs: Option<&str> = match &c {
        Some(v) => Some(v.as_str()),
        None => None,
    };
    push_stamp(&mut created, "created", cs);
    push_beside(&mut out, SEP, created.as_str());
    let mut updated = String::new();
    let u = copy_opt(&reading.updated);
    let us: Option<&str> = match &u {
        Some(v) => Some(v.as_str()),
        None => None,
    };
    push_stamp(&mut updated, "updated", us);
    push_beside(&mut out, SEP, updated.as_str());
    out
}

fn push_note_bar(out: &mut String, at: &String, pinned: bool)
    ensures
        final(out)@ == old(out)@ + note_bar(at@, pinned),
{
    let ghost start = out@;
    push_str(out, "<nav class=\"actionbar\">");
    let edit = with_tail(at, "/edit");
    push_go(out, EDIT, "Edit", edit.as_str(), Mark::Plain);
    let tags = with_tail(at, "/tags");
    push_go(out, TAGS, "Tags", tags.as_str(), Mark::Plain);
    let rename = with_tail(at, "/rename");
    push_go(out, RENAME, "Rename", rename.as_str(), Mark::Plain);
    let links = with_tail(at, "/backlinks");
    push_go(out, LINKS, "Links", links.as_str(), Mark::Plain);
    if pinned {
        let to = with_tail(at, "/unpin");
        push_post(out, PIN, "Unpin", to.as_str(), "pin", Mark::Plain);
    } else {
        let to = with_tail(at, "/pin");
        push_post(out, PIN, "Pin", to.as_str(), "pin", Mark::Plain);
    }
    let delete = with_tail(at, "/delete");
    push_go(out, TRASH, "Delete", delete.as_str(), Mark::Danger);
    push_str(out, "</nav>");
    assert(out@ =~= start + note_bar(at@, pinned));
}

fn push_filename(out: &mut String, reading: &Reading)
    ensures
        final(out)@ == old(out)@ + filename(*reading),
{
    let ghost start = out@;
    push_str(out, "<span class=\"id\">");
    push_esc(out, reading.id.as_str());
    push_str(out, "</span><span class=\"slug\">-");
    push_esc(out, reading.slug.as_str());
    push_str(out, "</span><span class=\"ext\">.md</span>");
    assert(out@ =~= start + filename(*reading));
}

#[verifier::spinoff_prover]
#[verifier::rlimit(40)]
fn push_read_pane(out: &mut String, book: &str, reading: &Reading)
    ensures
        final(out)@ == old(out)@ + read_pane(book@, *reading),
{
    let ghost start = out@;
    push_str(out, "<section class=\"pane read\"><header class=\"topbar\">");
    let home = home_of(book);
    push_back(out, home.as_str(), book);
    push_str(out, "<span class=\"here\">");
    push_esc(out, reading.title.as_str());
    push_str(out, "</span></header><main class=\"note\"><div class=\"note-head\"><h1>");
    push_esc(out, reading.title.as_str());
    push_str(out, "</h1><div class=\"filename\">");
    push_filename(out, reading);
    push_str(out, "</div><div class=\"note-meta\">");
    let meta = note_meta_of(reading);
    push_str(out, meta.as_str());
    push_str(out, "</div></div><div class=\"body\">");
    push_str(out, reading.rendered.as_str());
    push_str(out, "</div>");
    push_str(out, BESIDE);
    push_str(out, "</main>");
    let mut at = String::new();
    push_about_at(&mut at, book, reading.id.as_str());
    push_note_bar(out, &at, reading.pinned);
    push_str(out, "</section>");
    assert(out@ =~= start + read_pane(book@, *reading));
}

/// A note's tab title.
pub open spec fn note_title(reading: Reading) -> Seq<char> {
    reading.title@ + " — noda"@
}

fn note_title_of(reading: &Reading) -> (r: String)
    ensures
        r@ == note_title(*reading),
{
    let mut out = owned(reading.title.as_str());
    push_str(&mut out, " — noda");
    out
}

/// One note, and on a wide enough screen the listing it came from. The index
/// pane is sent empty, since none of it is drawn below 1024px; the pane script
/// fetches it where the column shows.
pub open spec fn note_page(book: Seq<char>, reading: Reading, drift: Seq<char>) -> Seq<char> {
    dressed(note_title(reading), "split at-note"@, None, seq![Asset::Panes, Asset::Beside, Asset::Stamps],
        index_pane(book, Seq::empty(), Seq::empty(), None, None, Seq::empty(), drift, Seq::empty()) + read_pane(book, reading)
            + notebook_bar(book, At::Notes))
}

pub fn note(book: &str, reading: &Reading, drift: &str) -> (r: String)
    ensures
        r@ == note_page(book@, *reading, drift@),
{
    let nothing = Asked::nothing();
    let mut body = String::new();
    proof { reveal_strlit(""); }
    push_index_pane(&mut body, book, &nothing, None, "", drift, "");
    assert(nothing.grouping@ =~= Seq::<Vec<String>>::empty());
    push_read_pane(&mut body, book, reading);
    push_notebook_bar(&mut body, book, At::Notes);
    let title = note_title_of(reading);
    let scripts = vec![Asset::Panes, Asset::Beside, Asset::Stamps];
    assert(scripts@ =~= seq![Asset::Panes, Asset::Beside, Asset::Stamps]);
    dress(title.as_str(), "split at-note", None, &scripts, body.as_str())
}

/// The same note, for a reader who already has the page around it: all a
/// swap uses.
pub fn note_pane(book: &str, reading: &Reading) -> (r: String)
    ensures
        r@ == titled(note_title(*reading)) + read_pane(book@, *reading),
{
    let mut out = String::new();
    let title = note_title_of(reading);
    push_titled(&mut out, title.as_str());
    push_read_pane(&mut out, book, reading);
    out
}

/// Why a change was refused, said where the change was typed.
pub open spec fn refusal(problem: Option<Seq<char>>) -> Seq<char> {
    match problem {
        Some(why) => "<p class=\"said bad\">"@ + esc(why) + "</p>"@,
        None => Seq::empty(),
    }
}

fn push_refusal(out: &mut String, problem: Option<&str>)
    ensures
        final(out)@ == old(out)@ + refusal(opt_str(problem)),
{
    let ghost start = out@;
    match problem {
        Some(why) => {
            push_str(out, "<p class=\"said bad\">");
            push_esc(out, why);
            push_str(out, "</p>");
        },
        None => {},
    }
    assert(out@ =~= start + refusal(opt_str(problem)));
}

/// A bar with a way back, an optional line saying what went wrong, and the
/// form, both inside `<main>`, which the wide layout caps to a column.
pub open spec fn laid_out(book: Seq<char>, title: Seq<char>, back_to: Seq<char>, said: Seq<char>, form: Seq<char>, scripts: Seq<Asset>) -> Seq<char> {
    dressed(title + " — noda"@, Seq::empty(), None, scripts,
        "<section class=\"pane\"><header class=\"topbar\">"@ + back(back_to, book) + "<span class=\"here\">"@ + esc(title)
            + "</span></header><main>"@ + said + form + "</main></section>"@)
}

fn lay_out(book: &str, title: &str, back_to: &str, said: &str, form: &str, scripts: &Vec<Asset>) -> (r: String)
    ensures
        r@ == laid_out(book@, title@, back_to@, said@, form@, scripts@),
{
    let mut body = String::new();
    push_str(&mut body, "<section class=\"pane\"><header class=\"topbar\">");
    push_back(&mut body, back_to, book);
    push_str(&mut body, "<span class=\"here\">");
    push_esc(&mut body, title);
    push_str(&mut body, "</span></header><main>");
    push_str(&mut body, said);
    push_str(&mut body, form);
    push_str(&mut body, "</main></section>");
    let mut full = owned(title);
    push_str(&mut full, " — noda");
    proof { reveal_strlit(""); }
    dress(full.as_str(), "", None, scripts, body.as_str())
}

/// A form page.
fn form_page(book: &str, title: &str, back_to: &str, said: &str, form: &str) -> (r: String)
    ensures
        r@ == laid_out(book@, title@, back_to@, said@, form@, Seq::empty()),
{
    let none: Vec<Asset> = Vec::new();
    lay_out(book, title, back_to, said, form, &none)
}

/// A form page that also listens for the note moving under it: the three that
/// carry a fingerprint.
fn watching_form_page(book: &str, title: &str, back_to: &str, said: &str, form: &str) -> (r: String)
    ensures
        r@ == laid_out(book@, title@, back_to@, said@, form@, seq![Asset::Watching]),
{
    let scripts = vec![Asset::Watching];
    assert(scripts@ =~= seq![Asset::Watching]);
    lay_out(book, title, back_to, said, form, &scripts)
}

/// The form a new note is written in, holding what was typed.
pub open spec fn compose_form(book: Seq<char>, draft: Draft) -> Seq<char> {
    "<form class=\"write\" method=\"post\" action=\"/nb/"@ + esc(book)
        + "/new\"><div><label for=\"t\">Title</label><input id=\"t\" type=\"text\" name=\"title\" value=\""@ + esc(draft.title@)
        + "\" placeholder=\"Leave it empty to take the first line\"></div><div><label for=\"g\">Tags</label><input id=\"g\" type=\"text\" name=\"tags\" value=\""@
        + esc(draft.tags@)
        + "\" placeholder=\"work q3\"></div><div><label for=\"b\">Note</label><textarea id=\"b\" name=\"body\" autofocus>"@
        + esc(draft.body@)
        + "</textarea></div><div class=\"buttons\"><button class=\"go\" type=\"submit\">Add note</button><a class=\"button\" href=\"/nb/"@
        + esc(book) + "\">Cancel</a></div></form>"@
}

/// A new note.
pub fn composing(book: &str, draft: &Draft, problem: Option<&str>) -> (r: String)
    ensures
        r@ == laid_out(book@, "New note"@, home(book@), refusal(opt_str(problem)), compose_form(book@, *draft), Seq::empty()),
{
    let mut form = String::new();
    push_str(&mut form, "<form class=\"write\" method=\"post\" action=\"/nb/");
    push_esc(&mut form, book);
    push_str(&mut form, "/new\"><div><label for=\"t\">Title</label><input id=\"t\" type=\"text\" name=\"title\" value=\"");
    push_esc(&mut form, draft.title.as_str());
    push_str(&mut form, "\" placeholder=\"Leave it empty to take the first line\"></div><div><label for=\"g\">Tags</label><input id=\"g\" type=\"text\" name=\"tags\" value=\"");
    push_esc(&mut form, draft.tags.as_str());
    push_str(&mut form, "\" placeholder=\"work q3\"></div><div><label for=\"b\">Note</label><textarea id=\"b\" name=\"body\" autofocus>");
    push_esc(&mut form, draft.body.as_str());
    push_str(&mut form, "</textarea></div><div class=\"buttons\"><button class=\"go\" type=\"submit\">Add note</button><a class=\"button\" href=\"/nb/");
    push_esc(&mut form, book);
    push_str(&mut form, "\">Cancel</a></div></form>");
    let mut said = String::new();
    push_refusal(&mut said, problem);
    let back_to = home_of(book);
    form_page(book, "New note", back_to.as_str(), said.as_str(), form.as_str())
}

/// The form a body is edited in: the fingerprint the file had when the page
/// was drawn rides along, so the write can tell whether anything happened
/// since.
pub open spec fn edit_form(at: Seq<char>, fingerprint: Seq<char>, body: Seq<char>) -> Seq<char> {
    "<form class=\"write\" method=\"post\" action=\""@ + at + "/edit\"><input type=\"hidden\" name=\"fingerprint\" value=\""@
        + esc(fingerprint) + "\"><div><textarea name=\"body\" autofocus>"@ + esc(body)
        + "</textarea></div><div class=\"buttons\"><button class=\"go\" type=\"submit\">Save</button><a class=\"button\" href=\""@
        + at + "\">Cancel</a></div></form>"@
}

fn edit_form_of(at: &str, fingerprint: &str, body: &str) -> (r: String)
    ensures
        r@ == edit_form(at@, fingerprint@, body@),
{
    let mut form = String::new();
    push_str(&mut form, "<form class=\"write\" method=\"post\" action=\"");
    push_str(&mut form, at);
    push_str(&mut form, "/edit\"><input type=\"hidden\" name=\"fingerprint\" value=\"");
    push_esc(&mut form, fingerprint);
    push_str(&mut form, "\"><div><textarea name=\"body\" autofocus>");
    push_esc(&mut form, body);
    push_str(&mut form, "</textarea></div><div class=\"buttons\"><button class=\"go\" type=\"submit\">Save</button><a class=\"button\" href=\"");
    push_str(&mut form, at);
    push_str(&mut form, "\">Cancel</a></div></form>");
    out_of(form)
}

fn out_of(s: String) -> (r: String)
    ensures
        r@ == s@,
{
    s
}

/// What the editor says above the body.
pub const EDITING: &'static str = "<p class=\"said\">Editing the body. The title and the tags have their own screens.</p>";

/// `was` is the fingerprint the file had when this page was drawn.
pub fn editing(book: &str, about: &About, body: &str, was: &str, problem: Option<&str>) -> (r: String)
    ensures
        r@ == laid_out(book@, about.title@, about_at(book@, about.id@), refusal(opt_str(problem)) + EDITING@,
            edit_form(about_at(book@, about.id@), was@, body@), seq![Asset::Watching]),
{
    let mut at = String::new();
    push_about_at(&mut at, book, about.id.as_str());
    let mut said = String::new();
    push_refusal(&mut said, problem);
    push_str(&mut said, EDITING);
    let form = edit_form_of(at.as_str(), was, body);
    watching_form_page(book, about.title.as_str(), at.as_str(), said.as_str(), form.as_str())
}

/// What a clash says: nothing was lost.
pub const CLASHED: &'static str = "<p class=\"said bad\"><b>This note changed while you were writing.</b> Nothing has been overwritten.</p>";

/// Both versions, handed back whole when there was nothing to merge from: what
/// is on disk read-only above what they wrote, which stays editable.
pub open spec fn clash_form(at: Seq<char>, theirs: Seq<char>, mine: Seq<char>, now: Seq<char>) -> Seq<char> {
    "<form class=\"write\" method=\"post\" action=\""@ + at + "/edit\"><input type=\"hidden\" name=\"fingerprint\" value=\""@
        + esc(now) + "\"><div><label>Saved now</label><pre class=\"theirs\">"@ + esc(theirs)
        + "</pre></div><div><label for=\"b\">What you wrote</label><textarea id=\"b\" name=\"body\" autofocus>"@ + esc(mine)
        + "</textarea></div><div class=\"buttons\"><button class=\"go\" type=\"submit\">Save</button><a class=\"button\" href=\""@
        + at + "\">Cancel</a></div></form>"@
}

/// The note changed under the reader and there was no version to merge from,
/// so both are handed back whole: saving is "keep mine", and editing is
/// combining the two.
pub fn clashed(book: &str, about: &About, theirs: &str, mine: &str, now: &str) -> (r: String)
    ensures
        r@ == laid_out(book@, about.title@, about_at(book@, about.id@), CLASHED@,
            clash_form(about_at(book@, about.id@), theirs@, mine@, now@), seq![Asset::Watching]),
{
    let mut at = String::new();
    push_about_at(&mut at, book, about.id.as_str());
    let mut form = String::new();
    push_str(&mut form, "<form class=\"write\" method=\"post\" action=\"");
    push_str(&mut form, at.as_str());
    push_str(&mut form, "/edit\"><input type=\"hidden\" name=\"fingerprint\" value=\"");
    push_esc(&mut form, now);
    push_str(&mut form, "\"><div><label>Saved now</label><pre class=\"theirs\">");
    push_esc(&mut form, theirs);
    push_str(&mut form, "</pre></div><div><label for=\"b\">What you wrote</label><textarea id=\"b\" name=\"body\" autofocus>");
    push_esc(&mut form, mine);
    push_str(&mut form, "</textarea></div><div class=\"buttons\"><button class=\"go\" type=\"submit\">Save</button><a class=\"button\" href=\"");
    push_str(&mut form, at.as_str());
    push_str(&mut form, "\">Cancel</a></div></form>");
    watching_form_page(book, about.title.as_str(), at.as_str(), CLASHED, form.as_str())
}

/// What a conflict says, and how to settle it.
pub const CONFLICTED: &'static str = "<p class=\"said bad\"><b>Someone else saved while you were writing.</b> Both versions are here and nothing has been overwritten. Where the two changed the same lines, they are wrapped in <code>&lt;&lt;&lt;&lt;&lt;&lt;&lt;</code> markers — keep what the note should say and delete the rest.</p>";

/// The two edits changed the same lines, and the merge comes back to be
/// settled in one field: everything outside the markers is both edits combined.
pub fn conflicted(book: &str, about: &About, merged: &str, now: &str) -> (r: String)
    ensures
        r@ == laid_out(book@, about.title@, about_at(book@, about.id@), CONFLICTED@,
            edit_form(about_at(book@, about.id@), now@, merged@), seq![Asset::Watching]),
{
    let mut at = String::new();
    push_about_at(&mut at, book, about.id.as_str());
    let form = edit_form_of(at.as_str(), now, merged);
    watching_form_page(book, about.title.as_str(), at.as_str(), CONFLICTED, form.as_str())
}

/// What the rename screen says: the id stays.
pub const RENAMING: &'static str = "<p class=\"said\">The id never moves, so links and bookmarks survive. The filename follows the title.</p>";

pub open spec fn rename_form(at: Seq<char>, title: Seq<char>) -> Seq<char> {
    "<form class=\"write\" method=\"post\" action=\""@ + at
        + "/rename\"><div><label for=\"t\">Title</label><input id=\"t\" type=\"text\" name=\"title\" value=\""@ + esc(title)
        + "\" autofocus></div><div class=\"buttons\"><button class=\"go\" type=\"submit\">Rename</button><a class=\"button\" href=\""@
        + at + "\">Cancel</a></div></form>"@
}

/// A new title.
pub fn renaming(book: &str, about: &About, title: &str, problem: Option<&str>) -> (r: String)
    ensures
        r@ == laid_out(book@, "Rename"@, about_at(book@, about.id@), refusal(opt_str(problem)) + RENAMING@,
            rename_form(about_at(book@, about.id@), title@), Seq::empty()),
{
    let mut at = String::new();
    push_about_at(&mut at, book, about.id.as_str());
    let mut said = String::new();
    push_refusal(&mut said, problem);
    push_str(&mut said, RENAMING);
    let mut form = String::new();
    push_str(&mut form, "<form class=\"write\" method=\"post\" action=\"");
    push_str(&mut form, at.as_str());
    push_str(&mut form, "/rename\"><div><label for=\"t\">Title</label><input id=\"t\" type=\"text\" name=\"title\" value=\"");
    push_esc(&mut form, title);
    push_str(&mut form, "\" autofocus></div><div class=\"buttons\"><button class=\"go\" type=\"submit\">Rename</button><a class=\"button\" href=\"");
    push_str(&mut form, at.as_str());
    push_str(&mut form, "\">Cancel</a></div></form>");
    form_page(book, "Rename", at.as_str(), said.as_str(), form.as_str())
}


/// One tag's box: sent as `saw` always, and again as `keep` while ticked, so
/// the server diffs against what the page showed rather than the file.
pub open spec fn tick(n: nat, tag: Seq<char>) -> Seq<char> {
    "<input type=\"hidden\" name=\"saw\" value=\""@ + esc(tag) + "\"><label class=\"tick\" for=\"t"@ + decimal(n)
        + "\"><input id=\"t"@ + decimal(n) + "\" type=\"checkbox\" name=\"keep\" value=\""@ + esc(tag) + "\" checked><span>"@
        + esc(tag) + "</span></label>"@
}

pub open spec fn ticks(tags: Seq<Seq<char>>) -> Seq<char>
    decreases tags.len(),
{
    if tags.len() == 0 {
        Seq::empty()
    } else {
        ticks(tags.drop_last()) + tick((tags.len() - 1) as nat, tags.last())
    }
}

/// The note's tags as boxes, or a line saying it has none.
pub open spec fn held_tags(tags: Seq<Seq<char>>) -> Seq<char> {
    if tags.len() == 0 {
        "<p class=\"said\">This note has no tags yet.</p>"@
    } else {
        "<div><label>On this note</label><div class=\"ticks\">"@ + ticks(tags) + "</div></div>"@
    }
}

/// The tags form: a ticked box per tag the note has, and a field for new ones.
pub open spec fn tag_form(at: Seq<char>, tags: Seq<Seq<char>>) -> Seq<char> {
    "<form class=\"write\" method=\"post\" action=\""@ + at + "/tags\">"@ + held_tags(tags)
        + "<div><label for=\"a\">Add tags</label><input id=\"a\" type=\"text\" name=\"add\" placeholder=\"ops docs &quot;24.04 Dark patterns&quot;\"><small class=\"hint\">Separated by spaces. Quote one that has a space in it.</small></div><div class=\"buttons\"><button class=\"go\" type=\"submit\">Save</button><a class=\"button\" href=\""@
        + at + "\">Cancel</a></div></form>"@
}

fn push_tick(out: &mut String, n: usize, tag: &str)
    ensures
        final(out)@ == old(out)@ + tick(n as nat, tag@),
{
    let ghost start = out@;
    push_str(out, "<input type=\"hidden\" name=\"saw\" value=\"");
    push_esc(out, tag);
    push_str(out, "\"><label class=\"tick\" for=\"t");
    push_count(out, n);
    push_str(out, "\"><input id=\"t");
    push_count(out, n);
    push_str(out, "\" type=\"checkbox\" name=\"keep\" value=\"");
    push_esc(out, tag);
    push_str(out, "\" checked><span>");
    push_esc(out, tag);
    push_str(out, "</span></label>");
    assert(out@ =~= start + tick(n as nat, tag@));
}

/// A ticked box per tag the note has, and a field for new ones; the server
/// works out the `+`s and `-`s. The placeholder shows a quoted tag so it does
/// not read as a one-tag field.
pub fn tagging(book: &str, about: &About, tags: &[String], problem: Option<&str>) -> (r: String)
    ensures
        r@ == laid_out(book@, "Tags"@, about_at(book@, about.id@), refusal(opt_str(problem)),
            tag_form(about_at(book@, about.id@), texts(tags@)), Seq::empty()),
{
    let mut boxes = String::new();
    let mut i: usize = 0;
    while i < tags.len()
        invariant
            i <= tags.len(),
            boxes@ == ticks(texts(tags@).subrange(0, i as int)),
        decreases tags.len() - i,
    {
        proof {
            lemma_texts_prefix(tags@, i as int);
            let ghost done = texts(tags@).subrange(0, i + 1);
            assert(done.drop_last() =~= texts(tags@).subrange(0, i as int));
        }
        push_tick(&mut boxes, i, tags[i].as_str());
        i += 1;
    }
    assert(texts(tags@).subrange(0, tags@.len() as int) =~= texts(tags@));
    let mut held = String::new();
    if tags.len() == 0 {
        push_str(&mut held, "<p class=\"said\">This note has no tags yet.</p>");
    } else {
        push_str(&mut held, "<div><label>On this note</label><div class=\"ticks\">");
        push_str(&mut held, boxes.as_str());
        push_str(&mut held, "</div></div>");
    }
    let mut at = String::new();
    push_about_at(&mut at, book, about.id.as_str());
    let mut form = String::new();
    push_str(&mut form, "<form class=\"write\" method=\"post\" action=\"");
    push_str(&mut form, at.as_str());
    push_str(&mut form, "/tags\">");
    push_str(&mut form, held.as_str());
    push_str(&mut form, "<div><label for=\"a\">Add tags</label><input id=\"a\" type=\"text\" name=\"add\" placeholder=\"ops docs &quot;24.04 Dark patterns&quot;\"><small class=\"hint\">Separated by spaces. Quote one that has a space in it.</small></div><div class=\"buttons\"><button class=\"go\" type=\"submit\">Save</button><a class=\"button\" href=\"");
    push_str(&mut form, at.as_str());
    push_str(&mut form, "\">Cancel</a></div></form>");
    let mut said = String::new();
    push_refusal(&mut said, problem);
    form_page(book, "Tags", at.as_str(), said.as_str(), form.as_str())
}

/// Says the note can be brought back, which git makes true: a warning that
/// overstates the danger teaches people to click through warnings.
pub open spec fn delete_said(title: Seq<char>) -> Seq<char> {
    "<p class=\"said\"><b>Delete "@ + esc(title)
        + "?</b> The file goes and the commit that removed it stays, so <code>noda restore</code> brings it back with its id.</p>"@
}

pub open spec fn delete_form(at: Seq<char>) -> Seq<char> {
    "<form class=\"write\" method=\"post\" action=\""@ + at
        + "/delete\"><div class=\"buttons\"><button class=\"danger\" type=\"submit\">Delete</button><a class=\"button\" href=\""@
        + at + "\">Keep it</a></div></form>"@
}

/// Asks before a note goes.
pub fn deleting(book: &str, about: &About) -> (r: String)
    ensures
        r@ == laid_out(book@, "Delete"@, about_at(book@, about.id@), delete_said(about.title@),
            delete_form(about_at(book@, about.id@)), Seq::empty()),
{
    let mut at = String::new();
    push_about_at(&mut at, book, about.id.as_str());
    let mut said = String::new();
    push_str(&mut said, "<p class=\"said\"><b>Delete ");
    push_esc(&mut said, about.title.as_str());
    push_str(&mut said, "?</b> The file goes and the commit that removed it stays, so <code>noda restore</code> brings it back with its id.</p>");
    let mut form = String::new();
    push_str(&mut form, "<form class=\"write\" method=\"post\" action=\"");
    push_str(&mut form, at.as_str());
    push_str(&mut form, "/delete\"><div class=\"buttons\"><button class=\"danger\" type=\"submit\">Delete</button><a class=\"button\" href=\"");
    push_str(&mut form, at.as_str());
    push_str(&mut form, "\">Keep it</a></div></form>");
    form_page(book, "Delete", at.as_str(), said.as_str(), form.as_str())
}

/// What failed and why, with a way back so it is not a dead end.
pub open spec fn failure_page(heading: Seq<char>, detail: Seq<char>) -> Seq<char> {
    shell(heading + " — noda"@, Seq::empty(),
        "<section class=\"pane\"><header class=\"topbar\">"@ + back("/"@, "the notebooks"@)
            + "<span class=\"here\">noda</span></header><main><div class=\"empty\"><b>"@ + esc(heading) + "</b>"@ + esc(detail)
            + "</div></main></section>"@)
}

pub fn failure(heading: &str, detail: &str) -> (r: String)
    ensures
        r@ == failure_page(heading@, detail@),
{
    let mut body = String::new();
    push_str(&mut body, "<section class=\"pane\"><header class=\"topbar\">");
    push_back(&mut body, "/", "the notebooks");
    push_str(&mut body, "<span class=\"here\">noda</span></header><main><div class=\"empty\"><b>");
    push_esc(&mut body, heading);
    push_str(&mut body, "</b>");
    push_esc(&mut body, detail);
    push_str(&mut body, "</div></main></section>");
    let mut title = owned(heading);
    push_str(&mut title, " — noda");
    proof { reveal_strlit(""); }
    shell_of(title.as_str(), "", body.as_str())
}


/// `noda status`'s facts, already worked out by the caller.
pub struct Standing {
    pub branch: String,
    pub notes: usize,
    pub files: usize,
    /// Files differing from `HEAD`: what a sync would commit before it pulls.
    pub uncommitted: usize,
    pub remote: Option<String>,
    /// How far apart the two are, in words: `2 to push, 1 to pull`.
    pub drift: String,
    /// One line per kind, as `doctor` would name them.
    pub problems: Vec<String>,
}

/// An errand as the page needs to say it: what it is, and how it went.
pub struct Errand<'a> {
    /// `Syncing` / `Pulling` / `Pushing`, for while it is happening.
    pub doing: &'a str,
    /// Chosen by the caller alongside `failed`.
    pub done: &'a str,
    /// What it printed, or what went wrong. `None` while it is still going.
    pub said: Option<&'a str>,
    pub failed: bool,
    pub seconds: u64,
}

/// Read by both the refresh meta and the script's poll.
pub const AGAIN_IN: u32 = 2;

/// Whether an errand is still going.
pub open spec fn is_working(errand: Option<&Errand>) -> bool {
    match errand {
        Some(e) => e.said.is_none(),
        None => false,
    }
}

pub fn working(errand: Option<&Errand>) -> (r: bool)
    ensures
        r == is_working(errand),
{
    match errand {
        Some(e) => e.said.is_none(),
        None => false,
    }
}

/// How soon the page asks again: only while an errand runs.
pub open spec fn again(errand: Option<&Errand>) -> Option<u32> {
    if is_working(errand) { Some(AGAIN_IN) } else { None }
}

/// One fact of the network screen, machinery in monospace.
#[verifier::opaque]
pub open spec fn fact(name: Seq<char>, value: Seq<char>, mono: bool) -> Seq<char> {
    "<div class=\"row\"><div class=\"name\">"@ + esc(name) + "</div><div class=\"under\"><span class=\""@
        + (if mono { "mono"@ } else { "when"@ }) + "\">"@ + esc(value) + "</span></div></div>"@
}

fn push_fact(out: &mut String, name: &str, value: &str, mono: bool)
    ensures
        final(out)@ == old(out)@ + fact(name@, value@, mono),
{
    let ghost start = out@;
    push_str(out, "<div class=\"row\"><div class=\"name\">");
    push_esc(out, name);
    push_str(out, "</div><div class=\"under\"><span class=\"");
    if mono {
        push_str(out, "mono");
    } else {
        push_str(out, "when");
    }
    push_str(out, "\">");
    push_esc(out, value);
    push_str(out, "</span></div></div>");
    assert(out@ =~= start + fact(name@, value@, mono)) by { reveal(fact); }
}

/// What the notebook holds, files only where there are some.
pub open spec fn holds(standing: Standing) -> Seq<char> {
    if standing.files > 0 {
        plural(standing.notes as nat, "note"@) + ", "@ + plural(standing.files as nat, "file"@)
    } else {
        plural(standing.notes as nat, "note"@)
    }
}

/// `noda status`'s words for the working tree.
pub open spec fn changes(uncommitted: nat) -> Seq<char> {
    if uncommitted == 0 {
        "clean"@
    } else if uncommitted == 1 {
        "1 file uncommitted"@
    } else {
        decimal(uncommitted) + " files uncommitted"@
    }
}

/// The remedy, since no screen here sets a remote.
pub const NO_REMOTE: &'static str = "none — set one with `noda remote set <url>`";

pub open spec fn remote_facts(standing: Standing) -> Seq<char> {
    match standing.remote {
        Some(url) => fact("Remote"@, url@, true) + fact("Drift"@, standing.drift@, false),
        None => fact("Remote"@, NO_REMOTE@, false),
    }
}

pub open spec fn problem_facts(problems: Seq<Seq<char>>) -> Seq<char>
    decreases problems.len(),
{
    if problems.len() == 0 {
        Seq::empty()
    } else {
        problem_facts(problems.drop_last()) + fact("Problem"@, problems.last(), false)
    }
}

/// The facts, and which build is answering, for bug reports.
pub open spec fn facts(standing: Standing) -> Seq<char> {
    fact("Branch"@, standing.branch@, true) + fact("Holds"@, holds(standing), false)
        + fact("Changes"@, changes(standing.uncommitted as nat), false) + remote_facts(standing)
        + problem_facts(texts(standing.problems@)) + fact("Version"@, crate::VERSION@, true)
}

/// How the errand is going: seconds while it runs (nothing knows how long a
/// fetch takes), then what it printed, whole.
pub open spec fn errand_said(errand: Option<&Errand>) -> Seq<char> {
    match errand {
        None => Seq::empty(),
        Some(e) => match e.said {
            None => "<p class=\"said working\"><b>"@ + esc(e.doing@) + "…</b> "@ + decimal(e.seconds as nat) + " second"@
                + (if e.seconds == 1 { Seq::empty() } else { "s"@ }) + "</p>"@,
            Some(said) => "<p class=\"said"@ + (if e.failed { " bad"@ } else { Seq::empty() }) + "\"><b>"@ + esc(e.done@)
                + "</b><span class=\"outcome\">"@ + esc(said@) + "</span></p>"@,
        },
    }
}

/// One of the three ways to move the notebook. The server already refuses a
/// second press; disabling shows the first landed.
pub open spec fn errand_button(book: Seq<char>, errand: Seq<char>, label: Seq<char>, go: bool, busy: bool) -> Seq<char> {
    "<form method=\"post\" action=\"/nb/"@ + esc(book) + "/status/"@ + errand + "\"><button class=\""@
        + (if go { "go"@ } else { Seq::empty() }) + "\" type=\"submit\""@ + (if busy { " disabled"@ } else { Seq::empty() })
        + ">"@ + label + "</button></form>"@
}

/// Sync is accented by colour, so all three stay one row on a phone.
pub open spec fn errand_buttons(book: Seq<char>, busy: bool) -> Seq<char> {
    errand_button(book, "sync"@, "Sync"@, true, busy) + errand_button(book, "pull"@, "Pull"@, false, busy)
        + errand_button(book, "push"@, "Push"@, false, busy)
}

/// The network screen's `<main>`.
pub open spec fn network_main(book: Seq<char>, standing: Standing, errand: Option<&Errand>) -> Seq<char> {
    "<main>"@ + errand_said(errand) + "<div class=\"rows facts\">"@ + facts(standing) + "</div><div class=\"abreast\">"@
        + errand_buttons(book, is_working(errand)) + "</div></main>"@
}

fn holds_of(standing: &Standing) -> (r: String)
    ensures
        r@ == holds(*standing),
{
    let mut holds = String::new();
    push_plural(&mut holds, standing.notes, "note");
    if standing.files > 0 {
        push_str(&mut holds, ", ");
        push_plural(&mut holds, standing.files, "file");
    }
    holds
}

fn changes_of(uncommitted: usize) -> (r: String)
    ensures
        r@ == changes(uncommitted as nat),
{
    let mut changes = String::new();
    if uncommitted == 0 {
        push_str(&mut changes, "clean");
    } else if uncommitted == 1 {
        push_str(&mut changes, "1 file uncommitted");
    } else {
        push_count(&mut changes, uncommitted);
        push_str(&mut changes, " files uncommitted");
    }
    changes
}

fn push_facts(out: &mut String, standing: &Standing)
    ensures
        final(out)@ == old(out)@ + facts(*standing),
{
    let ghost start = out@;
    push_fact(out, "Branch", standing.branch.as_str(), true);
    let holds = holds_of(standing);
    push_fact(out, "Holds", holds.as_str(), false);
    let changes = changes_of(standing.uncommitted);
    push_fact(out, "Changes", changes.as_str(), false);
    let ghost mid = out@;
    match &standing.remote {
        Some(url) => {
            push_fact(out, "Remote", url.as_str(), true);
            push_fact(out, "Drift", standing.drift.as_str(), false);
        },
        None => push_fact(out, "Remote", NO_REMOTE, false),
    }
    assert(out@ =~= mid + remote_facts(*standing));
    let ghost rest = out@;
    let mut i: usize = 0;
    while i < standing.problems.len()
        invariant
            i <= standing.problems.len(),
            out@ == rest + problem_facts(texts(standing.problems@).subrange(0, i as int)),
        decreases standing.problems.len() - i,
    {
        proof {
            lemma_texts_prefix(standing.problems@, i as int);
            let ghost done = texts(standing.problems@).subrange(0, i + 1);
            assert(done.drop_last() =~= texts(standing.problems@).subrange(0, i as int));
        }
        push_fact(out, "Problem", standing.problems[i].as_str(), false);
        i += 1;
    }
    assert(texts(standing.problems@).subrange(0, standing.problems@.len() as int) =~= texts(standing.problems@));
    push_fact(out, "Version", crate::VERSION, true);
    assert(out@ =~= start + facts(*standing));
}

fn push_errand_said(out: &mut String, errand: Option<&Errand>)
    ensures
        final(out)@ == old(out)@ + errand_said(errand),
{
    let ghost start = out@;
    match errand {
        None => {},
        Some(e) => match e.said {
            None => {
                push_str(out, "<p class=\"said working\"><b>");
                push_esc(out, e.doing);
                push_str(out, "…</b> ");
                let n = decimal_of(e.seconds);
                push_str(out, n.as_str());
                push_str(out, " second");
                if e.seconds != 1 {
                    push_str(out, "s");
                }
                push_str(out, "</p>");
            },
            Some(said) => {
                push_str(out, "<p class=\"said");
                if e.failed {
                    push_str(out, " bad");
                }
                push_str(out, "\"><b>");
                push_esc(out, e.done);
                push_str(out, "</b><span class=\"outcome\">");
                push_esc(out, said);
                push_str(out, "</span></p>");
            },
        },
    }
    assert(out@ =~= start + errand_said(errand));
}

fn push_errand_button(out: &mut String, book: &str, errand: &str, label: &str, go: bool, busy: bool)
    ensures
        final(out)@ == old(out)@ + errand_button(book@, errand@, label@, go, busy),
{
    let ghost start = out@;
    push_str(out, "<form method=\"post\" action=\"/nb/");
    push_esc(out, book);
    push_str(out, "/status/");
    push_str(out, errand);
    push_str(out, "\"><button class=\"");
    if go {
        push_str(out, "go");
    }
    push_str(out, "\" type=\"submit\"");
    if busy {
        push_str(out, " disabled");
    }
    push_str(out, ">");
    push_str(out, label);
    push_str(out, "</button></form>");
    assert(out@ =~= start + errand_button(book@, errand@, label@, go, busy));
}

fn push_network_main(out: &mut String, book: &str, standing: &Standing, errand: Option<&Errand>)
    ensures
        final(out)@ == old(out)@ + network_main(book@, *standing, errand),
{
    let ghost start = out@;
    push_str(out, "<main>");
    push_errand_said(out, errand);
    push_str(out, "<div class=\"rows facts\">");
    push_facts(out, standing);
    push_str(out, "</div><div class=\"abreast\">");
    let busy = working(errand);
    push_errand_button(out, book, "sync", "Sync", true, busy);
    push_errand_button(out, book, "pull", "Pull", false, busy);
    push_errand_button(out, book, "push", "Push", false, busy);
    push_str(out, "</div></main>");
    assert(out@ =~= start + network_main(book@, *standing, errand));
}

/// Where the notebook stands, and the three ways to move it. A button posts to
/// start the errand and comes back here, rather than holding a request open
/// for as long as the network takes; while one runs the page refreshes itself.
pub open spec fn standing_page(book: Seq<char>, standing: Standing, errand: Option<&Errand>) -> Seq<char> {
    dressed(screen_title("Status"@, book), Seq::empty(), again(errand), seq![Asset::Standing],
        "<section class=\"pane\"><header class=\"topbar\">"@ + back(home(book), book)
            + "<span class=\"here\">Status</span><span class=\"count\">"@ + esc(book) + "</span></header>"@
            + network_main(book, standing, errand) + "</section>"@ + notebook_bar(book, At::Status))
}

pub fn standing(book: &str, state: &Standing, errand: Option<&Errand>) -> (r: String)
    ensures
        r@ == standing_page(book@, *state, errand),
{
    let mut body = String::new();
    push_str(&mut body, "<section class=\"pane\"><header class=\"topbar\">");
    let at = home_of(book);
    push_back(&mut body, at.as_str(), book);
    push_str(&mut body, "<span class=\"here\">Status</span><span class=\"count\">");
    push_esc(&mut body, book);
    push_str(&mut body, "</span></header>");
    push_network_main(&mut body, book, state, errand);
    push_str(&mut body, "</section>");
    push_notebook_bar(&mut body, book, At::Status);
    let title = screen_title_of("Status", book);
    let again_in = if working(errand) { Some(AGAIN_IN) } else { None };
    let scripts = vec![Asset::Standing];
    assert(scripts@ =~= seq![Asset::Standing]);
    proof { reveal_strlit(""); }
    dress(title.as_str(), "", again_in, &scripts, body.as_str())
}

/// What the status script polls while an errand runs: the `<main>`, led by
/// the refresh meta. The script polls again only if the meta is there, so
/// stopping stays the server's decision.
pub fn standing_main(book: &str, standing: &Standing, errand: Option<&Errand>) -> (r: String)
    ensures
        r@ == refresh(again(errand)) + network_main(book@, *standing, errand),
{
    let mut out = String::new();
    let again_in = if working(errand) { Some(AGAIN_IN) } else { None };
    push_refresh(&mut out, again_in);
    push_network_main(&mut out, book, standing, errand);
    out
}


proof fn lemma_dressed_holds(title: Seq<char>, app: Seq<char>, again_in: Option<u32>, scripts: Seq<Asset>, body: Seq<char>)
    ensures
        contains(dressed(title, app, again_in, scripts, body), body),
        contains(dressed(title, app, again_in, scripts, body), titled(title)),
        contains(dressed(title, app, again_in, scripts, body), refresh(again_in)),
{
    let classes = if app.len() == 0 { "app"@ } else { "app "@ + app };
    let open = "<!doctype html>\n<html lang=\"en\">\n<head>\n<meta charset=\"utf-8\">\n<meta name=\"viewport\" content=\"width=device-width, initial-scale=1\">\n<meta name=\"referrer\" content=\"same-origin\">\n"@;
    let head = open + refresh(again_in) + titled(title) + "\n"@ + tag_of(Asset::Style) + asset_tags(scripts)
        + "\n</head>\n<body>\n<div class=\""@ + classes + "\">\n"@;
    let tail = "</div>\n</body>\n</html>\n"@;
    let page = dressed(title, app, again_in, scripts, body);
    assert(page =~= head + body + tail);
    lemma_contains_middle(head, body, tail);
    let after_title = "\n"@ + tag_of(Asset::Style) + asset_tags(scripts) + "\n</head>\n<body>\n<div class=\""@ + classes
        + "\">\n"@ + body + tail;
    assert(page =~= (open + refresh(again_in)) + titled(title) + after_title);
    lemma_contains_middle(open + refresh(again_in), titled(title), after_title);
    assert(page =~= open + refresh(again_in) + (titled(title) + after_title));
    lemma_contains_middle(open, refresh(again_in), titled(title) + after_title);
}

/// A part is a substring of the page it is cut from, so a script that swaps
/// in the part shows what a reload would: the reading pane and its tab title
/// stand in the note's page.
pub proof fn a_note_pane_is_a_piece_of_the_note_page(book: Seq<char>, reading: Reading, drift: Seq<char>)
    ensures
        contains(note_page(book, reading, drift), read_pane(book, reading)),
        contains(note_page(book, reading, drift), titled(note_title(reading))),
{
    let index = index_pane(book, Seq::empty(), Seq::empty(), None, None, Seq::empty(), drift, Seq::empty());
    let body = index + read_pane(book, reading) + notebook_bar(book, At::Notes);
    lemma_contains_middle(index, read_pane(book, reading), notebook_bar(book, At::Notes));
    lemma_dressed_holds(note_title(reading), "split at-note"@, None, seq![Asset::Panes, Asset::Beside, Asset::Stamps], body);
    lemma_contains_within(note_page(book, reading, drift), body, read_pane(book, reading));
}

/// The listing's column and both its panes stand in the listing page, as
/// does the tab title the two-pane answer leads with.
pub proof fn a_listing_pane_is_a_piece_of_the_listing_page(book: Seq<char>, rows: Seq<Row>, asked: Asked, order: Order, drift: Seq<char>, front: Option<Seq<char>>)
    ensures
        contains(listing_page(book, rows, asked, order, drift, front), listing_pane_html(book, rows, asked, order, drift)),
        contains(listing_page(book, rows, asked, order, drift, front), listing_panes(book, rows, asked, order, drift, front)),
        contains(listing_page(book, rows, asked, order, drift, front), titled(listing_title(book))),
{
    let panes = listing_panes(book, rows, asked, order, drift, front);
    let pane = listing_pane_html(book, rows, asked, order, drift);
    let body = panes + notebook_bar(book, At::Notes);
    let page = listing_page(book, rows, asked, order, drift, front);
    lemma_dressed_holds(listing_title(book), "split at-list indexed"@, None,
        seq![Asset::Listing, Asset::Panes, Asset::Beside, Asset::Stamps], body);
    assert(body =~= Seq::<char>::empty() + panes + notebook_bar(book, At::Notes));
    lemma_contains_middle(Seq::empty(), panes, notebook_bar(book, At::Notes));
    lemma_contains_within(page, body, panes);
    assert(panes =~= Seq::<char>::empty() + pane + front_pane(book, front));
    lemma_contains_middle(Seq::empty(), pane, front_pane(book, front));
    lemma_contains_within(page, panes, pane);
}

/// The rows a wide screen fetches for its margin stand in the backlinks page.
pub proof fn backlink_rows_are_a_piece_of_the_backlinks_page(book: Seq<char>, subject: Subject, rows: Seq<Row>)
    ensures
        contains(backlinks_page(book, subject, rows), backlinks_part(book, subject, rows)),
        contains(backlinks_page(book, subject, rows), titled("Links to "@ + subject.what@ + " — noda"@)),
        contains(backlinks_page(book, subject, rows), "<span class=\"count\">"@ + decimal(rows.len()) + "</span>"@),
{
    let head = "<section class=\"pane\"><header class=\"topbar\">"@ + back(subject.at@, subject.what@)
        + "<span class=\"here\">Backlinks</span><span class=\"count\">"@ + decimal(rows.len()) + "</span></header>"@;
    let part = backlinks_part(book, subject, rows);
    let body = head + part + "</section>"@;
    lemma_contains_middle(head, part, "</section>"@);
    lemma_dressed_holds("Links to "@ + subject.what@ + " — noda"@, Seq::empty(), None, Seq::empty(), body);
    lemma_contains_within(backlinks_page(book, subject, rows), body, part);
    lemma_backlinks_count(subject, rows, part);
    lemma_contains_within(backlinks_page(book, subject, rows), body, "<span class=\"count\">"@ + decimal(rows.len()) + "</span>"@);
}

#[verifier::spinoff_prover]
proof fn lemma_backlinks_count(subject: Subject, rows: Seq<Row>, part: Seq<char>)
    ensures
        contains("<section class=\"pane\"><header class=\"topbar\">"@ + back(subject.at@, subject.what@)
            + "<span class=\"here\">Backlinks</span><span class=\"count\">"@ + decimal(rows.len()) + "</span></header>"@
            + part + "</section>"@, "<span class=\"count\">"@ + decimal(rows.len()) + "</span>"@),
{
    let body = "<section class=\"pane\"><header class=\"topbar\">"@ + back(subject.at@, subject.what@)
        + "<span class=\"here\">Backlinks</span><span class=\"count\">"@ + decimal(rows.len()) + "</span></header>"@
        + part + "</section>"@;
    let pre = "<section class=\"pane\"><header class=\"topbar\">"@ + back(subject.at@, subject.what@)
        + "<span class=\"here\">Backlinks</span>"@;
    let count = "<span class=\"count\">"@ + decimal(rows.len()) + "</span>"@;
    let post = "</header>"@ + part + "</section>"@;
    reveal_strlit("<span class=\"here\">Backlinks</span><span class=\"count\">");
    reveal_strlit("</span></header>");
    reveal_strlit("<span class=\"here\">Backlinks</span>");
    reveal_strlit("<span class=\"count\">");
    reveal_strlit("</span>");
    reveal_strlit("</header>");
    assert(body =~= pre + count + post);
    lemma_contains_middle(pre, count, post);
}

proof fn lemma_ticks_hold(tags: Seq<Seq<char>>, i: int)
    requires
        0 <= i < tags.len(),
    ensures
        contains(ticks(tags), tick(i as nat, tags[i])),
    decreases tags.len(),
{
    let front = tags.drop_last();
    let last = tick((tags.len() - 1) as nat, tags.last());
    if i == tags.len() - 1 {
        assert(ticks(tags) =~= ticks(front) + last + Seq::empty());
        lemma_contains_middle(ticks(front), last, Seq::empty());
    } else {
        lemma_ticks_hold(front, i);
        assert(front[i] == tags[i]);
        assert(ticks(tags) =~= Seq::empty() + ticks(front) + last);
        lemma_contains_middle(Seq::empty(), ticks(front), last);
        lemma_contains_within(ticks(tags), ticks(front), tick(i as nat, tags[i]));
    }
}

/// The tags form sends every tag it shows as `saw`, and again as `keep`
/// while its box stays ticked, each box numbered in order; a note with no
/// tags says so; a problem is said above the form.
pub proof fn the_tags_form_offers_every_tag(book: Seq<char>, about: About, tags: Seq<Seq<char>>, problem: Option<Seq<char>>)
    ensures
        ({
            let page = laid_out(book, "Tags"@, about_at(book, about.id@), refusal(problem), tag_form(about_at(book, about.id@), tags), Seq::empty());
            &&& forall|i: int| 0 <= i < tags.len() ==> contains(page, #[trigger] tick(i as nat, tags[i]))
            &&& tags.len() == 0 ==> contains(page, "<p class=\"said\">This note has no tags yet.</p>"@)
            &&& contains(page, refusal(problem))
        }),
{
    let at = about_at(book, about.id@);
    let form = tag_form(at, tags);
    let said = refusal(problem);
    let page = laid_out(book, "Tags"@, at, said, form, Seq::empty());
    let pre = "<section class=\"pane\"><header class=\"topbar\">"@ + back(at, book) + "<span class=\"here\">"@ + esc("Tags"@)
        + "</span></header><main>"@;
    let body = pre + said + form + "</main></section>"@;
    lemma_dressed_holds("Tags"@ + " — noda"@, Seq::empty(), None, Seq::empty(), body);
    assert(body =~= pre + said + (form + "</main></section>"@));
    lemma_contains_middle(pre, said, form + "</main></section>"@);
    lemma_contains_within(page, body, said);
    assert(body =~= (pre + said) + form + "</main></section>"@);
    lemma_contains_middle(pre + said, form, "</main></section>"@);
    lemma_contains_within(page, body, form);
    let fhead = "<form class=\"write\" method=\"post\" action=\""@ + at + "/tags\">"@;
    let ftail = form.subrange((fhead + held_tags(tags)).len() as int, form.len() as int);
    assert(form =~= fhead + held_tags(tags) + ftail);
    lemma_contains_middle(fhead, held_tags(tags), ftail);
    lemma_contains_within(page, form, held_tags(tags));
    if tags.len() > 0 {
        let hh = "<div><label>On this note</label><div class=\"ticks\">"@;
        assert(held_tags(tags) =~= hh + ticks(tags) + "</div></div>"@);
        lemma_contains_middle(hh, ticks(tags), "</div></div>"@);
        lemma_contains_within(page, held_tags(tags), ticks(tags));
        assert forall|i: int| 0 <= i < tags.len() implies contains(page, #[trigger] tick(i as nat, tags[i])) by {
            lemma_ticks_hold(tags, i);
            lemma_contains_within(page, ticks(tags), tick(i as nat, tags[i]));
        }
    }
}

/// What the status poll swaps in stands in the status page, and says whether
/// to come back the way the page does: the same refresh, present exactly
/// while an errand runs.
pub proof fn the_news_is_a_piece_of_the_status_page(book: Seq<char>, standing: Standing, errand: Option<&Errand>)
    ensures
        contains(standing_page(book, standing, errand), network_main(book, standing, errand)),
        contains(standing_page(book, standing, errand), refresh(again(errand))),
        (refresh(again(errand)).len() > 0) == is_working(errand),
{
    let head = "<section class=\"pane\"><header class=\"topbar\">"@ + back(home(book), book)
        + "<span class=\"here\">Status</span><span class=\"count\">"@ + esc(book) + "</span></header>"@;
    let main = network_main(book, standing, errand);
    let tail = "</section>"@ + notebook_bar(book, At::Status);
    let body = head + main + tail;
    lemma_contains_middle(head, main, tail);
    lemma_dressed_holds(screen_title("Status"@, book), Seq::empty(), again(errand), seq![Asset::Standing], body);
    assert(body =~= "<section class=\"pane\"><header class=\"topbar\">"@ + back(home(book), book)
        + "<span class=\"here\">Status</span><span class=\"count\">"@ + esc(book) + "</span></header>"@
        + network_main(book, standing, errand) + "</section>"@ + notebook_bar(book, At::Status));
    lemma_contains_within(standing_page(book, standing, errand), body, main);
    reveal_strlit("<meta http-equiv=\"refresh\" content=\"");
}

/// How a listed row opens: a link to the note, `hidden` while the search
/// leaves it out.
pub open spec fn row_open(book: Seq<char>, row: Row) -> Seq<char> {
    "<a class=\"row\""@ + (if row.shown { Seq::empty() } else { " hidden"@ }) + " href=\"/nb/"@ + esc(book) + "/n/"@
        + esc(row.id@) + "\">"@
}

proof fn lemma_rows_hold(book: Seq<char>, rows: Seq<Row>, terms: Seq<Seq<char>>, i: int)
    requires
        0 <= i < rows.len(),
    ensures
        contains(listed_rows(book, rows, terms), row_open(book, rows[i])),
    decreases rows.len(),
{
    let front = rows.drop_last();
    let last = listed_row(book, rows.last(), terms);
    if i == rows.len() - 1 {
        let open = row_open(book, rows[i]);
        lemma_row_opens(book, rows[i], terms);
        assert(listed_rows(book, rows, terms) =~= listed_rows(book, front, terms) + last + Seq::empty());
        lemma_contains_middle(listed_rows(book, front, terms), last, Seq::empty());
        lemma_contains_within(listed_rows(book, rows, terms), last, open);
    } else {
        lemma_rows_hold(book, front, terms, i);
        assert(front[i] == rows[i]);
        assert(listed_rows(book, rows, terms) =~= Seq::empty() + listed_rows(book, front, terms) + last);
        lemma_contains_middle(Seq::empty(), listed_rows(book, front, terms), last);
        lemma_contains_within(listed_rows(book, rows, terms), listed_rows(book, front, terms), row_open(book, rows[i]));
    }
}

#[verifier::spinoff_prover]
proof fn lemma_row_opens(book: Seq<char>, row: Row, terms: Seq<Seq<char>>)
    ensures
        contains(listed_row(book, row, terms), row_open(book, row)),
{
    let open = row_open(book, row);
    let whole = listed_row(book, row, terms);
    let after = whole.subrange(open.len() as int, whole.len() as int);
    assert(whole =~= Seq::empty() + open + after);
    lemma_contains_middle(Seq::empty(), open, after);
}

#[verifier::spinoff_prover]
proof fn lemma_head_counts(book: Seq<char>, typed: Seq<char>, counted: Seq<char>, drift: Seq<char>)
    ensures
        contains(index_head(book, typed, counted, drift), "<span class=\"count\">"@ + counted + "</span>"@),
{
    let tail = "</span></header><form class=\"searchbar\" method=\"get\" action=\"/nb/"@ + esc(book)
        + "\"><input type=\"search\" name=\"q\" value=\""@ + esc(typed)
        + "\" placeholder=\"tag:work OR tag:q3 budget\" autocomplete=\"off\" autocapitalize=\"off\" spellcheck=\"false\" enterkeyhint=\"search\" aria-label=\"Search this notebook\">"@;
    let pre = "<section class=\"pane index\"><header class=\"topbar\">"@ + back("/"@, "the notebooks"@) + "<span class=\"here\">"@
        + esc(book) + "</span>"@ + drift_chip(book, drift);
    let rest = tail.subrange(7, tail.len() as int);
    reveal_strlit("</span></header><form class=\"searchbar\" method=\"get\" action=\"/nb/");
    reveal_strlit("</span>");
    assert(tail =~= "</span>"@ + rest);
    assert(index_head(book, typed, counted, drift) =~= pre + ("<span class=\"count\">"@ + counted + "</span>"@) + rest);
    lemma_contains_middle(pre, "<span class=\"count\">"@ + counted + "</span>"@, rest);
}

/// The listing's pane links every row, in order, each `hidden` exactly while
/// the search leaves it out, so a script can show it again without asking;
/// its count is all the notes, or how many the search left of them; and it
/// says what to do when there is nothing to show.
pub proof fn every_row_rides_along(book: Seq<char>, rows: Seq<Row>, asked: Asked, order: Order, drift: Seq<char>)
    ensures
        forall|i: int| 0 <= i < rows.len() ==> contains(listing_pane_html(book, rows, asked, order, drift), #[trigger] row_open(book, rows[i])),
        contains(listing_pane_html(book, rows, asked, order, drift),
            "<span class=\"count\">"@ + counted(asked.typed@, rows.len(), shown_of(rows)) + "</span>"@),
        contains(listing_pane_html(book, rows, asked, order, drift), none_shown(book, asked.typed@, rows.len(), shown_of(rows))),
{
    reveal(listing_pane_html);
    let terms = texts(asked.terms@);
    let listed = listed_rows(book, rows, terms);
    let none = none_shown(book, asked.typed@, rows.len(), shown_of(rows));
    let count = counted(asked.typed@, rows.len(), shown_of(rows));
    let head = index_head(book, asked.typed@, count, drift);
    let form = index_form(book, asked.typed@, asked.grouping@, opt_str(asked.problem), Some(order));
    let pane = listing_pane_html(book, rows, asked, order, drift);
    let mid = "</form><main class=\"rows\">"@;
    let end = "</main></section>"@;
    assert(pane =~= (head + form + mid) + (listed + none) + end);
    lemma_contains_middle(head + form + mid, listed + none, end);
    assert(listed + none =~= Seq::empty() + listed + none);
    lemma_contains_middle(Seq::empty(), listed, none);
    lemma_contains_within(pane, listed + none, listed);
    assert(listed + none =~= listed + none + Seq::empty());
    lemma_contains_middle(listed, none, Seq::empty());
    lemma_contains_within(pane, listed + none, none);
    assert forall|i: int| 0 <= i < rows.len() implies contains(pane, #[trigger] row_open(book, rows[i])) by {
        lemma_rows_hold(book, rows, terms, i);
        lemma_contains_within(pane, listed, row_open(book, rows[i]));
    }
    lemma_head_counts(book, asked.typed@, count, drift);
    assert(pane =~= Seq::empty() + head + (form + mid + (listed + none) + end));
    lemma_contains_middle(Seq::empty(), head, form + mid + (listed + none) + end);
    lemma_contains_within(pane, head, "<span class=\"count\">"@ + count + "</span>"@);
}

/// The note's page shows its body as rendered, unescaped; names its file as
/// on disk; and holds the margin the backlinks script fills.
#[verifier::spinoff_prover]
#[verifier::rlimit(60)]
pub proof fn the_note_page_shows_the_note(book: Seq<char>, reading: Reading, drift: Seq<char>)
    ensures
        contains(note_page(book, reading, drift), reading.rendered@),
        contains(note_page(book, reading, drift), filename(reading)),
        contains(note_page(book, reading, drift), BESIDE@),
{
    a_note_pane_is_a_piece_of_the_note_page(book, reading, drift);
    let page = note_page(book, reading, drift);
    let pane = read_pane(book, reading);
    let head = "<section class=\"pane read\"><header class=\"topbar\">"@ + back(home(book), book) + "<span class=\"here\">"@
        + esc(reading.title@) + "</span></header><main class=\"note\"><div class=\"note-head\"><h1>"@ + esc(reading.title@)
        + "</h1><div class=\"filename\">"@;
    let meta = "</div><div class=\"note-meta\">"@ + note_meta(reading) + "</div></div><div class=\"body\">"@;
    let tail = "</div>"@ + BESIDE@ + "</main>"@ + note_bar(about_at(book, reading.id@), reading.pinned) + "</section>"@;
    assert(pane =~= head + filename(reading) + (meta + reading.rendered@ + tail));
    lemma_contains_middle(head, filename(reading), meta + reading.rendered@ + tail);
    lemma_contains_within(page, pane, filename(reading));
    assert(pane =~= (head + filename(reading) + meta) + reading.rendered@ + tail);
    lemma_contains_middle(head + filename(reading) + meta, reading.rendered@, tail);
    lemma_contains_within(page, pane, reading.rendered@);
    let before = head + filename(reading) + meta + reading.rendered@ + "</div>"@;
    let after = "</main>"@ + note_bar(about_at(book, reading.id@), reading.pinned) + "</section>"@;
    assert(pane =~= before + BESIDE@ + after);
    lemma_contains_middle(before, BESIDE@, after);
    lemma_contains_within(page, pane, BESIDE@);
}

/// A clash hands back both versions the right way round: what is saved now
/// in the read-only block, and what the reader wrote in the field the form
/// submits, so pressing Save keeps the reader's text.
#[verifier::spinoff_prover]
#[verifier::rlimit(40)]
pub proof fn a_clash_keeps_the_readers_text_in_the_field(at: Seq<char>, theirs: Seq<char>, mine: Seq<char>, now: Seq<char>)
    ensures
        contains(clash_form(at, theirs, mine, now), "<pre class=\"theirs\">"@ + esc(theirs) + "</pre>"@),
        contains(clash_form(at, theirs, mine, now), "<textarea id=\"b\" name=\"body\" autofocus>"@ + esc(mine) + "</textarea>"@),
{
    let l1 = "<form class=\"write\" method=\"post\" action=\""@;
    let l2 = "/edit\"><input type=\"hidden\" name=\"fingerprint\" value=\""@;
    let l3 = "\"><div><label>Saved now</label><pre class=\"theirs\">"@;
    let l4 = "</pre></div><div><label for=\"b\">What you wrote</label><textarea id=\"b\" name=\"body\" autofocus>"@;
    let l5 = "</textarea></div><div class=\"buttons\"><button class=\"go\" type=\"submit\">Save</button><a class=\"button\" href=\""@;
    let l6 = "\">Cancel</a></div></form>"@;
    let pre_open = "<pre class=\"theirs\">"@;
    let pre_close = "</pre>"@;
    let area_open = "<textarea id=\"b\" name=\"body\" autofocus>"@;
    let area_close = "</textarea>"@;
    reveal_strlit("\"><div><label>Saved now</label><pre class=\"theirs\">");
    reveal_strlit("</pre></div><div><label for=\"b\">What you wrote</label><textarea id=\"b\" name=\"body\" autofocus>");
    reveal_strlit("</textarea></div><div class=\"buttons\"><button class=\"go\" type=\"submit\">Save</button><a class=\"button\" href=\"");
    reveal_strlit("<pre class=\"theirs\">");
    reveal_strlit("</pre>");
    reveal_strlit("<textarea id=\"b\" name=\"body\" autofocus>");
    reveal_strlit("</textarea>");
    let x = l3.subrange(0, l3.len() - pre_open.len());
    assert(l3 =~= x + pre_open);
    let y = l4.subrange(pre_close.len() as int, l4.len() - area_open.len());
    assert(l4 =~= pre_close + y + area_open);
    let z = l5.subrange(area_close.len() as int, l5.len() as int);
    assert(l5 =~= area_close + z);
    let form = clash_form(at, theirs, mine, now);
    let head = l1 + at + l2 + esc(now);
    let tail = z + at + l6;
    let p1 = pre_open + esc(theirs) + pre_close;
    let p2 = area_open + esc(mine) + area_close;
    assert(form =~= (head + x) + p1 + (y + p2 + tail));
    crate::text::lemma_contains_middle(head + x, p1, y + p2 + tail);
    assert(form =~= (head + x + p1 + y) + p2 + tail);
    crate::text::lemma_contains_middle(head + x + p1 + y, p2, tail);
}

/// A conflicted merge is handed back in the field the form submits, so
/// Save writes the reader's resolution.
#[verifier::spinoff_prover]
#[verifier::rlimit(40)]
pub proof fn a_conflict_comes_back_in_the_field(at: Seq<char>, now: Seq<char>, merged: Seq<char>)
    ensures
        contains(edit_form(at, now, merged), "<textarea name=\"body\" autofocus>"@ + esc(merged) + "</textarea>"@),
{
    let l3 = "\"><div><textarea name=\"body\" autofocus>"@;
    let l4 = "</textarea></div><div class=\"buttons\"><button class=\"go\" type=\"submit\">Save</button><a class=\"button\" href=\""@;
    let open = "<textarea name=\"body\" autofocus>"@;
    let close = "</textarea>"@;
    reveal_strlit("\"><div><textarea name=\"body\" autofocus>");
    reveal_strlit("</textarea></div><div class=\"buttons\"><button class=\"go\" type=\"submit\">Save</button><a class=\"button\" href=\"");
    reveal_strlit("<textarea name=\"body\" autofocus>");
    reveal_strlit("</textarea>");
    let x = l3.subrange(0, l3.len() - open.len());
    assert(l3 =~= x + open);
    let z = l4.subrange(close.len() as int, l4.len() as int);
    assert(l4 =~= close + z);
    let form = edit_form(at, now, merged);
    let head = "<form class=\"write\" method=\"post\" action=\""@ + at + "/edit\"><input type=\"hidden\" name=\"fingerprint\" value=\""@
        + esc(now);
    let tail = z + at + "\">Cancel</a></div></form>"@;
    let piece = open + esc(merged) + close;
    assert(form =~= (head + x) + piece + tail);
    crate::text::lemma_contains_middle(head + x, piece, tail);
}
} // verus!
