//! The browser's way in: pages as strings, the checks every request passes,
//! and the address arithmetic the handlers share.

pub mod addr;
pub mod asset;
pub mod carried;
pub mod guard;
pub mod layout;
pub mod log;
pub mod markup;
pub mod merge;
pub mod page;
pub mod render;
pub mod reply;
pub mod script;
pub mod stop;
pub mod theme;
pub mod watch;
pub mod work;

use vstd::prelude::*;
use vstd::utf8::{decode_utf8, valid_utf8};

use crate::text::{chars_of, first_from, push_char, push_str, split, split_vec, string_all, views};

verus! {

/// What `String::from_utf8_lossy` writes for bytes that are not UTF-8: the
/// text of each valid run, with U+FFFD for each run that encodes nothing.
pub uninterp spec fn replaced(bytes: Seq<u8>) -> Seq<char>;

/// What `String::from_utf8_lossy` makes of some bytes: the text they encode,
/// when they are UTF-8.
#[verifier::opaque]
pub open spec fn lossy(bytes: Seq<u8>) -> Seq<char> {
    if valid_utf8(bytes) { decode_utf8(bytes) } else { replaced(bytes) }
}

/// `String::from_utf8_lossy`. Bytes that are UTF-8 come back as the text they
/// encode; what it writes for bytes that are not is left to the name.
#[verifier::external_body]
pub(crate) fn text_of_bytes(bytes: &Vec<u8>) -> (r: String)
    ensures
        r@ == lossy(bytes@),
        !valid_utf8(bytes@) ==> r@ == replaced(bytes@),
{
    String::from_utf8_lossy(bytes).into_owned()
}

/// The bytes of `s` in UTF-8.
pub open spec fn utf8(s: Seq<char>) -> Seq<u8> {
    vstd::utf8::encode_utf8(s)
}

/// Outside the unreserved set, so written as `%XX`.
pub open spec fn unreserved(b: u8) -> bool {
    (97u8 <= b && b <= 122u8) || (65u8 <= b && b <= 90u8) || (48u8 <= b && b <= 57u8)
        || b == 45u8 || b == 95u8 || b == 46u8 || b == 126u8
}

/// An upper-case hex digit.
pub open spec fn hex_digit(d: u8) -> char {
    if d < 10 {
        (48u8 + d) as char
    } else {
        (65u8 + d - 10) as char
    }
}

/// Each byte as itself, or as `%XX`.
pub open spec fn percent(b: Seq<u8>) -> Seq<char>
    decreases b.len(),
{
    if b.len() == 0 {
        Seq::empty()
    } else {
        let last = b.last();
        let tail = if unreserved(last) {
            seq![last as char]
        } else {
            seq!['%', hex_digit(last / 16), hex_digit(last % 16)]
        };
        percent(b.drop_last()) + tail
    }
}

pub(crate) fn hex_digit_of(d: u8) -> (c: char)
    requires
        d < 16,
    ensures
        c == hex_digit(d),
{
    if d < 10 {
        (48u8 + d) as char
    } else {
        (65u8 + d - 10) as char
    }
}

/// Percent-encodes everything outside the unreserved set, which is right both
/// for `filename*` (`réunion.pdf`) and a query string (`tag:"24.04 Dark
/// patterns"`).
pub fn encoded(name: &str) -> (r: String)
    ensures
        r@ == percent(utf8(name@)),
{
    let bytes = name.as_bytes();
    let mut out = String::new();
    let mut i: usize = 0;
    while i < bytes.len()
        invariant
            i <= bytes@.len(),
            bytes@ == utf8(name@),
            out@ == percent(bytes@.subrange(0, i as int)),
        decreases bytes.len() - i,
    {
        let b = bytes[i];
        let ghost before = bytes@.subrange(0, i as int);
        if (97u8 <= b && b <= 122u8) || (65u8 <= b && b <= 90u8) || (48u8 <= b && b <= 57u8)
            || b == 45u8 || b == 95u8 || b == 46u8 || b == 126u8 {
            push_char(&mut out, b as char);
        } else {
            push_char(&mut out, '%');
            push_char(&mut out, hex_digit_of(b / 16));
            push_char(&mut out, hex_digit_of(b % 16));
        }
        i += 1;
        assert(bytes@.subrange(0, i as int).drop_last() =~= before);
        assert(out@ =~= percent(bytes@.subrange(0, i as int)));
    }
    assert(bytes@.subrange(0, bytes@.len() as int) =~= bytes@);
    out
}

pub open spec fn hex_value(c: u8) -> Option<u8> {
    if 48u8 <= c && c <= 57u8 {
        Some((c - 48u8) as u8)
    } else if 97u8 <= c && c <= 102u8 {
        Some((c - 97u8 + 10) as u8)
    } else if 65u8 <= c && c <= 70u8 {
        Some((c - 65u8 + 10) as u8)
    } else {
        None
    }
}

/// The byte two hex digits spell.
pub open spec fn hex_pair(high: u8, low: u8) -> Option<u8> {
    match (hex_value(high), hex_value(low)) {
        (Some(h), Some(l)) => Some((h * 16 + l) as u8),
        _ => None,
    }
}

/// `+` as a space and `%XX` as its byte; a stray `%` stays as typed.
pub open spec fn unpercent(b: Seq<u8>) -> Seq<u8>
    decreases b.len(),
{
    if b.len() == 0 {
        Seq::empty()
    } else if b[0] == 43u8 {
        seq![32u8] + unpercent(b.drop_first())
    } else if b[0] == 37u8 && b.len() >= 3 && hex_pair(b[1], b[2]) is Some {
        seq![hex_pair(b[1], b[2])->0] + unpercent(b.subrange(3, b.len() as int))
    } else {
        seq![b[0]] + unpercent(b.drop_first())
    }
}

/// A form's or a query string's value, decoded to bytes and converted once, so
/// a character spread over several `%xx` escapes is not cut apart.
pub open spec fn decoded(value: Seq<char>) -> Seq<char> {
    lossy(unpercent(utf8(value)))
}

fn digit_value(c: u8) -> (r: Option<u8>)
    ensures
        r == hex_value(c),
{
    if 48u8 <= c && c <= 57u8 {
        Some(c - 48u8)
    } else if 97u8 <= c && c <= 102u8 {
        Some(c - 97u8 + 10)
    } else if 65u8 <= c && c <= 70u8 {
        Some(c - 65u8 + 10)
    } else {
        None
    }
}

pub fn hex(high: u8, low: u8) -> (r: Option<u8>)
    ensures
        r == hex_pair(high, low),
{
    match (digit_value(high), digit_value(low)) {
        (Some(h), Some(l)) => Some(h * 16 + l),
        _ => None,
    }
}

pub fn decode(value: &str) -> (r: String)
    ensures
        r@ == decoded(value@),
{
    let bytes = value.as_bytes();
    let mut out: Vec<u8> = Vec::new();
    let mut at: usize = 0;
    assert(bytes@.subrange(0, bytes@.len() as int) =~= bytes@);
    assert(out@ + unpercent(bytes@.subrange(0, bytes@.len() as int)) =~= unpercent(bytes@));
    while at < bytes.len()
        invariant
            at <= bytes@.len(),
            bytes@ == utf8(value@),
            out@ + unpercent(bytes@.subrange(at as int, bytes@.len() as int)) == unpercent(bytes@),
        decreases bytes.len() - at,
    {
        let ghost rest = bytes@.subrange(at as int, bytes@.len() as int);
        let b = bytes[at];
        if b == 43u8 {
            out.push(32u8);
            at += 1;
            assert(rest.drop_first() =~= bytes@.subrange(at as int, bytes@.len() as int));
        } else if b == 37u8 && bytes.len() - at > 2 {
            match hex(bytes[at + 1], bytes[at + 2]) {
                Some(byte) => {
                    out.push(byte);
                    at += 3;
                    assert(rest.subrange(3, rest.len() as int) =~= bytes@.subrange(at as int, bytes@.len() as int));
                },
                None => {
                    out.push(37u8);
                    at += 1;
                    assert(rest.drop_first() =~= bytes@.subrange(at as int, bytes@.len() as int));
                },
            }
        } else {
            out.push(b);
            at += 1;
            assert(rest.drop_first() =~= bytes@.subrange(at as int, bytes@.len() as int));
        }
    }
    assert(bytes@.subrange(at as int, bytes@.len() as int) =~= Seq::<u8>::empty());
    assert(out@ =~= unpercent(bytes@));
    text_of_bytes(&out)
}

/// The name of a `key=value` pair; all of it when there is no `=`.
pub open spec fn pair_key(p: Seq<char>) -> Seq<char> {
    match first_from(p, seq!['='], 0) {
        Some(at) => p.subrange(0, at),
        None => p,
    }
}

/// The value of a `key=value` pair; empty when there is no `=`.
pub open spec fn pair_value(p: Seq<char>) -> Seq<char> {
    match first_from(p, seq!['='], 0) {
        Some(at) => p.subrange(at + 1, p.len() as int),
        None => Seq::empty(),
    }
}

/// The first pair from `from` on whose decoded name is `name`, decoded.
pub open spec fn first_value(pairs: Seq<Seq<char>>, name: Seq<char>, from: int) -> Seq<char>
    decreases pairs.len() - from,
{
    if from < 0 || from >= pairs.len() {
        Seq::empty()
    } else if decoded(pair_key(pairs[from])) == name {
        decoded(pair_value(pairs[from]))
    } else {
        first_value(pairs, name, from + 1)
    }
}

/// Every pair's decoded value whose decoded name is `name`, in order.
pub open spec fn all_values(pairs: Seq<Seq<char>>, name: Seq<char>) -> Seq<Seq<char>>
    decreases pairs.len(),
{
    if pairs.len() == 0 {
        Seq::empty()
    } else {
        let rest = all_values(pairs.drop_last(), name);
        if decoded(pair_key(pairs.last())) == name {
            rest.push(decoded(pair_value(pairs.last())))
        } else {
            rest
        }
    }
}

/// `(key, value)` of one pair, both still encoded.
fn split_pair(p: &Vec<char>) -> (r: (String, String))
    ensures
        r.0@ == pair_key(p@),
        r.1@ == pair_value(p@),
{
    let eq = vec!['='];
    assert(eq@ =~= seq!['=']);
    match crate::text::find_from(p, &eq, 0) {
        Some(at) => {
            proof { crate::text::lemma_first_is(p@, seq!['='], 0, at as int); }
            let n = p.len();
            assert(at + 1 <= n);
            (crate::text::string_of(p, 0, at), crate::text::string_of(p, at + 1, n))
        },
        None => {
            proof { crate::text::lemma_first_none(p@, seq!['='], 0); }
            (string_all(p), String::new())
        },
    }
}

/// By hand rather than a serde derive, for twenty lines.
pub fn parameter(query: Option<&str>, name: &str) -> (r: String)
    ensures
        r@ == match query {
            None => Seq::<char>::empty(),
            Some(q) => first_value(split(q@, '&'), name@, 0),
        },
{
    let asked = match query {
        None => return String::new(),
        Some(asked) => asked,
    };
    let q = chars_of(asked);
    let pairs = split_vec(&q, 0, q.len(), '&');
    assert(q@.subrange(0, q.len() as int) =~= q@);
    let name_chars = chars_of(name);
    let mut i: usize = 0;
    while i < pairs.len()
        invariant
            i <= pairs.len(),
            query == Some(asked),
            q@ == asked@,
            name_chars@ == name@,
            views(pairs@) == split(asked@, '&'),
            first_value(views(pairs@), name@, i as int) == first_value(views(pairs@), name@, 0),
        decreases pairs.len() - i,
    {
        assert(views(pairs@)[i as int] == pairs@[i as int]@);
        let (key, value) = split_pair(&pairs[i]);
        let key = decode(key.as_str());
        let key_chars = chars_of(key.as_str());
        if crate::text::same(&key_chars, &name_chars) {
            assert(first_value(views(pairs@), name@, i as int) == decoded(pair_value(pairs@[i as int]@)));
            return decode(value.as_str());
        }
        i += 1;
    }
    assert(first_value(views(pairs@), name@, i as int) == Seq::<char>::empty());
    String::new()
}

/// Every value of a repeated name, as a form sends one per ticked box.
pub fn parameters(body: &str, name: &str) -> (r: Vec<String>)
    ensures
        r@.map_values(|s: String| s@) == all_values(split(body@, '&'), name@),
{
    let q = chars_of(body);
    let pairs = split_vec(&q, 0, q.len(), '&');
    assert(q@.subrange(0, q.len() as int) =~= q@);
    let name_chars = chars_of(name);
    let mut out: Vec<String> = Vec::new();
    let mut i: usize = 0;
    while i < pairs.len()
        invariant
            i <= pairs.len(),
            name_chars@ == name@,
            views(pairs@) == split(body@, '&'),
            out@.map_values(|s: String| s@) == all_values(views(pairs@).subrange(0, i as int), name@),
        decreases pairs.len() - i,
    {
        assert(views(pairs@)[i as int] == pairs@[i as int]@);
        let ghost before = out@.map_values(|s: String| s@);
        let (key, value) = split_pair(&pairs[i]);
        let key = decode(key.as_str());
        let key_chars = chars_of(key.as_str());
        assert(views(pairs@).subrange(0, i + 1).drop_last() =~= views(pairs@).subrange(0, i as int));
        if crate::text::same(&key_chars, &name_chars) {
            out.push(decode(value.as_str()));
            assert(out@.map_values(|s: String| s@) =~= before.push(decoded(pair_value(pairs@[i as int]@))));
        }
        i += 1;
    }
    assert(views(pairs@).subrange(0, pairs@.len() as int) =~= views(pairs@));
    out
}

} // verus!

verus! {

/// The header a script's fetch names the part it wants in.
pub const PART: &'static str = "x-noda-fragment";

/// How much of a page a script's fetch will use; it keeps only one region, 48
/// of a note page's 52 KB being chrome.
///
/// * **The part is a substring of the page**, both built from one string in
///   `page.rs`, so there is no second rendering to drift.
/// * **The whole page is always a correct answer**: every script looks up its
///   region in what arrives, so an unknown name just gets the page.
#[derive(Clone, Copy, PartialEq, Eq, Debug)]
pub enum Part {
    /// `.pane.read`, and the page title.
    Read,
    /// The listing's column, rows and count.
    Index,
    /// Both of the listing's panes, for going back.
    Screen,
    /// A backlinks answer's rows.
    Rows,
    /// The network screen's `<main>`, and whether it still refreshes.
    News,
}

pub open spec fn part_name(part: Part) -> Seq<char> {
    match part {
        Part::Read => "read"@,
        Part::Index => "index"@,
        Part::Screen => "screen"@,
        Part::Rows => "rows"@,
        Part::News => "news"@,
    }
}

impl Part {
    /// Read by the scripts, in the header their fetch sends.
    pub fn name(self) -> (r: &'static str)
        ensures
            r@ == part_name(self),
    {
        match self {
            Part::Read => "read",
            Part::Index => "index",
            Part::Screen => "screen",
            Part::Rows => "rows",
            Part::News => "news",
        }
    }

    /// Whether a fetch that sent `said` asked for this part.
    pub fn wanted(self, said: Option<&str>) -> (r: bool)
        ensures
            r == (said matches Some(s) && s@ == part_name(self)),
    {
        match said {
            None => false,
            Some(s) => {
                let a = chars_of(s);
                let b = chars_of(self.name());
                crate::text::same(&a, &b)
            },
        }
    }
}

/// What comes after the last `.` of a name, lowered; empty with no `.`.
pub open spec fn extension(name: Seq<char>) -> Seq<char> {
    if exists|i: int| 0 <= i < name.len() && name[i] == '.' {
        let at = choose|i: int| 0 <= i < name.len() && name[i] == '.'
            && forall|j: int| i < j < name.len() ==> name[j] != '.';
        name.subrange(at + 1, name.len() as int).map_values(|c: char| crate::text::ascii_lower(c))
    } else {
        Seq::empty()
    }
}

/// A file's content type, and whether it may be shown inline.
pub open spec fn kind_of(ext: Seq<char>) -> (Seq<char>, bool) {
    if ext == "png"@ {
        ("image/png"@, true)
    } else if ext == "jpg"@ || ext == "jpeg"@ {
        ("image/jpeg"@, true)
    } else if ext == "gif"@ {
        ("image/gif"@, true)
    } else if ext == "webp"@ {
        ("image/webp"@, true)
    } else if ext == "avif"@ {
        ("image/avif"@, true)
    } else if ext == "txt"@ || ext == "md"@ || ext == "csv"@ || ext == "log"@ {
        ("text/plain; charset=utf-8"@, true)
    } else if ext == "pdf"@ {
        ("application/pdf"@, false)
    } else if ext == "svg"@ {
        ("image/svg+xml"@, false)
    } else {
        ("application/octet-stream"@, false)
    }
}

fn is(ext: &Vec<char>, word: &str) -> (r: bool)
    ensures
        r == (ext@ == word@),
{
    let w = chars_of(word);
    crate::text::same(ext, &w)
}

/// A file's content type, and whether it may be shown inline.
///
/// An allow-list: attachments share the pages' origin, so anything inline that
/// can carry a script (SVG) runs as this site. Anything unlisted is an
/// `octet-stream` download.
pub fn holding(name: &str) -> (r: (&'static str, bool))
    ensures
        (r.0@, r.1) == kind_of(extension(name@)),
{
    let v = chars_of(name);
    let mut at = v.len();
    while at > 0 && v[at - 1] != '.'
        invariant
            at <= v.len(),
            forall|j: int| at <= j < v.len() ==> v@[j] != '.',
        decreases at,
    {
        at -= 1;
    }
    let mut ext: Vec<char> = Vec::new();
    if at > 0 {
        let mut i = at;
        while i < v.len()
            invariant
                at <= i <= v.len(),
                ext@ == v@.subrange(at as int, i as int).map_values(|c: char| crate::text::ascii_lower(c)),
            decreases v.len() - i,
        {
            ext.push(crate::text::lower_ascii_char(v[i]));
            i += 1;
            assert(ext@ =~= v@.subrange(at as int, i as int).map_values(|c: char| crate::text::ascii_lower(c)));
        }
        assert(extension(name@) == ext@) by {
            let w = choose|i: int| 0 <= i < v@.len() && v@[i] == '.'
                && forall|j: int| i < j < v@.len() ==> v@[j] != '.';
            assert(0 <= at - 1 < v@.len() && v@[at - 1] == '.');
            if w < at - 1 {
                assert(v@[at - 1] != '.');
            } else if w > at - 1 {
                assert(v@[w] != '.');
            }
        }
    } else {
        assert(extension(name@) == ext@);
    }
    if is(&ext, "png") {
        ("image/png", true)
    } else if is(&ext, "jpg") || is(&ext, "jpeg") {
        ("image/jpeg", true)
    } else if is(&ext, "gif") {
        ("image/gif", true)
    } else if is(&ext, "webp") {
        ("image/webp", true)
    } else if is(&ext, "avif") {
        ("image/avif", true)
    } else if is(&ext, "txt") || is(&ext, "md") || is(&ext, "csv") || is(&ext, "log") {
        ("text/plain; charset=utf-8", true)
    } else if is(&ext, "pdf") {
        ("application/pdf", false)
    } else if is(&ext, "svg") {
        ("image/svg+xml", false)
    } else {
        ("application/octet-stream", false)
    }
}


/// The order an address's `sort` names; the default for a name nobody
/// writes (links only write known ones, so anything else is a hand-edited
/// address).
pub open spec fn sort_asked(name: Seq<char>) -> crate::sort::Sort {
    if name == crate::sort::sort_name(crate::sort::Sort::Created) {
        crate::sort::Sort::Created
    } else if name == crate::sort::sort_name(crate::sort::Sort::Updated) {
        crate::sort::Sort::Updated
    } else if name == crate::sort::sort_name(crate::sort::Sort::Title) {
        crate::sort::Sort::Title
    } else {
        crate::sort::Sort::Slug
    }
}

/// The listing's order as a query string asks for it: `sort` by name, and `r`
/// reversed when present at all, as a checkbox sends it.
pub open spec fn order_in(query: Option<Seq<char>>) -> crate::web::page::Order {
    match query {
        None => crate::web::page::Order { sort: crate::sort::Sort::Slug, reversed: false },
        Some(q) => crate::web::page::Order {
            sort: sort_asked(first_value(split(q, '&'), "sort"@, 0)),
            reversed: first_value(split(q, '&'), "r"@, 0).len() > 0,
        },
    }
}

/// The listing's order as the address asks for it.
pub fn order_of(query: Option<&str>) -> (r: crate::web::page::Order)
    ensures
        r == order_in(match query { Some(q) => Some(q@), None => None }),
{
    let asked = parameter(query, "sort");
    proof {
        reveal_strlit("slug");
        reveal_strlit("created");
        reveal_strlit("updated");
        reveal_strlit("title");
        assert forall|s: crate::sort::Sort| crate::sort::sort_name(s).len() > 0 by {
            match s {
                crate::sort::Sort::Slug => {},
                crate::sort::Sort::Created => {},
                crate::sort::Sort::Updated => {},
                crate::sort::Sort::Title => {},
            }
        }
    }
    let sort = match crate::sort::Sort::named(asked.as_str()) {
        Some(s) => {
            assert(sort_asked(crate::sort::sort_name(s)) == s) by {
                reveal_strlit("slug");
                reveal_strlit("created");
                reveal_strlit("updated");
                reveal_strlit("title");
                assert("created"@[0] != "updated"@[0]);
                assert("slug"@.len() != "created"@.len() && "slug"@.len() != "title"@.len());
                assert("title"@.len() != "created"@.len());
                match s {
                    crate::sort::Sort::Slug => {},
                    crate::sort::Sort::Created => {},
                    crate::sort::Sort::Updated => {},
                    crate::sort::Sort::Title => {},
                }
            }
            s
        },
        None => {
            assert(crate::sort::sort_name(crate::sort::Sort::Created) != asked@);
            assert(crate::sort::sort_name(crate::sort::Sort::Updated) != asked@);
            assert(crate::sort::sort_name(crate::sort::Sort::Title) != asked@);
            crate::sort::Sort::Slug
        },
    };
    let r = parameter(query, "r");
    crate::web::page::Order { sort, reversed: !r.as_str().is_empty() }
}

/// Each of `tags` with `mark` before it.
pub open spec fn marked_all(tags: Seq<Seq<char>>, mark: char) -> Seq<Seq<char>> {
    tags.map_values(|t: Seq<char>| seq![mark] + t)
}

/// The tags offered but no longer ticked, in the order offered.
pub open spec fn unticked(saw: Seq<Seq<char>>, kept: Seq<Seq<char>>) -> Seq<Seq<char>>
    decreases saw.len(),
{
    if saw.len() == 0 {
        Seq::empty()
    } else {
        let rest = unticked(saw.drop_last(), kept);
        if kept.contains(saw.last()) { rest } else { rest.push(saw.last()) }
    }
}

/// What the tags form asks for, in the tag command's notation: `-tag` for
/// each tag the page offered (`saw`) that is no longer ticked (`keep`), then
/// `+tag` for each term typed into `add`. Against what the page offered, not
/// the file, so a tag added elsewhere since the page was drawn is not removed
/// as if unticked.
pub open spec fn tag_changes_of(form: Seq<char>) -> Seq<Seq<char>> {
    let pairs = split(form, '&');
    marked_all(unticked(all_values(pairs, "saw"@), all_values(pairs, "keep"@)), '-')
        + marked_all(crate::query::tokens(first_value(pairs, "add"@, 0)), '+')
}

proof fn lemma_unticked_offered(saw: Seq<Seq<char>>, kept: Seq<Seq<char>>)
    ensures
        forall|k: int| 0 <= k < unticked(saw, kept).len() ==> saw.contains(#[trigger] unticked(saw, kept)[k])
            && !kept.contains(unticked(saw, kept)[k]),
    decreases saw.len(),
{
    if saw.len() > 0 {
        lemma_unticked_offered(saw.drop_last(), kept);
        let rest = unticked(saw.drop_last(), kept);
        assert forall|k: int| 0 <= k < unticked(saw, kept).len() implies saw.contains(#[trigger] unticked(saw, kept)[k])
            && !kept.contains(unticked(saw, kept)[k]) by {
            if k < rest.len() {
                assert(unticked(saw, kept)[k] == rest[k]);
                let j = choose|j: int| 0 <= j < saw.drop_last().len() && saw.drop_last()[j] == rest[k];
                assert(saw[j] == rest[k]);
            } else {
                assert(saw[saw.len() - 1] == saw.last());
            }
        }
    }
}

pub fn tag_changes(form: &str) -> (r: Vec<String>)
    ensures
        r@.map_values(|s: String| s@) == tag_changes_of(form@),
        forall|t: Seq<char>| !all_values(split(form@, '&'), "saw"@).contains(t)
            ==> !r@.map_values(|s: String| s@).contains(seq!['-'] + t),
{
    let saw = parameters(form, "saw");
    let kept = parameters(form, "keep");
    let ghost saw_v = saw@.map_values(|s: String| s@);
    let ghost kept_v = kept@.map_values(|s: String| s@);
    let mut out: Vec<String> = Vec::new();
    let mut i: usize = 0;
    while i < saw.len()
        invariant
            i <= saw.len(),
            saw_v == saw@.map_values(|s: String| s@),
            kept_v == kept@.map_values(|s: String| s@),
            out@.map_values(|s: String| s@) == marked_all(unticked(saw_v.subrange(0, i as int), kept_v), '-'),
        decreases saw.len() - i,
    {
        let tag = &saw[i];
        assert(saw_v[i as int] == saw@[i as int]@);
        let mut ticked = false;
        let mut k: usize = 0;
        let t = chars_of(tag.as_str());
        while k < kept.len()
            invariant
                k <= kept.len(),
                t@ == saw_v[i as int],
                kept_v == kept@.map_values(|s: String| s@),
                ticked == exists|j: int| 0 <= j < k && kept_v[j] == t@,
            decreases kept.len() - k,
        {
            let other = chars_of(kept[k].as_str());
            assert(kept_v[k as int] == kept@[k as int]@);
            if crate::text::same(&other, &t) {
                ticked = true;
            }
            k += 1;
        }
        let ghost before = out@.map_values(|s: String| s@);
        assert(saw_v.subrange(0, i + 1).drop_last() =~= saw_v.subrange(0, i as int));
        assert(saw_v.subrange(0, i + 1).last() == saw_v[i as int]);
        if !ticked {
            let mut change = String::new();
            push_char(&mut change, '-');
            push_str(&mut change, tag.as_str());
            out.push(change);
            assert(out@.map_values(|s: String| s@) =~= before.push(seq!['-'] + saw_v[i as int]));
            assert(marked_all(unticked(saw_v.subrange(0, i + 1), kept_v), '-')
                =~= marked_all(unticked(saw_v.subrange(0, i as int), kept_v), '-').push(seq!['-'] + saw_v[i as int]));
        } else {
            assert(kept_v.contains(saw_v[i as int]));
            assert(unticked(saw_v.subrange(0, i + 1), kept_v) == unticked(saw_v.subrange(0, i as int), kept_v));
        }
        i += 1;
    }
    assert(saw_v.subrange(0, saw_v.len() as int) =~= saw_v);
    let ghost removals = out@.map_values(|s: String| s@);
    let added = crate::query::split(parameter(Some(form), "add").as_str());
    let mut j: usize = 0;
    while j < added.len()
        invariant
            j <= added.len(),
            removals == marked_all(unticked(saw_v, kept_v), '-'),
            out@.map_values(|s: String| s@) == removals
                + marked_all(added@.map_values(|s: String| s@).subrange(0, j as int), '+'),
        decreases added.len() - j,
    {
        let ghost before = out@.map_values(|s: String| s@);
        let mut change = String::new();
        push_char(&mut change, '+');
        push_str(&mut change, added[j].as_str());
        out.push(change);
        assert(out@.map_values(|s: String| s@) =~= before.push(seq!['+'] + added@[j as int]@));
        assert(marked_all(added@.map_values(|s: String| s@).subrange(0, j + 1), '+')
            =~= marked_all(added@.map_values(|s: String| s@).subrange(0, j as int), '+').push(seq!['+'] + added@[j as int]@));
        j += 1;
    }
    assert(added@.map_values(|s: String| s@).subrange(0, added@.len() as int) =~= added@.map_values(|s: String| s@));
    proof {
        lemma_unticked_offered(saw_v, kept_v);
        let all = out@.map_values(|s: String| s@);
        let rem = unticked(saw_v, kept_v);
        let adds = added@.map_values(|s: String| s@);
        assert forall|t: Seq<char>| !saw_v.contains(t) implies !all.contains(seq!['-'] + t) by {
            if all.contains(seq!['-'] + t) {
                let k = choose|k: int| 0 <= k < all.len() && all[k] == seq!['-'] + t;
                if k < rem.len() {
                    assert(all[k] == seq!['-'] + rem[k]);
                    assert((seq!['-'] + t).subrange(1, (seq!['-'] + t).len() as int) =~= t);
                    assert((seq!['-'] + rem[k]).subrange(1, (seq!['-'] + rem[k]).len() as int) =~= rem[k]);
                    assert(saw_v.contains(rem[k]));
                } else {
                    assert(all[k] == seq!['+'] + adds[k - rem.len()]);
                    assert(all[k][0] == '+');
                    assert((seq!['-'] + t)[0] == '-');
                }
            }
        }
    }
    out
}


/// The byte of a hex digit `hex_digit` writes.
pub open spec fn hex_byte(d: u8) -> u8 {
    if d < 10 { (48u8 + d) as u8 } else { (65u8 + d - 10) as u8 }
}

/// What `percent` writes for one byte, as bytes.
pub open spec fn token(x: u8) -> Seq<u8> {
    if unreserved(x) { seq![x] } else { seq![37u8, hex_byte(x / 16), hex_byte(x % 16)] }
}

/// What `percent` writes for some bytes, as bytes, read from the front.
pub open spec fn tokens_of(b: Seq<u8>) -> Seq<u8>
    decreases b.len(),
{
    if b.len() == 0 { Seq::empty() } else { token(b[0]) + tokens_of(b.drop_first()) }
}

proof fn lemma_hex_byte(d: u8)
    requires
        d < 16,
    ensures
        hex_value(hex_byte(d)) == Some(d),
        hex_byte(d) as char == hex_digit(d),
{
}

proof fn lemma_unpercent_token(x: u8, rest: Seq<u8>)
    ensures
        unpercent(token(x) + rest) == seq![x] + unpercent(rest),
{
    let b = token(x) + rest;
    if unreserved(x) {
        assert(b[0] == x);
        assert(b.drop_first() =~= rest);
    } else {
        let (h, l) = (x / 16, x % 16);
        lemma_hex_byte(h);
        lemma_hex_byte(l);
        assert(b[0] == 37u8 && b[1] == hex_byte(h) && b[2] == hex_byte(l));
        assert((h * 16 + l) as u8 == x) by (nonlinear_arith)
            requires h == x / 16, l == x % 16;
        assert(hex_pair(b[1], b[2]) == Some(x));
        assert(b.subrange(3, b.len() as int) =~= rest);
    }
}

proof fn lemma_unpercent_tokens(b: Seq<u8>)
    ensures
        unpercent(tokens_of(b)) == b,
    decreases b.len(),
{
    if b.len() > 0 {
        lemma_unpercent_tokens(b.drop_first());
        lemma_unpercent_token(b[0], tokens_of(b.drop_first()));
        assert(seq![b[0]] + b.drop_first() =~= b);
    }
}

proof fn lemma_tokens_push(a: Seq<u8>, x: u8)
    ensures
        tokens_of(a.push(x)) == tokens_of(a) + token(x),
    decreases a.len(),
{
    if a.len() == 0 {
        assert(a.push(x).drop_first() =~= Seq::<u8>::empty());
        assert(a.push(x)[0] == x);
        assert(tokens_of(Seq::<u8>::empty()) =~= Seq::<u8>::empty());
        assert(tokens_of(a.push(x)) == token(x) + tokens_of(Seq::<u8>::empty()));
        assert(tokens_of(a.push(x)) =~= tokens_of(a) + token(x));
    } else {
        lemma_tokens_push(a.drop_first(), x);
        assert(a.push(x).drop_first() =~= a.drop_first().push(x));
        assert(tokens_of(a.push(x)) =~= tokens_of(a) + token(x));
    }
}

pub(crate) proof fn lemma_utf8_join(a: Seq<char>, b: Seq<char>)
    ensures
        utf8(a + b) == utf8(a) + utf8(b),
    decreases a.len(),
{
    if a.len() == 0 {
        assert(a + b =~= b);
    } else {
        lemma_utf8_join(a.drop_first(), b);
        assert((a + b).drop_first() =~= a.drop_first() + b);
        assert((a + b)[0] == a[0]);
    }
}

pub(crate) proof fn lemma_utf8_ascii(c: char)
    requires
        (c as u32) < 128,
    ensures
        utf8(seq![c]) == seq![c as u8],
{
    let v = c as u32;
    assert((v & 0x7F) as u8 == v as u8) by (bit_vector)
        requires v < 128;
    assert(seq![c].drop_first() =~= Seq::<char>::empty());
    assert(seq![c][0] == c);
    assert(vstd::utf8::encode_utf8(Seq::<char>::empty()) =~= Seq::<u8>::empty());
    assert(vstd::utf8::encode_scalar(v) == seq![(v & 0x7F) as u8]);
    assert(c as u8 == v as u8);
    assert(utf8(seq![c]) == vstd::utf8::encode_scalar(v) + vstd::utf8::encode_utf8(Seq::<char>::empty()));
    assert(utf8(seq![c]) =~= seq![c as u8]);
}

proof fn lemma_utf8_token(x: u8)
    ensures
        utf8(if unreserved(x) { seq![x as char] } else { seq!['%', hex_digit(x / 16), hex_digit(x % 16)] }) == token(x),
{
    if unreserved(x) {
        lemma_utf8_ascii(x as char);
        assert(utf8(seq![x as char]) =~= token(x));
    } else {
        let (h, l) = (x / 16, x % 16);
        lemma_hex_byte(h);
        lemma_hex_byte(l);
        lemma_utf8_ascii('%');
        lemma_utf8_ascii(hex_digit(h));
        lemma_utf8_ascii(hex_digit(l));
        let three = seq!['%', hex_digit(h), hex_digit(l)];
        assert(three =~= seq!['%'] + seq![hex_digit(h)] + seq![hex_digit(l)]);
        lemma_utf8_join(seq!['%'] + seq![hex_digit(h)], seq![hex_digit(l)]);
        lemma_utf8_join(seq!['%'], seq![hex_digit(h)]);
        assert(utf8(three) =~= token(x));
    }
}

proof fn lemma_utf8_percent(b: Seq<u8>)
    ensures
        utf8(percent(b)) == tokens_of(b),
    decreases b.len(),
{
    if b.len() == 0 {
        assert(tokens_of(b) =~= Seq::<u8>::empty());
    } else {
        let last = b.last();
        lemma_utf8_percent(b.drop_last());
        let tail = if unreserved(last) { seq![last as char] } else { seq!['%', hex_digit(last / 16), hex_digit(last % 16)] };
        lemma_utf8_join(percent(b.drop_last()), tail);
        lemma_utf8_token(last);
        lemma_tokens_push(b.drop_last(), last);
        assert(b.drop_last().push(last) =~= b);
    }
}

/// What `encoded` writes, decoded, is what it was given: `%XX` spells back
/// each byte, no `+` is written to come back as a space, and the bytes are the
/// text's own UTF-8. So a quoted tag, a space and a multi-byte character
/// survive the trip through a query string or a form.
pub proof fn a_value_survives_the_trip(s: Seq<char>)
    ensures
        decoded(percent(utf8(s))) == s,
{
    lemma_utf8_percent(utf8(s));
    lemma_unpercent_tokens(utf8(s));
    vstd::utf8::encode_utf8_valid_utf8(s);
    vstd::utf8::encode_utf8_decode_utf8(s);
    reveal(lossy);
}

} // verus!
