//! What the screens write that is worked out rather than drawn: the gutter and
//! the mark in front of a row, the `?` card's keys, a missing stamp, a title
//! cut to its room, the tag list, and where a note's frontmatter ends.

use vstd::prelude::*;

use crate::text::{chars_of, is_white, lowercase, owned, push_char, push_str, same, string_of, to_lower, white};
use crate::web::markup::{join, push_joined, texts};
use crate::note::NoteFile;
use crate::tui::band::{display_width, shown_width};
use crate::palette::PIN_MARK;
use vstd::view::View as _;

verus! {

/// The widest key cell on the help card, so the descriptions line up.
pub const KEY_COLUMN: usize = 22;

/// In front of the id, the same width marked or not, so columns never shift.
pub const MARK: &'static str = "• ";
pub const UNMARKED: &'static str = "  ";

/// The gap between columns; `TITLE_FLOOR` is the title width kept however
/// long the tags.
pub const COLUMN_GAP: usize = 2;
pub const TITLE_FLOOR: usize = 10;

pub const SHORT_COMMIT: u16 = 7;

/// Wider by the unpushed mark, which only the log shows.
pub const MARKED_COMMIT: u16 = 9;

/// The scrollbar's column, reserved even when no bar is drawn so columns do
/// not shift when a list overflows.
pub const PADDING: u16 = 1;

/// A half block points at the row, not a place in the text. The space keeps
/// it from reading as part of a commit hash.
pub const CURSOR_BAR: &'static str = "▌ ";

/// The cursor bar's width, taken off every row measurement.
pub const GUTTER: usize = 2;

pub const HEADING_ROWS: u16 = 1;

/// The `?` card: what the header's key grid leaves out or may drop, kept
/// short enough to fit a 24-row terminal. `p` is only here: every column of
/// the header's grid is full.
pub open spec fn card_keys() -> Seq<(Seq<char>, Seq<char>)> {
    seq![
        ("j / k, ↓ / ↑"@, "move · scroll"@),
        ("ctrl-f / ctrl-b, g / G"@, "half a screen · first / last"@),
        ("enter, esc"@, "open it · back out of it"@),
        ("/"@, "filter: tag:work OR tag:q3 budget"@),
        (":, ctrl-a"@, "run a command · the list of what it takes"@),
        ("space, *, Q"@, "mark · mark all shown · the queue"@),
        ("e, a, p"@, "edit in $EDITOR · new note · pin, and unpin"@),
        ("m, #"@, "retitle · tags: a box each, tab chooses"@),
        ("ctrl-d, T"@, "delete (after a y) · leave updated alone"@),
        ("t, l, b, B"@, "todo · log · backlinks · blame"@),
        ("S, R, ctrl-w, 1-9"@, "sort · reverse · wide row · a tag (0 = all)"@),
        ("r, ctrl-g, q / ctrl-c"@, "read again · crumbs · quit"@),
        ("while typing"@, "readline: ctrl-a/e/w/u/k/y, alt-b/f"@),
    ]
}

/// The `?` card's rows: a key cell and what it does.
pub fn keys() -> (r: Vec<(&'static str, &'static str)>)
    ensures
        r@.map_values(|p: (&'static str, &'static str)| (p.0@, p.1@)) == card_keys(),
{
    let r = vec![
        ("j / k, ↓ / ↑", "move · scroll"),
        ("ctrl-f / ctrl-b, g / G", "half a screen · first / last"),
        ("enter, esc", "open it · back out of it"),
        ("/", "filter: tag:work OR tag:q3 budget"),
        (":, ctrl-a", "run a command · the list of what it takes"),
        ("space, *, Q", "mark · mark all shown · the queue"),
        ("e, a, p", "edit in $EDITOR · new note · pin, and unpin"),
        ("m, #", "retitle · tags: a box each, tab chooses"),
        ("ctrl-d, T", "delete (after a y) · leave updated alone"),
        ("t, l, b, B", "todo · log · backlinks · blame"),
        ("S, R, ctrl-w, 1-9", "sort · reverse · wide row · a tag (0 = all)"),
        ("r, ctrl-g, q / ctrl-c", "read again · crumbs · quit"),
        ("while typing", "readline: ctrl-a/e/w/u/k/y, alt-b/f"),
    ];
    assert(r@.map_values(|p: (&'static str, &'static str)| (p.0@, p.1@)) =~= card_keys());
    r
}

/// A heading indented past the mark, which is inside the cell.
pub fn under_mark(name: &str) -> (r: String)
    ensures
        r@ == UNMARKED@ + name@,
{
    let mut out = owned(UNMARKED);
    push_str(&mut out, name);
    out
}

/// The column headings, as given.
pub fn headings(names: &[&str]) -> (r: Vec<String>)
    ensures
        r@.len() == names@.len(),
        forall|i: int| 0 <= i < names@.len() ==> #[trigger] r@[i]@ == names@[i]@,
{
    let mut out: Vec<String> = Vec::new();
    let mut i: usize = 0;
    while i < names.len()
        invariant
            i <= names.len(),
            out@.len() == i,
            forall|j: int| 0 <= j < i ==> #[trigger] out@[j]@ == names@[j]@,
        decreases names.len() - i,
    {
        out.push(owned(names[i]));
        i += 1;
    }
    out
}

/// `noda ls -l`'s dash for a missing time, rather than a blank cell.
pub fn stamp(value: Option<&String>) -> (r: String)
    ensures
        value matches Some(v) ==> r@ == v@,
        value is None ==> r@ == "-"@,
{
    match value {
        Some(v) => owned(v.as_str()),
        None => owned("-"),
    }
}

/// `s` without the whitespace at its end.
pub open spec fn trim_white_end(s: Seq<char>) -> Seq<char>
    decreases s.len(),
{
    if s.len() > 0 && white(s.last()) {
        trim_white_end(s.drop_last())
    } else {
        s
    }
}

/// `text` as it fits in `room` characters: whole, or cut one short, its
/// trailing whitespace dropped, and an ellipsis after.
pub open spec fn cut_to(text: Seq<char>, room: nat) -> Seq<char> {
    if text.len() <= room {
        text
    } else {
        let keep = if room >= 1 { (room - 1) as int } else { 0 };
        trim_white_end(text.subrange(0, keep)) + "…"@
    }
}

/// Cut on a character, not a byte, which could panic mid-code-point.
pub fn cut(text: &str, room: usize) -> (r: String)
    ensures
        r@ == cut_to(text@, room as nat),
{
    let v = chars_of(text);
    if v.len() <= room {
        return owned(text);
    }
    let mut end: usize = if room >= 1 { room - 1 } else { 0 };
    assert(v@.subrange(0, end as int) == text@.subrange(0, end as int));
    while end > 0 && is_white(v[end - 1])
        invariant
            end <= v.len(),
            v@ == text@,
            trim_white_end(v@.subrange(0, end as int)) == trim_white_end(
                text@.subrange(0, if room >= 1 { (room - 1) as int } else { 0 }),
            ),
        decreases end,
    {
        assert(v@.subrange(0, end as int).drop_last() =~= v@.subrange(0, end - 1));
        end -= 1;
    }
    let mut out = string_of(&v, 0, end);
    push_str(&mut out, "…");
    out
}

/// The uncoloured tag list, as the listing writes it: `[work, q3]`, or
/// nothing for no tags.
pub open spec fn tag_list(tags: Seq<Seq<char>>) -> Seq<char> {
    if tags.len() == 0 { Seq::empty() } else { "["@ + join(tags, ", "@) + "]"@ }
}

pub fn tags(list: &[String]) -> (r: String)
    ensures
        r@ == tag_list(texts(list@)),
{
    let mut out = String::new();
    if list.len() == 0 {
        return out;
    }
    push_str(&mut out, "[");
    let mut v: Vec<String> = Vec::new();
    let mut i: usize = 0;
    while i < list.len()
        invariant
            i <= list.len(),
            texts(v@) == texts(list@).subrange(0, i as int),
        decreases list.len() - i,
    {
        let t = owned(list[i].as_str());
        proof {
            crate::web::markup::lemma_texts_push(v@, t);
            crate::web::markup::lemma_texts_prefix(list@, i as int);
        }
        v.push(t);
        i += 1;
    }
    assert(texts(list@).subrange(0, list@.len() as int) =~= texts(list@));
    push_joined(&mut out, &v, ", ");
    push_str(&mut out, "]");
    out
}

/// A note file cut after its frontmatter: the block from an opening `---`
/// line to the first closing `---` line, and the rest. With no closed block,
/// nothing is frontmatter.
pub open spec fn frontmatter_split(text: Seq<char>) -> (Seq<char>, Seq<char>) {
    if crate::text::starts(text, "---\n"@) {
        match crate::text::first_from(text, "\n---\n"@, 4) {
            Some(end) => (text.subrange(0, end + 5), text.subrange(end + 5, text.len() as int)),
            None => (Seq::empty(), text),
        }
    } else {
        (Seq::empty(), text)
    }
}

/// Judged as the CLI judges it when it dims a frontmatter.
pub fn split_frontmatter(text: &str) -> (r: (String, String))
    ensures
        (r.0@, r.1@) == frontmatter_split(text@),
{
    let v = chars_of(text);
    let open = chars_of("---\n");
    let close = chars_of("\n---\n");
    proof {
        reveal_strlit("---\n");
        reveal_strlit("\n---\n");
    }
    if !crate::text::starts_with(&v, &open) {
        return (String::new(), owned(text));
    }
    match crate::text::find_from(&v, &close, 4) {
        Some(end) => {
            proof { crate::text::lemma_first_is(v@, close@, 4, end as int); }
            assert(close@.len() == 5);
            assert(crate::text::occurs_at(v@, close@, end as int));
            assert(end + 5 <= v@.len());
            assert(v@.len() == v.len());
            let stop: usize = end + 5;
            (string_of(&v, 0, stop), string_of(&v, stop, v.len()))
        },
        None => {
            proof { crate::text::lemma_first_none(v@, close@, 4); }
            (String::new(), owned(text))
        },
    }
}


/// Each character of a text as it reads ignoring case: its lower case, which
/// may be more than one character.
pub open spec fn low(t: Seq<char>) -> Seq<Seq<char>> {
    t.map_values(|c: char| lowercase(seq![c]))
}

/// Whether a term stands at `p`, ignoring case, character for character.
pub open spec fn matches_at(lt: Seq<Seq<char>>, lw: Seq<Seq<char>>, p: int) -> bool {
    &&& lw.len() > 0
    &&& 0 <= p && p + lw.len() <= lt.len()
    &&& forall|k: int| 0 <= k < lw.len() ==> #[trigger] lt[p + k] == lw[k]
}

/// Where a term first stands from `from` on.
pub open spec fn first_match(lt: Seq<Seq<char>>, lw: Seq<Seq<char>>, from: int) -> Option<int>
    decreases lt.len() - from,
{
    if from < 0 || from + lw.len() > lt.len() || lw.len() == 0 {
        None
    } else if matches_at(lt, lw, from) {
        Some(from)
    } else {
        first_match(lt, lw, from + 1)
    }
}

/// The earlier of two runs, the first kept on a tie.
pub open spec fn earlier(prev: Option<(int, int)>, next: Option<(int, int)>) -> Option<(int, int)> {
    match (prev, next) {
        (None, n) => n,
        (p, None) => p,
        (Some(p), Some(n)) => if n.0 < p.0 { Some(n) } else { Some(p) },
    }
}

/// The run to mark next: the earliest any term starts, the first term's on a
/// tie.
pub open spec fn hit(lt: Seq<Seq<char>>, lws: Seq<Seq<Seq<char>>>, at: int) -> Option<(int, int)>
    decreases lws.len(),
{
    if lws.len() == 0 {
        None
    } else {
        let here = match first_match(lt, lws.last(), at) {
            Some(p) => Some((p, p + lws.last().len())),
            None => None,
        };
        earlier(hit(lt, lws.drop_last(), at), here)
    }
}

proof fn lemma_first_match(lt: Seq<Seq<char>>, lw: Seq<Seq<char>>, from: int)
    ensures
        first_match(lt, lw, from) matches Some(p) ==> from <= p && matches_at(lt, lw, p),
    decreases lt.len() - from,
{
    if !(from < 0 || from + lw.len() > lt.len() || lw.len() == 0) && !matches_at(lt, lw, from) {
        lemma_first_match(lt, lw, from + 1);
    }
}

proof fn lemma_hit(lt: Seq<Seq<char>>, lws: Seq<Seq<Seq<char>>>, at: int)
    ensures
        hit(lt, lws, at) matches Some((s, e)) ==> at <= s < e <= lt.len(),
    decreases lws.len(),
{
    if lws.len() > 0 {
        lemma_hit(lt, lws.drop_last(), at);
        lemma_first_match(lt, lws.last(), at);
    }
}

/// A line from `at` on, cut into runs: each a term matched (`true`) or the
/// text between (`false`). The earliest match wins an overlap and the search
/// resumes after it, so a line is walked once.
pub open spec fn runs_from(t: Seq<char>, lws: Seq<Seq<Seq<char>>>, at: int) -> Seq<(Seq<char>, bool)>
    decreases t.len() - at,
{
    if at < 0 || at >= t.len() {
        Seq::empty()
    } else {
        match hit(low(t), lws, at) {
            None => seq![(t.subrange(at, t.len() as int), false)],
            Some((s, e)) => if at <= s && s < e && e <= t.len() {
                (if s > at { seq![(t.subrange(at, s), false)] } else { Seq::empty() })
                    + seq![(t.subrange(s, e), true)] + runs_from(t, lws, e)
            } else {
                seq![(t.subrange(at, t.len() as int), false)]
            },
        }
    }
}

/// A line with the search terms picked out; an empty line is one empty run.
pub open spec fn marked_runs(t: Seq<char>, terms: Seq<Seq<char>>) -> Seq<(Seq<char>, bool)> {
    if t.len() == 0 {
        seq![(t, false)]
    } else {
        runs_from(t, terms.map_values(|w: Seq<char>| low(w)), 0)
    }
}

fn lowered(v: &Vec<char>) -> (r: Vec<Vec<char>>)
    ensures
        r@.len() == v@.len(),
        forall|i: int| 0 <= i < v@.len() ==> #[trigger] r@[i]@ == low(v@)[i],
{
    let mut out: Vec<Vec<char>> = Vec::new();
    let mut i: usize = 0;
    while i < v.len()
        invariant
            i <= v.len(),
            out@.len() == i,
            forall|j: int| 0 <= j < i ==> #[trigger] out@[j]@ == low(v@)[j],
        decreases v.len() - i,
    {
        let mut one = String::new();
        push_char(&mut one, v[i]);
        assert(one@ =~= seq![v@[i as int]]);
        let l = to_lower(one.as_str());
        out.push(chars_of(l.as_str()));
        i += 1;
    }
    out
}

fn matches_here(lt: &Vec<Vec<char>>, lw: &Vec<Vec<char>>, p: usize) -> (r: bool)
    ensures
        r == matches_at(crate::text::views(lt@), crate::text::views(lw@), p as int),
{
    if lw.len() == 0 || p > lt.len() || lt.len() - p < lw.len() {
        return false;
    }
    let mut k: usize = 0;
    while k < lw.len()
        invariant
            k <= lw.len(),
            p + lw.len() <= lt.len(),
            forall|j: int| 0 <= j < k ==> #[trigger] crate::text::views(lt@)[p + j] == crate::text::views(lw@)[j],
        decreases lw.len() - k,
    {
        if !same(&lt[p + k], &lw[k]) {
            assert(crate::text::views(lt@)[p + k] != crate::text::views(lw@)[k as int]);
            return false;
        }
        k += 1;
    }
    true
}

proof fn lemma_skip(lt: Seq<Seq<char>>, lw: Seq<Seq<char>>, from: int, p: int)
    requires
        0 <= from <= p,
        forall|q: int| from <= q < p ==> !matches_at(lt, lw, q),
    ensures
        first_match(lt, lw, from) == first_match(lt, lw, p),
    decreases p - from,
{
    if from < p {
        lemma_skip(lt, lw, from + 1, p);
    }
}

fn find_term(lt: &Vec<Vec<char>>, lw: &Vec<Vec<char>>, from: usize) -> (r: Option<usize>)
    ensures
        match first_match(crate::text::views(lt@), crate::text::views(lw@), from as int) {
            Some(p) => r == Some(p as usize) && p < lt@.len(),
            None => r is None,
        },
{
    let ghost vt = crate::text::views(lt@);
    let ghost vw = crate::text::views(lw@);
    if lw.len() == 0 {
        return None;
    }
    let mut p = from;
    while p <= lt.len() && lt.len() - p >= lw.len()
        invariant
            from <= p,
            lw@.len() > 0,
            vt == crate::text::views(lt@),
            vw == crate::text::views(lw@),
            forall|q: int| from <= q < p ==> !matches_at(vt, vw, q),
        decreases lt.len() - p,
    {
        if matches_here(lt, lw, p) {
            proof { lemma_skip(vt, vw, from as int, p as int); }
            return Some(p);
        }
        p += 1;
    }
    proof { lemma_skip(vt, vw, from as int, p as int); }
    None
}

/// A line cut into runs for drawing, each marked where a search term matched
/// it, ignoring case; `terms` as typed.
pub fn marked(text: &str, terms: &[String]) -> (r: Vec<(String, bool)>)
    ensures
        r@.map_values(|p: (String, bool)| (p.0@, p.1)) == marked_runs(text@, terms@.map_values(|s: String| s@)),
{
    let t = chars_of(text);
    if t.len() == 0 {
        let mut out: Vec<(String, bool)> = Vec::new();
        out.push((owned(text), false));
        assert(out@.map_values(|p: (String, bool)| (p.0@, p.1)) =~= marked_runs(text@, terms@.map_values(|s: String| s@)));
        return out;
    }
    let lt = lowered(&t);
    let ghost words = terms@.map_values(|s: String| s@);
    let ghost lws = words.map_values(|w: Seq<char>| low(w));
    assert(crate::text::views(lt@) =~= low(t@));
    let mut lterms: Vec<Vec<Vec<char>>> = Vec::new();
    let mut k: usize = 0;
    while k < terms.len()
        invariant
            k <= terms.len(),
            words == terms@.map_values(|s: String| s@),
            lws == words.map_values(|w: Seq<char>| low(w)),
            lterms@.len() == k,
            forall|j: int| 0 <= j < k ==> #[trigger] crate::text::views(lterms@[j]@) == lws[j],
        decreases terms.len() - k,
    {
        let w = chars_of(terms[k].as_str());
        let lw = lowered(&w);
        assert(crate::text::views(lw@) =~= low(w@));
        lterms.push(lw);
        k += 1;
    }
    let mut out: Vec<(String, bool)> = Vec::new();
    let mut at: usize = 0;
    let ghost whole = runs_from(t@, lws, 0);
    while at < t.len()
        invariant
            at <= t@.len(),
            t@ == text@,
            t@.len() > 0,
            crate::text::views(lt@) == low(t@),
            lterms@.len() == lws.len(),
            forall|j: int| 0 <= j < lws.len() ==> #[trigger] crate::text::views(lterms@[j]@) == lws[j],
            whole == runs_from(t@, lws, 0),
            out@.map_values(|p: (String, bool)| (p.0@, p.1)) + runs_from(t@, lws, at as int) == whole,
        decreases t.len() - at,
    {
        // The earliest start over the terms, the first on a tie.
        let mut best: Option<(usize, usize)> = None;
        let mut j: usize = 0;
        while j < lterms.len()
            invariant
                j <= lterms.len(),
                at < t@.len(),
                crate::text::views(lt@) == low(t@),
                lterms@.len() == lws.len(),
                forall|i: int| 0 <= i < lws.len() ==> #[trigger] crate::text::views(lterms@[i]@) == lws[i],
                match best {
                    Some((s, e)) => hit(low(t@), lws.subrange(0, j as int), at as int) == Some((s as int, e as int)),
                    None => hit(low(t@), lws.subrange(0, j as int), at as int) is None,
                },
                best matches Some((s, e)) ==> e <= t@.len(),
            decreases lterms.len() - j,
        {
            let ghost pre = lws.subrange(0, j + 1);
            assert(pre.drop_last() =~= lws.subrange(0, j as int));
            assert(pre.last() == lws[j as int]);
            match find_term(&lt, &lterms[j], at) {
                Some(p) => {
                    proof { lemma_first_match(low(t@), lws[j as int], at as int); }
                    assert(crate::text::views(lterms@[j as int]@) == lws[j as int]);
                    assert(lws[j as int].len() == lterms@[j as int]@.len());
                    assert(p + lws[j as int].len() <= low(t@).len());
                    let e = p + lterms[j].len();
                    match best {
                        Some((s, _)) => {
                            if p < s {
                                best = Some((p, e));
                            }
                        },
                        None => {
                            best = Some((p, e));
                        },
                    }
                },
                None => {},
            }
            j += 1;
        }
        assert(lws.subrange(0, lws.len() as int) =~= lws);
        proof { lemma_hit(low(t@), lws, at as int); }
        let ghost before = out@.map_values(|p: (String, bool)| (p.0@, p.1));
        match best {
            None => {
                out.push((string_of(&t, at, t.len()), false));
                assert(out@.map_values(|p: (String, bool)| (p.0@, p.1)) =~= before.push((t@.subrange(at as int, t@.len() as int), false)));
                assert(runs_from(t@, lws, t@.len() as int) =~= Seq::<(Seq<char>, bool)>::empty());
                at = t.len();
            },
            Some((s, e)) => {
                let ghost rest = runs_from(t@, lws, e as int);
                if s > at {
                    out.push((string_of(&t, at, s), false));
                }
                out.push((string_of(&t, s, e), true));
                let ghost front: Seq<(Seq<char>, bool)> = if s > at { seq![(t@.subrange(at as int, s as int), false)] } else { Seq::empty() };
                assert(out@.map_values(|p: (String, bool)| (p.0@, p.1)) =~= before + front + seq![(t@.subrange(s as int, e as int), true)]);
                assert(runs_from(t@, lws, at as int) == front + seq![(t@.subrange(s as int, e as int), true)] + rest);
                at = e;
            },
        }
    }
    assert(runs_from(t@, lws, at as int) =~= Seq::<(Seq<char>, bool)>::empty());
    out
}


/// A line with the `\r` of a `\r\n` ending taken off.
pub open spec fn unreturned(line: Seq<char>) -> Seq<char> {
    if line.len() > 0 && line.last() == '\r' { line.drop_last() } else { line }
}

/// A text's lines as `str::lines` gives them: split at `\n`, a `\r` before
/// it taken off, and the final line ending optional, so a text that ends in
/// one has no empty line after it.
pub open spec fn text_lines(t: Seq<char>) -> Seq<Seq<char>> {
    let pieces = crate::text::split(t, '\n');
    if t.len() > 0 && t.last() == '\n' {
        pieces.drop_last().map_values(|l: Seq<char>| unreturned(l))
    } else if t.len() == 0 {
        Seq::empty()
    } else {
        pieces.drop_last().map_values(|l: Seq<char>| unreturned(l)).push(pieces.last())
    }
}

/// A line of a note as the reading screen draws it.
#[derive(Debug, PartialEq, Eq)]
pub enum Shown {
    /// Frontmatter, drawn muted.
    Dimmed(String),
    /// Body, with the search terms picked out.
    Body(Vec<(String, bool)>),
}

pub open spec fn shown(s: Shown) -> (bool, Seq<(Seq<char>, bool)>) {
    match s {
        Shown::Dimmed(t) => (true, seq![(t@, false)]),
        Shown::Body(runs) => (false, runs@.map_values(|p: (String, bool)| (p.0@, p.1))),
    }
}

/// A note's lines: the frontmatter dimmed, and search terms marked in the
/// body.
pub open spec fn note_lines(text: Seq<char>, terms: Seq<Seq<char>>) -> Seq<(bool, Seq<(Seq<char>, bool)>)> {
    let (front, body) = frontmatter_split(text);
    text_lines(front).map_values(|l: Seq<char>| (true, seq![(l, false)]))
        + text_lines(body).map_values(|l: Seq<char>| (false, marked_runs(l, terms)))
}

fn lines_of(t: &Vec<char>) -> (r: Vec<String>)
    ensures
        r@.map_values(|s: String| s@) == text_lines(t@),
{
    let pieces = crate::text::split_vec(t, 0, t.len(), '\n');
    assert(t@.subrange(0, t@.len() as int) =~= t@);
    let ghost ps = crate::text::views(pieces@);
    proof { crate::text::lemma_split_nonempty(t@, '\n'); }
    let mut out: Vec<String> = Vec::new();
    if t.len() == 0 {
        assert(out@.map_values(|s: String| s@) =~= text_lines(t@));
        return out;
    }
    let n = pieces.len();
    let mut i: usize = 0;
    while i + 1 < n
        invariant
            n == pieces@.len(),
            n >= 1,
            ps == crate::text::views(pieces@),
            ps == crate::text::split(t@, '\n'),
            i + 1 <= n,
            out@.map_values(|s: String| s@) == ps.subrange(0, i as int).map_values(|l: Seq<char>| unreturned(l)),
        decreases n - i,
    {
        let p = &pieces[i];
        assert(ps[i as int] == p@);
        let end = if p.len() > 0 && p[p.len() - 1] == '\r' { p.len() - 1 } else { p.len() };
        let line = string_of(p, 0, end);
        let ghost before = out@.map_values(|s: String| s@);
        out.push(line);
        assert(line@ == unreturned(p@)) by {
            if p@.len() > 0 && p@.last() == '\r' {
                assert(p@.subrange(0, end as int) =~= p@.drop_last());
            } else {
                assert(p@.subrange(0, end as int) =~= p@);
            }
        }
        assert(out@.map_values(|s: String| s@) =~= before.push(line@));
        assert(ps.subrange(0, i + 1).map_values(|l: Seq<char>| unreturned(l))
            =~= ps.subrange(0, i as int).map_values(|l: Seq<char>| unreturned(l)).push(unreturned(ps[i as int])));
        i += 1;
    }
    assert(ps.subrange(0, i as int) =~= ps.drop_last());
    if t[t.len() - 1] != '\n' {
        let last = crate::text::string_all(&pieces[n - 1]);
        let ghost before = out@.map_values(|s: String| s@);
        out.push(last);
        assert(out@.map_values(|s: String| s@) =~= before.push(ps.last()));
    }
    out
}

/// A note as the reading screen draws it: the frontmatter dimmed and search
/// terms marked in the body.
pub fn lines(text: &str, terms: &[String]) -> (r: Vec<Shown>)
    ensures
        r@.map_values(|s: Shown| shown(s)) == note_lines(text@, terms@.map_values(|s: String| s@)),
{
    let (front, body) = split_frontmatter(text);
    let fl = lines_of(&chars_of(front.as_str()));
    let bl = lines_of(&chars_of(body.as_str()));
    let ghost words = terms@.map_values(|s: String| s@);
    let mut out: Vec<Shown> = Vec::new();
    let mut i: usize = 0;
    while i < fl.len()
        invariant
            i <= fl.len(),
            fl@.map_values(|s: String| s@) == text_lines(front@),
            out@.map_values(|s: Shown| shown(s)) == text_lines(front@).subrange(0, i as int).map_values(|l: Seq<char>| (true, seq![(l, false)])),
        decreases fl.len() - i,
    {
        let ghost before = out@.map_values(|s: Shown| shown(s));
        assert(fl@[i as int]@ == text_lines(front@)[i as int]);
        let line = Shown::Dimmed(owned(fl[i].as_str()));
        assert(shown(line) == (true, seq![(text_lines(front@)[i as int], false)]));
        out.push(line);
        assert(out@.map_values(|s: Shown| shown(s)) =~= before.push((true, seq![(text_lines(front@)[i as int], false)])));
        assert(text_lines(front@).subrange(0, i + 1).map_values(|l: Seq<char>| (true, seq![(l, false)]))
            =~= text_lines(front@).subrange(0, i as int).map_values(|l: Seq<char>| (true, seq![(l, false)]))
                .push((true, seq![(text_lines(front@)[i as int], false)])));
        i += 1;
    }
    assert(text_lines(front@).subrange(0, i as int) =~= text_lines(front@));
    let ghost dimmed = out@.map_values(|s: Shown| shown(s));
    let mut j: usize = 0;
    while j < bl.len()
        invariant
            j <= bl.len(),
            words == terms@.map_values(|s: String| s@),
            bl@.map_values(|s: String| s@) == text_lines(body@),
            out@.map_values(|s: Shown| shown(s)) == dimmed + text_lines(body@).subrange(0, j as int).map_values(|l: Seq<char>| (false, marked_runs(l, words))),
        decreases bl.len() - j,
    {
        let ghost before = out@.map_values(|s: Shown| shown(s));
        assert(bl@[j as int]@ == text_lines(body@)[j as int]);
        let runs = marked(bl[j].as_str(), terms);
        let line = Shown::Body(runs);
        assert(shown(line) == (false, marked_runs(text_lines(body@)[j as int], words)));
        out.push(line);
        assert(out@.map_values(|s: Shown| shown(s)) =~= before.push((false, marked_runs(text_lines(body@)[j as int], words))));
        assert(text_lines(body@).subrange(0, j + 1).map_values(|l: Seq<char>| (false, marked_runs(l, words)))
            =~= text_lines(body@).subrange(0, j as int).map_values(|l: Seq<char>| (false, marked_runs(l, words)))
                .push((false, marked_runs(text_lines(body@)[j as int], words))));
        j += 1;
    }
    assert(text_lines(body@).subrange(0, j as int) =~= text_lines(body@));
    out
}


/// The widest a measure makes any of `files`; nothing for none.
pub open spec fn widest_by(files: Seq<NoteFile>, measure: spec_fn(NoteFile) -> nat) -> nat
    decreases files.len(),
{
    if files.len() == 0 {
        0
    } else {
        let rest = widest_by(files.drop_last(), measure);
        let here = measure(files.last());
        if here > rest { here } else { rest }
    }
}

/// A stamp as `-l` shows it.
pub open spec fn stamp_of(value: Option<String>) -> Seq<char> {
    match value {
        Some(v) => v@,
        None => "-"@,
    }
}

/// The columns `-l` adds, in order, each as wide as its widest value: the
/// slug, `created` and `updated`.
pub open spec fn long_widths(files: Seq<NoteFile>, long: bool) -> Seq<nat> {
    if long {
        seq![
            widest_by(files, |f: NoteFile| shown_width(f.slug@)),
            widest_by(files, |f: NoteFile| shown_width(stamp_of(f.note.created))),
            widest_by(files, |f: NoteFile| shown_width(stamp_of(f.note.updated))),
        ]
    } else {
        Seq::empty()
    }
}

pub open spec fn sum(s: Seq<nat>) -> nat
    decreases s.len(),
{
    if s.len() == 0 { 0 } else { sum(s.drop_last()) + s.last() }
}

/// The id column: the mark and the longest id.
pub open spec fn id_column(files: Seq<NoteFile>) -> nat {
    2 + widest_by(files, |f: NoteFile| f.id@.len())
}

/// Whether any row is pinned, which is what earns the pin column.
pub open spec fn pinned_here(files: Seq<NoteFile>) -> bool {
    exists|i: int| 0 <= i < files.len() && files[i].note.pinned == Some(true)
}

/// What a row needs with the first `k` of `-l`'s columns: those columns, a
/// gap after each column, the id, the title's floor and the pin column.
pub open spec fn spent(files: Seq<NoteFile>, widths: Seq<nat>, k: int) -> int {
    sum(widths.subrange(0, k)) + (k + 2) * COLUMN_GAP + id_column(files) + TITLE_FLOOR
        + (if pinned_here(files) { PIN_MARK@.len() + COLUMN_GAP } else { 0 })
}

/// How many of `-l`'s columns stay: they are dropped whole from the right
/// while the title would be below its floor.
pub open spec fn kept(files: Seq<NoteFile>, widths: Seq<nat>, inner: int, k: int) -> int
    decreases k,
{
    if k <= 0 || spent(files, widths, k) <= inner { if k < 0 { 0 } else { k } } else { kept(files, widths, inner, k - 1) }
}

/// The room a row has: the listing's width less the cursor bar's gutter.
pub open spec fn inner_of(width: nat) -> int {
    if width > GUTTER { width - GUTTER } else { 0 }
}

/// The listing's columns on a `width`-column screen: the longest id (the id
/// column is the mark's two columns and that),
/// the `-l` columns that fit (by their widths), the tag column's width (as
/// wide as the longest tag list, but only what the title's floor leaves), and
/// whether there is a pin column.
pub struct Columns {
    pub id: usize,
    pub long: Vec<usize>,
    pub tags: usize,
    pub pin: bool,
}

pub open spec fn columns_fit(files: Seq<NoteFile>, long: bool, width: nat) -> (nat, Seq<nat>, int, bool) {
    let widths = long_widths(files, long);
    let inner = inner_of(width);
    let k = kept(files, widths, inner, widths.len() as int);
    let room = inner - spent(files, widths, k);
    let widest_tags = widest_by(files, |f: NoteFile| tag_list(texts(f.note.tags@)).len());
    (widest_by(files, |f: NoteFile| f.id@.len()), widths.subrange(0, k), if widest_tags < room { widest_tags as int } else if room > 0 { room } else { 0 }, pinned_here(files))
}

fn widest_of(files: &[NoteFile], which: u8) -> (r: usize)
    requires
        which < 5,
    ensures
        r == widest_by(files@, match which {
            0 => |f: NoteFile| shown_width(f.slug@),
            1 => |f: NoteFile| shown_width(stamp_of(f.note.created)),
            2 => |f: NoteFile| shown_width(stamp_of(f.note.updated)),
            3 => |f: NoteFile| f.id@.len(),
            _ => |f: NoteFile| tag_list(texts(f.note.tags@)).len(),
        }),
{
    let ghost measure = match which {
        0 => |f: NoteFile| shown_width(f.slug@),
        1 => |f: NoteFile| shown_width(stamp_of(f.note.created)),
        2 => |f: NoteFile| shown_width(stamp_of(f.note.updated)),
        3 => |f: NoteFile| f.id@.len(),
        _ => |f: NoteFile| tag_list(texts(f.note.tags@)).len(),
    };
    let mut best: usize = 0;
    let mut i: usize = 0;
    while i < files.len()
        invariant
            i <= files.len(),
            best == widest_by(files@.subrange(0, i as int), measure),
            measure == (match which {
                0 => |f: NoteFile| shown_width(f.slug@),
                1 => |f: NoteFile| shown_width(stamp_of(f.note.created)),
                2 => |f: NoteFile| shown_width(stamp_of(f.note.updated)),
                3 => |f: NoteFile| f.id@.len(),
                _ => |f: NoteFile| tag_list(texts(f.note.tags@)).len(),
            }),
        decreases files.len() - i,
    {
        let f = &files[i];
        let here: usize = if which == 0 {
            display_width(f.slug.as_str())
        } else if which == 1 {
            let s = stamp(f.note.created.as_ref());
            display_width(s.as_str())
        } else if which == 2 {
            let s = stamp(f.note.updated.as_ref());
            display_width(s.as_str())
        } else if which == 3 {
            chars_of(f.id.as_str()).len()
        } else {
            let t = tags(f.note.tags.as_slice());
            chars_of(t.as_str()).len()
        };
        proof {
            reveal_strlit("-");
            assert(files@.subrange(0, i + 1).drop_last() =~= files@.subrange(0, i as int));
            assert(files@.subrange(0, i + 1).last() == *f);
            assert(here == measure(*f));
        }
        if here > best {
            best = here;
        }
        i += 1;
    }
    assert(files@.subrange(0, files.len() as int) =~= files@);
    best
}

/// The listing's columns on a screen `width` columns wide; see [`columns_fit`].
pub fn listing_columns(files: &[NoteFile], long: bool, width: usize) -> (r: Columns)
    ensures
        ({
            let (id, kept_widths, tag_width, pin) = columns_fit(files@, long, width as nat);
            &&& r.id == id
            &&& r.long@.map_values(|w: usize| w as nat) == kept_widths
            &&& r.tags == tag_width
            &&& r.pin == pin
        }),
{
    let ghost fs = files@;
    let mut widths: Vec<usize> = Vec::new();
    if long {
        widths.push(widest_of(files, 0));
        widths.push(widest_of(files, 1));
        widths.push(widest_of(files, 2));
    }
    assert(widths@.map_values(|w: usize| w as nat) =~= long_widths(fs, long));
    let id = widest_of(files, 3);
    let id_width: u128 = 2 + id as u128;
    let mut pinned = false;
    let mut i: usize = 0;
    while i < files.len()
        invariant
            i <= files.len(),
            pinned == exists|j: int| 0 <= j < i && fs[j].note.pinned == Some(true),
            fs == files@,
        decreases files.len() - i,
    {
        if files[i].note.is_pinned() {
            pinned = true;
        }
        i += 1;
    }
    let pin_width: u128 = if pinned { 6 + 2 } else { 0 };
    proof { reveal_strlit("pinned"); }
    let inner: u128 = if width > GUTTER { (width - GUTTER) as u128 } else { 0 };
    let ghost all = widths@.map_values(|w: usize| w as nat);
    // The sums of the first k widths, so each `spent` is one lookup.
    let mut k: usize = widths.len();
    let mut total: u128 = 0;
    let mut j: usize = 0;
    while j < widths.len()
        invariant
            j <= widths.len(),
            widths.len() <= 3,
            all == widths@.map_values(|w: usize| w as nat),
            total == sum(all.subrange(0, j as int)),
            total <= j * 0xFFFF_FFFF_FFFF_FFFFu128,
        decreases widths.len() - j,
    {
        assert(all.subrange(0, j + 1).drop_last() =~= all.subrange(0, j as int));
        total = total + widths[j] as u128;
        j += 1;
    }
    assert(all.subrange(0, widths.len() as int) =~= all);
    assert(total <= 0x3_0000_0000_0000_0000u128) by (nonlinear_arith)
        requires total <= j * 0xFFFF_FFFF_FFFF_FFFFu128, j <= 3;
    // Drop from the right while the title is below its floor.
    let ghost inner_i = inner_of(width as nat);
    let mut used: u128 = total;
    while k > 0 && used + (k as u128 + 2) * 2 + id_width + 10 + pin_width > inner
        invariant
            k <= widths.len(),
            widths.len() <= 3,
            all == widths@.map_values(|w: usize| w as nat),
            used == sum(all.subrange(0, k as int)),
            used <= 0x3_0000_0000_0000_0000u128,
            id_width == id_column(fs),
            id_width <= 0x1_0000_0000_0000_0001u128,
            pin_width <= 8,
            pin_width == (if pinned_here(fs) { PIN_MARK@.len() + COLUMN_GAP } else { 0 }),
            inner == inner_i,
            kept(fs, all, inner_i, all.len() as int) == kept(fs, all, inner_i, k as int),
        decreases k,
    {
        assert(all.subrange(0, k as int).drop_last() =~= all.subrange(0, k - 1));
        used = used - widths[k - 1] as u128;
        k -= 1;
    }
    assert(kept(fs, all, inner_i, k as int) == k as int);
    let room: u128 = inner - (if inner < used + (k as u128 + 2) * 2 + id_width + 10 + pin_width { inner } else { used + (k as u128 + 2) * 2 + id_width + 10 + pin_width });
    let widest_tags = widest_of(files, 4);
    let tag_width: usize = if (widest_tags as u128) < room { widest_tags } else { room as usize };
    let mut long_kept: Vec<usize> = Vec::new();
    let mut m: usize = 0;
    while m < k
        invariant
            m <= k <= widths.len(),
            all == widths@.map_values(|w: usize| w as nat),
            long_kept@.map_values(|w: usize| w as nat) == all.subrange(0, m as int),
        decreases k - m,
    {
        let ghost before = long_kept@.map_values(|w: usize| w as nat);
        long_kept.push(widths[m]);
        assert(long_kept@.map_values(|w: usize| w as nat) =~= before.push(all[m as int]));
        assert(all.subrange(0, m + 1) =~= all.subrange(0, m as int).push(all[m as int]));
        m += 1;
        assert(long_kept@.map_values(|w: usize| w as nat) =~= all.subrange(0, m as int));
    }
    Columns { id, long: long_kept, tags: tag_width, pin: pinned }
}
} // verus!
