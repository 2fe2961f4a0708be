//! The two one-line bands of the terminal browser, as runs of text: the
//! title band over the body, which names the screen and rules itself to the
//! far edge, and the status line under it, which holds what is being typed or
//! what the last command said.

use vstd::prelude::*;

use crate::palette::{invalid, matched, muted, plain, Hue, Ink};
use crate::text::{count_of, decimal, push_char, push_str};
use crate::tui::app::{first_line, hint_of, prompt_of, subject_name, Ask, Message, Mode, View};
use crate::tui::frame::{inked, matched_ink, muted_ink, plain_ink};
use vstd::view::View as _;

verus! {

/// How many terminal columns a text takes, as `ratatui` measures a span:
/// Unicode's East Asian widths, so a CJK character is two.
pub uninterp spec fn shown_width(s: Seq<char>) -> nat;

/// `ratatui::text::Span::width` of a plain span of `s`.
#[verifier::external_body]
pub fn display_width(s: &str) -> (r: usize)
    ensures
        r == shown_width(s@),
{
    ratatui::text::Span::raw(s).width()
}

/// What sets one part of a band off from the next.
pub open spec fn gap() -> Seq<char> {
    "  "@
}

/// A screen's name, then what it is about and how many rows it has, where it
/// has them, each set off by a gap.
pub open spec fn banner(name: Seq<char>, scope: Option<Seq<char>>, count: Option<nat>) -> Seq<(Seq<char>, Ink)> {
    seq![(name, matched_ink())]
        + (match scope { Some(s) => seq![(gap() + s, muted_ink())], None => Seq::empty() })
        + (match count { Some(n) => seq![(gap() + decimal(n), muted_ink())], None => Seq::empty() })
}

/// A note's title after its id, unstyled.
pub open spec fn titled(title: Seq<char>) -> Seq<(Seq<char>, Ink)> {
    seq![(gap(), plain_ink()), (title, plain_ink())]
}

/// What the band says of a screen. `count` is the screen's own number (rows
/// shown on the listing, tasks, tags, files, notebooks, notes gone, commits,
/// links), `note_title` the title of the note the screen is about, and `said`
/// the listing's order and width when they are not the defaults.
pub open spec fn heading(view: View, search: Seq<char>, count: nat, notebook: Seq<char>, note_title: Seq<char>, said: Option<Seq<char>>) -> Seq<(Seq<char>, Ink)> {
    match view {
        View::Notes => banner("Notes"@, Some(if search.len() == 0 { "all"@ } else { search }), Some(count))
            + (match said { Some(s) => seq![(gap() + s, muted_ink())], None => Seq::empty() }),
        View::Note(id) => banner("Note"@, Some(id@), None) + titled(note_title),
        View::Todo => banner("Todo"@, None, Some(count)),
        View::Tags => banner("Tags"@, None, Some(count)),
        View::Files => banner("Files"@, None, Some(count)),
        View::Notebooks => banner("Notebooks"@, Some(notebook), Some(count)),
        View::Deleted => banner("Deleted"@, None, Some(count)),
        View::Diff => banner("Diff"@, None, None),
        View::Log(id) => banner("Log"@, Some(match id { Some(i) => i@, None => notebook }), Some(count))
            + (match id { Some(_) => titled(note_title), None => Seq::empty() }),
        View::Backlinks(subject) => banner("Backlinks"@, Some(subject_name(subject)), Some(count)),
        View::Blame(id) => banner("Blame"@, Some(id@), None) + titled(note_title),
    }
}

/// The columns runs take, together.
pub open spec fn widths(runs: Seq<(Seq<char>, Ink)>) -> nat
    decreases runs.len(),
{
    if runs.len() == 0 {
        0
    } else {
        widths(runs.drop_last()) + shown_width(runs.last().0)
    }
}

/// A rule `n` columns long.
pub open spec fn rule(n: nat) -> Seq<char> {
    Seq::new(n, |_i: int| '─')
}

/// The title band on a terminal `width` columns wide: the heading, a muted
/// rule to the far end, and then what `session` says is held, after a space.
pub open spec fn title_band(heading: Seq<(Seq<char>, Ink)>, held: Seq<(Seq<char>, Ink)>, width: nat) -> Seq<(Seq<char>, Ink)> {
    let used = widths(heading);
    let wanted = if widths(held) > 0 { widths(held) + 1 } else { 0 };
    let room = width - (used + wanted + 1);
    heading
        + (if room > 0 { seq![(" "@ + rule(room as nat), muted_ink())] } else { Seq::empty() })
        + (if held.len() > 0 { seq![(" "@, plain_ink())] + held } else { Seq::empty() })
}

fn push_run(runs: &mut Vec<(String, Ink)>, head: &str, text: &str, ink: Ink)
    ensures
        inked(final(runs)@) == inked(old(runs)@).push((head@ + text@, ink)),
{
    let mut s = crate::text::owned(head);
    push_str(&mut s, text);
    runs.push((s, ink));
    assert(inked(runs@) =~= inked(old(runs)@).push((head@ + text@, ink)));
}

fn push_banner(runs: &mut Vec<(String, Ink)>, name: &str, scope: Option<&str>, count: Option<usize>)
    ensures
        inked(final(runs)@) == inked(old(runs)@) + banner(name@, match scope { Some(s) => Some(s@), None => None },
            match count { Some(n) => Some(n as nat), None => None }),
{
    proof { reveal_strlit(""); reveal_strlit("  "); }
    let ghost start = inked(runs@);
    push_run(runs, "", name, matched());
    assert(""@ + name@ =~= name@);
    match scope {
        Some(s) => push_run(runs, "  ", s, muted()),
        None => {},
    }
    match count {
        Some(n) => {
            let said = count_of(n);
            push_run(runs, "  ", said.as_str(), muted());
        },
        None => {},
    }
    assert(inked(runs@) =~= start + banner(name@, match scope { Some(s) => Some(s@), None => None },
        match count { Some(n) => Some(n as nat), None => None }));
}

fn push_titled(runs: &mut Vec<(String, Ink)>, title: &str)
    ensures
        inked(final(runs)@) == inked(old(runs)@) + titled(title@),
{
    proof { reveal_strlit(""); reveal_strlit("  "); }
    let ghost start = inked(runs@);
    push_run(runs, "  ", "", plain());
    push_run(runs, "", title, plain());
    assert("  "@ + ""@ =~= gap());
    assert(""@ + title@ =~= title@);
    assert(inked(runs@) =~= start + titled(title@));
}

/// What the band says of a screen; see [`heading`].
pub fn heading_of(view: &View, search: &str, count: usize, notebook: &str, note_title: &str, said: Option<&str>) -> (r: Vec<(String, Ink)>)
    ensures
        inked(r@) == heading(*view, search@, count as nat, notebook@, note_title@, match said { Some(s) => Some(s@), None => None }),
{
    proof {
        reveal_strlit("Notes"); reveal_strlit("all"); reveal_strlit("  ");
    }
    let mut runs: Vec<(String, Ink)> = Vec::new();
    assert(inked(runs@) =~= Seq::empty());
    match view {
        View::Notes => {
            let scope = if search.is_empty() { "all" } else { search };
            push_banner(&mut runs, "Notes", Some(scope), Some(count));
            match said {
                Some(s) => push_run(&mut runs, "  ", s, muted()),
                None => {},
            }
        },
        View::Note(id) => {
            push_banner(&mut runs, "Note", Some(id.as_str()), None);
            push_titled(&mut runs, note_title);
        },
        View::Todo => push_banner(&mut runs, "Todo", None, Some(count)),
        View::Tags => push_banner(&mut runs, "Tags", None, Some(count)),
        View::Files => push_banner(&mut runs, "Files", None, Some(count)),
        View::Notebooks => push_banner(&mut runs, "Notebooks", Some(notebook), Some(count)),
        View::Deleted => push_banner(&mut runs, "Deleted", None, Some(count)),
        View::Diff => push_banner(&mut runs, "Diff", None, None),
        View::Log(id) => {
            let scope = match id {
                Some(i) => i.as_str(),
                None => notebook,
            };
            push_banner(&mut runs, "Log", Some(scope), Some(count));
            match id {
                Some(_) => push_titled(&mut runs, note_title),
                None => {},
            }
        },
        View::Backlinks(subject) => push_banner(&mut runs, "Backlinks", Some(subject.name()), Some(count)),
        View::Blame(id) => {
            push_banner(&mut runs, "Blame", Some(id.as_str()), None);
            push_titled(&mut runs, note_title);
        },
    }
    assert(inked(runs@) =~= heading(*view, search@, count as nat, notebook@, note_title@, match said { Some(s) => Some(s@), None => None }));
    runs
}

/// The columns `runs` take, capped at the largest `usize`.
fn width_of_runs(runs: &Vec<(String, Ink)>) -> (r: usize)
    ensures
        r == if widths(inked(runs@)) < usize::MAX { widths(inked(runs@)) as int } else { usize::MAX as int },
{
    let mut total: usize = 0;
    let mut i: usize = 0;
    while i < runs.len()
        invariant
            i <= runs.len(),
            total == if widths(inked(runs@).subrange(0, i as int)) < usize::MAX { widths(inked(runs@).subrange(0, i as int)) as int } else { usize::MAX as int },
        decreases runs.len() - i,
    {
        let w = display_width(runs[i].0.as_str());
        assert(inked(runs@).subrange(0, i + 1).drop_last() =~= inked(runs@).subrange(0, i as int));
        total = total.saturating_add(w);
        i += 1;
    }
    assert(inked(runs@).subrange(0, runs.len() as int) =~= inked(runs@));
    total
}

/// The title band on a terminal `width` columns wide; see [`title_band`].
pub fn title_runs(heading: Vec<(String, Ink)>, held: Vec<(String, Ink)>, width: usize) -> (r: Vec<(String, Ink)>)
    ensures
        inked(r@) == title_band(inked(heading@), inked(held@), width as nat),
{
    let used = width_of_runs(&heading);
    let shown = width_of_runs(&held);
    let wanted = if shown > 0 { shown.saturating_add(1) } else { 0 };
    let taken = used.saturating_add(wanted).saturating_add(1);
    let room: usize = if width > taken { width - taken } else { 0 };
    let ghost h = inked(heading@);
    let ghost k = inked(held@);
    let mut runs = heading;
    if room > 0 {
        let mut line = String::new();
        push_char(&mut line, ' ');
        let mut n: usize = 0;
        while n < room
            invariant
                n <= room,
                line@ == seq![' '] + rule(n as nat),
            decreases room - n,
        {
            push_char(&mut line, '─');
            n += 1;
            assert(line@ =~= seq![' '] + rule(n as nat));
        }
        proof { reveal_strlit(" "); }
        assert(line@ =~= " "@ + rule(room as nat));
        runs.push((line, muted()));
    }
    let ghost mid = inked(runs@);
    assert(mid =~= h + (if room > 0 { seq![(" "@ + rule(room as nat), muted_ink())] } else { Seq::empty() }));
    if held.len() > 0 {
        proof { reveal_strlit(" "); }
        runs.push((crate::text::owned(" "), plain()));
        let mut i: usize = 0;
        let ghost base = inked(runs@);
        while i < held.len()
            invariant
                i <= held.len(),
                k == inked(held@),
                inked(runs@) == base + k.subrange(0, i as int),
            decreases held.len() - i,
        {
            let ghost before = inked(runs@);
            let s = crate::text::owned(held[i].0.as_str());
            runs.push((s, held[i].1));
            assert(inked(runs@) =~= before.push(k[i as int]));
            i += 1;
            assert(inked(runs@) =~= base + k.subrange(0, i as int));
        }
        assert(k.subrange(0, held.len() as int) =~= k);
    }
    assert(inked(runs@) =~= title_band(h, k, width as nat));
    runs
}


/// What the keyboard holds for the status line: the command field's text and
/// the part left of its cursor, and the same of the search.
pub struct Typed<'a> {
    pub input: &'a str,
    pub input_before: &'a str,
    pub search: &'a str,
    pub search_before: &'a str,
}

/// The status line: runs on the left, runs on the right, and the column the
/// cursor belongs in, counted from the line's left edge, when something is
/// being typed.
pub struct Status {
    pub left: Vec<(String, Ink)>,
    pub right: Vec<(String, Ink)>,
    pub cursor: Option<usize>,
}

pub open spec fn invalid_ink() -> Ink {
    Ink { fg: Some(Hue::Red), bold: false, dim: false }
}

/// A column count, capped at the largest `usize`.
pub open spec fn capped(n: int) -> int {
    if n < usize::MAX { n } else { usize::MAX as int }
}

/// The left of the status line and where the cursor goes: what is being
/// typed after its sigil or prompt (measured in columns, as a CJK character
/// is two), else the last command's answer (a failure in the invalid colour),
/// else a search still in force, muted, as it is why the listing is short.
pub open spec fn status_left(mode: Mode, input: Seq<char>, input_before: Seq<char>, search: Seq<char>, search_before: Seq<char>, message: Option<(Seq<char>, bool)>) -> (Seq<(Seq<char>, Ink)>, Option<int>) {
    match mode {
        Mode::Command => (seq![(":"@, muted_ink()), (input, plain_ink())], Some(capped(1 + shown_width(input_before) as int))),
        Mode::Search => (seq![("/"@, muted_ink()), (search, plain_ink())], Some(capped(1 + shown_width(search_before) as int))),
        Mode::Ask(what) => (seq![(prompt_of(what) + "  "@, muted_ink()), (input, plain_ink())],
            Some(capped(shown_width(prompt_of(what) + "  "@) as int + shown_width(input_before) as int))),
        _ => match message {
            Some((text, failed)) => (seq![(first_line(text), if failed { invalid_ink() } else { plain_ink() })], None),
            None => if search.len() > 0 {
                (seq![("/"@, muted_ink()), (search, muted_ink())], None)
            } else {
                (Seq::empty(), None)
            },
        },
    }
}

/// The right of the status line: an error first, else a prompt's hint.
pub open spec fn status_right(mode: Mode, error: Option<Seq<char>>) -> Seq<(Seq<char>, Ink)> {
    match error {
        Some(e) => seq![(e, invalid_ink())],
        None => match mode {
            Mode::Ask(what) => if hint_of(what).len() > 0 { seq![(hint_of(what), muted_ink())] } else { Seq::empty() },
            _ => Seq::empty(),
        },
    }
}

/// The one line for typing or for the last command's answer. While a slow
/// action runs it says only what it is waiting for, with no cursor.
pub fn status_line(working: Option<&str>, mode: Mode, typed: &Typed, message: Option<&Message>, error: Option<&str>) -> (r: Status)
    ensures
        working matches Some(w) ==> inked(r.left@) == seq![(w@, muted_ink())] && r.right@.len() == 0 && r.cursor is None,
        working is None ==> ({
            let (left, cursor) = status_left(mode, typed.input@, typed.input_before@, typed.search@, typed.search_before@,
                match message { Some(m) => Some((m.text@, m.failed)), None => None });
            &&& inked(r.left@) == left
            &&& match cursor { Some(c) => r.cursor == Some(c as usize), None => r.cursor is None }
            &&& inked(r.right@) == status_right(mode, match error { Some(e) => Some(e@), None => None })
        }),
{
    proof { reveal_strlit(":"); reveal_strlit("/"); reveal_strlit("  "); reveal_strlit(""); }
    let mut left: Vec<(String, Ink)> = Vec::new();
    let mut right: Vec<(String, Ink)> = Vec::new();
    if let Some(w) = working {
        push_run(&mut left, "", w, muted());
        assert(""@ + w@ =~= w@);
        assert(inked(left@) =~= seq![(w@, muted_ink())]);
        return Status { left, right, cursor: None };
    }
    let cursor: Option<usize> = match mode {
        Mode::Command => {
            push_run(&mut left, ":", "", muted());
            push_run(&mut left, "", typed.input, plain());
            assert(":"@ + ""@ =~= ":"@);
            assert(""@ + typed.input@ =~= typed.input@);
            Some(display_width(typed.input_before).saturating_add(1))
        },
        Mode::Search => {
            push_run(&mut left, "/", "", muted());
            push_run(&mut left, "", typed.search, plain());
            assert("/"@ + ""@ =~= "/"@);
            assert(""@ + typed.search@ =~= typed.search@);
            Some(display_width(typed.search_before).saturating_add(1))
        },
        Mode::Ask(what) => {
            let mut label = crate::text::owned(what.prompt());
            push_str(&mut label, "  ");
            let w = display_width(label.as_str());
            push_run(&mut left, label.as_str(), "", muted());
            push_run(&mut left, "", typed.input, plain());
            assert(label@ + ""@ =~= label@);
            assert(""@ + typed.input@ =~= typed.input@);
            Some(w.saturating_add(display_width(typed.input_before)))
        },
        _ => {
            match message {
                Some(said) => {
                    let line = said.line();
                    let ink = if said.failed { invalid() } else { plain() };
                    push_run(&mut left, "", line.as_str(), ink);
                    assert(""@ + line@ =~= line@);
                },
                None => {
                    if !typed.search.is_empty() {
                        push_run(&mut left, "/", "", muted());
                        push_run(&mut left, "", typed.search, muted());
                        assert("/"@ + ""@ =~= "/"@);
                        assert(""@ + typed.search@ =~= typed.search@);
                    }
                },
            }
            None
        },
    };
    match error {
        Some(e) => {
            push_run(&mut right, "", e, invalid());
            assert(""@ + e@ =~= e@);
        },
        None => match mode {
            Mode::Ask(what) => {
                let hint = what.hint();
                if !hint.is_empty() {
                    push_run(&mut right, "", hint, muted());
                    assert(""@ + hint@ =~= hint@);
                }
            },
            _ => {},
        },
    }
    Status { left, right, cursor }
}
} // verus!
