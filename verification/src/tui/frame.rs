//! The furniture every screen shares, as far as it is worked out rather than
//! drawn: which keys the header lists on each screen, how tall the header can
//! afford to be, and how a count is said.
//!
//! The current screen's keys are in the header rather than behind `?`, which
//! also keeps the help card short enough for a small terminal.

use vstd::prelude::*;

use crate::palette::{matched, muted, plain, tags, Ink};
use crate::sort::{sort_name, Sort};
use crate::tui::app::View;
use crate::text::{chars_of, count_of, decimal, push_str};
use vstd::view::View as _;

verus! {

/// How tall the header is when there is room for it.
pub const INFO_ROWS: u16 = 5;

/// Below this terminal height the header is a single line.
pub const ROOM_FOR_INFO: u16 = 20;

/// How many keys a column of the header holds.
pub const MENU_ROWS: usize = 5;

/// One wider than `Notebook:`, so the longest label still gets a gap.
pub const LABEL: usize = 10;

/// A column of the header: five keys and what each does, read downwards.
pub type Column = [(&'static str, &'static str); MENU_ROWS];

/// A key and what it does, as the contracts read them.
pub type Cell = (Seq<char>, Seq<char>);

pub open spec fn cells(c: Column) -> Seq<Cell> {
    c@.map_values(|p: (&'static str, &'static str)| (p.0@, p.1@))
}

pub open spec fn columns(v: Seq<Column>) -> Seq<Seq<Cell>> {
    v.map_values(|c: Column| cells(c))
}

pub open spec fn col(a: Cell, b: Cell, c: Cell, d: Cell, e: Cell) -> Seq<Cell> {
    seq![a, b, c, d, e]
}

/// Pads a column out to five. Nothing is drawn.
pub open spec fn blank() -> Cell {
    (""@, ""@)
}

pub open spec fn view_column() -> Seq<Cell> {
    col(("t"@, "todo"@), ("l"@, "log"@), ("b"@, "backlinks"@), ("B"@, "blame"@), blank())
}

fn view_keys() -> (r: Column)
    ensures
        cells(r) == view_column(),
{
    let r: Column = [("t", "todo"), ("l", "log"), ("b", "backlinks"), ("B", "blame"), ("", "")];
    assert(cells(r) =~= view_column());
    r
}


/// The keys that change the notes a screen's rows are.
pub open spec fn changing_column() -> Seq<Cell> {
    col(("e"@, "edit"@), ("m"@, "retitle"@), ("#"@, "tags"@), ("ctrl-d"@, "delete"@), ("T"@, "keep updated"@))
}

/// The listing's keys, column-major: read down each column of five. The
/// listing-only view keys come after the others, because columns drop from
/// the right and each of them is also on the `?` card.
pub open spec fn listing_grid() -> Seq<Seq<Cell>> {
    seq![
        col(("enter"@, "read"@), ("/"@, "filter"@), (":"@, "command"@), ("ctrl-a"@, "commands"@), ("?"@, "keys"@)),
        col(("e"@, "edit"@), ("a"@, "new"@), ("m"@, "retitle"@), ("#"@, "tags"@), ("ctrl-d"@, "delete"@)),
        col(("space"@, "mark"@), ("*"@, "mark shown"@), ("Q"@, "queue"@), ("T"@, "keep updated"@), ("q"@, "quit"@)),
        col(("S"@, "sort"@), ("R"@, "reverse"@), ("ctrl-w"@, "wide"@), ("1-9"@, "tag, 0 all"@), ("ctrl-g"@, "crumbs"@)),
        view_column(),
    ]
}

/// A note's keys. `:` comes first and `g`/`G` is left off: columns drop from
/// the right, and `:` cannot be looked up while `G` is on the card.
pub open spec fn note_grid() -> Seq<Seq<Cell>> {
    seq![
        col(("esc"@, "back"@), ("j/k"@, "scroll"@), (":"@, "command"@), ("ctrl-a"@, "commands"@), ("?"@, "keys"@)),
        changing_column(),
        col(("r"@, "reload"@), ("q"@, "quit"@), blank(), blank(), blank()),
        view_column(),
    ]
}

/// The keys of a screen of rows, labelled with what `enter` does there;
/// `None` where `enter` does nothing. The first column is never dropped, so
/// it holds what cannot be looked up.
pub open spec fn rows_grid(enter: Option<Seq<char>>) -> Seq<Seq<Cell>> {
    match enter {
        Some(what) => seq![
            col(("enter"@, what), ("j/k"@, "move"@), ("esc"@, "back"@), (":"@, "command"@), ("?"@, "keys"@)),
            col(("g/G"@, "first / last"@), ("ctrl-a"@, "commands"@), ("r"@, "reload"@), ("q"@, "quit"@), blank()),
        ],
        None => seq![
            col(("j/k"@, "move"@), ("g/G"@, "first / last"@), ("esc"@, "back"@), (":"@, "command"@), ("?"@, "keys"@)),
            col(("ctrl-a"@, "commands"@), ("r"@, "reload"@), ("q"@, "quit"@), blank(), blank()),
        ],
    }
}

/// A screen of text that scrolls.
pub open spec fn text_grid() -> Seq<Seq<Cell>> {
    seq![
        col(("j/k"@, "scroll"@), ("g/G"@, "top / end"@), ("esc"@, "back"@), (":"@, "command"@), ("?"@, "keys"@)),
        col(("ctrl-a"@, "commands"@), ("r"@, "reload"@), ("q"@, "quit"@), blank(), blank()),
    ]
}

/// Each screen's keys. A screen whose rows are notes also gets the
/// note-changing keys, ahead of the view keys, which have `:` names to fall
/// back on; the view keys come last everywhere, being the first to drop.
pub open spec fn grid(view: View) -> Seq<Seq<Cell>> {
    match view {
        View::Notes => listing_grid(),
        View::Note(_) => note_grid(),
        View::Todo | View::Backlinks(_) => rows_grid(Some("read it"@)).push(changing_column()).push(view_column()),
        View::Tags => rows_grid(Some("filter by it"@)).push(view_column()),
        View::Files => rows_grid(Some("what links here"@)).push(view_column()),
        View::Notebooks => rows_grid(Some("switch to it"@)).push(view_column()),
        View::Deleted => rows_grid(Some("restore it…"@)).push(view_column()),
        View::Log(which) => match which {
            Some(_) => rows_grid(Some("restore it…"@)).push(view_column()),
            None => rows_grid(None).push(view_column()),
        },
        View::Blame(_) | View::Diff => text_grid().push(view_column()),
    }
}

fn changing_keys() -> (r: Column)
    ensures
        cells(r) == changing_column(),
{
    let r: Column = [("e", "edit"), ("m", "retitle"), ("#", "tags"), ("ctrl-d", "delete"), ("T", "keep updated")];
    assert(cells(r) =~= changing_column());
    r
}

fn listing_keys() -> (r: Vec<Column>)
    ensures
        columns(r@) == listing_grid(),
{
    let a: Column = [("enter", "read"), ("/", "filter"), (":", "command"), ("ctrl-a", "commands"), ("?", "keys")];
    let b: Column = [("e", "edit"), ("a", "new"), ("m", "retitle"), ("#", "tags"), ("ctrl-d", "delete")];
    let c: Column = [("space", "mark"), ("*", "mark shown"), ("Q", "queue"), ("T", "keep updated"), ("q", "quit")];
    let d: Column = [("S", "sort"), ("R", "reverse"), ("ctrl-w", "wide"), ("1-9", "tag, 0 all"), ("ctrl-g", "crumbs")];
    let e = view_keys();
    assert(cells(a) =~= listing_grid()[0]);
    assert(cells(b) =~= listing_grid()[1]);
    assert(cells(c) =~= listing_grid()[2]);
    assert(cells(d) =~= listing_grid()[3]);
    let r = vec![a, b, c, d, e];
    assert(columns(r@) =~= listing_grid());
    r
}

fn note_keys() -> (r: Vec<Column>)
    ensures
        columns(r@) == note_grid(),
{
    let a: Column = [("esc", "back"), ("j/k", "scroll"), (":", "command"), ("ctrl-a", "commands"), ("?", "keys")];
    let b = changing_keys();
    let c: Column = [("r", "reload"), ("q", "quit"), ("", ""), ("", ""), ("", "")];
    let d = view_keys();
    assert(cells(a) =~= note_grid()[0]);
    assert(cells(c) =~= note_grid()[2]);
    let r = vec![a, b, c, d];
    assert(columns(r@) =~= note_grid());
    r
}

fn rows_keys(enter: Option<&'static str>) -> (r: Vec<Column>)
    ensures
        columns(r@) == rows_grid(crate::web::page::opt_str(enter)),
{
    let r = match enter {
        Some(what) => {
            let a: Column = [("enter", what), ("j/k", "move"), ("esc", "back"), (":", "command"), ("?", "keys")];
            let b: Column = [("g/G", "first / last"), ("ctrl-a", "commands"), ("r", "reload"), ("q", "quit"), ("", "")];
            assert(cells(a) =~= rows_grid(crate::web::page::opt_str(enter))[0]);
            assert(cells(b) =~= rows_grid(crate::web::page::opt_str(enter))[1]);
            vec![a, b]
        },
        None => {
            let a: Column = [("j/k", "move"), ("g/G", "first / last"), ("esc", "back"), (":", "command"), ("?", "keys")];
            let b: Column = [("ctrl-a", "commands"), ("r", "reload"), ("q", "quit"), ("", ""), ("", "")];
            assert(cells(a) =~= rows_grid(None)[0]);
            assert(cells(b) =~= rows_grid(None)[1]);
            vec![a, b]
        },
    };
    assert(columns(r@) =~= rows_grid(crate::web::page::opt_str(enter)));
    r
}

fn text_keys() -> (r: Vec<Column>)
    ensures
        columns(r@) == text_grid(),
{
    let a: Column = [("j/k", "scroll"), ("g/G", "top / end"), ("esc", "back"), (":", "command"), ("?", "keys")];
    let b: Column = [("ctrl-a", "commands"), ("r", "reload"), ("q", "quit"), ("", ""), ("", "")];
    assert(cells(a) =~= text_grid()[0]);
    assert(cells(b) =~= text_grid()[1]);
    let r = vec![a, b];
    assert(columns(r@) =~= text_grid());
    r
}

fn push_column(keys: &mut Vec<Column>, c: Column)
    ensures
        columns(final(keys)@) == columns(old(keys)@).push(cells(c)),
{
    keys.push(c);
    assert(columns(keys@) =~= columns(old(keys)@).push(cells(c)));
}

/// The keys the header lists on a screen, column by column.
pub fn keys_for(view: &View) -> (r: Vec<Column>)
    ensures
        columns(r@) == grid(*view),
{
    let mut keys = match view {
        View::Notes => return listing_keys(),
        View::Note(_) => return note_keys(),
        View::Todo | View::Backlinks(_) => {
            let mut keys = rows_keys(Some("read it"));
            push_column(&mut keys, changing_keys());
            keys
        },
        View::Tags => rows_keys(Some("filter by it")),
        View::Files => rows_keys(Some("what links here")),
        View::Notebooks => rows_keys(Some("switch to it")),
        View::Deleted => rows_keys(Some("restore it…")),
        View::Log(which) => match which {
            Some(_) => rows_keys(Some("restore it…")),
            None => rows_keys(None),
        },
        View::Blame(_) | View::Diff => text_keys(),
    };
    push_column(&mut keys, view_keys());
    keys
}

/// How many rows the header takes on a terminal this tall.
pub fn header_rows(height: u16) -> (r: u16)
    ensures
        r == (if height >= ROOM_FOR_INFO { INFO_ROWS } else { 1 }),
{
    if height >= ROOM_FOR_INFO { INFO_ROWS } else { 1 }
}

/// `1 note` / `3 notes`.
pub fn plural(n: usize, thing: &str) -> (r: String)
    ensures
        r@ == crate::web::markup::plural(n as nat, thing@),
{
    let mut out = count_of(n);
    push_str(&mut out, " ");
    push_str(&mut out, thing);
    if n != 1 {
        push_str(&mut out, "s");
    }
    out
}


/// The keys of a column that are not blank, in order.
pub open spec fn keys_in(c: Seq<Cell>) -> Seq<Seq<char>>
    decreases c.len(),
{
    if c.len() == 0 {
        Seq::empty()
    } else if c.last().0.len() == 0 {
        keys_in(c.drop_last())
    } else {
        keys_in(c.drop_last()).push(c.last().0)
    }
}

/// A screen's keys in grid order, blanks left out.
pub open spec fn named(g: Seq<Seq<Cell>>) -> Seq<Seq<char>>
    decreases g.len(),
{
    if g.len() == 0 {
        Seq::empty()
    } else {
        named(g.drop_last()) + keys_in(g.last())
    }
}

/// A number for a key, from its length and its first and last characters:
/// two keys with different numbers are different keys.
pub open spec fn key_code(k: Seq<char>) -> int {
    k.len() + 0x1000 * (k[0] as int) + 0x10000000000 * (k.last() as int)
}

/// Whether `x`'s number is none of `s`'s.
pub open spec fn absent(s: Seq<Seq<char>>, x: Seq<char>) -> bool
    decreases s.len(),
{
    if s.len() == 0 {
        true
    } else {
        key_code(s.last()) != key_code(x) && absent(s.drop_last(), x)
    }
}

/// Whether no two of `s` share a number.
pub open spec fn all_distinct(s: Seq<Seq<char>>) -> bool
    decreases s.len(),
{
    if s.len() == 0 {
        true
    } else {
        absent(s.drop_last(), s.last()) && all_distinct(s.drop_last())
    }
}

proof fn lemma_absent(s: Seq<Seq<char>>, x: Seq<char>)
    requires
        absent(s, x),
    ensures
        forall|i: int| 0 <= i < s.len() ==> s[i] != x,
    decreases s.len(),
{
    if s.len() > 0 {
        lemma_absent(s.drop_last(), x);
        assert forall|i: int| 0 <= i < s.len() implies s[i] != x by {
            if i < s.len() - 1 {
                assert(s.drop_last()[i] == s[i]);
            }
        }
    }
}

proof fn lemma_all_distinct(s: Seq<Seq<char>>)
    requires
        all_distinct(s),
    ensures
        forall|i: int, j: int| 0 <= i < j < s.len() ==> s[i] != s[j],
    decreases s.len(),
{
    if s.len() > 0 {
        let t = s.drop_last();
        lemma_all_distinct(t);
        lemma_absent(t, s.last());
        assert forall|i: int, j: int| 0 <= i < j < s.len() implies s[i] != s[j] by {
            assert(t.len() == s.len() - 1);
            if j < s.len() - 1 {
                assert(t[i] == s[i] && t[j] == s[j]);
            } else {
                assert(t[i] == s[i]);
            }
        }
    }
}

proof fn lemma_listing_distinct()
    ensures
        all_distinct(named(listing_grid())),
{
    reveal_strlit("enter"); reveal_strlit("/"); reveal_strlit(":"); reveal_strlit("ctrl-a"); reveal_strlit("?");
    reveal_strlit("e"); reveal_strlit("a"); reveal_strlit("m"); reveal_strlit("#"); reveal_strlit("ctrl-d");
    reveal_strlit("space"); reveal_strlit("*"); reveal_strlit("Q"); reveal_strlit("T"); reveal_strlit("q");
    reveal_strlit("S"); reveal_strlit("R"); reveal_strlit("ctrl-w"); reveal_strlit("1-9"); reveal_strlit("ctrl-g");
    reveal_strlit("t"); reveal_strlit("l"); reveal_strlit("b"); reveal_strlit("B"); reveal_strlit("");
    reveal_with_fuel(keys_in, 6);
    reveal_with_fuel(named, 6);
    let n = named(listing_grid());
    assert(n =~= seq!["enter"@, "/"@, ":"@, "ctrl-a"@, "?"@, "e"@, "a"@, "m"@, "#"@, "ctrl-d"@, "space"@, "*"@, "Q"@, "T"@, "q"@,
        "S"@, "R"@, "ctrl-w"@, "1-9"@, "ctrl-g"@, "t"@, "l"@, "b"@, "B"@]);
    reveal_with_fuel(all_distinct, 25);
    reveal_with_fuel(absent, 25);
}

proof fn lemma_note_distinct()
    ensures
        all_distinct(named(note_grid())),
{
    reveal_strlit("enter"); reveal_strlit("/"); reveal_strlit(":"); reveal_strlit("ctrl-a"); reveal_strlit("?");
    reveal_strlit("e"); reveal_strlit("m"); reveal_strlit("#"); reveal_strlit("ctrl-d"); reveal_strlit("T");
    reveal_strlit("q"); reveal_strlit("esc"); reveal_strlit("j/k"); reveal_strlit("g/G"); reveal_strlit("r");
    reveal_strlit("t"); reveal_strlit("l"); reveal_strlit("b"); reveal_strlit("B"); reveal_strlit("");
    reveal_with_fuel(keys_in, 6);
    reveal_with_fuel(named, 6);
    reveal_with_fuel(all_distinct, 25);
    reveal_with_fuel(absent, 25);
    let n = named(note_grid());
    assert(n =~= seq!["esc"@, "j/k"@, ":"@, "ctrl-a"@, "?"@, "e"@, "m"@, "#"@, "ctrl-d"@, "T"@, "r"@, "q"@,
        "t"@, "l"@, "b"@, "B"@]);
}

proof fn lemma_rows_distinct(what: Seq<char>)
    ensures
        all_distinct(named(rows_grid(Some(what)).push(changing_column()).push(view_column()))),
        all_distinct(named(rows_grid(Some(what)).push(view_column()))),
{
    reveal_strlit("enter"); reveal_strlit("/"); reveal_strlit(":"); reveal_strlit("ctrl-a"); reveal_strlit("?");
    reveal_strlit("e"); reveal_strlit("m"); reveal_strlit("#"); reveal_strlit("ctrl-d"); reveal_strlit("T");
    reveal_strlit("q"); reveal_strlit("esc"); reveal_strlit("j/k"); reveal_strlit("g/G"); reveal_strlit("r");
    reveal_strlit("t"); reveal_strlit("l"); reveal_strlit("b"); reveal_strlit("B"); reveal_strlit("");
    reveal_with_fuel(keys_in, 6);
    reveal_with_fuel(named, 6);
    reveal_with_fuel(all_distinct, 25);
    reveal_with_fuel(absent, 25);
    let n = named(rows_grid(Some(what)).push(changing_column()).push(view_column()));
    assert(n =~= seq!["enter"@, "j/k"@, "esc"@, ":"@, "?"@, "g/G"@, "ctrl-a"@, "r"@, "q"@,
        "e"@, "m"@, "#"@, "ctrl-d"@, "T"@, "t"@, "l"@, "b"@, "B"@]);
    let n2 = named(rows_grid(Some(what)).push(view_column()));
    assert(n2 =~= seq!["enter"@, "j/k"@, "esc"@, ":"@, "?"@, "g/G"@, "ctrl-a"@, "r"@, "q"@,
        "t"@, "l"@, "b"@, "B"@]);
}

proof fn lemma_plain_rows_distinct()
    ensures
        all_distinct(named(rows_grid(None).push(view_column()))),
        all_distinct(named(text_grid().push(view_column()))),
{
    reveal_strlit("enter"); reveal_strlit("/"); reveal_strlit(":"); reveal_strlit("ctrl-a"); reveal_strlit("?");
    reveal_strlit("e"); reveal_strlit("m"); reveal_strlit("#"); reveal_strlit("ctrl-d"); reveal_strlit("T");
    reveal_strlit("q"); reveal_strlit("esc"); reveal_strlit("j/k"); reveal_strlit("g/G"); reveal_strlit("r");
    reveal_strlit("t"); reveal_strlit("l"); reveal_strlit("b"); reveal_strlit("B"); reveal_strlit("");
    reveal_with_fuel(keys_in, 6);
    reveal_with_fuel(named, 6);
    reveal_with_fuel(all_distinct, 25);
    reveal_with_fuel(absent, 25);
    let n = named(rows_grid(None).push(view_column()));
    assert(n =~= seq!["j/k"@, "g/G"@, "esc"@, ":"@, "?"@, "ctrl-a"@, "r"@, "q"@, "t"@, "l"@, "b"@, "B"@]);
    let n2 = named(text_grid().push(view_column()));
    assert(n2 =~= seq!["j/k"@, "g/G"@, "esc"@, ":"@, "?"@, "ctrl-a"@, "r"@, "q"@, "t"@, "l"@, "b"@, "B"@]);
}

/// No key is listed twice on one screen: the keys a screen's header lists,
/// blanks left out, are all different.
pub proof fn no_key_is_listed_twice(view: View)
    ensures
        forall|i: int, j: int| 0 <= i < j < named(grid(view)).len() ==> named(grid(view))[i] != named(grid(view))[j],
{
    match view {
        View::Notes => lemma_listing_distinct(),
        View::Note(_) => lemma_note_distinct(),
        View::Todo | View::Backlinks(_) => lemma_rows_distinct("read it"@),
        View::Tags => lemma_rows_distinct("filter by it"@),
        View::Files => lemma_rows_distinct("what links here"@),
        View::Notebooks => lemma_rows_distinct("switch to it"@),
        View::Deleted => lemma_rows_distinct("restore it…"@),
        View::Log(which) => match which {
            Some(_) => lemma_rows_distinct("restore it…"@),
            None => lemma_plain_rows_distinct(),
        },
        View::Blame(_) | View::Diff => lemma_plain_rows_distinct(),
    }
    lemma_all_distinct(named(grid(view)));
}

/// Whether a column lists `key`.
pub open spec fn lists(c: Seq<Cell>, key: Seq<char>) -> bool {
    exists|j: int| 0 <= j < c.len() && #[trigger] c[j].0 == key
}

/// Every screen says how to leave it and where everything else is: the first
/// column, which is never dropped, holds `:` and `?`, which cannot be looked
/// up, and `esc` everywhere but the listing, the bottom of the stack.
pub proof fn every_screen_says_how_to_leave_it(view: View)
    ensures
        grid(view).len() > 0,
        lists(grid(view)[0], ":"@),
        lists(grid(view)[0], "?"@),
        !(view is Notes) ==> lists(grid(view)[0], "esc"@),
{
    let c = grid(view)[0];
    match view {
        View::Notes => {
            assert(c[2].0 == ":"@);
            assert(c[4].0 == "?"@);
        },
        View::Note(_) => {
            assert(c[2].0 == ":"@);
            assert(c[4].0 == "?"@);
            assert(c[0].0 == "esc"@);
        },
        View::Log(which) => {
            assert(c[3].0 == ":"@);
            assert(c[4].0 == "?"@);
            assert(c[2].0 == "esc"@);
        },
        _ => {
            assert(c[3].0 == ":"@);
            assert(c[4].0 == "?"@);
            assert(c[2].0 == "esc"@);
        },
    }
}


/// The gap after each column of the key grid.
pub const MENU_GAP: usize = 2;

/// The gap between a `<key>` and what it does.
pub const KEY_GAP: usize = 2;

/// How wide one key takes: `<key>`, the gap, and its words.
pub open spec fn entry_width(c: Cell) -> int {
    c.0.len() + 2 + KEY_GAP + c.1.len()
}

/// The widest entry of a column that is not blank, or nothing.
pub open spec fn widest(c: Seq<Cell>) -> int
    decreases c.len(),
{
    if c.len() == 0 {
        0
    } else {
        let rest = widest(c.drop_last());
        let here = if c.last().0.len() == 0 { 0 } else { entry_width(c.last()) };
        if here > rest { here } else { rest }
    }
}

/// What a column wants: its widest entry and the gap after it.
pub open spec fn wanted(c: Seq<Cell>) -> int {
    widest(c) + MENU_GAP
}

/// The widths of the columns that fit, from the left. The first that does
/// not fit ends the grid: columns are dropped from the right rather than
/// squeezed until words are cut.
pub open spec fn fitted(cols: Seq<Seq<Cell>>, room: int) -> Seq<int>
    decreases cols.len(),
{
    if cols.len() == 0 || wanted(cols[0]) > room {
        Seq::empty()
    } else {
        seq![wanted(cols[0])] + fitted(cols.drop_first(), room - wanted(cols[0]))
    }
}

/// `n` spaces.
pub open spec fn spaces(n: int) -> Seq<char> {
    Seq::new(if n > 0 { n as nat } else { 0 }, |_i: int| ' ')
}

/// One row of the key grid over the columns that fit: a blank keeps its
/// width, so later columns on the row do not slide left; a key is drawn
/// (`true`, in the id's ink) with its words padded after it, or they would
/// sit against the next key and read as its.
pub open spec fn grid_row(cols: Seq<Seq<Cell>>, widths: Seq<int>, row: int) -> Seq<(Seq<char>, bool)>
    decreases widths.len(),
{
    if widths.len() == 0 {
        Seq::empty()
    } else {
        let k = widths.len() - 1;
        let before = grid_row(cols, widths.drop_last(), row);
        let (key, what) = cols[k][row];
        let w = widths[k];
        if key.len() == 0 {
            before.push((spaces(w), false))
        } else {
            let named = "<"@ + key + ">"@;
            let used = named.len() + KEY_GAP + what.len();
            before.push((named, true)).push((spaces(KEY_GAP as int) + what + spaces(w - used), false))
        }
    }
}

/// The key grid on a header this wide: its rows, each a run of pieces.
pub open spec fn menu_rows(view: View, width: int) -> Seq<Seq<(Seq<char>, bool)>> {
    let cols = grid(view);
    let widths = fitted(cols, width);
    Seq::new(MENU_ROWS as nat, |row: int| grid_row(cols, widths, row))
}

fn width_of(column: &Column) -> (r: u128)
    ensures
        r == wanted(cells(*column)),
{
    let mut best: u128 = 0;
    let mut i: usize = 0;
    let ghost c = cells(*column);
    while i < MENU_ROWS
        invariant
            i <= MENU_ROWS,
            c == cells(*column),
            c.len() == MENU_ROWS,
            best == widest(c.subrange(0, i as int)),
            best <= 2 * (usize::MAX as int) + 4,
        decreases MENU_ROWS - i,
    {
        let (key, what) = column[i];
        assert(c[i as int] == (key@, what@));
        let k = chars_of(key).len() as u128;
        let w = chars_of(what).len() as u128;
        let here: u128 = if k == 0 { 0 } else { k + 2 + 2 + w };
        assert(c.subrange(0, i + 1).drop_last() =~= c.subrange(0, i as int));
        if here > best {
            best = here;
        }
        i += 1;
    }
    assert(c.subrange(0, MENU_ROWS as int) =~= c);
    best + 2
}

/// The widths of the key grid's columns that fit `width`.
pub fn fitted_widths(view: &View, width: u16) -> (r: Vec<usize>)
    ensures
        r@.map_values(|w: usize| w as int) == fitted(grid(*view), width as int),
{
    let cols = keys_for(view);
    let ghost g = columns(cols@);
    let mut out: Vec<usize> = Vec::new();
    let mut room: u128 = width as u128;
    let mut i: usize = 0;
    let mut full = false;
    assert(g.subrange(0, g.len() as int) =~= g);
    assert(out@.map_values(|w: usize| w as int) =~= Seq::<int>::empty());
    while i < cols.len() && !full
        invariant
            i <= cols.len(),
            g == columns(cols@),
            g == grid(*view),
            room <= width,
            full ==> fitted(g.subrange(i as int, g.len() as int), room as int) =~= Seq::<int>::empty(),
            out@.map_values(|w: usize| w as int) + fitted(g.subrange(i as int, g.len() as int), room as int)
                == fitted(g, width as int),
        decreases cols.len() - i + (if full { 0int } else { 1int }),
    {
        let wanted_here = width_of(&cols[i]);
        let ghost rest = g.subrange(i as int, g.len() as int);
        assert(rest[0] == cells(cols@[i as int]));
        if wanted_here > room {
            full = true;
        } else {
            let ghost before = out@.map_values(|w: usize| w as int);
            out.push(wanted_here as usize);
            assert(rest.drop_first() =~= g.subrange(i + 1, g.len() as int));
            assert(out@.map_values(|w: usize| w as int) =~= before.push(wanted_here as int));
            room = room - wanted_here;
            i += 1;
        }
    }
    if !full {
        assert(g.subrange(i as int, g.len() as int) =~= Seq::<Seq<Cell>>::empty());
    }
    assert(out@.map_values(|w: usize| w as int) =~= fitted(g, width as int));
    out
}

fn push_spaces(out: &mut String, n: usize)
    ensures
        final(out)@ == old(out)@ + spaces(n as int),
{
    let mut i: usize = 0;
    while i < n
        invariant
            i <= n,
            out@ == old(out)@ + spaces(i as int),
        decreases n - i,
    {
        crate::text::push_char(out, ' ');
        i += 1;
        assert(out@ =~= old(out)@ + spaces(i as int));
    }
}


pub open spec fn runs(v: Seq<(String, bool)>) -> Seq<(Seq<char>, bool)> {
    v.map_values(|p: (String, bool)| (p.0@, p.1))
}

proof fn lemma_fitted_bounds(cols: Seq<Seq<Cell>>, room: int)
    ensures
        fitted(cols, room).len() <= cols.len(),
        forall|k: int| 0 <= k < fitted(cols, room).len() ==> #[trigger] fitted(cols, room)[k] == wanted(cols[k]),
    decreases cols.len(),
{
    if !(cols.len() == 0 || wanted(cols[0]) > room) {
        lemma_fitted_bounds(cols.drop_first(), room - wanted(cols[0]));
        let rest = fitted(cols.drop_first(), room - wanted(cols[0]));
        assert forall|k: int| 0 <= k < fitted(cols, room).len() implies #[trigger] fitted(cols, room)[k] == wanted(cols[k]) by {
            if k > 0 {
                assert(fitted(cols, room)[k] == rest[k - 1]);
                assert(cols.drop_first()[k - 1] == cols[k]);
            }
        }
    }
}

/// The header's grid of keys on a header this wide: five rows, each a run
/// of pieces, the keys to be drawn in the id's ink.
pub fn menu(view: &View, width: u16) -> (r: Vec<Vec<(String, bool)>>)
    ensures
        r@.map_values(|row: Vec<(String, bool)>| runs(row@)) == menu_rows(*view, width as int),
{
    let cols = keys_for(view);
    let widths = fitted_widths(view, width);
    let ghost g = grid(*view);
    let ghost ws = widths@.map_values(|w: usize| w as int);
    proof { lemma_fitted_bounds(g, width as int); }
    let mut rows: Vec<Vec<(String, bool)>> = Vec::new();
    let mut row: usize = 0;
    while row < MENU_ROWS
        invariant
            row <= MENU_ROWS,
            columns(cols@) == g,
            ws == widths@.map_values(|w: usize| w as int),
            ws == fitted(g, width as int),
            ws.len() <= g.len(),
            forall|k: int| 0 <= k < ws.len() ==> #[trigger] ws[k] == wanted(g[k]),
            rows@.map_values(|r: Vec<(String, bool)>| runs(r@)) =~= Seq::new(row as nat, |i: int| grid_row(g, ws, i)),
        decreases MENU_ROWS - row,
    {
        let mut pieces: Vec<(String, bool)> = Vec::new();
        let mut k: usize = 0;
        while k < widths.len()
            invariant
                k <= widths.len(),
                row < MENU_ROWS,
                columns(cols@) == g,
                ws == widths@.map_values(|w: usize| w as int),
                ws.len() <= g.len(),
                g.len() == cols@.len(),
                forall|j: int| 0 <= j < ws.len() ==> #[trigger] ws[j] == wanted(g[j]),
                runs(pieces@) == grid_row(g, ws.subrange(0, k as int), row as int),
            decreases widths.len() - k,
        {
            let (key, what) = cols[k][row];
            let w = widths[k];
            let ghost cell = g[k as int][row as int];
            assert(g[k as int] == cells(cols@[k as int]));
            assert(cell == (key@, what@));
            assert(ws.subrange(0, k + 1).drop_last() =~= ws.subrange(0, k as int));
            assert(ws.subrange(0, k + 1).last() == w as int);
            let ghost before = runs(pieces@);
            let kc = chars_of(key);
            if kc.len() == 0 {
                let mut blank = String::new();
                push_spaces(&mut blank, w);
                pieces.push((blank, false));
                assert(runs(pieces@) =~= before.push((spaces(w as int), false)));
            } else {
                let mut named = String::new();
                push_str(&mut named, "<");
                push_str(&mut named, key);
                push_str(&mut named, ">");
                let wc = chars_of(what);
                proof { reveal_strlit("<"); reveal_strlit(">"); }
                let used: u128 = kc.len() as u128 + 2 + 2 + wc.len() as u128;
                let pad: usize = if (w as u128) > used { (w as u128 - used) as usize } else { 0 };
                let mut words = String::new();
                push_spaces(&mut words, KEY_GAP);
                push_str(&mut words, what);
                push_spaces(&mut words, pad);
                assert(spaces(pad as int) =~= spaces(w - (named@.len() + KEY_GAP + what@.len())));
                pieces.push((named, true));
                pieces.push((words, false));
                assert(runs(pieces@) =~= before.push((("<"@ + key@) + ">"@, true))
                    .push((spaces(KEY_GAP as int) + what@ + spaces(w - (("<"@ + key@ + ">"@).len() + KEY_GAP + what@.len())), false)));
            }
            k += 1;
        }
        assert(ws.subrange(0, ws.len() as int) =~= ws);
        let ghost before_rows = rows@.map_values(|r: Vec<(String, bool)>| runs(r@));
        rows.push(pieces);
        assert(rows@.map_values(|r: Vec<(String, bool)>| runs(r@)) =~= before_rows.push(grid_row(g, ws, row as int)));
        row += 1;
    }
    rows
}


pub open spec fn total(ws: Seq<int>) -> int
    decreases ws.len(),
{
    if ws.len() == 0 { 0 } else { ws[0] + total(ws.drop_first()) }
}

/// The key grid keeps whole columns from the left, each as wide as it wants,
/// within the room there is; the first it leaves out, and so every one after
/// it, would not have fitted: columns are dropped from the right rather than
/// squeezed until words are cut.
pub proof fn columns_are_dropped_from_the_right(cols: Seq<Seq<Cell>>, room: int)
    requires
        room >= 0,
    ensures
        fitted(cols, room).len() <= cols.len(),
        forall|k: int| 0 <= k < fitted(cols, room).len() ==> #[trigger] fitted(cols, room)[k] == wanted(cols[k]),
        total(fitted(cols, room)) <= room,
        fitted(cols, room).len() < cols.len() ==> wanted(cols[fitted(cols, room).len() as int]) > room - total(fitted(cols, room)),
    decreases cols.len(),
{
    lemma_fitted_bounds(cols, room);
    if !(cols.len() == 0 || wanted(cols[0]) > room) {
        let w = wanted(cols[0]);
        let tail = cols.drop_first();
        columns_are_dropped_from_the_right(tail, room - w);
        let f = fitted(cols, room);
        assert(f.drop_first() =~= fitted(tail, room - w));
        if f.len() < cols.len() {
            assert(tail[fitted(tail, room - w).len() as int] == cols[f.len() as int]);
        }
    } else {
        assert(fitted(cols, room) =~= Seq::<int>::empty());
    }
}


/// A run of text and the ink it is drawn in.
pub open spec fn inked(v: Seq<(String, Ink)>) -> Seq<(Seq<char>, Ink)> {
    v.map_values(|p: (String, Ink)| (p.0@, p.1))
}

/// What the header reads of a notebook's state, as `noda status` has it.
pub struct Standing {
    pub branch: String,
    /// Ahead and behind the remote, where there is one to compare with.
    pub drift: Option<(usize, usize)>,
    /// What the notebook holds that is not a note.
    pub files: usize,
    pub uncommitted: usize,
    pub remote: Option<String>,
}

/// A label padded to its column, the same for every label.
pub open spec fn label_of(label: Seq<char>) -> Seq<char> {
    let said = label + ":"@;
    said + spaces(LABEL - said.len())
}

pub fn labelled(label: &str) -> (r: String)
    ensures
        r@ == label_of(label@),
{
    let mut out = crate::text::owned(label);
    push_str(&mut out, ":");
    let n = chars_of(out.as_str()).len();
    if n < LABEL {
        push_spaces(&mut out, LABEL - n);
    } else {
        assert(spaces(LABEL - n) =~= Seq::<char>::empty());
    }
    proof { reveal_strlit(":"); }
    out
}

/// The bold the notebook's name is drawn in.
pub open spec fn bold() -> Ink {
    Ink { fg: None, bold: true, dim: false }
}

/// The header's facts: always the same five labels in the same order, so
/// each stays where the eye learned it. Each row is its label, muted, then
/// its value.
pub open spec fn branch_runs(st: Standing) -> Seq<(Seq<char>, Ink)> {
    seq![(st.branch@, plain_ink())] + match st.drift {
        Some((ahead, behind)) => if ahead > 0 || behind > 0 {
            seq![("  ↑"@ + decimal(ahead as nat) + " ↓"@ + decimal(behind as nat), muted_ink())]
        } else {
            Seq::empty()
        },
        None => Seq::empty(),
    }
}

pub open spec fn count_runs(notes: nat, st: Standing) -> Seq<(Seq<char>, Ink)> {
    seq![(crate::web::markup::plural(notes, "note"@), plain_ink())]
        + if st.files > 0 { seq![("  "@ + crate::web::markup::plural(st.files as nat, "file"@), muted_ink())] } else { Seq::empty() }
}

pub open spec fn change_run(st: Standing) -> (Seq<char>, Ink) {
    if st.uncommitted == 0 {
        ("none"@, muted_ink())
    } else {
        (decimal(st.uncommitted as nat) + " uncommitted"@, matched_ink())
    }
}

pub open spec fn remote_run(st: Standing) -> (Seq<char>, Ink) {
    match st.remote {
        Some(url) => (url@, plain_ink()),
        None => ("none"@, muted_ink()),
    }
}

/// The header's facts: always the same five labels in the same order, so
/// each stays where the eye learned it. Each row is its label, muted, then
/// its value.
pub open spec fn info_rows(notebook: Seq<char>, notes: nat, st: Standing) -> Seq<Seq<(Seq<char>, Ink)>> {
    seq![
        seq![(label_of("Notebook"@), muted_ink()), (notebook, bold())],
        seq![(label_of("Branch"@), muted_ink())] + branch_runs(st),
        seq![(label_of("Remote"@), muted_ink()), remote_run(st)],
        seq![(label_of("Notes"@), muted_ink())] + count_runs(notes, st),
        seq![(label_of("Changes"@), muted_ink()), change_run(st)],
    ]
}

pub open spec fn plain_ink() -> Ink {
    Ink { fg: None, bold: false, dim: false }
}

pub open spec fn muted_ink() -> Ink {
    Ink { fg: None, bold: false, dim: true }
}

pub open spec fn matched_ink() -> Ink {
    Ink { fg: None, bold: true, dim: false }
}

fn row_of(label: &str, value: Vec<(String, Ink)>) -> (r: Vec<(String, Ink)>)
    ensures
        inked(r@) == seq![(label_of(label@), muted_ink())] + inked(value@),
{
    let mut out: Vec<(String, Ink)> = Vec::new();
    out.push((labelled(label), muted()));
    let mut i: usize = 0;
    let ghost first = inked(out@);
    while i < value.len()
        invariant
            i <= value.len(),
            first == seq![(label_of(label@), muted_ink())],
            inked(out@) == first + inked(value@).subrange(0, i as int),
        decreases value.len() - i,
    {
        let (t, ink) = &value[i];
        let ghost before = inked(out@);
        out.push((crate::text::owned(t.as_str()), *ink));
        assert(inked(out@) =~= before.push(inked(value@)[i as int]));
        assert(inked(value@).subrange(0, i + 1) =~= inked(value@).subrange(0, i as int).push(inked(value@)[i as int]));
        i += 1;
    }
    assert(inked(value@).subrange(0, value@.len() as int) =~= inked(value@));
    out
}

/// The five rows of facts the header shows beside its keys.
pub fn info(notebook: &str, notes: usize, st: &Standing) -> (r: Vec<Vec<(String, Ink)>>)
    ensures
        r@.map_values(|row: Vec<(String, Ink)>| inked(row@)) == info_rows(notebook@, notes as nat, *st),
{
    proof {
        reveal_strlit("Notebook");
        reveal_strlit("Branch");
        reveal_strlit("Remote");
        reveal_strlit("Notes");
        reveal_strlit("Changes");
    }
    let mut branch: Vec<(String, Ink)> = Vec::new();
    branch.push((crate::text::owned(st.branch.as_str()), plain()));
    match st.drift {
        Some((ahead, behind)) => {
            if ahead > 0 || behind > 0 {
                let mut said = crate::text::owned("  ↑");
                let a = count_of(ahead);
                push_str(&mut said, a.as_str());
                push_str(&mut said, " ↓");
                let b = count_of(behind);
                push_str(&mut said, b.as_str());
                branch.push((said, muted()));
            }
        },
        None => {},
    }
    let mut counts: Vec<(String, Ink)> = Vec::new();
    counts.push((plural(notes, "note"), plain()));
    if st.files > 0 {
        let mut said = crate::text::owned("  ");
        let f = plural(st.files, "file");
        push_str(&mut said, f.as_str());
        counts.push((said, muted()));
    }
    let changes = if st.uncommitted == 0 {
        (crate::text::owned("none"), muted())
    } else {
        let mut said = count_of(st.uncommitted);
        push_str(&mut said, " uncommitted");
        (said, matched())
    };
    let remote = match &st.remote {
        Some(url) => (crate::text::owned(url.as_str()), plain()),
        None => (crate::text::owned("none"), muted()),
    };
    assert(inked(branch@) =~= branch_runs(*st));
    assert(inked(counts@) =~= count_runs(notes as nat, *st));
    assert((changes.0@, changes.1) == change_run(*st));
    assert((remote.0@, remote.1) == remote_run(*st));
    let name = vec![(crate::text::owned(notebook), Ink { fg: None, bold: true, dim: false })];
    assert(inked(name@) =~= seq![(notebook@, bold())]);
    let changes = vec![changes];
    assert(inked(changes@) =~= seq![change_run(*st)]);
    let remote = vec![remote];
    assert(inked(remote@) =~= seq![remote_run(*st)]);
    let ghost want = info_rows(notebook@, notes as nat, *st);
    let r0 = row_of("Notebook", name);
    assert(inked(r0@) =~= want[0]);
    let r1 = row_of("Branch", branch);
    assert(inked(r1@) =~= want[1]);
    let r2 = row_of("Remote", remote);
    assert(inked(r2@) =~= want[2]);
    let r3 = row_of("Notes", counts);
    assert(inked(r3@) =~= want[3]);
    let r4 = row_of("Changes", changes);
    assert(inked(r4@) =~= want[4]);
    let rows = vec![r0, r1, r2, r3, r4];
    assert(rows@.map_values(|row: Vec<(String, Ink)>| inked(row@)) =~= want);
    rows
}

/// What is keyed in that changes what the next key does, each part set off
/// by a muted gap: that changes keep the old time, how many notes are
/// marked, and how many changes are queued.
pub open spec fn session_runs(keeping: bool, marks: nat, queued: nat) -> Seq<(Seq<char>, Ink)> {
    let parts = (if keeping { seq![("keeping updated"@, matched_ink())] } else { Seq::empty() })
        + (if marks > 0 { seq![(crate::web::markup::plural(marks, "mark"@), matched_ink())] } else { Seq::empty() })
        + (if queued > 0 { seq![(decimal(queued) + " queued"@, tags_ink())] } else { Seq::empty() });
    set_off(parts)
}

pub open spec fn tags_ink() -> Ink {
    Ink { fg: Some(crate::palette::Hue::Cyan), bold: false, dim: false }
}

/// Parts with a muted gap between each two.
pub open spec fn set_off(parts: Seq<(Seq<char>, Ink)>) -> Seq<(Seq<char>, Ink)>
    decreases parts.len(),
{
    if parts.len() <= 1 {
        parts
    } else {
        set_off(parts.drop_last()).push(("  "@, muted_ink())).push(parts.last())
    }
}

fn add_part(spans: &mut Vec<(String, Ink)>, text: String, ink: Ink, Ghost(parts): Ghost<Seq<(Seq<char>, Ink)>>)
    requires
        inked(old(spans)@) == set_off(parts),
    ensures
        inked(final(spans)@) == set_off(parts.push((text@, ink))),
{
    let ghost all = parts.push((text@, ink));
    assert(all.drop_last() =~= parts);
    if spans.len() > 0 {
        assert(parts.len() > 0) by {
            if parts.len() == 0 {
                assert(set_off(parts) =~= Seq::<(Seq<char>, Ink)>::empty());
            }
        }
        let ghost before = inked(spans@);
        spans.push((crate::text::owned("  "), muted()));
        spans.push((text, ink));
        assert(inked(spans@) =~= before.push(("  "@, muted_ink())).push((text@, ink)));
    } else {
        assert(parts.len() == 0) by {
            if parts.len() > 0 {
                lemma_set_off_len(parts);
            }
        }
        spans.push((text, ink));
        assert(inked(spans@) =~= seq![(text@, ink)]);
        assert(all =~= seq![(text@, ink)]);
    }
}

proof fn lemma_set_off_len(parts: Seq<(Seq<char>, Ink)>)
    ensures
        parts.len() > 0 ==> set_off(parts).len() > 0,
    decreases parts.len(),
{
    if parts.len() > 1 {
        lemma_set_off_len(parts.drop_last());
    }
}

/// The keyed-in state, for the title band.
pub fn session(keeping: bool, marks: usize, queued: usize) -> (r: Vec<(String, Ink)>)
    ensures
        inked(r@) == session_runs(keeping, marks as nat, queued as nat),
{
    let mut spans: Vec<(String, Ink)> = Vec::new();
    let ghost mut parts: Seq<(Seq<char>, Ink)> = Seq::empty();
    assert(inked(spans@) =~= set_off(parts));
    if keeping {
        add_part(&mut spans, crate::text::owned("keeping updated"), matched(), Ghost(parts));
        proof { parts = parts.push(("keeping updated"@, matched_ink())); }
    }
    if marks > 0 {
        let said = plural(marks, "mark");
        add_part(&mut spans, said, matched(), Ghost(parts));
        proof { parts = parts.push((crate::web::markup::plural(marks as nat, "mark"@), matched_ink())); }
    }
    if queued > 0 {
        let mut said = count_of(queued);
        push_str(&mut said, " queued");
        add_part(&mut spans, said, tags(), Ghost(parts));
        proof { parts = parts.push((decimal(queued as nat) + " queued"@, tags_ink())); }
    }
    assert(parts =~= (if keeping { seq![("keeping updated"@, matched_ink())] } else { Seq::empty() })
        + (if marks > 0 { seq![(crate::web::markup::plural(marks as nat, "mark"@), matched_ink())] } else { Seq::empty() })
        + (if queued > 0 { seq![(decimal(queued as nat) + " queued"@, tags_ink())] } else { Seq::empty() }));
    spans
}

/// The `--sort`, `-r` and `-l` settings, when not the defaults: those keys
/// rearrange rows and otherwise leave no trace.
pub open spec fn looking_of(sort: Sort, reverse: bool, long: bool) -> Option<Seq<char>> {
    let said = (if sort != Sort::Slug || reverse { seq!["by "@ + sort_name(sort)] } else { Seq::empty() })
        + (if reverse { seq!["reversed"@] } else { Seq::empty() })
        + (if long { seq!["wide"@] } else { Seq::empty() });
    if said.len() == 0 { None } else { Some(crate::web::markup::join(said, " "@)) }
}

pub fn looking(sort: Sort, reverse: bool, long: bool) -> (r: Option<String>)
    ensures
        match looking_of(sort, reverse, long) {
            Some(t) => r matches Some(s) && s@ == t,
            None => r is None,
        },
{
    let mut said: Vec<String> = Vec::new();
    if sort != Sort::Slug || reverse {
        let mut by = crate::text::owned("by ");
        push_str(&mut by, sort.name());
        said.push(by);
    }
    if reverse {
        said.push(crate::text::owned("reversed"));
    }
    if long {
        said.push(crate::text::owned("wide"));
    }
    let ghost parts = (if sort != Sort::Slug || reverse { seq!["by "@ + sort_name(sort)] } else { Seq::<Seq<char>>::empty() })
        + (if reverse { seq!["reversed"@] } else { Seq::<Seq<char>>::empty() })
        + (if long { seq!["wide"@] } else { Seq::<Seq<char>>::empty() });
    assert(crate::web::markup::texts(said@) =~= parts);
    if said.len() == 0 {
        return None;
    }
    let mut out = String::new();
    crate::web::markup::push_joined(&mut out, &said, " ");
    assert(out@ =~= crate::web::markup::join(parts, " "@));
    Some(out)
}


/// The header on a short terminal: the facts on one line, no keys.
pub open spec fn compact_runs(notebook: Seq<char>, notes: nat, st: Standing) -> Seq<(Seq<char>, Ink)> {
    seq![
        (notebook, bold()),
        ("  ("@ + st.branch@ + ")  "@, muted_ink()),
        (crate::web::markup::plural(notes, "note"@), plain_ink()),
    ] + if st.uncommitted > 0 {
        seq![("  "@ + decimal(st.uncommitted as nat) + " uncommitted"@, matched_ink())]
    } else {
        Seq::empty()
    }
}

pub fn compact(notebook: &str, notes: usize, st: &Standing) -> (r: Vec<(String, Ink)>)
    ensures
        inked(r@) == compact_runs(notebook@, notes as nat, *st),
{
    let mut branch = crate::text::owned("  (");
    push_str(&mut branch, st.branch.as_str());
    push_str(&mut branch, ")  ");
    let mut spans = vec![
        (crate::text::owned(notebook), Ink { fg: None, bold: true, dim: false }),
        (branch, muted()),
        (plural(notes, "note"), plain()),
    ];
    let ghost three = inked(spans@);
    if st.uncommitted > 0 {
        let mut said = crate::text::owned("  ");
        let n = count_of(st.uncommitted);
        push_str(&mut said, n.as_str());
        push_str(&mut said, " uncommitted");
        spans.push((said, matched()));
        assert(inked(spans@) =~= three.push(("  "@ + decimal(st.uncommitted as nat) + " uncommitted"@, matched_ink())));
    }
    assert(inked(spans@) =~= compact_runs(notebook@, notes as nat, *st));
    spans
}


/// Whether any column of a screen's grid lists `key`.
pub open spec fn on_screen(view: View, key: Seq<char>) -> bool {
    exists|i: int| 0 <= i < grid(view).len() && lists(#[trigger] grid(view)[i], key)
}

/// The keys that change a note are listed on every screen whose rows are
/// notes; the tags screen offers no `e` and the notebooks screen no
/// `ctrl-d`, since their rows are not notes.
pub proof fn the_changing_keys_stand_where_notes_do(view: View)
    ensures
        (view is Notes || view is Note || view is Todo || view is Backlinks) ==> {
            &&& on_screen(view, "e"@)
            &&& on_screen(view, "m"@)
            &&& on_screen(view, "#"@)
            &&& on_screen(view, "ctrl-d"@)
            &&& on_screen(view, "T"@)
        },
        view is Tags ==> !on_screen(view, "e"@),
        view is Notebooks ==> !on_screen(view, "ctrl-d"@),
{
    reveal_strlit("enter");
    reveal_strlit("read it");
    reveal_strlit("filter by it");
    reveal_strlit("switch to it");
    reveal_strlit("j/k");
    reveal_strlit("esc");
    reveal_strlit(":");
    reveal_strlit("?");
    reveal_strlit("g/G");
    reveal_strlit("ctrl-a");
    reveal_strlit("r");
    reveal_strlit("q");
    reveal_strlit("");
    reveal_strlit("t");
    reveal_strlit("l");
    reveal_strlit("b");
    reveal_strlit("B");
    reveal_strlit("e");
    reveal_strlit("m");
    reveal_strlit("#");
    reveal_strlit("ctrl-d");
    reveal_strlit("T");
    reveal_strlit("move");
    reveal_strlit("back");
    reveal_strlit("command");
    reveal_strlit("keys");
    reveal_strlit("first / last");
    reveal_strlit("commands");
    reveal_strlit("reload");
    reveal_strlit("quit");
    reveal_strlit("todo");
    reveal_strlit("log");
    reveal_strlit("backlinks");
    reveal_strlit("blame");
    reveal_strlit("edit");
    reveal_strlit("retitle");
    reveal_strlit("tags");
    reveal_strlit("delete");
    reveal_strlit("keep updated");
    reveal_strlit("a");
    reveal_strlit("new");
    reveal_strlit("space");
    reveal_strlit("mark");
    reveal_strlit("*");
    reveal_strlit("mark shown");
    reveal_strlit("Q");
    reveal_strlit("queue");
    reveal_strlit("S");
    reveal_strlit("sort");
    reveal_strlit("R");
    reveal_strlit("reverse");
    reveal_strlit("ctrl-w");
    reveal_strlit("wide");
    reveal_strlit("1-9");
    reveal_strlit("tag, 0 all");
    reveal_strlit("ctrl-g");
    reveal_strlit("crumbs");
    reveal_strlit("/");
    reveal_strlit("filter");
    reveal_strlit("scroll");
    let g = grid(view);
    match view {
        View::Notes => {
            assert(lists(g[1], "e"@) && lists(g[1], "m"@) && lists(g[1], "#"@) && lists(g[1], "ctrl-d"@)) by {
                assert(g[1][0].0 == "e"@ && g[1][2].0 == "m"@ && g[1][3].0 == "#"@ && g[1][4].0 == "ctrl-d"@);
            }
            assert(lists(g[2], "T"@)) by { assert(g[2][3].0 == "T"@); }
        },
        View::Note(_) | View::Todo | View::Backlinks(_) => {
            let k: int = if view is Note { 1 } else { 2 };
            assert(g[k] == changing_column());
            assert(lists(g[k], "e"@)) by { assert(g[k][0].0 == "e"@); }
            assert(lists(g[k], "m"@)) by { assert(g[k][1].0 == "m"@); }
            assert(lists(g[k], "#"@)) by { assert(g[k][2].0 == "#"@); }
            assert(lists(g[k], "ctrl-d"@)) by { assert(g[k][3].0 == "ctrl-d"@); }
            assert(lists(g[k], "T"@)) by { assert(g[k][4].0 == "T"@); }
        },
        View::Tags => {
            assert forall|i: int| 0 <= i < g.len() implies !lists(#[trigger] g[i], "e"@) by {
                assert forall|j: int| 0 <= j < g[i].len() implies g[i][j].0 != "e"@ by {
                    assert(g[i][j].0.len() != 1 || g[i][j].0[0] != 'e');
                }
            }
        },
        View::Notebooks => {
            assert forall|i: int| 0 <= i < g.len() implies !lists(#[trigger] g[i], "ctrl-d"@) by {
                assert forall|j: int| 0 <= j < g[i].len() implies g[i][j].0 != "ctrl-d"@ by {
                    assert(g[i][j].0.len() != 6 || g[i][j].0[5] != 'd');
                }
            }
        },
        _ => {},
    }
}
} // verus!
