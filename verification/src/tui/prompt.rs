//! What a `:` line comes to: noda's own subcommand names, each with its
//! arguments cut as the search line cuts them. What needs the session itself
//! (going back to the listing, deleting, moving to another notebook) is
//! handed back for the session to carry out; everything else is decided here.

use vstd::prelude::*;

use crate::query::tokens;
use crate::text::{chars_of, is_white, owned, push_str, string_of, trimmed, trimmed_start, white};
use crate::tui::app::{remember, Action, Look, Run, Subject, Touch, View};
use crate::tui::command::{found, table, usage_of};
use vstd::view::View as _;

verus! {

/// What the line needs to know of the session.
pub struct Aim {
    /// The note the cursor or the screen is on, by id.
    pub on_screen: Option<String>,
    /// The file under the cursor, on the files screen.
    pub file_here: Option<String>,
    /// The note the screen is about, for `log`.
    pub about: Option<String>,
    /// Whether changes stamp `updated` (`T` toggles it).
    pub touch: Touch,
    /// Whether nothing is queued, so quitting need not ask.
    pub queue_empty: bool,
}

/// What running a line comes to.
#[derive(Debug, PartialEq, Eq)]
pub enum Ran {
    /// An empty line does nothing.
    Nothing,
    /// Said on the status line, in the failure colour; nothing else happens.
    Refused(String),
    /// For the runtime.
    Act(Action),
    /// Back down the stack to the listing, narrowed by what follows.
    Notes(String),
    /// A screen put on the stack.
    Open(View),
    /// The keys card.
    Help,
    /// Delete what is marked, or the note on screen after a `y`.
    Delete,
    /// Move to another notebook, asking first about a queue.
    Switch(String),
    /// Quitting with a queue: asked about first.
    AskQuit,
}

/// How long the first word of `s` is: up to its first whitespace.
pub open spec fn word_len(s: Seq<char>) -> nat
    decreases s.len(),
{
    if s.len() == 0 || white(s[0]) { 0 } else { 1 + word_len(s.drop_first()) }
}

/// The command word of a trimmed line.
pub open spec fn word(l: Seq<char>) -> Seq<char> {
    l.subrange(0, word_len(l) as int)
}

/// What follows it, leading whitespace off.
pub open spec fn rest_of(l: Seq<char>) -> Seq<char> {
    trimmed_start(l.subrange(word_len(l) as int, l.len() as int))
}

pub open spec fn unknown(name: Seq<char>) -> Seq<char> {
    "no command `"@ + name + "` — Ctrl-a lists them"@
}

/// A command given too little: its usage and what it does.
pub open spec fn wants(i: int) -> Seq<char> {
    usage_of(table()[i]) + " — "@ + table()[i].what
}

pub open spec fn no_note() -> Seq<char> {
    "no note on screen — name one, or open one first"@
}

pub open spec fn opt(s: Option<String>) -> Option<Seq<char>> {
    match s {
        Some(v) => Some(v@),
        None => None,
    }
}

pub open spec fn first(args: Seq<Seq<char>>) -> Option<Seq<char>> {
    if args.len() > 0 { Some(args[0]) } else { None }
}

/// The note a command is aimed at: the one it named, or the one on screen.
pub open spec fn aimed_at(given: Option<Seq<char>>, aim: Aim) -> Option<Seq<char>> {
    match given {
        Some(k) => Some(k),
        None => opt(aim.on_screen),
    }
}

/// Whether `r` refuses with `text`.
pub open spec fn refuses(r: Ran, text: Seq<char>) -> bool {
    r matches Ran::Refused(t) && t@ == text
}

/// Whether `r` is `act` aimed at `given`, or the refusal for no note.
pub open spec fn aims(r: Ran, given: Option<Seq<char>>, aim: Aim, act: spec_fn(Action, Seq<char>) -> bool) -> bool {
    match aimed_at(given, aim) {
        Some(key) => r matches Ran::Act(a) && act(a, key),
        None => refuses(r, no_note()),
    }
}

/// Whether `args` are all `--links` or `--times`.
pub open spec fn doctor_args(args: Seq<Seq<char>>) -> bool {
    forall|k: int| 0 <= k < args.len() ==> args[k] == "--links"@ || args[k] == "--times"@
}

/// What command `i` of the table, given the rest of the line `rest` cut into
/// `args`, comes to; each branch names the command at that place in the
/// table.
pub open spec fn decided(r: Ran, i: int, rest: Seq<char>, args: Seq<Seq<char>>, aim: Aim) -> bool {
    let touch = aim.touch;
    if i == 0 {
        // open
        match first(args) {
            Some(k) => r matches Ran::Act(Action::Open(key)) && key@ == k,
            None => refuses(r, wants(i)),
        }
    } else if i == 1 {
        // notes
        r matches Ran::Notes(q) && q@ == rest
    } else if i == 2 {
        // todo
        r == Ran::Open(View::Todo)
    } else if i == 3 {
        // tags
        r == Ran::Open(View::Tags)
    } else if i == 4 {
        // backlinks
        match first(args) {
            Some(k) => r matches Ran::Act(Action::Show { key, look: Look::Backlinks }) && key@ == k,
            None => match aim.file_here {
                Some(name) => r matches Ran::Open(View::Backlinks(Subject::File(f))) && f@ == name@,
                None => match aim.on_screen {
                    Some(id) => r matches Ran::Open(View::Backlinks(Subject::Note(n))) && n@ == id@,
                    None => refuses(r, no_note()),
                },
            },
        }
    } else if i == 5 {
        // log
        match first(args) {
            Some(k) => r matches Ran::Act(Action::Show { key, look: Look::Log }) && key@ == k,
            None => r matches Ran::Open(View::Log(about)) && opt(about) == opt(aim.about),
        }
    } else if i == 6 {
        // blame
        match first(args) {
            Some(k) => r matches Ran::Act(Action::Show { key, look: Look::Blame }) && key@ == k,
            None => match aim.on_screen {
                Some(id) => r matches Ran::Open(View::Blame(n)) && n@ == id@,
                None => refuses(r, no_note()),
            },
        }
    } else if i == 7 {
        // diff
        r == Ran::Open(View::Diff)
    } else if i == 8 {
        // deleted
        r == Ran::Open(View::Deleted)
    } else if i == 9 {
        // files
        r == Ran::Open(View::Files)
    } else if i == 10 {
        // notebooks
        r == Ran::Open(View::Notebooks)
    } else if i == 11 {
        // edit
        aims(r, first(args), aim, |a: Action, key: Seq<char>| a matches Action::Edit { key: k, touch: t } && k@ == key && t == touch)
    } else if i == 12 {
        // add
        r matches Ran::Act(Action::Add(title)) && opt(title) == (if rest.len() > 0 { Some(rest) } else { None })
    } else if i == 13 {
        // mv
        if rest.len() == 0 {
            refuses(r, wants(i))
        } else {
            aims(r, None, aim, |a: Action, key: Seq<char>| a matches Action::Retitle { key: k, title, touch: t }
                && k@ == key && title@ == rest && t == touch)
        }
    } else if i == 14 {
        // tag
        let named = args.len() > 0 && !(args[0].len() > 0 && (args[0][0] == '+' || args[0][0] == '-'));
        let given = if named { Some(args[0]) } else { None };
        let changes = if named { args.drop_first() } else { args };
        match aimed_at(given, aim) {
            None => refuses(r, no_note()),
            Some(key) => if changes.len() == 0 {
                refuses(r, wants(i))
            } else {
                r matches Ran::Act(Action::Tag { key: k, changes: c, touch: t })
                    && k@ == key && c@.map_values(|s: String| s@) == changes && t == touch
            },
        }
    } else if i == 15 || i == 16 {
        // pin, unpin
        aims(r, first(args), aim, |a: Action, key: Seq<char>| a matches Action::Pin { key: k, pinned, touch: t }
            && k@ == key && pinned == (i == 15) && t == touch)
    } else if i == 17 {
        // rm
        r == Ran::Delete
    } else if i == 18 {
        // restore
        if args.len() >= 2 {
            r matches Ran::Act(Action::Restore { key, rev, touch: t }) && key@ == args[0] && rev@ == args[1] && t == touch
        } else {
            refuses(r, wants(i))
        }
    } else if i == 19 {
        // use
        match first(args) {
            Some(name) => r matches Ran::Switch(n) && n@ == name,
            None => refuses(r, wants(i)),
        }
    } else if i == 20 {
        // status
        r == Ran::Act(Action::Run(Run::Status))
    } else if i == 21 {
        // doctor
        if doctor_args(args) {
            r == Ran::Act(Action::Run(Run::Doctor { links: args.contains("--links"@), times: args.contains("--times"@) }))
        } else {
            refuses(r, wants(i))
        }
    } else if i == 22 {
        // snapshot
        r matches Ran::Act(Action::Run(Run::Snapshot(name))) && opt(name) == first(args)
    } else if i == 23 {
        // readme
        r == Ran::Act(Action::Run(Run::Readme))
    } else if i == 24 {
        // sync
        r == Ran::Act(Action::Run(Run::Sync))
    } else if i == 25 {
        // push
        r == Ran::Act(Action::Run(Run::Push))
    } else if i == 26 {
        // pull
        r == Ran::Act(Action::Run(Run::Pull))
    } else if i == 27 {
        // reload
        r == Ran::Act(Action::Reload)
    } else if i == 28 {
        // keys
        r == Ran::Help
    } else {
        // quit
        if aim.queue_empty { r == Ran::Act(Action::Quit) } else { r == Ran::AskQuit }
    }
}

/// The places the branches of [`decided`] go by: the command table holds
/// these thirty commands, in this order.
pub proof fn the_commands_stand_in_this_order()
    ensures
        table().len() == 30,
        table()[0].name == "open"@,
        table()[1].name == "notes"@,
        table()[2].name == "todo"@,
        table()[3].name == "tags"@,
        table()[4].name == "backlinks"@,
        table()[5].name == "log"@,
        table()[6].name == "blame"@,
        table()[7].name == "diff"@,
        table()[8].name == "deleted"@,
        table()[9].name == "files"@,
        table()[10].name == "notebooks"@,
        table()[11].name == "edit"@,
        table()[12].name == "add"@,
        table()[13].name == "mv"@,
        table()[14].name == "tag"@,
        table()[15].name == "pin"@,
        table()[16].name == "unpin"@,
        table()[17].name == "rm"@,
        table()[18].name == "restore"@,
        table()[19].name == "use"@,
        table()[20].name == "status"@,
        table()[21].name == "doctor"@,
        table()[22].name == "snapshot"@,
        table()[23].name == "readme"@,
        table()[24].name == "sync"@,
        table()[25].name == "push"@,
        table()[26].name == "pull"@,
        table()[27].name == "reload"@,
        table()[28].name == "keys"@,
        table()[29].name == "quit"@,
{
}

fn refuse(text: String) -> (r: Ran)
    ensures
        refuses(r, text@),
{
    Ran::Refused(text)
}

fn wanting(i: usize) -> (r: Ran)
    requires
        i < table().len(),
    ensures
        refuses(r, wants(i as int)),
{
    let all = crate::tui::command::commands();
    let mut text = all[i].usage();
    push_str(&mut text, " — ");
    push_str(&mut text, all[i].what);
    proof { reveal_strlit(" — "); }
    refuse(text)
}

fn no_note_here() -> (r: Ran)
    ensures
        refuses(r, no_note()),
{
    Ran::Refused(owned("no note on screen — name one, or open one first"))
}

fn copy_opt(s: &Option<String>) -> (r: Option<String>)
    ensures
        opt(r) == opt(*s),
{
    match s {
        Some(v) => Some(owned(v.as_str())),
        None => None,
    }
}

/// The history after a line is run: the line goes on the end, unless it is
/// the newest entry already.
pub open spec fn remembered(before: Seq<String>, after: Seq<String>, line: Seq<char>) -> bool {
    if before.len() > 0 && before.last()@ == line {
        after == before
    } else {
        &&& after.len() == before.len() + 1
        &&& after.subrange(0, before.len() as int) == before
        &&& after.last()@ == line
    }
}

pub open spec fn views(args: Seq<String>) -> Seq<Seq<char>> {
    args.map_values(|s: String| s@)
}

/// Runs a `:` line. What follows the command word is kept as typed for
/// `notes`, `add` and `mv`, not rebuilt from its pieces, which would break
/// `tag:"12.34 foo bar"`; the others take it cut as the search line cuts.
pub fn run(history: &mut Vec<String>, line: &str, aim: &Aim) -> (r: Ran)
    ensures
        trimmed(line@).len() == 0 ==> r == Ran::Nothing && final(history)@ == old(history)@,
        trimmed(line@).len() > 0 ==> ({
            let l = trimmed(line@);
            &&& remembered(old(history)@, final(history)@, l)
            &&& match found(word(l)) {
                None => refuses(r, unknown(word(l))),
                Some(i) => decided(r, i, rest_of(l), tokens(rest_of(l)), *aim),
            }
        }),
{
    let t = crate::text::trim(line);
    let v = chars_of(t.as_str());
    if v.len() == 0 {
        return Ran::Nothing;
    }
    remember(history, t.as_str());
    let ghost l = v@;
    let mut w: usize = 0;
    assert(v@.subrange(0, v@.len() as int) =~= v@);
    while w < v.len() && !is_white(v[w])
        invariant
            w <= v.len(),
            v@ == l,
            word_len(l) == w + word_len(l.subrange(w as int, l.len() as int)),
        decreases v.len() - w,
    {
        assert(l.subrange(w as int, l.len() as int).drop_first() =~= l.subrange(w + 1, l.len() as int));
        w += 1;
    }
    assert(word_len(l.subrange(w as int, l.len() as int)) == 0);
    let name = string_of(&v, 0, w);
    let mut at: usize = w;
    while at < v.len() && is_white(v[at])
        invariant
            w <= at <= v.len(),
            v@ == l,
            word_len(l) == w,
            rest_of(l) == trimmed_start(l.subrange(at as int, l.len() as int)),
        decreases v.len() - at,
    {
        assert(l.subrange(at as int, l.len() as int).drop_first() =~= l.subrange(at + 1, l.len() as int));
        at += 1;
    }
    let rest = string_of(&v, at, v.len());
    assert(rest@ == rest_of(l));
    let i = match crate::tui::command::position(name.as_str()) {
        None => {
            let mut text = owned("no command `");
            push_str(&mut text, name.as_str());
            push_str(&mut text, "` — Ctrl-a lists them");
            proof { reveal_strlit("no command `"); reveal_strlit("` — Ctrl-a lists them"); }
            return refuse(text);
        },
        Some(i) => i,
    };
    let args = crate::query::split(rest.as_str());
    let ghost a = views(args@);
    assert(a == tokens(rest_of(l)));
    decide(i, rest, args, aim)
}

fn first_of(args: &Vec<String>) -> (r: Option<String>)
    ensures
        opt(r) == first(views(args@)),
{
    if args.len() > 0 { Some(owned(args[0].as_str())) } else { None }
}

fn is_word(s: &String, word: &str) -> (r: bool)
    ensures
        r == (s@ == word@),
{
    let a = chars_of(s.as_str());
    let b = chars_of(word);
    crate::text::same(&a, &b)
}

/// Command `i` with what followed it.
fn decide(i: usize, rest: String, args: Vec<String>, aim: &Aim) -> (r: Ran)
    requires
        i < table().len(),
    ensures
        decided(r, i as int, rest@, views(args@), *aim),
{
    let ghost a = views(args@);
    let touch = aim.touch;
    if i == 0 {
        match first_of(&args) {
            Some(k) => Ran::Act(Action::Open(k)),
            None => wanting(i),
        }
    } else if i == 1 {
        Ran::Notes(rest)
    } else if i == 2 {
        Ran::Open(View::Todo)
    } else if i == 3 {
        Ran::Open(View::Tags)
    } else if i == 4 {
        match first_of(&args) {
            Some(k) => Ran::Act(Action::Show { key: k, look: Look::Backlinks }),
            None => match &aim.file_here {
                Some(name) => Ran::Open(View::Backlinks(Subject::File(owned(name.as_str())))),
                None => match &aim.on_screen {
                    Some(id) => Ran::Open(View::Backlinks(Subject::Note(owned(id.as_str())))),
                    None => no_note_here(),
                },
            },
        }
    } else if i == 5 {
        match first_of(&args) {
            Some(k) => Ran::Act(Action::Show { key: k, look: Look::Log }),
            None => Ran::Open(View::Log(copy_opt(&aim.about))),
        }
    } else if i == 6 {
        match first_of(&args) {
            Some(k) => Ran::Act(Action::Show { key: k, look: Look::Blame }),
            None => match &aim.on_screen {
                Some(id) => Ran::Open(View::Blame(owned(id.as_str()))),
                None => no_note_here(),
            },
        }
    } else if i == 7 {
        Ran::Open(View::Diff)
    } else if i == 8 {
        Ran::Open(View::Deleted)
    } else if i == 9 {
        Ran::Open(View::Files)
    } else if i == 10 {
        Ran::Open(View::Notebooks)
    } else if i == 11 {
        let key = match first_of(&args) {
            Some(k) => k,
            None => match &aim.on_screen {
                Some(id) => owned(id.as_str()),
                None => return no_note_here(),
            },
        };
        Ran::Act(Action::Edit { key, touch })
    } else if i == 12 {
        if rest.as_str().is_empty() {
            Ran::Act(Action::Add(None))
        } else {
            Ran::Act(Action::Add(Some(rest)))
        }
    } else if i == 13 {
        if rest.as_str().is_empty() {
            return wanting(i);
        }
        match &aim.on_screen {
            Some(id) => Ran::Act(Action::Retitle { key: owned(id.as_str()), title: rest, touch }),
            None => no_note_here(),
        }
    } else if i == 14 {
        let named = if args.len() > 0 {
            let c = chars_of(args[0].as_str());
            !(c.len() > 0 && (c[0] == '+' || c[0] == '-'))
        } else {
            false
        };
        let key = if named {
            owned(args[0].as_str())
        } else {
            match &aim.on_screen {
                Some(id) => owned(id.as_str()),
                None => return no_note_here(),
            }
        };
        let mut changes: Vec<String> = Vec::new();
        let mut k: usize = if named { 1 } else { 0 };
        let ghost from: int = if named { 1 } else { 0 };
        while k < args.len()
            invariant
                from <= k <= args.len(),
                from == (if named { 1int } else { 0int }),
                named ==> args.len() > 0,
                a == views(args@),
                views(changes@) == a.subrange(from, k as int),
            decreases args.len() - k,
        {
            let ghost before = views(changes@);
            changes.push(owned(args[k].as_str()));
            assert(views(changes@) =~= before.push(a[k as int]));
            assert(a.subrange(from, k + 1) =~= a.subrange(from, k as int).push(a[k as int]));
            k += 1;
            assert(views(changes@) =~= a.subrange(from, k as int));
        }
        assert(a.subrange(from, a.len() as int) =~= (if named { a.drop_first() } else { a }));
        if changes.len() == 0 {
            return wanting(i);
        }
        Ran::Act(Action::Tag { key, changes, touch })
    } else if i == 15 || i == 16 {
        let key = match first_of(&args) {
            Some(k) => k,
            None => match &aim.on_screen {
                Some(id) => owned(id.as_str()),
                None => return no_note_here(),
            },
        };
        Ran::Act(Action::Pin { key, pinned: i == 15, touch })
    } else if i == 17 {
        Ran::Delete
    } else if i == 18 {
        if args.len() >= 2 {
            Ran::Act(Action::Restore { key: owned(args[0].as_str()), rev: owned(args[1].as_str()), touch })
        } else {
            wanting(i)
        }
    } else if i == 19 {
        match first_of(&args) {
            Some(name) => Ran::Switch(name),
            None => wanting(i),
        }
    } else if i == 20 {
        Ran::Act(Action::Run(Run::Status))
    } else if i == 21 {
        let mut links = false;
        let mut times = false;
        let mut k: usize = 0;
        proof {
            reveal_strlit("--links");
            reveal_strlit("--times");
            assert("--links"@[2] != "--times"@[2]);
        }
        while k < args.len()
            invariant
                k <= args.len(),
                i == 21,
                i < table().len(),
                "--links"@ != "--times"@,
                a == views(args@),
                forall|j: int| 0 <= j < k ==> a[j] == "--links"@ || a[j] == "--times"@,
                links == (exists|j: int| 0 <= j < k && a[j] == "--links"@),
                times == (exists|j: int| 0 <= j < k && a[j] == "--times"@),
            decreases args.len() - k,
        {
            if is_word(&args[k], "--links") {
                links = true;
            } else if is_word(&args[k], "--times") {
                times = true;
            } else {
                proof {
                    assert(!doctor_args(a)) by {
                        assert(a[k as int] == args@[k as int]@);
                    }
                }
                return wanting(i);
            }
            proof {
                assert(a[k as int] == args@[k as int]@);
            }
            k += 1;
        }
        proof {
            assert(links == a.contains("--links"@)) by {
                if a.contains("--links"@) {
                    let j = choose|j: int| 0 <= j < a.len() && a[j] == "--links"@;
                }
            }
            assert(times == a.contains("--times"@)) by {
                if a.contains("--times"@) {
                    let j = choose|j: int| 0 <= j < a.len() && a[j] == "--times"@;
                }
            }
        }
        Ran::Act(Action::Run(Run::Doctor { links, times }))
    } else if i == 22 {
        Ran::Act(Action::Run(Run::Snapshot(first_of(&args))))
    } else if i == 23 {
        Ran::Act(Action::Run(Run::Readme))
    } else if i == 24 {
        Ran::Act(Action::Run(Run::Sync))
    } else if i == 25 {
        Ran::Act(Action::Run(Run::Push))
    } else if i == 26 {
        Ran::Act(Action::Run(Run::Pull))
    } else if i == 27 {
        Ran::Act(Action::Reload)
    } else if i == 28 {
        Ran::Help
    } else if aim.queue_empty {
        Ran::Act(Action::Quit)
    } else {
        Ran::AskQuit
    }
}

} // verus!
