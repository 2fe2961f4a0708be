//! What `:` accepts: noda's own subcommand names, since only a handful of them
//! are worth a key.
//!
//! A table rather than a `match` so `Ctrl-a` can list it; what each command does
//! is in `app`.

use vstd::prelude::*;

use crate::text::{chars_of, contains, has, is_white, lowercase, push_str, to_lower, white};

verus! {

pub struct Spec {
    pub name: &'static str,
    /// Shortest first.
    pub aliases: Vec<&'static str>,
    /// In the CLI help's notation: `<required>`, `[optional]`, `...`.
    pub takes: &'static str,
    pub what: &'static str,
}

/// A command as the contracts speak of it.
pub struct Entry {
    pub name: Seq<char>,
    pub aliases: Seq<Seq<char>>,
    pub takes: Seq<char>,
    pub what: Seq<char>,
}

pub open spec fn entry(name: Seq<char>, aliases: Seq<Seq<char>>, takes: Seq<char>, what: Seq<char>) -> Entry {
    Entry { name, aliases, takes, what }
}

impl View for Spec {
    type V = Entry;

    open spec fn view(&self) -> Entry {
        Entry {
            name: self.name@,
            aliases: self.aliases@.map_values(|a: &'static str| a@),
            takes: self.takes@,
            what: self.what@,
        }
    }
}

/// Getting about, then changing a note, then the notebook, then leaving.
pub open spec fn table() -> Seq<Entry> {
    seq![
        entry("open"@, seq!["o"@, "show"@], "<note>"@, "open a note by id or by slug"@),
        entry("notes"@, seq!["ls"@], "[query...]"@, "back to the listing, filtered if a query is given"@),
        entry("todo"@, seq!["t"@], ""@, "every unticked box, soonest due first"@),
        entry("tags"@, seq![], ""@, "every tag; enter filters the listing by one"@),
        entry("backlinks"@, seq!["b"@], "[note]"@, "what links to a note — the one shown, or one named"@),
        entry("log"@, seq!["l"@], "[note]"@, "commits, newest first: the notebook's or a note's"@),
        entry("blame"@, seq![], "[note]"@, "which commit put each line of a note where it is"@),
        entry("diff"@, seq![], ""@, "what is uncommitted, or what the last commit did"@),
        entry("deleted"@, seq![], ""@, "notes history holds that the notebook no longer does"@),
        entry("files"@, seq![], ""@, "what the notebook holds that is not a note"@),
        entry("notebooks"@, seq!["nb"@], ""@, "every notebook; enter moves this session to one"@),
        entry("edit"@, seq!["e"@], "[note]"@, "open in $EDITOR: the one named, or the one shown"@),
        entry("add"@, seq!["new"@], "[title...]"@, "make a note; no title takes it from the body"@),
        entry("mv"@, seq!["retitle"@], "<title...>"@, "retitle the note on screen; the slug follows"@),
        entry("tag"@, seq![], "[note] +tag -tag..."@, "add and remove tags: +work -q3 -\"two words\""@),
        entry("pin"@, seq![], "[note]"@, "float a note to the top of every listing"@),
        entry("unpin"@, seq![], "[note]"@, "let a pinned note back down among the rest"@),
        entry("rm"@, seq![], ""@, "delete the note on screen, after a y"@),
        entry("restore"@, seq![], "<note> <rev>"@, "put a note back as it was at a revision"@),
        entry("use"@, seq![], "<notebook>"@, "move this session to another notebook"@),
        entry("status"@, seq![], ""@, "notes, changes, and drift from the remote"@),
        entry("doctor"@, seq![], "[--links] [--times]"@, "diagnose. Reports only; it changes nothing"@),
        entry("snapshot"@, seq![], "[name]"@, "mark the notebook, or list what is marked"@),
        entry("readme"@, seq![], ""@, "write the notebook's front page"@),
        entry("sync"@, seq![], ""@, "pull, then push. Commits pending changes"@),
        entry("push"@, seq![], ""@, "send this notebook's commits to the remote"@),
        entry("pull"@, seq![], ""@, "bring in the remote's commits"@),
        entry("reload"@, seq!["r"@], ""@, "read the notebook again"@),
        entry("keys"@, seq!["help"@], ""@, "the keys this screen answers to"@),
        entry("quit"@, seq!["q"@], ""@, "leave, asking first about an unsent queue"@),
    ]
}

/// The table, as a list of commands.
pub fn commands() -> (r: Vec<Spec>)
    ensures
        r@.len() == table().len(),
        forall|i: int| 0 <= i < r@.len() ==> (#[trigger] r@[i])@ == table()[i],
{
    let r = vec![
        Spec { name: "open", aliases: vec!["o", "show"], takes: "<note>", what: "open a note by id or by slug" },
        Spec { name: "notes", aliases: vec!["ls"], takes: "[query...]", what: "back to the listing, filtered if a query is given" },
        Spec { name: "todo", aliases: vec!["t"], takes: "", what: "every unticked box, soonest due first" },
        Spec { name: "tags", aliases: vec![], takes: "", what: "every tag; enter filters the listing by one" },
        Spec { name: "backlinks", aliases: vec!["b"], takes: "[note]", what: "what links to a note — the one shown, or one named" },
        Spec { name: "log", aliases: vec!["l"], takes: "[note]", what: "commits, newest first: the notebook's or a note's" },
        Spec { name: "blame", aliases: vec![], takes: "[note]", what: "which commit put each line of a note where it is" },
        Spec { name: "diff", aliases: vec![], takes: "", what: "what is uncommitted, or what the last commit did" },
        Spec { name: "deleted", aliases: vec![], takes: "", what: "notes history holds that the notebook no longer does" },
        Spec { name: "files", aliases: vec![], takes: "", what: "what the notebook holds that is not a note" },
        Spec { name: "notebooks", aliases: vec!["nb"], takes: "", what: "every notebook; enter moves this session to one" },
        Spec { name: "edit", aliases: vec!["e"], takes: "[note]", what: "open in $EDITOR: the one named, or the one shown" },
        Spec { name: "add", aliases: vec!["new"], takes: "[title...]", what: "make a note; no title takes it from the body" },
        Spec { name: "mv", aliases: vec!["retitle"], takes: "<title...>", what: "retitle the note on screen; the slug follows" },
        Spec { name: "tag", aliases: vec![], takes: "[note] +tag -tag...", what: "add and remove tags: +work -q3 -\"two words\"" },
        Spec { name: "pin", aliases: vec![], takes: "[note]", what: "float a note to the top of every listing" },
        Spec { name: "unpin", aliases: vec![], takes: "[note]", what: "let a pinned note back down among the rest" },
        Spec { name: "rm", aliases: vec![], takes: "", what: "delete the note on screen, after a y" },
        Spec { name: "restore", aliases: vec![], takes: "<note> <rev>", what: "put a note back as it was at a revision" },
        Spec { name: "use", aliases: vec![], takes: "<notebook>", what: "move this session to another notebook" },
        Spec { name: "status", aliases: vec![], takes: "", what: "notes, changes, and drift from the remote" },
        Spec { name: "doctor", aliases: vec![], takes: "[--links] [--times]", what: "diagnose. Reports only; it changes nothing" },
        Spec { name: "snapshot", aliases: vec![], takes: "[name]", what: "mark the notebook, or list what is marked" },
        Spec { name: "readme", aliases: vec![], takes: "", what: "write the notebook's front page" },
        Spec { name: "sync", aliases: vec![], takes: "", what: "pull, then push. Commits pending changes" },
        Spec { name: "push", aliases: vec![], takes: "", what: "send this notebook's commits to the remote" },
        Spec { name: "pull", aliases: vec![], takes: "", what: "bring in the remote's commits" },
        Spec { name: "reload", aliases: vec!["r"], takes: "", what: "read the notebook again" },
        Spec { name: "keys", aliases: vec!["help"], takes: "", what: "the keys this screen answers to" },
        Spec { name: "quit", aliases: vec!["q"], takes: "", what: "leave, asking first about an unsent queue" },
    ];
    assert forall|i: int| 0 <= i < r@.len() implies (#[trigger] r@[i])@ == table()[i] by {
        assert(r@[i]@.aliases =~= table()[i].aliases);
    }
    r
}

/// The command line as `usage` writes it: the name, then what it takes.
pub open spec fn usage_of(e: Entry) -> Seq<char> {
    if e.takes.len() == 0 {
        e.name
    } else {
        e.name + " "@ + e.takes
    }
}

impl Spec {
    pub fn usage(&self) -> (r: String)
        ensures
            r@ == usage_of(self@),
    {
        if self.takes.is_empty() {
            crate::text::owned(self.name)
        } else {
            let mut out = crate::text::owned(self.name);
            push_str(&mut out, " ");
            push_str(&mut out, self.takes);
            out
        }
    }

    fn copy(&self) -> (r: Spec)
        ensures
            r@ == self@,
    {
        let mut aliases: Vec<&'static str> = Vec::new();
        let mut i: usize = 0;
        while i < self.aliases.len()
            invariant
                i <= self.aliases.len(),
                aliases@ == self.aliases@.subrange(0, i as int),
            decreases self.aliases.len() - i,
        {
            aliases.push(self.aliases[i]);
            i += 1;
            assert(aliases@ =~= self.aliases@.subrange(0, i as int));
        }
        assert(aliases@ =~= self.aliases@);
        Spec { name: self.name, aliases, takes: self.takes, what: self.what }
    }
}

/// Whether `name` is a command's name or one of its spellings.
pub open spec fn spells(e: Entry, name: Seq<char>) -> bool {
    e.name == name || e.aliases.contains(name)
}

/// The first command from `from` on that `name` spells, by index.
pub open spec fn found(name: Seq<char>) -> Option<int> {
    if exists|i: int| 0 <= i < table().len() && spells(table()[i], name) {
        Some(choose|i: int| 0 <= i < table().len() && spells(table()[i], name)
            && forall|j: int| 0 <= j < i ==> !spells(table()[j], name))
    } else {
        None
    }
}

fn same_str(a: &str, b: &str) -> (r: bool)
    ensures
        r == (a@ == b@),
{
    let x = chars_of(a);
    let y = chars_of(b);
    crate::text::same(&x, &y)
}

fn spelled_by(spec: &Spec, name: &str) -> (r: bool)
    ensures
        r == spells(spec@, name@),
{
    if same_str(spec.name, name) {
        return true;
    }
    let mut i: usize = 0;
    while i < spec.aliases.len()
        invariant
            i <= spec.aliases.len(),
            forall|j: int| 0 <= j < i ==> spec.aliases@[j]@ != name@,
        decreases spec.aliases.len() - i,
    {
        if same_str(spec.aliases[i], name) {
            assert(spec@.aliases[i as int] == name@);
            return true;
        }
        i += 1;
    }
    assert(!spec@.aliases.contains(name@)) by {
        if spec@.aliases.contains(name@) {
            let k = choose|k: int| 0 <= k < spec@.aliases.len() && spec@.aliases[k] == name@;
            assert(spec.aliases@[k]@ == name@);
        }
    }
    false
}

/// Exact only: a prefix like `pu` is ambiguous, and guessing wrong is a
/// network call nobody asked for.
pub fn find(name: &str) -> (r: Option<Spec>)
    ensures
        match found(name@) {
            Some(i) => r matches Some(s) && s@ == table()[i],
            None => r is None,
        },
{
    let all = commands();
    let mut i: usize = 0;
    while i < all.len()
        invariant
            i <= all.len(),
            all@.len() == table().len(),
            forall|k: int| 0 <= k < all@.len() ==> (#[trigger] all@[k])@ == table()[k],
            forall|j: int| 0 <= j < i ==> !spells(table()[j], name@),
        decreases all.len() - i,
    {
        if spelled_by(&all[i], name) {
            proof {
                let w = choose|w: int| 0 <= w < table().len() && spells(table()[w], name@)
                    && forall|j: int| 0 <= j < w ==> !spells(table()[j], name@);
                assert(spells(table()[i as int], name@));
                if w < i {
                } else if w > i {
                }
            }
            return Some(all[i].copy());
        }
        i += 1;
    }
    None
}


/// Where in the table the command `name` spells stands, if any.
pub fn position(name: &str) -> (r: Option<usize>)
    ensures
        match found(name@) {
            Some(i) => r == Some(i as usize) && 0 <= i < table().len(),
            None => r is None,
        },
{
    let all = commands();
    let mut i: usize = 0;
    while i < all.len()
        invariant
            i <= all.len(),
            all@.len() == table().len(),
            forall|k: int| 0 <= k < all@.len() ==> (#[trigger] all@[k])@ == table()[k],
            forall|j: int| 0 <= j < i ==> !spells(table()[j], name@),
        decreases all.len() - i,
    {
        if spelled_by(&all[i], name) {
            proof {
                let w = choose|w: int| 0 <= w < table().len() && spells(table()[w], name@)
                    && forall|j: int| 0 <= j < w ==> !spells(table()[j], name@);
                assert(spells(table()[i as int], name@));
                if w < i {
                } else if w > i {
                }
            }
            return Some(i);
        }
        i += 1;
    }
    None
}

/// Unicode whitespace off both ends, as `str::trim`.
pub open spec fn trimmed(s: Seq<char>) -> Seq<char> {
    trim_back(trim_front(s))
}

pub open spec fn trim_front(s: Seq<char>) -> Seq<char>
    decreases s.len(),
{
    if s.len() > 0 && white(s[0]) {
        trim_front(s.drop_first())
    } else {
        s
    }
}

pub open spec fn trim_back(s: Seq<char>) -> Seq<char>
    decreases s.len(),
{
    if s.len() > 0 && white(s.last()) {
        trim_back(s.drop_last())
    } else {
        s
    }
}

/// `str::trim`.
pub fn trim(s: &Vec<char>) -> (r: Vec<char>)
    ensures
        r@ == trimmed(s@),
{
    let mut from: usize = 0;
    assert(s@.subrange(0, s.len() as int) =~= s@);
    while from < s.len() && is_white(s[from])
        invariant
            from <= s.len(),
            trim_front(s@.subrange(from as int, s.len() as int)) == trim_front(s@),
        decreases s.len() - from,
    {
        assert(s@.subrange(from as int, s.len() as int).drop_first() =~= s@.subrange(from + 1, s.len() as int));
        from += 1;
    }
    let mut to: usize = s.len();
    assert(trim_front(s@) == s@.subrange(from as int, s.len() as int));
    while to > from && is_white(s[to - 1])
        invariant
            from <= to <= s.len(),
            trim_back(s@.subrange(from as int, to as int)) == trim_back(trim_front(s@)),
        decreases to,
    {
        assert(s@.subrange(from as int, to as int).drop_last() =~= s@.subrange(from as int, to - 1));
        to -= 1;
    }
    let mut out: Vec<char> = Vec::new();
    let mut i = from;
    while i < to
        invariant
            from <= i <= to <= s.len(),
            out@ == s@.subrange(from as int, i as int),
        decreases to - i,
    {
        out.push(s[i]);
        i += 1;
        assert(out@ =~= s@.subrange(from as int, i as int));
    }
    out
}

/// Whether a command answers to a filter: by its name, a spelling, or what
/// it does, so `remote` finds `push` and `pull`.
pub open spec fn answers(e: Entry, filter: Seq<char>) -> bool {
    ||| filter.len() == 0
    ||| contains(e.name, filter)
    ||| exists|i: int| 0 <= i < e.aliases.len() && contains(#[trigger] e.aliases[i], filter)
    ||| contains(lowercase(e.what), filter)
}

/// The commands from the table that answer to `filter`, in order.
pub open spec fn answering(t: Seq<Entry>, filter: Seq<char>) -> Seq<Entry>
    decreases t.len(),
{
    if t.len() == 0 {
        Seq::empty()
    } else {
        let rest = answering(t.drop_last(), filter);
        if answers(t.last(), filter) {
            rest.push(t.last())
        } else {
            rest
        }
    }
}

/// The filter as a command matches it: trimmed, then lowered.
pub open spec fn filtered(filter: Seq<char>) -> Seq<char> {
    lowercase(trimmed(filter))
}

fn answers_to(spec: &Spec, filter: &Vec<char>) -> (r: bool)
    ensures
        r == answers(spec@, filter@),
{
    if filter.len() == 0 {
        return true;
    }
    let name = chars_of(spec.name);
    if has(&name, filter) {
        return true;
    }
    let mut i: usize = 0;
    while i < spec.aliases.len()
        invariant
            i <= spec.aliases.len(),
            forall|j: int| 0 <= j < i ==> !contains(#[trigger] spec@.aliases[j], filter@),
        decreases spec.aliases.len() - i,
    {
        let alias = chars_of(spec.aliases[i]);
        assert(spec@.aliases[i as int] == alias@);
        if has(&alias, filter) {
            return true;
        }
        i += 1;
    }
    let what = to_lower(spec.what);
    let what = chars_of(what.as_str());
    has(&what, filter)
}

/// Searches descriptions too, so `remote` finds `push` and `pull`.
pub fn matching(filter: &str) -> (r: Vec<Spec>)
    ensures
        r@.map_values(|s: Spec| s@) == answering(table(), filtered(filter@)),
{
    let raw = chars_of(filter);
    let cut = trim(&raw);
    let cut = crate::text::string_all(&cut);
    let lowered = to_lower(cut.as_str());
    let f = chars_of(lowered.as_str());
    let all = commands();
    let mut out: Vec<Spec> = Vec::new();
    let mut i: usize = 0;
    while i < all.len()
        invariant
            i <= all.len(),
            f@ == filtered(filter@),
            all@.len() == table().len(),
            forall|k: int| 0 <= k < all@.len() ==> (#[trigger] all@[k])@ == table()[k],
            out@.map_values(|s: Spec| s@) == answering(table().subrange(0, i as int), f@),
        decreases all.len() - i,
    {
        let ghost before = out@.map_values(|s: Spec| s@);
        assert(table().subrange(0, i + 1).drop_last() =~= table().subrange(0, i as int));
        if answers_to(&all[i], &f) {
            out.push(all[i].copy());
            assert(out@.map_values(|s: Spec| s@) =~= before.push(table()[i as int]));
        }
        i += 1;
    }
    assert(table().subrange(0, table().len() as int) =~= table());
    out
}


proof fn lemma_answering(t: Seq<Entry>, filter: Seq<char>)
    ensures
        forall|e: Entry| #[trigger] answering(t, filter).contains(e) <==> (t.contains(e) && answers(e, filter)),
        answering(t, filter).len() <= t.len(),
        filter.len() == 0 ==> answering(t, filter) == t,
    decreases t.len(),
{
    if t.len() > 0 {
        let front = t.drop_last();
        lemma_answering(front, filter);
        let rest = answering(front, filter);
        assert forall|e: Entry| #[trigger] answering(t, filter).contains(e) <==> (t.contains(e) && answers(e, filter)) by {
            if t.contains(e) && answers(e, filter) {
                let k = choose|k: int| 0 <= k < t.len() && t[k] == e;
                if k < t.len() - 1 {
                    assert(front[k] == e);
                    assert(front.contains(e));
                    assert(rest.contains(e));
                    let j = choose|j: int| 0 <= j < rest.len() && rest[j] == e;
                    if answers(t.last(), filter) {
                        assert(rest.push(t.last())[j] == e);
                    }
                } else {
                    assert(answering(t, filter) == rest.push(t.last()));
                    assert(rest.push(t.last())[rest.len() as int] == e);
                }
            }
            if answering(t, filter).contains(e) {
                let j = choose|j: int| 0 <= j < answering(t, filter).len() && answering(t, filter)[j] == e;
                if j < rest.len() {
                    if answers(t.last(), filter) {
                        assert(rest.push(t.last())[j] == rest[j]);
                    }
                    assert(rest.contains(e));
                    let k = choose|k: int| 0 <= k < front.len() && front[k] == e;
                    assert(t[k] == e);
                } else {
                    assert(t[t.len() - 1] == e);
                }
            }
        }
        if filter.len() == 0 {
            assert(front.push(t.last()) =~= t);
        }
    } else {
        assert(answering(t, filter) =~= t);
    }
}

/// What the palette lists for a filter, trimmed and lowered: in the table's
/// order, exactly the commands whose name, a spelling, or what it does holds
/// the filter; every command for an empty one.
pub proof fn the_palette_lists_what_answers(filter: Seq<char>)
    ensures
        forall|e: Entry| #[trigger] answering(table(), filtered(filter)).contains(e)
            <==> (table().contains(e) && answers(e, filtered(filter))),
        filtered(filter).len() == 0 ==> answering(table(), filtered(filter)) == table(),
{
    lemma_answering(table(), filtered(filter));
}

/// A command answers to a filter that any of its spellings holds, as it does
/// to one its name holds or its description holds (case aside): `help`
/// finds `keys`, and `remote` finds `push` and `pull`.
pub proof fn a_spelling_finds_its_command(filter: Seq<char>, i: int)
    requires
        0 <= i < table().len(),
    ensures
        ({
            let f = filtered(filter);
            let e = table()[i];
            &&& (exists|a: int, p: int| 0 <= a < e.aliases.len() && #[trigger] crate::text::occurs_at(e.aliases[a], f, p))
                ==> answering(table(), f).contains(e)
            &&& (exists|p: int| crate::text::occurs_at(e.name, f, p)) ==> answering(table(), f).contains(e)
            &&& (exists|p: int| crate::text::occurs_at(lowercase(e.what), f, p)) ==> answering(table(), f).contains(e)
        }),
{
    let f = filtered(filter);
    let e = table()[i];
    lemma_answering(table(), f);
    assert(table().contains(e));
    if exists|a: int, p: int| 0 <= a < e.aliases.len() && #[trigger] crate::text::occurs_at(e.aliases[a], f, p) {
        let (a, p) = choose|a: int, p: int| 0 <= a < e.aliases.len() && #[trigger] crate::text::occurs_at(e.aliases[a], f, p);
        assert(contains(e.aliases[a], f));
        assert(answers(e, f));
    }
    if exists|p: int| crate::text::occurs_at(e.name, f, p) {
        assert(contains(e.name, f));
    }
    if exists|p: int| crate::text::occurs_at(lowercase(e.what), f, p) {
        assert(contains(lowercase(e.what), f));
    }
}
} // verus!
