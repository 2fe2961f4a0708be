//! What a browsing session holds, and how one keystroke changes it: the
//! actions handed to the runtime, the screens, the tag picker's states, and
//! the test for a tag typed one slip away from another.
//!
//! Nothing here opens a file, a repository or a terminal: anything needing the
//! outside world comes back as an [`Action`].

use vstd::prelude::*;

use crate::text::{chars_of, lowercase, push_char, push_str, to_lower};
use vstd::view::View as _;

verus! {

/// Whether a change stamps the note's `updated`, or leaves it (`--no-touch`).
#[derive(Debug, Clone, Copy, PartialEq, Eq, Structural)]
pub enum Touch {
    Stamp,
    Keep,
}

/// A queued change, as the bulk command takes it.
#[derive(Debug, Clone, PartialEq, Eq)]
pub enum Change {
    Remove,
    Tag { changes: Vec<String>, touch: Touch },
}

/// The notes a queued change is for, and the change.
#[derive(Debug, Clone, PartialEq, Eq)]
pub struct Step {
    pub keys: Vec<String>,
    pub change: Change,
}

/// Something the runtime has to do that the state cannot do for itself.
///
/// Changes name a command and its arguments, never an edit, since what a change
/// means lives in the commands. A note is named by id rather than by row: the
/// command reopens the notebook, and by then the listing may be stale.
#[derive(Debug, Clone, PartialEq, Eq)]
pub enum Action {
    Quit,
    /// Re-read the notebook: the answer to another process writing, rather
    /// than a file watcher.
    Reload,
    /// The one action needing the terminal handed back, to `$EDITOR`.
    Edit { key: String, touch: Touch },
    /// `None` leaves the title to the body, as `add` does.
    Add(Option<String>),
    /// `noda mv`: a new title, and the slug follows it.
    Retitle { key: String, title: String, touch: Touch },
    /// `noda tag`, with the `+tag` / `-tag` changes as typed.
    Tag { key: String, changes: Vec<String>, touch: Touch },
    /// `noda pin` / `noda unpin`, one variant because the key is a toggle.
    Pin { key: String, pinned: bool, touch: Touch },
    /// `noda rm`, once confirmed.
    Remove(String),
    /// Every change in the queue, in one commit.
    Send(Vec<Step>),
    /// `noda restore`: a new commit, so nothing is rewritten and nothing asked.
    Restore { key: String, rev: String, touch: Touch },
    /// Open a note the prompt named, on a screen of its own.
    Open(String),
    /// A screen about a note named by key.
    Show { key: String, look: Look },
    /// The runtime builds a new session for the other notebook.
    Use(String),
    /// A command that reads or changes the notebook and answers with a line.
    Run(Run),
}

/// How many tags get a digit key: `1`-`9`, `0` being the way out.
pub const SCOPE_KEYS: usize = 9;

/// A screen about one note, named before the note is known.
#[derive(Debug, Clone, Copy, PartialEq, Eq, Structural)]
pub enum Look {
    Log,
    Blame,
    Backlinks,
}

/// One variant per command rather than a closure, so what the browser can ask
/// for is a readable list and only the runtime knows how a call is made.
#[derive(Debug, Clone, PartialEq, Eq)]
pub enum Run {
    Status,
    /// Reporting only: a keystroke should not rewrite a directory.
    Doctor { links: bool, times: bool },
    Readme,
    /// A name marks the notebook; no name lists what has been marked.
    Snapshot(Option<String>),
    Sync,
    Push,
    Pull,
}

/// A label for a slow command, drawn before it runs.
pub open spec fn working_label(action: Action) -> Option<Seq<char>> {
    match action {
        Action::Run(Run::Sync) => Some("syncing…"@),
        Action::Run(Run::Push) => Some("pushing…"@),
        Action::Run(Run::Pull) => Some("pulling…"@),
        _ => None,
    }
}

impl Action {
    /// A label for a slow command, drawn before it runs; otherwise the last
    /// frame stays up with no sign of anything happening.
    pub fn working(&self) -> (r: Option<&'static str>)
        ensures
            crate::web::page::opt_str(r) == working_label(*self),
    {
        match self {
            Action::Run(Run::Sync) => Some("syncing…"),
            Action::Run(Run::Push) => Some("pushing…"),
            Action::Run(Run::Pull) => Some("pulling…"),
            _ => None,
        }
    }
}

/// A command's answer in its own words.
pub struct Message {
    pub text: String,
    /// A card for failures, the status line for successes: a reason has to be
    /// read, an acknowledgement only glanced at.
    pub failed: bool,
}

/// The first line of a text: up to the first `\n`, without a `\r` before it.
pub open spec fn first_line(text: Seq<char>) -> Seq<char> {
    let cut = match crate::text::first_from(text, seq!['\n'], 0) {
        Some(at) => text.subrange(0, at),
        None => text,
    };
    if cut.len() > 0 && cut.last() == '\r' { cut.drop_last() } else { cut }
}

impl Message {
    /// The first line, for the status bar.
    pub fn line(&self) -> (r: String)
        ensures
            r@ == first_line(self.text@),
    {
        let text = chars_of(self.text.as_str());
        let newline = vec!['\n'];
        assert(newline@ =~= seq!['\n']);
        let end = match crate::text::find_from(&text, &newline, 0) {
            Some(at) => {
                proof { crate::text::lemma_first_is(text@, newline@, 0, at as int); }
                at
            },
            None => {
                proof { crate::text::lemma_first_none(text@, newline@, 0); }
                text.len()
            },
        };
        let end = if end > 0 && text[end - 1] == '\r' { end - 1 } else { end };
        crate::text::string_of(&text, 0, end)
    }
}

/// What a backlinks screen is of: a note or a file, one walk either way.
#[derive(Debug, Clone, PartialEq, Eq)]
pub enum Subject {
    Note(String),
    File(String),
}

pub open spec fn subject_name(s: Subject) -> Seq<char> {
    match s {
        Subject::Note(name) => name@,
        Subject::File(name) => name@,
    }
}

impl Subject {
    pub fn name(&self) -> (r: &str)
        ensures
            r@ == subject_name(*self),
    {
        match self {
            Subject::Note(name) => name.as_str(),
            Subject::File(name) => name.as_str(),
        }
    }
}

/// A screen, named in the crumb trail by a note's id or by the subcommand that
/// prints the same thing.
#[derive(Debug, Clone, PartialEq, Eq)]
pub enum View {
    Notes,
    /// By id rather than row, so it survives the listing being filtered,
    /// re-sorted or reloaded.
    Note(String),
    /// Every unticked box in the notebook, soonest due first.
    Todo,
    /// Every tag, and how many notes carry it.
    Tags,
    /// What the notebook holds that is not a note.
    Files,
    /// Every notebook there is, and which one this is.
    Notebooks,
    /// The notes history holds that the notebook no longer does.
    Deleted,
    /// What is uncommitted, or what the last commit did.
    Diff,
    /// Commits, newest first: one note's, or the whole notebook's.
    Log(Option<String>),
    /// What links to a note or to a file.
    Backlinks(Subject),
    /// Which commit put each line of a note where it is.
    Blame(String),
}

pub open spec fn crumb_of(view: View) -> Seq<char> {
    match view {
        View::Notes => "notes"@,
        View::Note(id) => id@,
        View::Todo => "todo"@,
        View::Tags => "tags"@,
        View::Files => "files"@,
        View::Notebooks => "notebooks"@,
        View::Deleted => "deleted"@,
        View::Diff => "diff"@,
        View::Log(_) => "log"@,
        View::Backlinks(_) => "backlinks"@,
        View::Blame(_) => "blame"@,
    }
}

impl View {
    /// What the crumb trail calls it. Which note a screen is about is on the
    /// title band instead, or a deep stack's trail outgrows the screen.
    pub fn crumb(&self) -> (r: &str)
        ensures
            r@ == crumb_of(*self),
    {
        match self {
            View::Notes => "notes",
            View::Note(id) => id.as_str(),
            View::Todo => "todo",
            View::Tags => "tags",
            View::Files => "files",
            View::Notebooks => "notebooks",
            View::Deleted => "deleted",
            View::Diff => "diff",
            View::Log(_) => "log",
            View::Backlinks(_) => "backlinks",
            View::Blame(_) => "blame",
        }
    }
}

/// An unticked box: its words, and the day it is due if it has one.
pub struct Item {
    pub text: String,
    pub due: Option<String>,
}

/// One unticked box, and the note carrying it.
pub struct Task {
    /// An index, the list being rebuilt whenever the notes are.
    pub note: usize,
    pub item: Item,
}

/// One tag, and how many notes carry it.
pub struct Tally {
    pub tag: String,
    pub notes: usize,
}

/// Three states rather than a tick: on a mixed set, leaving a tag alone differs
/// from giving it to all or taking it from all.
#[derive(Debug, Clone, Copy, PartialEq, Eq, Structural)]
pub enum Mark {
    /// Each note keeps what it has.
    Leave,
    Add,
    Remove,
}

/// A tag, how it stands with the notes aimed at, and what is to be done.
#[derive(Debug, Clone, PartialEq, Eq)]
pub struct Choice {
    pub tag: String,
    /// How many of those notes already carry it.
    pub held: usize,
    /// How many notes in the notebook carry it, as on the tags screen.
    pub notes: usize,
    pub mark: Mark,
}

/// The states that would change something, `Leave` first: a tag every note
/// carries can only be removed and one none carries only added.
pub open spec fn states_of(held: nat, total: nat) -> Seq<Mark> {
    seq![Mark::Leave] + (if held < total { seq![Mark::Add] } else { Seq::empty() })
        + (if held > 0 { seq![Mark::Remove] } else { Seq::empty() })
}

/// The state after `mark` among `states`, round to the first; the first when
/// `mark` is not among them.
pub open spec fn after(states: Seq<Mark>, mark: Mark) -> Mark
    recommends
        states.len() > 0,
{
    if exists|i: int| 0 <= i < states.len() && states[i] == mark {
        let at = choose|i: int| 0 <= i < states.len() && states[i] == mark;
        states[(at + 1) % (states.len() as int)]
    } else {
        states[0]
    }
}

/// `[x]` says what is true, `[+]`/`[-]` what is being done.
pub open spec fn tick_of(mark: Mark, held: nat, total: nat) -> Seq<char> {
    match mark {
        Mark::Add => "[+]"@,
        Mark::Remove => "[-]"@,
        Mark::Leave => if total > 0 && held == total { "[x]"@ } else { "[ ]"@ },
    }
}

impl Choice {
    /// The states that would change something, for the notes aimed at.
    pub fn states(&self, total: usize) -> (r: Vec<Mark>)
        ensures
            r@ == states_of(self.held as nat, total as nat),
    {
        let mut out = vec![Mark::Leave];
        if self.held < total {
            out.push(Mark::Add);
        }
        if self.held > 0 {
            out.push(Mark::Remove);
        }
        assert(out@ =~= states_of(self.held as nat, total as nat));
        out
    }

    /// The next of them, for `Tab`.
    pub fn next(&self, total: usize) -> (r: Mark)
        ensures
            r == after(states_of(self.held as nat, total as nat), self.mark),
    {
        let states = self.states(total);
        let mut at: usize = 0;
        while at < states.len()
            invariant
                at <= states.len(),
                states@ == states_of(self.held as nat, total as nat),
                forall|j: int| 0 <= j < at ==> states@[j] != self.mark,
            decreases states.len() - at,
        {
            if states[at] == self.mark {
                let ghost s = states@;
                proof {
                    assert(s[at as int] == self.mark);
                    // The states are distinct, so the first match is the only one.
                    assert forall|i: int| 0 <= i < s.len() && s[i] == self.mark implies i == at by {
                        assert(forall|x: int, y: int| 0 <= x < y < s.len() ==> s[x] != s[y]);
                    }
                }
                return states[(at + 1) % states.len()];
            }
            at += 1;
        }
        states[0]
    }

    /// What the box shows.
    pub fn tick(&self, total: usize) -> (r: &'static str)
        ensures
            r@ == tick_of(self.mark, self.held as nat, total as nat),
    {
        match self.mark {
            Mark::Add => "[+]",
            Mark::Remove => "[-]",
            Mark::Leave => if total > 0 && self.held == total { "[x]" } else { "[ ]" },
        }
    }
}

/// The row for typed text that is not an existing tag. A new tag can be a
/// typo, so it takes its own keystroke and shows its near neighbour.
#[derive(Debug, Clone, PartialEq, Eq)]
pub enum Proposal {
    /// A tag that could be made, and an existing one a typo away.
    New { tag: String, near: Option<(String, usize)> },
    /// One that could not, in the tag rules' own words.
    Refused(String),
}

/// Something a screen needs that only the runtime can fetch.
#[derive(Debug, Clone, PartialEq, Eq)]
pub enum Need {
    Note { id: String, path: String },
    Log(Option<String>),
    Blame { id: String, slug: String },
    Deleted,
    Diff,
}

/// What the keyboard currently means.
#[derive(Debug, Clone, Copy, PartialEq, Eq, Structural)]
pub enum Mode {
    Browse,
    /// The list narrows on every keystroke; `Enter` only returns to the list.
    Search,
    Help,
    /// Typing the one thing a change needs said in words.
    Ask(Ask),
    /// Typed on the query's line; only one can be open at a time.
    Command,
    /// The command palette.
    Commands,
    /// Asked on screen: in raw mode, a command reading stdin would steal keys.
    Confirm(What),
    /// Reading the queue and dropping from it.
    Queue,
    /// The tag picker: a card rather than a screen, not being a place.
    Tagging,
    /// A refusal, or an answer longer than a line. Dismissed by anything.
    Alert,
}

/// What a `y` would agree to.
#[derive(Debug, Clone, Copy, PartialEq, Eq, Structural)]
pub enum What {
    /// Delete the note under the cursor, now.
    Delete,
    /// Asked at the send, not the queueing: a queued delete can still be dropped.
    Send,
    /// Quit with a non-empty queue, which is written down nowhere else.
    Quit,
}

/// The one thing a change needs said in words before it can be asked for.
#[derive(Debug, Clone, Copy, PartialEq, Eq, Structural)]
pub enum Ask {
    /// A title for a new note. `$EDITOR` opens on the body once it is given.
    Title,
    /// A new title for the note under the cursor.
    Retitle,
}

pub open spec fn prompt_of(ask: Ask) -> Seq<char> {
    match ask {
        Ask::Title => "new note"@,
        Ask::Retitle => "retitle"@,
    }
}

pub open spec fn hint_of(ask: Ask) -> Seq<char> {
    match ask {
        Ask::Title => "Enter alone takes the title from the body"@,
        Ask::Retitle => ""@,
    }
}

impl Ask {
    /// What the status line calls the field.
    pub fn prompt(self) -> (r: &'static str)
        ensures
            r@ == prompt_of(self),
    {
        match self {
            Ask::Title => "new note",
            Ask::Retitle => "retitle",
        }
    }

    /// What the prompt does not say, shown at the end of the line.
    pub fn hint(self) -> (r: &'static str)
        ensures
            r@ == hint_of(self),
    {
        match self {
            Ask::Title => "Enter alone takes the title from the body",
            Ask::Retitle => "",
        }
    }
}


/// `a` with the characters at `i` and `i + 1` swapped.
pub open spec fn swapped(a: Seq<char>, i: int) -> Seq<char> {
    a.update(i, a[i + 1]).update(i + 1, a[i])
}

/// One slip of a finger apart: the same, one character added, dropped or
/// mistyped, or two neighbours swapped. Not plain edit distance, which counts
/// a transposition, the commonest typo, as two.
pub open spec fn slip(a: Seq<char>, b: Seq<char>) -> bool {
    ||| a == b
    ||| exists|i: int| 0 <= i < a.len() && #[trigger] a.remove(i) == b
    ||| exists|i: int| 0 <= i < b.len() && #[trigger] b.remove(i) == a
    ||| a.len() == b.len() && exists|i: int| 0 <= i < a.len() && #[trigger] a.update(i, b[i]) == b
    ||| a.len() == b.len() && exists|i: int| 0 <= i && i + 1 < a.len() && #[trigger] swapped(a, i) == b
}

/// What the prefix-and-suffix comparison decides, from where the common
/// prefix ends (`head`) and how long the common suffix of the rest is.
pub open spec fn decided(a: Seq<char>, b: Seq<char>, head: int, tail: int) -> bool {
    let dl = a.len() - head - tail;
    let dr = b.len() - head - tail;
    if dl <= 1 && dr <= 1 {
        true
    } else if dl == 2 && dr == 2 {
        a[head] == b[head + 1] && a[head + 1] == b[head]
    } else {
        false
    }
}

/// Whether `a` and `b` agree `t` characters back from their ends.
pub open spec fn back_agrees(a: Seq<char>, b: Seq<char>, t: int) -> bool {
    a[a.len() - 1 - t] == b[b.len() - 1 - t]
}

/// `head` is where `a` and `b` first differ (or the shorter ends), and `tail`
/// how far back from the ends they agree, not reaching into the prefix.
pub open spec fn split_at(a: Seq<char>, b: Seq<char>, head: int, tail: int) -> bool {
    &&& 0 <= head <= a.len() && head <= b.len()
    &&& forall|k: int| 0 <= k < head ==> a[k] == b[k]
    &&& (head == a.len() || head == b.len() || a[head] != b[head])
    &&& 0 <= tail && head + tail <= a.len() && head + tail <= b.len()
    &&& forall|t: int| 0 <= t < tail ==> #[trigger] back_agrees(a, b, t)
    &&& (head + tail == a.len() || head + tail == b.len()
        || a[a.len() - 1 - tail] != b[b.len() - 1 - tail])
}

proof fn lemma_decided_is_slip(a: Seq<char>, b: Seq<char>, head: int, tail: int)
    requires
        split_at(a, b, head, tail),
        a.len() <= b.len() + 1,
        b.len() <= a.len() + 1,
    ensures
        decided(a, b, head, tail) == slip(a, b),
{
    let n = a.len() as int;
    let m = b.len() as int;
    let dl = n - head - tail;
    let dr = m - head - tail;
    if decided(a, b, head, tail) {
        assert forall|k: int| n - tail <= k < n implies a[k] == b[k + m - n] by {
            assert(back_agrees(a, b, n - 1 - k));
        }
        if dl == 0 && dr == 0 {
            assert(a =~= b);
        } else if dl == 1 && dr == 0 {
            assert(a.remove(head) =~= b);
        } else if dl == 0 && dr == 1 {
            assert(b.remove(head) =~= a);
        } else if dl == 1 && dr == 1 {
            assert(a.update(head, b[head]) =~= b);
        } else {
            assert(swapped(a, head) =~= b);
        }
    } else {
        if slip(a, b) {
            if a == b {
                assert(false);
            } else if exists|i: int| 0 <= i < n && #[trigger] a.remove(i) == b {
                let i = choose|i: int| 0 <= i < n && #[trigger] a.remove(i) == b;
                assert(head >= i) by {
                    if head < i {
                        assert(a[head] == a.remove(i)[head]);
                    }
                }
                assert forall|t: int| 0 <= t < m - head implies #[trigger] back_agrees(a, b, t) by {
                    assert(a.remove(i)[m - 1 - t] == a[n - 1 - t]);
                }
                if tail < m - head {
                    assert(a.remove(i)[m - 1 - tail] == a[n - 1 - tail]);
                }
                assert(false);
            } else if exists|i: int| 0 <= i < m && #[trigger] b.remove(i) == a {
                let i = choose|i: int| 0 <= i < m && #[trigger] b.remove(i) == a;
                assert(head >= i) by {
                    if head < i {
                        assert(b[head] == b.remove(i)[head]);
                    }
                }
                assert forall|t: int| 0 <= t < n - head implies #[trigger] back_agrees(a, b, t) by {
                    assert(b.remove(i)[n - 1 - t] == b[m - 1 - t]);
                }
                if tail < n - head {
                    assert(b.remove(i)[n - 1 - tail] == b[m - 1 - tail]);
                }
                assert(false);
            } else if n == m && exists|i: int| 0 <= i < n && #[trigger] a.update(i, b[i]) == b {
                let i = choose|i: int| 0 <= i < n && #[trigger] a.update(i, b[i]) == b;
                assert forall|k: int| 0 <= k < n && k != i implies a[k] == b[k] by {
                    assert(a.update(i, b[i])[k] == b[k]);
                }
                if head < n {
                    assert(head == i);
                    assert(forall|t: int| 0 <= t < n - 1 - i ==> #[trigger] back_agrees(a, b, t));
                }
                assert(false);
            } else {
                let i = choose|i: int| 0 <= i && i + 1 < n && #[trigger] swapped(a, i) == b;
                assert(swapped(a, i) == b);
                assert forall|k: int| 0 <= k < n && k != i && k != i + 1 implies a[k] == b[k] by {
                    assert(swapped(a, i)[k] == b[k]);
                }
                assert(swapped(a, i)[i] == b[i]);
                assert(swapped(a, i)[i + 1] == b[i + 1]);
                if a[i] == a[i + 1] {
                    assert(a =~= b);
                    assert(false);
                } else {
                    assert(head == i);
                    assert(forall|t: int| 0 <= t < n - 2 - i ==> #[trigger] back_agrees(a, b, t));
                    assert(a[n - 1 - (n - 2 - i)] != b[m - 1 - (n - 2 - i)]);
                    assert(tail == n - 2 - i);
                    assert(false);
                }
            }
        }
    }
}

/// Whether two tags are one keystroke apart, case aside: equal ignoring case,
/// or one character added, dropped, mistyped or swapped with its neighbour.
pub fn one_edit_apart(left: &str, right: &str) -> (r: bool)
    ensures
        r == slip(lowercase(left@), lowercase(right@)),
{
    let l = to_lower(left);
    let a = chars_of(l.as_str());
    let r = to_lower(right);
    let b = chars_of(r.as_str());
    let n = a.len();
    let m = b.len();
    if (n > m && n - m > 1) || (m > n && m - n > 1) {
        proof {
            assert(!slip(a@, b@)) by {
                assert(a@ != b@);
                assert(forall|i: int| 0 <= i < a@.len() ==> #[trigger] a@.remove(i).len() != b@.len());
                assert(forall|i: int| 0 <= i < b@.len() ==> #[trigger] b@.remove(i).len() != a@.len());
            }
        }
        return false;
    }
    // Strip the common prefix and suffix; what is left is the difference.
    let mut head: usize = 0;
    while head < n && head < m && a[head] == b[head]
        invariant
            head <= n && head <= m,
            n == a.len() && m == b.len(),
            forall|k: int| 0 <= k < head ==> a@[k] == b@[k],
        decreases n - head,
    {
        head += 1;
    }
    let mut tail: usize = 0;
    while head + tail < n && head + tail < m && a[n - 1 - tail] == b[m - 1 - tail]
        invariant
            head <= n && head <= m,
            n == a.len() && m == b.len(),
            head + tail <= n && head + tail <= m,
            forall|t: int| 0 <= t < tail ==> #[trigger] back_agrees(a@, b@, t),
        decreases n - tail,
    {
        tail += 1;
    }
    proof {
        assert(split_at(a@, b@, head as int, tail as int));
        lemma_decided_is_slip(a@, b@, head as int, tail as int);
    }
    let dl = n - head - tail;
    let dr = m - head - tail;
    if dl <= 1 && dr <= 1 {
        true
    } else if dl == 2 && dr == 2 {
        a[head] == b[head + 1] && a[head + 1] == b[head]
    } else {
        false
    }
}


/// Where a scroll offset lands when moved by `delta`, before it is kept
/// under the end: down by `delta` (stopping at the largest offset there is),
/// or up by its size (stopping at the top). A step down too large to be an
/// offset is taken as the largest step up.
pub open spec fn moved_by(from: u16, delta: i32) -> int {
    if 0 <= delta <= u16::MAX {
        if from + delta > u16::MAX { u16::MAX as int } else { from + delta }
    } else {
        let size: int = if delta < 0 { -delta } else { delta as int };
        let step: int = if size > u16::MAX { u16::MAX as int } else { size };
        if from - step < 0 { 0 } else { from - step }
    }
}

/// A scroll offset moved by `delta` and kept inside `[0, max]`.
pub fn scrolled(from: u16, delta: i32, max: u16) -> (r: u16)
    ensures
        r == (if moved_by(from, delta) < max { moved_by(from, delta) } else { max as int }),
{
    let moved: u16 = if 0 <= delta && delta <= 65535 {
        let down = delta as u16;
        from.saturating_add(down)
    } else {
        let size: u32 = if delta < 0 { (0i64 - delta as i64) as u32 } else { delta as u32 };
        let step: u16 = if size > 65535 { 65535 } else { size as u16 };
        from.saturating_sub(step)
    };
    if moved < max { moved } else { max }
}

/// How far `ctrl-f` and `ctrl-b` move: half of what is on screen, and at
/// least one row.
pub fn half_page(page: u16) -> (r: i32)
    ensures
        r == (if page < 2 { 2 } else { page as int }) / 2,
{
    let rows: u16 = if page < 2 { 2 } else { page };
    (rows / 2) as i32
}

/// Where a cursor lands on a screen of `rows` rows: on the row asked for, or
/// the last there is; nowhere when there are none.
pub open spec fn landing(at: int, rows: int) -> Option<int> {
    if rows <= 0 { None } else if at < rows { Some(at) } else { Some(rows - 1) }
}

/// The cursor sent to row `at` of a screen of `rows` rows.
pub fn cursor_to(at: usize, rows: usize) -> (r: Option<usize>)
    ensures
        r matches Some(c) ==> landing(at as int, rows as int) == Some(c as int),
        r is None <==> landing(at as int, rows as int) is None,
{
    if rows == 0 {
        None
    } else if at < rows {
        Some(at)
    } else {
        Some(rows - 1)
    }
}

/// The row a cursor on `at` is moved to by `delta` rows, before it is kept
/// on the screen: down (stopping at the last row), or up (stopping at the
/// first).
pub open spec fn stepped_to(at: int, delta: int, rows: int) -> int {
    if delta >= 0 {
        let last = if rows > 0 { rows - 1 } else { 0 };
        if at + delta < last { at + delta } else { last }
    } else {
        if at + delta < 0 { 0 } else { at + delta }
    }
}

/// A cursor moved by `delta` rows on a screen of `rows` rows; no cursor stays
/// no cursor.
pub fn step(at: Option<usize>, delta: i32, rows: usize) -> (r: Option<usize>)
    ensures
        at is None ==> r is None,
        at matches Some(a) ==> {
            &&& r is None <==> rows == 0
            &&& r matches Some(c) ==> landing(stepped_to(a as int, delta as int, rows as int), rows as int) == Some(c as int)
        },
{
    match at {
        None => None,
        Some(a) => {
            let last: usize = if rows > 0 { rows - 1 } else { 0 };
            let moved: usize = if delta >= 0 {
                let down = delta as usize;
                let far = a.saturating_add(down);
                if far < last { far } else { last }
            } else {
                let up: u64 = (0i64 - delta as i64) as u64;
                if (a as u64) < up { 0 } else { a - up as usize }
            };
            cursor_to(moved, rows)
        },
    }
}

/// The two ends a cursor can be sent to in one key.
#[derive(Debug, Clone, Copy, PartialEq, Eq, Structural)]
pub enum Edge {
    First,
    Last,
}

/// The cursor sent to an end of a screen of `rows` rows.
pub fn jump(edge: Edge, rows: usize) -> (r: Option<usize>)
    ensures
        rows == 0 ==> r is None,
        rows > 0 ==> r == Some(match edge {
            Edge::First => 0usize,
            Edge::Last => (rows - 1) as usize,
        }),
{
    match edge {
        Edge::First => cursor_to(0, rows),
        Edge::Last => cursor_to(if rows > 0 { rows - 1 } else { 0 }, rows),
    }
}

/// The furthest a page of `lines` lines scrolls: its last line at the top of
/// the screen, the count cut to a scroll offset's sixteen bits.
pub fn reading_height(lines: usize) -> (r: u16)
    ensures
        r == (if lines == 0 { 0 } else { (lines - 1) as int }) % 0x1_0000,
{
    let last: usize = if lines == 0 { 0 } else { lines - 1 };
    let cut: usize = last % 65536;
    cut as u16
}

/// Where the prompt's history stands after one walk: back from the line
/// being typed lands on the newest entry, back from an entry on the one
/// before it (the oldest stays), forward from the newest on a fresh line,
/// forward from an entry on the one after it.
pub open spec fn recalled(len: nat, at: Option<nat>, back: bool) -> Option<nat> {
    let last: nat = (len - 1) as nat;
    match (at, back) {
        (None, true) => Some(last),
        (Some(a), true) => Some(if a == 0 { 0 } else { (a - 1) as nat }),
        (None, false) => None,
        (Some(a), false) => if a >= last { None } else { Some(a + 1) },
    }
}

/// A step forward through the history takes back a step back, from the line
/// being typed or from any entry but the oldest, where a step back stays.
pub proof fn forward_undoes_back(len: nat, at: Option<nat>)
    requires
        len > 0,
        at matches Some(a) ==> 0 < a < len,
    ensures
        recalled(len, recalled(len, at, true), false) == at,
{
}

/// A step back through the history takes back a step forward from any
/// entry; from the line being typed, forward goes nowhere.
pub proof fn back_undoes_forward(len: nat, at: nat)
    requires
        at < len,
    ensures
        recalled(len, recalled(len, Some(at), false), true) == Some(at),
{
}

/// One walk through the prompt's history from `at`: where it stands after,
/// and the line the prompt then holds (empty past the newest). An empty
/// history is not walked: `None`, and the prompt keeps what it has.
pub fn recall(history: &Vec<String>, at: Option<usize>, back: bool) -> (r: Option<(Option<usize>, String)>)
    requires
        at matches Some(a) ==> a < history.len(),
    ensures
        history.len() == 0 <==> r is None,
        r matches Some((now, line)) ==> {
            &&& now matches Some(n) ==> n < history.len()
            &&& recalled(history.len() as nat, match at { Some(a) => Some(a as nat), None => None }, back)
                == match now { Some(n) => Some(n as nat), None => None }
            &&& line@ == match now { Some(n) => history@[n as int]@, None => Seq::empty() }
        },
{
    if history.len() == 0 {
        return None;
    }
    let last = history.len() - 1;
    let now: Option<usize> = match at {
        None => if back { Some(last) } else { None },
        Some(a) => if back {
            Some(if a == 0 { 0 } else { a - 1 })
        } else if a >= last {
            None
        } else {
            Some(a + 1)
        },
    };
    let line = match now {
        Some(n) => crate::text::owned(history[n].as_str()),
        None => String::new(),
    };
    Some((now, line))
}

/// The prompt's history after a line is run: the line goes on the end,
/// unless it is the newest entry already.
pub fn remember(history: &mut Vec<String>, line: &str)
    ensures
        old(history).len() > 0 && old(history)@.last()@ == line@ ==> final(history)@ == old(history)@,
        !(old(history).len() > 0 && old(history)@.last()@ == line@) ==> {
            &&& final(history)@.len() == old(history)@.len() + 1
            &&& final(history)@.subrange(0, old(history)@.len() as int) == old(history)@
            &&& final(history)@.last()@ == line@
        },
{
    let n = history.len();
    if n > 0 {
        let newest = crate::text::chars_of(history[n - 1].as_str());
        let given = crate::text::chars_of(line);
        if crate::text::same(&newest, &given) {
            return;
        }
    }
    history.push(crate::text::owned(line));
    proof {
        assert(history@.subrange(0, n as int) =~= old(history)@);
    }
}


/// The choices a picker's filter admits, by index, in order: all of them for
/// an empty filter, else those whose tag holds it, ignoring case; the filter
/// is what was typed with its ends' whitespace off.
pub open spec fn admitted(choices: Seq<Choice>, filter: Seq<char>, upto: int) -> Seq<int>
    decreases upto,
{
    if upto <= 0 {
        Seq::empty()
    } else {
        let rest = admitted(choices, filter, upto - 1);
        let k = upto - 1;
        if filter.len() == 0 || crate::text::contains(lowercase(choices[k].tag@), filter) { rest.push(k) } else { rest }
    }
}

/// Indices of the choices the filter admits, in the choices' order.
pub fn shown_tags(choices: &Vec<Choice>, typed: &str) -> (r: Vec<usize>)
    ensures
        r@.map_values(|k: usize| k as int) == admitted(choices@, lowercase(crate::text::trimmed(typed@)), choices@.len() as int),
{
    let cut = crate::text::trim(typed);
    let filter = to_lower(cut.as_str());
    let f = chars_of(filter.as_str());
    let mut out: Vec<usize> = Vec::new();
    let mut k: usize = 0;
    while k < choices.len()
        invariant
            k <= choices.len(),
            f@ == lowercase(crate::text::trimmed(typed@)),
            out@.map_values(|i: usize| i as int) == admitted(choices@, f@, k as int),
        decreases choices.len() - k,
    {
        let tag = to_lower(choices[k].tag.as_str());
        let t = chars_of(tag.as_str());
        let ghost before = out@.map_values(|i: usize| i as int);
        if f.len() == 0 || crate::text::has(&t, &f) {
            out.push(k);
            assert(out@.map_values(|i: usize| i as int) =~= before.push(k as int));
        }
        k += 1;
    }
    out
}

/// Whether a choice is an existing tag a keystroke away from `tag`; tags made
/// in the picker carry no notes and are not candidates.
pub open spec fn near_to(c: Choice, tag: Seq<char>) -> bool {
    c.notes > 0 && slip(lowercase(c.tag@), lowercase(tag))
}

/// The commonest candidate among the first `upto` choices, the later on a
/// tie.
pub open spec fn commonest(choices: Seq<Choice>, tag: Seq<char>, upto: int) -> Option<int>
    decreases upto,
{
    if upto <= 0 {
        None
    } else {
        let k = upto - 1;
        let rest = commonest(choices, tag, k);
        if near_to(choices[k], tag) && (rest matches Some(b) ==> choices[k].notes >= choices[b].notes) {
            Some(k)
        } else {
            rest
        }
    }
}

proof fn lemma_commonest_bounds(choices: Seq<Choice>, tag: Seq<char>, upto: int)
    ensures
        commonest(choices, tag, upto) matches Some(b) ==> 0 <= b < upto,
    decreases upto,
{
    if upto > 0 {
        lemma_commonest_bounds(choices, tag, upto - 1);
    }
}

/// The commonest existing tag a keystroke away from what was typed: the
/// likeliest one meant, with how many notes carry it.
pub fn nearest(choices: &Vec<Choice>, tag: &str) -> (r: Option<(String, usize)>)
    ensures
        match commonest(choices@, tag@, choices@.len() as int) {
            Some(b) => r matches Some((t, n)) && t@ == choices@[b].tag@ && n == choices@[b].notes,
            None => r is None,
        },
{
    let mut best: Option<usize> = None;
    let mut k: usize = 0;
    while k < choices.len()
        invariant
            k <= choices.len(),
            best matches Some(b) ==> b < k,
            match commonest(choices@, tag@, k as int) {
                Some(b) => best == Some(b as usize),
                None => best is None,
            },
        decreases choices.len() - k,
    {
        proof { lemma_commonest_bounds(choices@, tag@, k as int); }
        let c = &choices[k];
        if c.notes > 0 && one_edit_apart(c.tag.as_str(), tag) {
            let better = match best {
                Some(b) => c.notes >= choices[b].notes,
                None => true,
            };
            if better {
                best = Some(k);
            }
        }
        k += 1;
    }
    proof { lemma_commonest_bounds(choices@, tag@, k as int); }
    match best {
        Some(b) => Some((crate::text::owned(choices[b].tag.as_str()), choices[b].notes)),
        None => None,
    }
}

/// What the picker asks for, in the tag command's notation, in the choices'
/// order: `+tag` to add, `-tag` to remove, nothing to leave.
pub open spec fn picked(choices: Seq<Choice>) -> Seq<Seq<char>>
    decreases choices.len(),
{
    if choices.len() == 0 {
        Seq::empty()
    } else {
        let rest = picked(choices.drop_last());
        let c = choices.last();
        match c.mark {
            Mark::Leave => rest,
            Mark::Add => rest.push(seq!['+'] + c.tag@),
            Mark::Remove => rest.push(seq!['-'] + c.tag@),
        }
    }
}

/// The only place `+`/`-` changes are written; nothing splits them back, so
/// a tag with a space survives as one string.
pub fn changes(choices: &Vec<Choice>) -> (r: Vec<String>)
    ensures
        r@.map_values(|s: String| s@) == picked(choices@),
{
    let mut out: Vec<String> = Vec::new();
    let mut k: usize = 0;
    while k < choices.len()
        invariant
            k <= choices.len(),
            out@.map_values(|s: String| s@) == picked(choices@.subrange(0, k as int)),
        decreases choices.len() - k,
    {
        let c = &choices[k];
        let ghost before = out@.map_values(|s: String| s@);
        assert(choices@.subrange(0, k + 1).drop_last() =~= choices@.subrange(0, k as int));
        assert(choices@.subrange(0, k + 1).last() == *c);
        match c.mark {
            Mark::Leave => {},
            Mark::Add => {
                let mut said = String::new();
                push_char(&mut said, '+');
                push_str(&mut said, c.tag.as_str());
                out.push(said);
                assert(out@.map_values(|s: String| s@) =~= before.push(seq!['+'] + c.tag@));
            },
            Mark::Remove => {
                let mut said = String::new();
                push_char(&mut said, '-');
                push_str(&mut said, c.tag.as_str());
                out.push(said);
                assert(out@.map_values(|s: String| s@) =~= before.push(seq!['-'] + c.tag@));
            },
        }
        k += 1;
    }
    assert(choices@.subrange(0, choices@.len() as int) =~= choices@);
    out
}


proof fn lemma_admitted(choices: Seq<Choice>, filter: Seq<char>, upto: int)
    requires
        0 <= upto <= choices.len(),
    ensures
        forall|k: int| #[trigger] admitted(choices, filter, upto).contains(k) <==> (0 <= k < upto
            && (filter.len() == 0 || exists|p: int| crate::text::occurs_at(lowercase(choices[k].tag@), filter, p))),
        forall|i: int, j: int| 0 <= i < j < admitted(choices, filter, upto).len()
            ==> admitted(choices, filter, upto)[i] < admitted(choices, filter, upto)[j],
        forall|i: int| 0 <= i < admitted(choices, filter, upto).len() ==> 0 <= #[trigger] admitted(choices, filter, upto)[i] < upto,
    decreases upto,
{
    if upto > 0 {
        lemma_admitted(choices, filter, upto - 1);
        let rest = admitted(choices, filter, upto - 1);
        let k0 = upto - 1;
        let all = admitted(choices, filter, upto);
        assert forall|k: int| #[trigger] all.contains(k) <==> (0 <= k < upto
            && (filter.len() == 0 || exists|p: int| crate::text::occurs_at(lowercase(choices[k].tag@), filter, p))) by {
            if all.contains(k) {
                let j = choose|j: int| 0 <= j < all.len() && all[j] == k;
                if j < rest.len() {
                    assert(all[j] == rest[j]);
                    assert(rest.contains(k));
                }
            }
            if 0 <= k < upto && (filter.len() == 0 || exists|p: int| crate::text::occurs_at(lowercase(choices[k].tag@), filter, p)) {
                if k < k0 {
                    assert(rest.contains(k));
                    let j = choose|j: int| 0 <= j < rest.len() && rest[j] == k;
                    assert(all[j] == k);
                } else {
                    assert(all[rest.len() as int] == k);
                }
            }
        }
    }
}

/// The picker shows, in the choices' order and each once, exactly the tags
/// that hold the filter somewhere (not only at their start), case aside; and
/// every tag for an empty filter. The filter is what was typed, its ends'
/// whitespace off.
pub proof fn a_filter_shows_every_tag_holding_it(choices: Seq<Choice>, typed: Seq<char>)
    ensures
        ({
            let f = lowercase(crate::text::trimmed(typed));
            let shown = admitted(choices, f, choices.len() as int);
            &&& forall|k: int| #[trigger] shown.contains(k) <==> (0 <= k < choices.len()
                && (f.len() == 0 || exists|p: int| crate::text::occurs_at(lowercase(choices[k].tag@), f, p)))
            &&& forall|i: int, j: int| 0 <= i < j < shown.len() ==> shown[i] < shown[j]
        }),
{
    lemma_admitted(choices, lowercase(crate::text::trimmed(typed)), choices.len() as int);
}
} // verus!
