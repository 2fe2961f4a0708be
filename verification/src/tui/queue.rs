//! The queue of changes over marked notes, sent as one commit: its card, what
//! a key does there, and what it would ask before sending.

use vstd::prelude::*;

use crate::tui::app::{Action, Change, Step, Touch, What};
use crate::tui::field::{Code, Key};
use vstd::view::View as _;

verus! {

/// The queued steps, and the entry the card has its cursor on.
pub struct Queue {
    pub steps: Vec<Step>,
    pub at: usize,
}

/// What a key on the queue's card comes to.
#[derive(Debug, PartialEq, Eq)]
pub enum Queued {
    /// The card stays, perhaps with its cursor moved or an entry dropped.
    Stay,
    /// The card closes.
    Close,
    /// A deletion is in the queue, so the send is asked about first.
    Ask(What),
    /// The card closes and the queue goes to the runtime as one commit.
    Send(Action),
}

/// A step as the contracts see it: its notes, and its tag changes with
/// whether they stamp `updated`, or `None` for a deletion.
pub open spec fn step_seen(s: Step) -> (Seq<Seq<char>>, Option<(Seq<Seq<char>>, Touch)>) {
    (s.keys@.map_values(|k: String| k@), match s.change {
        Change::Remove => None,
        Change::Tag { changes, touch } => Some((changes@.map_values(|c: String| c@), touch)),
    })
}

pub open spec fn steps_seen(v: Seq<Step>) -> Seq<(Seq<Seq<char>>, Option<(Seq<Seq<char>>, Touch)>)> {
    v.map_values(|s: Step| step_seen(s))
}

/// The last place a cursor can stand over `n` entries.
pub open spec fn last_at(n: nat) -> nat {
    if n > 0 { (n - 1) as nat } else { 0 }
}

/// Whether any queued step deletes.
pub open spec fn deletes(steps: Seq<Step>) -> bool {
    exists|i: int| 0 <= i < steps.len() && steps[i].change == Change::Remove
}

fn copy_texts(v: &Vec<String>) -> (r: Vec<String>)
    ensures
        r@.map_values(|k: String| k@) == v@.map_values(|k: String| k@),
{
    let mut out: Vec<String> = Vec::new();
    let mut i: usize = 0;
    while i < v.len()
        invariant
            i <= v.len(),
            out@.map_values(|k: String| k@) == v@.subrange(0, i as int).map_values(|k: String| k@),
        decreases v.len() - i,
    {
        let ghost before = out@.map_values(|k: String| k@);
        out.push(crate::text::owned(v[i].as_str()));
        assert(out@.map_values(|k: String| k@) =~= before.push(v@[i as int]@));
        assert(v@.subrange(0, i + 1).map_values(|k: String| k@) =~= v@.subrange(0, i as int).map_values(|k: String| k@).push(v@[i as int]@));
        i += 1;
    }
    assert(v@.subrange(0, v.len() as int) =~= v@);
    out
}

fn copy_step(s: &Step) -> (r: Step)
    ensures
        step_seen(r) == step_seen(*s),
{
    let keys = copy_texts(&s.keys);
    let change = match &s.change {
        Change::Remove => Change::Remove,
        Change::Tag { changes, touch } => Change::Tag { changes: copy_texts(changes), touch: *touch },
    };
    Step { keys, change }
}

fn copy_steps(steps: &Vec<Step>) -> (r: Vec<Step>)
    ensures
        steps_seen(r@) == steps_seen(steps@),
{
    let mut out: Vec<Step> = Vec::new();
    let mut i: usize = 0;
    while i < steps.len()
        invariant
            i <= steps.len(),
            steps_seen(out@) == steps_seen(steps@.subrange(0, i as int)),
        decreases steps.len() - i,
    {
        let ghost before = steps_seen(out@);
        out.push(copy_step(&steps[i]));
        assert(steps_seen(out@) =~= before.push(step_seen(steps@[i as int])));
        assert(steps_seen(steps@.subrange(0, i + 1)) =~= steps_seen(steps@.subrange(0, i as int)).push(step_seen(steps@[i as int])));
        i += 1;
    }
    assert(steps@.subrange(0, steps.len() as int) =~= steps@);
    out
}

impl Queue {
    pub fn new() -> (r: Queue)
        ensures
            r.steps@.len() == 0,
            r.at == 0,
    {
        Queue { steps: Vec::new(), at: 0 }
    }

    /// A checked step joins the end of the queue.
    pub fn push(&mut self, step: Step)
        ensures
            final(self).steps@ == old(self).steps@.push(step),
            final(self).at == old(self).at,
    {
        self.steps.push(step);
    }

    /// The queue has been carried out: nothing is left in it.
    pub fn sent(&mut self)
        ensures
            final(self).steps@.len() == 0,
            final(self).at == 0,
    {
        self.steps = Vec::new();
        self.at = 0;
    }

    /// The queue sent as one commit, once anything irreversible in it has been
    /// agreed to: an empty queue just closes the card; a deletion is asked
    /// about (a question asked every time is not read).
    pub fn send(&self) -> (r: Queued)
        ensures
            self.steps@.len() == 0 ==> r == Queued::Close,
            self.steps@.len() > 0 && deletes(self.steps@) ==> r == Queued::Ask(What::Send),
            self.steps@.len() > 0 && !deletes(self.steps@) ==> (r matches Queued::Send(Action::Send(s)) && steps_seen(s@) == steps_seen(self.steps@)),
    {
        if self.steps.len() == 0 {
            return Queued::Close;
        }
        let mut i: usize = 0;
        while i < self.steps.len()
            invariant
                i <= self.steps.len(),
                forall|j: int| 0 <= j < i ==> self.steps@[j].change != Change::Remove,
            decreases self.steps.len() - i,
        {
            let removes = match &self.steps[i].change {
                Change::Remove => true,
                _ => false,
            };
            if removes {
                return Queued::Ask(What::Send);
            }
            i += 1;
        }
        Queued::Send(Action::Send(copy_steps(&self.steps)))
    }

    /// A key on the queue's card: `j`/`k` walk it, `d`, `x` or backspace drop
    /// the entry under the cursor, enter sends, and `esc`, `q` or `Q` close
    /// it. A plain `d` is safe here: nothing on this card deletes a note.
    pub fn key(&mut self, key: Key) -> (r: Queued)
        requires
            old(self).at <= last_at(old(self).steps@.len()),
        ensures
            final(self).at <= last_at(final(self).steps@.len()),
            match key.code {
                Code::Char('j') | Code::Down => r == Queued::Stay && final(self).steps@ == old(self).steps@
                    && final(self).at == (if old(self).at + 1 < last_at(old(self).steps@.len()) { old(self).at + 1 } else { last_at(old(self).steps@.len()) as int }),
                Code::Char('k') | Code::Up => r == Queued::Stay && final(self).steps@ == old(self).steps@
                    && final(self).at == (if old(self).at > 0 { old(self).at - 1 } else { 0int }),
                Code::Char('d') | Code::Char('x') | Code::Backspace => r == Queued::Stay
                    && (old(self).at < old(self).steps@.len() ==> final(self).steps@ == old(self).steps@.remove(old(self).at as int)
                        && final(self).at == (if old(self).at < last_at(final(self).steps@.len()) { old(self).at as int } else { last_at(final(self).steps@.len()) as int }))
                    && (old(self).at >= old(self).steps@.len() ==> final(self).steps@ == old(self).steps@ && final(self).at == old(self).at),
                Code::Enter => final(self).steps@ == old(self).steps@ && final(self).at == old(self).at && ({
                    let s = old(self).steps@;
                    &&& s.len() == 0 ==> r == Queued::Close
                    &&& s.len() > 0 && deletes(s) ==> r == Queued::Ask(What::Send)
                    &&& s.len() > 0 && !deletes(s) ==> (r matches Queued::Send(Action::Send(v)) && steps_seen(v@) == steps_seen(s))
                }),
                Code::Esc | Code::Char('q') | Code::Char('Q') => r == Queued::Close
                    && final(self).steps@ == old(self).steps@ && final(self).at == old(self).at,
                _ => r == Queued::Stay && final(self).steps@ == old(self).steps@ && final(self).at == old(self).at,
            },
    {
        let n = self.steps.len();
        let last: usize = if n > 0 { n - 1 } else { 0 };
        match key.code {
            Code::Char('j') | Code::Down => {
                self.at = if self.at + 1 < last { self.at + 1 } else { last };
                Queued::Stay
            },
            Code::Char('k') | Code::Up => {
                self.at = if self.at > 0 { self.at - 1 } else { 0 };
                Queued::Stay
            },
            Code::Char('d') | Code::Char('x') | Code::Backspace => {
                if self.at < self.steps.len() {
                    self.steps.remove(self.at);
                    let m = self.steps.len();
                    let end: usize = if m > 0 { m - 1 } else { 0 };
                    if self.at > end {
                        self.at = end;
                    }
                }
                Queued::Stay
            },
            Code::Enter => self.send(),
            Code::Esc | Code::Char('q') | Code::Char('Q') => Queued::Close,
            _ => Queued::Stay,
        }
    }
}

/// What a `y` agrees to: the note under the cursor deleted, the queue sent,
/// or leaving; any other key answers no, and nothing happens either way but
/// the question closing.
pub fn confirmed(what: What, key: Key, selected: Option<&String>, queue: &Queue) -> (r: Option<Action>)
    ensures
        !(key.code == Code::Char('y') || key.code == Code::Char('Y')) ==> r is None,
        (key.code == Code::Char('y') || key.code == Code::Char('Y')) ==> match what {
            What::Delete => match selected {
                Some(id) => r matches Some(Action::Remove(k)) && k@ == id@,
                None => r is None,
            },
            What::Send => r matches Some(Action::Send(s)) && steps_seen(s@) == steps_seen(queue.steps@),
            What::Quit => r == Some(Action::Quit),
        },
{
    let yes = match key.code {
        Code::Char('y') | Code::Char('Y') => true,
        _ => false,
    };
    if !yes {
        return None;
    }
    match what {
        What::Delete => match selected {
            Some(id) => Some(Action::Remove(crate::text::owned(id.as_str()))),
            None => None,
        },
        What::Send => Some(Action::Send(copy_steps(&queue.steps))),
        What::Quit => Some(Action::Quit),
    }
}

} // verus!
