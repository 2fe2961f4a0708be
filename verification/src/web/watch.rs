//! Telling an open editor that the note under it changed, before Save rather
//! than in the merge that answers it.
//!
//! **It watches the file, not the server's writes**, because other programs
//! write to the repository too. The cost is hashing one small file every
//! `EVERY_MILLIS` per open note.
//!
//! **One registry for all editors**, which connections join and leave, walked
//! by one watcher; a watcher per connection could not notice its tab closing.
//! This module is the registry's bookkeeping: the caller owns the clock, the
//! hashing and the channels, and names each reader by a number of its own.
//!
//! **`stop` ends every stream**: a stream of changes never finishes on its own,
//! and a graceful shutdown waits for it.

use vstd::prelude::*;

use crate::text::{chars_of, owned, same};

verus! {

/// How often the file under an open editor is hashed.
pub const EVERY_MILLIS: u64 = 2000;

/// Each reader's channel capacity. When it is full a fingerprint is skipped,
/// not the reader: each message supersedes the last.
pub const BEHIND: usize = 8;

/// One note being watched, and everybody watching it.
#[derive(Debug)]
pub struct Watched {
    pub book: String,
    /// The note's id; not the slug, which follows the title.
    pub id: String,
    pub path: String,
    /// The last fingerprint seen; each reader compares against its own form.
    pub seen: String,
    /// The readers, by the numbers the caller gave them.
    pub tell: Vec<u64>,
}

/// A watched note as the contracts read it.
pub struct Entry {
    pub book: Seq<char>,
    pub id: Seq<char>,
    pub path: Seq<char>,
    pub seen: Seq<char>,
    pub tell: Seq<u64>,
}

impl View for Watched {
    type V = Entry;

    open spec fn view(&self) -> Entry {
        Entry { book: self.book@, id: self.id@, path: self.path@, seen: self.seen@, tell: self.tell@ }
    }
}

/// Every open editor, by notebook and note.
#[derive(Debug)]
pub struct Registry {
    pub notes: Vec<Watched>,
    pub stopping: bool,
}

pub open spec fn entries(notes: Seq<Watched>) -> Seq<Entry> {
    notes.map_values(|w: Watched| w@)
}

impl View for Registry {
    type V = Seq<Entry>;

    open spec fn view(&self) -> Seq<Entry> {
        entries(self.notes@)
    }
}

/// Whether an entry is the one for a notebook's note.
pub open spec fn holds(e: Entry, book: Seq<char>, id: Seq<char>) -> bool {
    e.book == book && e.id == id
}

/// No note is watched twice: a second reader joins the first's entry.
pub open spec fn keyed(es: Seq<Entry>) -> bool {
    forall|i: int, j: int| 0 <= i < j < es.len() ==> !(#[trigger] holds(es[i], es[j].book, es[j].id))
}

/// Where a notebook's note stands, if it is watched.
pub open spec fn place(es: Seq<Entry>, book: Seq<char>, id: Seq<char>) -> Option<int> {
    if exists|i: int| 0 <= i < es.len() && holds(#[trigger] es[i], book, id) {
        Some(choose|i: int| 0 <= i < es.len() && holds(#[trigger] es[i], book, id))
    } else {
        None
    }
}

/// The readers of `tell` not among `closed`, in order.
pub open spec fn open_of(tell: Seq<u64>, closed: Seq<u64>) -> Seq<u64>
    decreases tell.len(),
{
    if tell.len() == 0 {
        Seq::empty()
    } else {
        let rest = open_of(tell.drop_last(), closed);
        if closed.contains(tell.last()) { rest } else { rest.push(tell.last()) }
    }
}

/// The registry with its closed readers gone, and the notes nobody reads any
/// more with them.
pub open spec fn pruned(es: Seq<Entry>, closed: Seq<u64>) -> Seq<Entry>
    decreases es.len(),
{
    if es.len() == 0 {
        Seq::empty()
    } else {
        let rest = pruned(es.drop_last(), closed);
        let e = es.last();
        let tell = open_of(e.tell, closed);
        if tell.len() > 0 { rest.push(Entry { tell, ..e }) } else { rest }
    }
}

proof fn lemma_place_is(es: Seq<Entry>, book: Seq<char>, id: Seq<char>, i: int)
    requires
        keyed(es),
        0 <= i < es.len(),
        holds(es[i], book, id),
    ensures
        place(es, book, id) == Some(i),
{
    let j = choose|j: int| 0 <= j < es.len() && holds(#[trigger] es[j], book, id);
    assert(holds(es[j], book, id));
    if j < i {
        assert(!holds(es[j], es[i].book, es[i].id));
    } else if i < j {
        assert(!holds(es[i], es[j].book, es[j].id));
    }
}

fn equal(a: &str, b: &str) -> (r: bool)
    ensures
        r == (a@ == b@),
{
    let x = chars_of(a);
    let y = chars_of(b);
    same(&x, &y)
}

fn index_of(notes: &Vec<Watched>, book: &str, id: &str) -> (r: Option<usize>)
    requires
        keyed(entries(notes@)),
    ensures
        r matches Some(k) ==> k < notes@.len() && place(entries(notes@), book@, id@) == Some(k as int),
        r is None ==> place(entries(notes@), book@, id@) is None,
{
    let mut i: usize = 0;
    while i < notes.len()
        invariant
            i <= notes.len(),
            keyed(entries(notes@)),
            forall|j: int| 0 <= j < i ==> !holds(#[trigger] entries(notes@)[j], book@, id@),
        decreases notes.len() - i,
    {
        if equal(notes[i].book.as_str(), book) && equal(notes[i].id.as_str(), id) {
            proof { lemma_place_is(entries(notes@), book@, id@, i as int); }
            return Some(i);
        }
        i += 1;
    }
    assert(!exists|j: int| 0 <= j < entries(notes@).len() && holds(#[trigger] entries(notes@)[j], book@, id@));
    None
}

fn open_readers(tell: &Vec<u64>, closed: &Vec<u64>) -> (r: Vec<u64>)
    ensures
        r@ == open_of(tell@, closed@),
{
    let mut out: Vec<u64> = Vec::new();
    let mut i: usize = 0;
    while i < tell.len()
        invariant
            i <= tell.len(),
            out@ == open_of(tell@.subrange(0, i as int), closed@),
        decreases tell.len() - i,
    {
        let r = tell[i];
        let mut gone = false;
        let mut k: usize = 0;
        while k < closed.len()
            invariant
                k <= closed.len(),
                gone == exists|j: int| 0 <= j < k && closed@[j] == r,
            decreases closed.len() - k,
        {
            if closed[k] == r {
                gone = true;
            }
            k += 1;
        }
        assert(tell@.subrange(0, i + 1).drop_last() =~= tell@.subrange(0, i as int));
        if !gone {
            out.push(r);
        }
        i += 1;
    }
    assert(tell@.subrange(0, tell@.len() as int) =~= tell@);
    out
}

proof fn lemma_pruned_keys(es: Seq<Entry>, closed: Seq<u64>)
    ensures
        forall|k: int| 0 <= k < pruned(es, closed).len() ==> exists|i: int| 0 <= i < es.len()
            && #[trigger] pruned(es, closed)[k].book == es[i].book && pruned(es, closed)[k].id == es[i].id,
    decreases es.len(),
{
    if es.len() > 0 {
        lemma_pruned_keys(es.drop_last(), closed);
        let rest = pruned(es.drop_last(), closed);
        assert forall|k: int| 0 <= k < pruned(es, closed).len() implies exists|i: int| 0 <= i < es.len()
            && #[trigger] pruned(es, closed)[k].book == es[i].book && pruned(es, closed)[k].id == es[i].id by {
            if k < rest.len() {
                assert(pruned(es, closed)[k] == rest[k]);
                let i = choose|i: int| 0 <= i < es.drop_last().len() && #[trigger] rest[k].book == es.drop_last()[i].book
                    && rest[k].id == es.drop_last()[i].id;
                assert(es.drop_last()[i] == es[i]);
            } else {
                assert(pruned(es, closed)[k].book == es[es.len() - 1].book);
            }
        }
    }
}

proof fn lemma_pruned_keyed(es: Seq<Entry>, closed: Seq<u64>)
    requires
        keyed(es),
    ensures
        keyed(pruned(es, closed)),
    decreases es.len(),
{
    if es.len() > 0 {
        let front = es.drop_last();
        assert(keyed(front)) by {
            assert forall|i: int, j: int| 0 <= i < j < front.len() implies !(#[trigger] holds(front[i], front[j].book, front[j].id)) by {
                assert(front[i] == es[i] && front[j] == es[j]);
            }
        }
        lemma_pruned_keyed(front, closed);
        lemma_pruned_keys(front, closed);
        let rest = pruned(front, closed);
        let e = es.last();
        let tell = open_of(e.tell, closed);
        if tell.len() > 0 {
            let all = rest.push(Entry { tell, ..e });
            assert forall|i: int, j: int| 0 <= i < j < all.len() implies !(#[trigger] holds(all[i], all[j].book, all[j].id)) by {
                if j == rest.len() {
                    let m = choose|m: int| 0 <= m < front.len() && #[trigger] rest[i].book == front[m].book && rest[i].id == front[m].id;
                    assert(front[m] == es[m]);
                    assert(!holds(es[m], es[es.len() - 1].book, es[es.len() - 1].id));
                } else {
                    assert(all[i] == rest[i] && all[j] == rest[j]);
                }
            }
        }
    }
}

proof fn lemma_open_of(tell: Seq<u64>, closed: Seq<u64>)
    ensures
        forall|j: int| 0 <= j < open_of(tell, closed).len() ==> !closed.contains(#[trigger] open_of(tell, closed)[j]),
    decreases tell.len(),
{
    if tell.len() > 0 {
        lemma_open_of(tell.drop_last(), closed);
        let rest = open_of(tell.drop_last(), closed);
        assert forall|j: int| 0 <= j < open_of(tell, closed).len() implies !closed.contains(#[trigger] open_of(tell, closed)[j]) by {
            if j < rest.len() {
                assert(open_of(tell, closed)[j] == rest[j]);
            }
        }
    }
}

proof fn lemma_pruned_open(es: Seq<Entry>, closed: Seq<u64>)
    ensures
        forall|k: int| 0 <= k < pruned(es, closed).len() ==> (#[trigger] pruned(es, closed)[k]).tell.len() > 0
            && forall|j: int| 0 <= j < pruned(es, closed)[k].tell.len() ==> !closed.contains(#[trigger] pruned(es, closed)[k].tell[j]),
    decreases es.len(),
{
    if es.len() > 0 {
        lemma_pruned_open(es.drop_last(), closed);
        lemma_open_of(es.last().tell, closed);
        let rest = pruned(es.drop_last(), closed);
        assert forall|k: int| 0 <= k < pruned(es, closed).len() implies (#[trigger] pruned(es, closed)[k]).tell.len() > 0
            && forall|j: int| 0 <= j < pruned(es, closed)[k].tell.len() ==> !closed.contains(#[trigger] pruned(es, closed)[k].tell[j]) by {
            if k < rest.len() {
                assert(pruned(es, closed)[k] == rest[k]);
            }
        }
    }
}

impl Registry {
    /// Nobody watching, and not stopping.
    pub fn new() -> (r: Registry)
        ensures
            r@ == Seq::<Entry>::empty(),
            !r.stopping,
    {
        let r = Registry { notes: Vec::new(), stopping: false };
        assert(r@ =~= Seq::<Entry>::empty());
        r
    }

    /// Puts one open editor into the registry. `now` seeds the comparison
    /// for a new entry; an existing entry keeps its fingerprint, so a second
    /// reader does not reset the first's.
    pub fn subscribe(&mut self, book: &str, id: &str, path: &str, now: &str, reader: u64)
        requires
            keyed(old(self)@),
        ensures
            keyed(final(self)@),
            final(self).stopping == old(self).stopping,
            match place(old(self)@, book@, id@) {
                Some(i) => final(self)@ == old(self)@.update(i, Entry { tell: old(self)@[i].tell.push(reader), ..old(self)@[i] }),
                None => final(self)@ == old(self)@.push(Entry { book: book@, id: id@, path: path@, seen: now@, tell: seq![reader] }),
            },
    {
        let ghost before = self@;
        match index_of(&self.notes, book, id) {
            Some(i) => {
                let mut w = self.notes.remove(i);
                w.tell.push(reader);
                self.notes.insert(i, w);
                let ghost want = before.update(i as int, Entry { tell: before[i as int].tell.push(reader), ..before[i as int] });
                assert(self@ =~= want);
                assert forall|a: int, b: int| 0 <= a < b < want.len() implies !(#[trigger] holds(want[a], want[b].book, want[b].id)) by {
                    assert(!holds(before[a], before[b].book, before[b].id));
                }
            },
            None => {
                let mut tell: Vec<u64> = Vec::new();
                tell.push(reader);
                let w = Watched { book: owned(book), id: owned(id), path: owned(path), seen: owned(now), tell };
                self.notes.push(w);
                let ghost want = before.push(Entry { book: book@, id: id@, path: path@, seen: now@, tell: seq![reader] });
                assert(tell@ =~= seq![reader]);
                assert(self@ =~= want);
                assert forall|a: int, b: int| 0 <= a < b < want.len() implies !(#[trigger] holds(want[a], want[b].book, want[b].id)) by {
                    if b == before.len() {
                        assert(!holds(before[a], book@, id@));
                    } else {
                        assert(!holds(before[a], before[b].book, before[b].id));
                    }
                }
            },
        }
    }

    /// Ends every stream: nobody is watched any more, and the watcher stops.
    pub fn stop(&mut self)
        ensures
            final(self).stopping,
            final(self)@ == Seq::<Entry>::empty(),
    {
        self.stopping = true;
        self.notes = Vec::new();
        assert(self@ =~= Seq::<Entry>::empty());
    }

    /// Lets go of the readers whose tabs closed, and of the notes nobody reads
    /// any more: a quiet note is never sent to, so its closed tab would
    /// otherwise be watched forever.
    pub fn prune(&mut self, closed: &Vec<u64>)
        requires
            keyed(old(self)@),
        ensures
            final(self)@ == pruned(old(self)@, closed@),
            keyed(final(self)@),
            final(self).stopping == old(self).stopping,
            forall|k: int| 0 <= k < final(self)@.len() ==> (#[trigger] final(self)@[k]).tell.len() > 0,
            forall|k: int, j: int| 0 <= k < final(self)@.len() && 0 <= j < final(self)@[k].tell.len()
                ==> !closed@.contains(#[trigger] final(self)@[k].tell[j]),
    {
        let ghost before = self@;
        let mut kept: Vec<Watched> = Vec::new();
        let mut old_notes: Vec<Watched> = Vec::new();
        std::mem::swap(&mut old_notes, &mut self.notes);
        assert(entries(old_notes@) == before);
        let mut i: usize = 0;
        while i < old_notes.len()
            invariant
                i <= old_notes.len(),
                entries(old_notes@) == before,
                entries(kept@) == pruned(before.subrange(0, i as int), closed@),
            decreases old_notes.len() - i,
        {
            let w = &old_notes[i];
            let tell = open_readers(&w.tell, closed);
            assert(before.subrange(0, i + 1).drop_last() =~= before.subrange(0, i as int));
            assert(before.subrange(0, i + 1).last() == w@);
            if tell.len() > 0 {
                let next = Watched { book: owned(w.book.as_str()), id: owned(w.id.as_str()), path: owned(w.path.as_str()), seen: owned(w.seen.as_str()), tell };
                let ghost was = entries(kept@);
                kept.push(next);
                assert(entries(kept@) =~= was.push(next@));
            }
            i += 1;
        }
        assert(before.subrange(0, before.len() as int) =~= before);
        self.notes = kept;
        proof {
            lemma_pruned_keyed(before, closed@);
            lemma_pruned_open(before, closed@);
        }
    }

    /// Every watched note's notebook, id and file, for hashing without the
    /// registry held.
    pub fn wanted(&self) -> (r: Vec<(String, String, String)>)
        ensures
            r@.len() == self@.len(),
            forall|k: int| 0 <= k < r@.len() ==> #[trigger] r@[k].0@ == self@[k].book && r@[k].1@ == self@[k].id
                && r@[k].2@ == self@[k].path,
    {
        let mut out: Vec<(String, String, String)> = Vec::new();
        let mut i: usize = 0;
        while i < self.notes.len()
            invariant
                i <= self.notes.len(),
                out@.len() == i,
                forall|k: int| 0 <= k < i ==> #[trigger] out@[k].0@ == self@[k].book && out@[k].1@ == self@[k].id
                    && out@[k].2@ == self@[k].path,
            decreases self.notes.len() - i,
        {
            let w = &self.notes[i];
            out.push((owned(w.book.as_str()), owned(w.id.as_str()), owned(w.path.as_str())));
            i += 1;
        }
        out
    }

    /// A fingerprint was taken of a watched note's file. The readers to tell
    /// come back only when it differs from the last one seen, which it then
    /// becomes; a note no longer watched is skipped.
    pub fn observe(&mut self, book: &str, id: &str, hash: &str) -> (r: Vec<u64>)
        requires
            keyed(old(self)@),
        ensures
            keyed(final(self)@),
            final(self).stopping == old(self).stopping,
            match place(old(self)@, book@, id@) {
                Some(i) => if old(self)@[i].seen == hash@ {
                    final(self)@ == old(self)@ && r@ == Seq::<u64>::empty()
                } else {
                    final(self)@ == old(self)@.update(i, Entry { seen: hash@, ..old(self)@[i] }) && r@ == old(self)@[i].tell
                },
                None => final(self)@ == old(self)@ && r@ == Seq::<u64>::empty(),
            },
    {
        let ghost before = self@;
        match index_of(&self.notes, book, id) {
            None => Vec::new(),
            Some(i) => {
                if equal(self.notes[i].seen.as_str(), hash) {
                    return Vec::new();
                }
                let mut w = self.notes.remove(i);
                w.seen = owned(hash);
                let tell = w.tell.clone();
                self.notes.insert(i, w);
                let ghost want = before.update(i as int, Entry { seen: hash@, ..before[i as int] });
                assert(self@ =~= want);
                assert forall|a: int, b: int| 0 <= a < b < want.len() implies !(#[trigger] holds(want[a], want[b].book, want[b].id)) by {
                    assert(!holds(before[a], before[b].book, before[b].id));
                }
                tell
            },
        }
    }

    /// Lets go of the readers of one note whose sends found them closed; the
    /// note stays until the next `prune`.
    pub fn let_go(&mut self, book: &str, id: &str, closed: &Vec<u64>)
        requires
            keyed(old(self)@),
        ensures
            keyed(final(self)@),
            final(self).stopping == old(self).stopping,
            match place(old(self)@, book@, id@) {
                Some(i) => final(self)@ == old(self)@.update(i, Entry { tell: open_of(old(self)@[i].tell, closed@), ..old(self)@[i] }),
                None => final(self)@ == old(self)@,
            },
    {
        let ghost before = self@;
        match index_of(&self.notes, book, id) {
            None => {},
            Some(i) => {
                let mut w = self.notes.remove(i);
                w.tell = open_readers(&w.tell, closed);
                self.notes.insert(i, w);
                let ghost want = before.update(i as int, Entry { tell: open_of(before[i as int].tell, closed@), ..before[i as int] });
                assert(self@ =~= want);
                assert forall|a: int, b: int| 0 <= a < b < want.len() implies !(#[trigger] holds(want[a], want[b].book, want[b].id)) by {
                    assert(!holds(before[a], before[b].book, before[b].id));
                }
            },
        }
    }
}

} // verus!
