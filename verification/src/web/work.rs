//! `sync`, `pull` and `push` from the browser: the commands that take time.
//!
//! The request does not wait: a `POST` starts the errand and answers `303`, and
//! the page it lands on reports progress. Hence:
//!
//! - **A reload does not start it again**, since what the reader holds after
//!   the redirect is a `GET`.
//! - **One errand per notebook**, since two pushes meet in `index.lock`. Asking
//!   again is not an error: the reader may not know the first press landed.
//! - **The outcome outlives the errand**, or a finished run would look like a
//!   button that did nothing.
//!
//! The ledger here is what those rules are about; the lock around it and the
//! wait for it to empty belong to the server that shares it between threads.

use vstd::prelude::*;

use crate::text::{before, chars_of, lemma_before_asymmetric, lemma_before_irreflexive,
    lemma_before_total, lemma_before_transitive, same, sorts_before};

verus! {

#[verifier::external_type_specification]
#[verifier::external_body]
pub struct ExInstant(std::time::Instant);

/// `Instant::now`: the time, which nothing here predicts.
#[verifier::external_body]
fn now() -> (r: std::time::Instant) {
    std::time::Instant::now()
}

/// `Instant::elapsed`: how long ago `since` was, which nothing here predicts.
#[verifier::external_body]
fn elapsed(since: &std::time::Instant) -> (r: std::time::Duration) {
    since.elapsed()
}

/// Which of the three was asked for.
#[derive(Clone, Copy, PartialEq, Eq, Debug, Structural)]
pub enum Errand {
    Sync,
    Pull,
    Push,
}

pub open spec fn errand_of(word: Seq<char>) -> Option<Errand> {
    if word == "sync"@ {
        Some(Errand::Sync)
    } else if word == "pull"@ {
        Some(Errand::Pull)
    } else if word == "push"@ {
        Some(Errand::Push)
    } else {
        None
    }
}

pub open spec fn errand_name(e: Errand) -> Seq<char> {
    match e {
        Errand::Sync => "sync"@,
        Errand::Pull => "pull"@,
        Errand::Push => "push"@,
    }
}

pub open spec fn errand_doing(e: Errand) -> Seq<char> {
    match e {
        Errand::Sync => "Syncing"@,
        Errand::Pull => "Pulling"@,
        Errand::Push => "Pushing"@,
    }
}

pub open spec fn errand_done(e: Errand) -> Seq<char> {
    match e {
        Errand::Sync => "Synced"@,
        Errand::Pull => "Pulled"@,
        Errand::Push => "Pushed"@,
    }
}

pub open spec fn errand_stuck(e: Errand) -> Seq<char> {
    match e {
        Errand::Sync => "Sync failed"@,
        Errand::Pull => "Pull failed"@,
        Errand::Push => "Push failed"@,
    }
}

impl Errand {
    /// The errand a word in the address names.
    pub fn of(word: &str) -> (r: Option<Errand>)
        ensures
            r == errand_of(word@),
    {
        let w = chars_of(word);
        if same(&w, &chars_of("sync")) {
            Some(Errand::Sync)
        } else if same(&w, &chars_of("pull")) {
            Some(Errand::Pull)
        } else if same(&w, &chars_of("push")) {
            Some(Errand::Push)
        } else {
            None
        }
    }

    pub fn name(self) -> (r: &'static str)
        ensures
            r@ == errand_name(self),
    {
        match self {
            Errand::Sync => "sync",
            Errand::Pull => "pull",
            Errand::Push => "push",
        }
    }

    /// What to call it while it is happening.
    pub fn doing(self) -> (r: &'static str)
        ensures
            r@ == errand_doing(self),
    {
        match self {
            Errand::Sync => "Syncing",
            Errand::Pull => "Pulling",
            Errand::Push => "Pushing",
        }
    }

    /// What to call it once it has.
    pub fn done(self) -> (r: &'static str)
        ensures
            r@ == errand_done(self),
    {
        match self {
            Errand::Sync => "Synced",
            Errand::Pull => "Pulled",
            Errand::Push => "Pushed",
        }
    }

    pub fn stuck(self) -> (r: &'static str)
        ensures
            r@ == errand_stuck(self),
    {
        match self {
            Errand::Sync => "Sync failed",
            Errand::Pull => "Pull failed",
            Errand::Push => "Push failed",
        }
    }
}

/// The failure is a `String`: it is read after its thread is gone.
#[derive(PartialEq, Eq, Debug)]
pub enum Outcome {
    /// The command's answer (several lines, for `sync`).
    Went(String),
    Failed(String),
}

impl Clone for Outcome {
    fn clone(&self) -> (r: Outcome)
        ensures
            r == *self,
    {
        match self {
            Outcome::Went(s) => Outcome::Went(s.clone()),
            Outcome::Failed(s) => Outcome::Failed(s.clone()),
        }
    }
}

/// An errand as a page needs it, out from under the lock.
pub struct Report {
    pub errand: Errand,
    /// `None` while it is still going.
    pub outcome: Option<Outcome>,
    pub took: std::time::Duration,
}

impl Report {
    pub fn running(&self) -> (r: bool)
        ensures
            r == self.outcome is None,
    {
        self.outcome.is_none()
    }
}

/// One notebook's errand as the contracts see it: the one running, or the
/// last one that ran.
pub struct Entry {
    pub book: Seq<char>,
    pub errand: Errand,
    pub outcome: Option<Outcome>,
}

/// In notebook order, each notebook once.
pub open spec fn sorted(s: Seq<Entry>) -> bool {
    forall|i: int, j: int| 0 <= i < j < s.len() ==> before(#[trigger] s[i].book, #[trigger] s[j].book)
}

/// Where a notebook's entry is.
pub open spec fn index(s: Seq<Entry>, book: Seq<char>) -> Option<int> {
    if exists|i: int| 0 <= i < s.len() && s[i].book == book {
        Some(choose|i: int| 0 <= i < s.len() && s[i].book == book)
    } else {
        None
    }
}

/// How many entries sort before `key`.
pub open spec fn slot(s: Seq<Entry>, key: Seq<char>) -> int
    decreases s.len(),
{
    if s.len() == 0 {
        0
    } else if before(s.last().book, key) {
        s.len() as int
    } else {
        slot(s.drop_last(), key)
    }
}

/// `x` put in its place.
pub open spec fn inserted(s: Seq<Entry>, x: Entry) -> Seq<Entry> {
    let p = slot(s, x.book);
    s.subrange(0, p).push(x) + s.subrange(p, s.len() as int)
}

/// What `begin` does: a notebook with an errand running is left alone and
/// answered `false`; otherwise the errand is recorded as running, replacing
/// what the last one did.
pub open spec fn began(s: Seq<Entry>, book: Seq<char>, errand: Errand) -> (Seq<Entry>, bool) {
    let x = Entry { book, errand, outcome: None };
    match index(s, book) {
        Some(i) => if s[i].outcome is None {
            (s, false)
        } else {
            (s.update(i, x), true)
        },
        None => (inserted(s, x), true),
    }
}

/// What `finish` does: the notebook's errand records how it ended.
pub open spec fn finished(s: Seq<Entry>, book: Seq<char>, outcome: Outcome) -> Seq<Entry> {
    match index(s, book) {
        Some(i) => s.update(i, Entry { book, errand: s[i].errand, outcome: Some(outcome) }),
        None => s,
    }
}

/// The errands still going, in notebook order.
pub open spec fn still_running(s: Seq<Entry>) -> Seq<(Seq<char>, Errand)>
    decreases s.len(),
{
    if s.len() == 0 {
        Seq::empty()
    } else if s.last().outcome is None {
        still_running(s.drop_last()).push((s.last().book, s.last().errand))
    } else {
        still_running(s.drop_last())
    }
}

proof fn lemma_slot(s: Seq<Entry>, key: Seq<char>)
    requires
        sorted(s),
        forall|i: int| 0 <= i < s.len() ==> s[i].book != key,
    ensures
        0 <= slot(s, key) <= s.len(),
        forall|i: int| 0 <= i < slot(s, key) ==> before(#[trigger] s[i].book, key),
        forall|i: int| slot(s, key) <= i < s.len() ==> before(key, #[trigger] s[i].book),
    decreases s.len(),
{
    if s.len() > 0 {
        let t = s.drop_last();
        assert forall|i: int, j: int| 0 <= i < j < t.len() implies before(#[trigger] t[i].book, #[trigger] t[j].book) by {
            assert(t[i] == s[i] && t[j] == s[j]);
        }
        lemma_slot(t, key);
        if before(s.last().book, key) {
            assert forall|i: int| 0 <= i < s.len() implies before(#[trigger] s[i].book, key) by {
                if i < s.len() - 1 {
                    assert(before(s[i].book, s[s.len() - 1].book));
                    lemma_before_transitive(s[i].book, s.last().book, key);
                }
            }
        } else {
            lemma_before_total(s.last().book, key);
            assert forall|i: int| slot(s, key) <= i < s.len() implies before(key, #[trigger] s[i].book) by {
                if i < s.len() - 1 {
                    assert(t[i] == s[i]);
                }
            }
            assert forall|i: int| 0 <= i < slot(s, key) implies before(#[trigger] s[i].book, key) by {
                assert(t[i] == s[i]);
            }
        }
    }
}

proof fn lemma_unique(s: Seq<Entry>, i: int, j: int)
    requires
        sorted(s),
        0 <= i < s.len(),
        0 <= j < s.len(),
        s[i].book == s[j].book,
    ensures
        i == j,
{
    if i < j {
        assert(before(s[i].book, s[j].book));
        lemma_before_irreflexive(s[i].book);
    } else if j < i {
        assert(before(s[j].book, s[i].book));
        lemma_before_irreflexive(s[i].book);
    }
}

proof fn lemma_index(s: Seq<Entry>, i: int)
    requires
        sorted(s),
        0 <= i < s.len(),
    ensures
        index(s, s[i].book) == Some(i),
{
    let w = choose|w: int| 0 <= w < s.len() && s[w].book == s[i].book;
    lemma_unique(s, w, i);
}

proof fn lemma_inserted(s: Seq<Entry>, x: Entry)
    requires
        sorted(s),
        forall|i: int| 0 <= i < s.len() ==> s[i].book != x.book,
    ensures
        sorted(inserted(s, x)),
        inserted(s, x).len() == s.len() + 1,
        inserted(s, x)[slot(s, x.book)] == x,
        0 <= slot(s, x.book) <= s.len(),
{
    lemma_slot(s, x.book);
    let p = slot(s, x.book);
    let t = inserted(s, x);
    assert forall|i: int, j: int| 0 <= i < j < t.len() implies before(#[trigger] t[i].book, #[trigger] t[j].book) by {
        if i < p && j < p {
            assert(t[i] == s[i] && t[j] == s[j]);
        } else if i < p && j == p {
            assert(t[i] == s[i]);
        } else if i < p {
            assert(t[i] == s[i] && t[j] == s[j - 1]);
            lemma_before_transitive(s[i].book, x.book, s[j - 1].book);
        } else if i == p {
            assert(t[j] == s[j - 1]);
        } else {
            assert(t[i] == s[i - 1] && t[j] == s[j - 1]);
        }
    }
}

/// Entries holding the same notebooks in the same places are found alike.
proof fn lemma_same_books(s: Seq<Entry>, t: Seq<Entry>, b: Seq<char>)
    requires
        sorted(s),
        sorted(t),
        s.len() == t.len(),
        forall|k: int| 0 <= k < s.len() ==> s[k].book == #[trigger] t[k].book,
    ensures
        index(s, b) == index(t, b),
{
    if index(s, b) is Some {
        let j = index(s, b)->0;
        lemma_index(s, j);
        lemma_index(t, j);
    } else if index(t, b) is Some {
        let j = index(t, b)->0;
        assert(s[j].book == b);
    }
}

/// After an insertion, another notebook is found where it was, moved past
/// the new entry if it came after it.
proof fn lemma_index_inserted(s: Seq<Entry>, x: Entry, b: Seq<char>)
    requires
        sorted(s),
        forall|i: int| 0 <= i < s.len() ==> s[i].book != x.book,
        b != x.book,
    ensures
        index(inserted(s, x), b) == match index(s, b) {
            Some(j) => Some(if j < slot(s, x.book) { j } else { j + 1 }),
            None => None,
        },
{
    lemma_inserted(s, x);
    let p = slot(s, x.book);
    let t = inserted(s, x);
    match index(s, b) {
        Some(j) => {
            let k = if j < p { j } else { j + 1 };
            assert(t[k] == s[j]);
            lemma_index(t, k);
        },
        None => {
            if index(t, b) is Some {
                let k = index(t, b)->0;
                if k < p {
                    assert(t[k] == s[k]);
                } else if k > p {
                    assert(t[k] == s[k - 1]);
                }
            }
        },
    }
}

/// Begun, a notebook's errand is the one its entry names, and it is running.
pub proof fn a_begun_errand_is_running(s: Seq<Entry>, book: Seq<char>, errand: Errand)
    requires
        sorted(s),
    ensures
        began(s, book, errand).1 ==> {
            let t = began(s, book, errand).0;
            &&& sorted(t)
            &&& index(t, book) matches Some(i) && t[i].errand == errand && t[i].outcome is None
        },
        !began(s, book, errand).1 <==> (index(s, book) matches Some(i) && s[i].outcome is None),
{
    let x = Entry { book, errand, outcome: None };
    match index(s, book) {
        Some(i) => {
            if s[i].outcome is Some {
                let t = s.update(i, x);
                assert forall|a: int, b: int| 0 <= a < b < t.len() implies
                    before(#[trigger] t[a].book, #[trigger] t[b].book) by {
                    assert(s[a].book == t[a].book && s[b].book == t[b].book);
                }
                lemma_index(t, i);
            }
        },
        None => {
            lemma_inserted(s, x);
            lemma_index(inserted(s, x), slot(s, book));
        },
    }
}

/// One errand per notebook: once one has begun, asking again is answered
/// `false` and changes nothing until it finishes.
pub proof fn one_notebook_runs_one_errand(s: Seq<Entry>, book: Seq<char>, first: Errand, second: Errand)
    requires
        sorted(s),
        began(s, book, first).1,
    ensures
        began(began(s, book, first).0, book, second) == (began(s, book, first).0, false),
{
    a_begun_errand_is_running(s, book, first);
}

/// The outcome outlives the errand: once finished, the notebook's entry says
/// how it went, and a new errand may begin.
pub proof fn what_it_did_stays_until_the_next_one(s: Seq<Entry>, book: Seq<char>, errand: Errand, outcome: Outcome)
    requires
        sorted(s),
        began(s, book, errand).1,
    ensures
        ({
            let t = finished(began(s, book, errand).0, book, outcome);
            &&& sorted(t)
            &&& index(t, book) matches Some(i) && t[i].errand == errand && t[i].outcome == Some(outcome)
            &&& began(t, book, errand).1
        }),
{
    a_begun_errand_is_running(s, book, errand);
    let b = began(s, book, errand).0;
    let i = index(b, book)->0;
    let t = finished(b, book, outcome);
    assert forall|a: int, c: int| 0 <= a < c < t.len() implies
        before(#[trigger] t[a].book, #[trigger] t[c].book) by {
        assert(b[a].book == t[a].book && b[c].book == t[c].book);
    }
    lemma_index(t, i);
}

/// A notebook's entry, if it has one.
pub open spec fn entry_of(s: Seq<Entry>, book: Seq<char>) -> Option<Entry> {
    match index(s, book) {
        Some(i) => Some(s[i]),
        None => None,
    }
}

/// One notebook's errand is its own: beginning or finishing it leaves every
/// other notebook's entry as it was.
pub proof fn another_notebook_is_left_alone(s: Seq<Entry>, book: Seq<char>, other: Seq<char>, errand: Errand, outcome: Outcome)
    requires
        sorted(s),
        other != book,
    ensures
        entry_of(began(s, book, errand).0, other) == entry_of(s, other),
        entry_of(finished(s, book, outcome), other) == entry_of(s, other),
{
    a_begun_errand_is_running(s, book, errand);
    let x = Entry { book, errand, outcome: None };
    match index(s, book) {
        Some(i) => {
            lemma_index(s, i);
            let t = s.update(i, x);
            if s[i].outcome is Some {
                lemma_same_books(s, t, other);
                if index(s, other) is Some {
                    let j = index(s, other)->0;
                    lemma_index(s, j);
                }
            }
            let f = s.update(i, Entry { book, errand: s[i].errand, outcome: Some(outcome) });
            assert(sorted(f)) by {
                assert forall|a: int, b: int| 0 <= a < b < f.len() implies before(#[trigger] f[a].book, #[trigger] f[b].book) by {
                    assert(s[a].book == f[a].book && s[b].book == f[b].book);
                }
            }
            lemma_same_books(s, f, other);
            if index(s, other) is Some {
                let j = index(s, other)->0;
                lemma_index(s, j);
            }
        },
        None => {
            assert forall|k: int| 0 <= k < s.len() implies s[k].book != x.book by {
                if s[k].book == book {
                    assert(index(s, book) is Some);
                }
            }
            lemma_index_inserted(s, x, other);
            lemma_inserted(s, x);
            if index(s, other) is Some {
                let j = index(s, other)->0;
                lemma_index(s, j);
                let p = slot(s, book);
                let t = inserted(s, x);
                if j < p {
                    assert(t[j] == s[j]);
                } else {
                    assert(t[j + 1] == s[j]);
                }
            }
        },
    }
}

struct Doing {
    book: String,
    errand: Errand,
    outcome: Option<Outcome>,
    started: std::time::Instant,
    /// Set when it ends, so a finished errand stops ageing.
    took: Option<std::time::Duration>,
}

/// Errands by notebook.
pub struct Ledger {
    each: Vec<Doing>,
    /// Set by a second signal: whoever waits for the errands stops waiting.
    abandoned: bool,
}

impl View for Ledger {
    type V = Seq<Entry>;

    closed spec fn view(&self) -> Seq<Entry> {
        self.each@.map_values(|d: Doing| Entry { book: d.book@, errand: d.errand, outcome: d.outcome })
    }
}

impl Ledger {
    pub closed spec fn wf(&self) -> bool {
        &&& sorted(self@)
        &&& forall|i: int| 0 <= i < self.each@.len() ==> ((#[trigger] self.each@[i]).outcome is Some <==> self.each@[i].took is Some)
    }

    /// How long a notebook's finished errand took, fixed when it finished;
    /// `None` while it runs, or for a notebook with no errand.
    pub closed spec fn took(&self, book: Seq<char>) -> Option<std::time::Duration> {
        match index(self@, book) {
            Some(i) => self.each@[i].took,
            None => None,
        }
    }

    pub closed spec fn is_abandoned(&self) -> bool {
        self.abandoned
    }

    /// A well-formed ledger holds each notebook once, in notebook order, so
    /// the laws over [`sorted`] entries speak of it.
    pub proof fn lemma_sorted(&self)
        requires
            self.wf(),
        ensures
            sorted(self@),
    {
    }

    proof fn lemma_view(&self, i: int)
        requires
            0 <= i < self.each@.len(),
        ensures
            self@.len() == self.each@.len(),
            self@[i] == (Entry { book: self.each@[i].book@, errand: self.each@[i].errand, outcome: self.each@[i].outcome }),
    {
    }

    fn entry_before(&self, p: usize, key: &Vec<char>) -> (r: bool)
        requires
            p < self.each@.len(),
        ensures
            r == before(self@[p as int].book, key@),
    {
        let b = chars_of(self.each[p].book.as_str());
        proof { self.lemma_view(p as int); }
        sorts_before(&b, key)
    }

    proof fn lemma_len(&self)
        ensures
            self@.len() == self.each@.len(),
    {
    }

    pub fn new() -> (r: Ledger)
        ensures
            r.wf(),
            sorted(r@),
            r@.len() == 0,
            !r.is_abandoned(),
    {
        Ledger { each: Vec::new(), abandoned: false }
    }

    fn find(&self, book: &Vec<char>) -> (r: Option<usize>)
        requires
            self.wf(),
        ensures
            match index(self@, book@) {
                Some(i) => r matches Some(k) && k as int == i && 0 <= i < self@.len()
                    && self@[i].book == book@,
                None => r is None,
            },
    {
        let mut i: usize = 0;
        proof { self.lemma_len(); }
        while i < self.each.len()
            invariant
                i <= self.each.len(),
                self.wf(),
                self@.len() == self.each@.len(),
                forall|j: int| 0 <= j < i ==> self@[j].book != book@,
            decreases self.each.len() - i,
        {
            let b = chars_of(self.each[i].book.as_str());
            proof { self.lemma_view(i as int); }
            if same(&b, book) {
                proof { lemma_index(self@, i as int); }
                return Some(i);
            }
            i += 1;
        }
        None
    }

    /// Whether the caller should start the errand: `false` while that
    /// notebook already has one running.
    pub fn begin(&mut self, book: &str, errand: Errand) -> (r: bool)
        requires
            old(self).wf(),
        ensures
            final(self).wf(),
            sorted(final(self)@),
            (final(self)@, r) == began(old(self)@, book@, errand),
            final(self).is_abandoned() == old(self).is_abandoned(),
            forall|b: Seq<char>| b != book@ ==> final(self).took(b) == old(self).took(b),
            r ==> final(self).took(book@) is None,
            !r ==> final(self).took(book@) == old(self).took(book@),
    {
        let key = chars_of(book);
        let x = Doing {
            book: crate::text::owned(book),
            errand,
            outcome: None,
            started: now(),
            took: None,
        };
        let ghost xe = Entry { book: book@, errand, outcome: None };
        match self.find(&key) {
            Some(i) => {
                if self.each[i].outcome.is_none() {
                    return false;
                }
                let ghost s = self@;
                let ghost each = self.each@;
                let ghost old_ledger = *self;
                self.each.set(i, x);
                assert(self@ =~= s.update(i as int, xe));
                assert(sorted(self@)) by {
                    assert forall|a: int, b: int| 0 <= a < b < self@.len() implies
                        before(#[trigger] self@[a].book, #[trigger] self@[b].book) by {
                        assert(s[a].book == self@[a].book && s[b].book == self@[b].book);
                    }
                }
                proof {
                    assert forall|b: Seq<char>| b != book@ implies self.took(b) == old_ledger.took(b) by {
                        lemma_same_books(s, self@, b);
                        if index(s, b) is Some {
                            let j = index(s, b)->0;
                            if j == i {
                                lemma_index(s, j);
                                assert(s[j].book == book@);
                            }
                            assert(self.each@[j] == each[j]);
                        }
                    }
                    lemma_index(self@, i as int);
                }
                true
            },
            None => {
                let ghost s = self@;
                proof {
                    self.lemma_len();
                    lemma_slot(s, book@);
                    lemma_inserted(s, xe);
                }
                let mut p: usize = 0;
                while p < self.each.len() && self.entry_before(p, &key)
                    invariant
                        p <= self.each.len(),
                        self@ == s,
                        sorted(s),
                        key@ == book@,
                        p <= slot(s, book@),
                        0 <= slot(s, book@) <= s.len(),
                        forall|i: int| 0 <= i < slot(s, book@) ==> before(#[trigger] s[i].book, book@),
                        forall|i: int| slot(s, book@) <= i < s.len() ==> before(book@, #[trigger] s[i].book),
                    decreases self.each.len() - p,
                {
                    proof {
                        self.lemma_len();
                        if p >= slot(s, book@) {
                            assert(before(book@, s[p as int].book));
                            lemma_before_asymmetric(book@, s[p as int].book);
                        }
                    }
                    p += 1;
                }
                proof { self.lemma_len(); }
                assert(p == slot(s, book@)) by {
                    if p < slot(s, book@) {
                        assert(before(s[p as int].book, book@));
                    }
                }
                let ghost each = self.each@;
                let ghost old_ledger = *self;
                self.each.insert(p, x);
                assert(self@ =~= inserted(s, xe));
                proof {
                    assert forall|b: Seq<char>| b != book@ implies self.took(b) == old_ledger.took(b) by {
                        lemma_index_inserted(s, xe, b);
                        if index(s, b) is Some {
                            let j = index(s, b)->0;
                            if j < p {
                                assert(self.each@[j] == each[j]);
                            } else {
                                assert(self.each@[j + 1] == each[j]);
                            }
                        }
                    }
                    lemma_index(self@, p as int);
                }
                true
            },
        }
    }

    /// Records how it ended.
    pub fn finish(&mut self, book: &str, outcome: Outcome)
        requires
            old(self).wf(),
        ensures
            final(self).wf(),
            sorted(final(self)@),
            final(self)@ == finished(old(self)@, book@, outcome),
            final(self).is_abandoned() == old(self).is_abandoned(),
            forall|b: Seq<char>| b != book@ ==> final(self).took(b) == old(self).took(b),
            index(old(self)@, book@) is Some ==> final(self).took(book@) is Some,
    {
        let key = chars_of(book);
        match self.find(&key) {
            Some(i) => {
                let ghost s = self@;
                proof { self.lemma_view(i as int); }
                let ghost each = self.each@;
                let ghost old_ledger = *self;
                let mut d = self.each.remove(i);
                d.took = Some(elapsed(&d.started));
                d.outcome = Some(outcome);
                let ghost dd = d;
                self.each.insert(i, d);
                assert(self.each@ =~= each.update(i as int, dd));
                assert(s[i as int].book == book@);
                assert forall|k: int| 0 <= k < self@.len() implies #[trigger] self@[k] == s.update(i as int, Entry { book: book@, errand: s[i as int].errand, outcome: Some(outcome) })[k] by {
                    self.lemma_view(k);
                }
                assert(self@ =~= s.update(i as int, Entry { book: book@, errand: s[i as int].errand, outcome: Some(outcome) }));
                assert(sorted(self@)) by {
                    assert forall|a: int, b: int| 0 <= a < b < self@.len() implies
                        before(#[trigger] self@[a].book, #[trigger] self@[b].book) by {
                        assert(s[a].book == self@[a].book && s[b].book == self@[b].book);
                    }
                }
                proof {
                    assert forall|b: Seq<char>| b != book@ implies self.took(b) == old_ledger.took(b) by {
                        lemma_same_books(s, self@, b);
                        if index(s, b) is Some {
                            let j = index(s, b)->0;
                            if j == i {
                                lemma_index(s, j);
                            }
                            assert(self.each@[j] == each[j]);
                        }
                    }
                    lemma_index(self@, i as int);
                }
            },
            None => {},
        }
    }

    /// The errands still going, in notebook order.
    pub fn running(&self) -> (r: Vec<(String, Errand)>)
        ensures
            r@.map_values(|p: (String, Errand)| (p.0@, p.1)) == still_running(self@),
    {
        let mut out: Vec<(String, Errand)> = Vec::new();
        let mut i: usize = 0;
        while i < self.each.len()
            invariant
                i <= self.each.len(),
                out@.map_values(|p: (String, Errand)| (p.0@, p.1)) == still_running(self@.subrange(0, i as int)),
            decreases self.each.len() - i,
        {
            let ghost before_ = out@.map_values(|p: (String, Errand)| (p.0@, p.1));
            assert(self@.subrange(0, i + 1).drop_last() =~= self@.subrange(0, i as int));
            if self.each[i].outcome.is_none() {
                out.push((self.each[i].book.clone(), self.each[i].errand));
                assert(out@.map_values(|p: (String, Errand)| (p.0@, p.1)) =~= before_.push(
                    (self@[i as int].book, self@[i as int].errand)));
            }
            i += 1;
        }
        assert(self@.subrange(0, self@.len() as int) =~= self@);
        out
    }

    /// What that notebook's errand is doing, or did. A finished one reports
    /// the time it took, fixed when it finished; a running one, how long it
    /// has run so far, which is the clock's.
    pub fn report(&self, book: &str) -> (r: Option<Report>)
        requires
            self.wf(),
        ensures
            match index(self@, book@) {
                Some(i) => r matches Some(rep) && rep.errand == self@[i].errand && rep.outcome == self@[i].outcome
                    && (rep.outcome is Some ==> self.took(book@) == Some(rep.took)),
                None => r is None,
            },
    {
        let key = chars_of(book);
        match self.find(&key) {
            Some(i) => {
                proof { self.lemma_view(i as int); }
                let d = &self.each[i];
                let took = match &d.took {
                    Some(t) => *t,
                    None => elapsed(&d.started),
                };
                let outcome = match &d.outcome {
                    Some(o) => Some(o.clone()),
                    None => None,
                };
                assert(self@[i as int].book == book@);
                Some(Report { errand: d.errand, outcome, took })
            },
            None => None,
        }
    }

    /// Tells whoever waits for the errands to stop waiting; an errand itself
    /// cannot be stopped.
    pub fn abandon(&mut self)
        ensures
            final(self)@ == old(self)@,
            final(self).is_abandoned(),
            final(self).wf() == old(self).wf(),
    {
        self.abandoned = true;
    }

    /// Whether a shutdown may stop waiting, and what it gave up on: `None`
    /// while an errand runs and nobody said to stop; then what is still
    /// running (nothing, in an ordinary shutdown). No timeout, since no
    /// duration makes abandoning a push right.
    pub fn settled(&self) -> (r: Option<Vec<(String, Errand)>>)
        ensures
            (self.is_abandoned() || still_running(self@).len() == 0) ==> (r matches Some(v)
                && v@.map_values(|p: (String, Errand)| (p.0@, p.1)) == still_running(self@)),
            !(self.is_abandoned() || still_running(self@).len() == 0) ==> r is None,
    {
        let now = self.running();
        if self.abandoned || now.len() == 0 {
            Some(now)
        } else {
            None
        }
    }

    pub fn abandoned(&self) -> (r: bool)
        ensures
            r == self.is_abandoned(),
    {
        self.abandoned
    }
}

/// What an errand came to, from what running it said: the notebook is opened
/// and the command run on the errand's own thread, and either step's error is
/// the failure, in words.
pub fn work(ran: Result<String, String>) -> (r: Outcome)
    ensures
        ran matches Ok(said) ==> r == Outcome::Went(said),
        ran matches Err(why) ==> r == Outcome::Failed(why),
{
    match ran {
        Ok(said) => Outcome::Went(said),
        Err(why) => Outcome::Failed(why),
    }
}

} // verus!
