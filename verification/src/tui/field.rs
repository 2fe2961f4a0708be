//! A one-line text field with readline's keys.
//!
//! A chord arrives as its letter (`Ctrl-D` is `Char('d')`), so an unbound chord
//! must do nothing rather than type the letter; bound ones follow readline,
//! where the habit comes from.
//!
//! The kill ring is one entry deep and consecutive kills replace: enough for
//! `Ctrl-Y` to undo a `Ctrl-W`, in a line rarely longer than a title.
//!
//! The cursor counts characters, not bytes, so it can never stand inside one.

use vstd::prelude::*;

use crate::text::{alnum, chars_of, is_alnum, is_white, string_all, string_of, white};

verus! {

/// Told apart because a query reruns when its text changes, not when the
/// cursor moves.
#[derive(Debug, Clone, Copy, PartialEq, Eq, Structural)]
pub enum Edit {
    Typed,
    Moved,
}

/// Which key was pressed, as far as a field cares.
#[derive(Debug, Clone, Copy, PartialEq, Eq)]
pub enum Code {
    Char(char),
    Backspace,
    Delete,
    Left,
    Right,
    Home,
    End,
    Up,
    Down,
    Enter,
    Esc,
    /// Any key a field does not answer to.
    Other,
}

/// A key and the two modifiers a field reads. Shift is not one of them, or
/// the field would take no capitals.
#[derive(Debug, Clone, Copy, PartialEq, Eq)]
pub struct Key {
    pub code: Code,
    pub ctrl: bool,
    pub alt: bool,
}

/// Readline's two words: the `Alt` keys stop at punctuation (`tag:work`), while
/// `Ctrl-W` stops only at whitespace and takes a whole `tag:"12.34"`.
#[derive(Debug, Clone, Copy, PartialEq, Eq)]
pub enum Word {
    Alnum,
    /// Blank-delimited: anything but whitespace.
    Blank,
}

pub open spec fn holds(word: Word, c: char) -> bool {
    match word {
        Word::Alnum => alnum(c),
        Word::Blank => !white(c),
    }
}

impl Word {
    fn holds(self, c: char) -> (r: bool)
        ensures
            r == holds(self, c),
    {
        match self {
            Word::Alnum => is_alnum(c),
            Word::Blank => !is_white(c),
        }
    }
}

/// What a field holds: its text, where the cursor stands in it (a count of
/// characters), and what the last kill took.
pub struct Line {
    pub text: Seq<char>,
    pub at: int,
    pub cut: Seq<char>,
}

/// The cursor is inside the text or at its end.
pub open spec fn fits(s: Line) -> bool {
    0 <= s.at <= s.text.len()
}

/// One character back, or where it is at the start.
pub open spec fn back(s: Line) -> int {
    if s.at > 0 { s.at - 1 } else { s.at }
}

/// One character on, or where it is at the end.
pub open spec fn forward(s: Line) -> int {
    if s.at < s.text.len() { s.at + 1 } else { s.at }
}

/// Walks back from `at`: over separators until a word begins (`into` false),
/// then over the word until it ends.
pub open spec fn walk_back(text: Seq<char>, at: int, word: Word, into: bool) -> int
    decreases at,
{
    if at <= 0 {
        at
    } else if holds(word, text[at - 1]) {
        walk_back(text, at - 1, word, true)
    } else if into {
        at
    } else {
        walk_back(text, at - 1, word, false)
    }
}

/// The same walk, forwards.
pub open spec fn walk_forward(text: Seq<char>, at: int, word: Word, into: bool) -> int
    decreases text.len() - at,
{
    if at >= text.len() {
        at
    } else if holds(word, text[at]) {
        walk_forward(text, at + 1, word, true)
    } else if into {
        at
    } else {
        walk_forward(text, at + 1, word, false)
    }
}

/// Where the previous word starts: separators first, then the word, so it
/// works from inside trailing spaces.
pub open spec fn word_back(s: Line, word: Word) -> int {
    walk_back(s.text, s.at, word, false)
}

pub open spec fn word_forward(s: Line, word: Word) -> int {
    walk_forward(s.text, s.at, word, false)
}

/// The cursor moved to `to`.
pub open spec fn moved(s: Line, to: int) -> (Line, Option<Edit>) {
    (Line { text: s.text, at: to, cut: s.cut }, Some(Edit::Moved))
}

/// `c` typed at the cursor, which moves past it.
pub open spec fn inserted(s: Line, c: char) -> (Line, Option<Edit>) {
    (
        Line {
            text: s.text.subrange(0, s.at).push(c) + s.text.subrange(s.at, s.text.len() as int),
            at: s.at + 1,
            cut: s.cut,
        },
        Some(Edit::Typed),
    )
}

/// `from..to` taken out and kept as the cut; taking nothing keeps the previous
/// cut, so an idle `Ctrl-K` at the end of a line does not lose what `Ctrl-W`
/// took.
pub open spec fn killed(s: Line, from: int, to: int) -> (Line, Option<Edit>) {
    if from >= to {
        (s, None)
    } else {
        (
            Line {
                text: s.text.subrange(0, from) + s.text.subrange(to, s.text.len() as int),
                at: from,
                cut: s.text.subrange(from, to),
            },
            Some(Edit::Typed),
        )
    }
}

/// The cut put back at the cursor, and kept so it can be yanked again.
pub open spec fn yanked(s: Line) -> (Line, Option<Edit>) {
    if s.cut.len() == 0 {
        (s, None)
    } else {
        (
            Line {
                text: s.text.subrange(0, s.at) + s.cut + s.text.subrange(s.at, s.text.len() as int),
                at: s.at + s.cut.len(),
                cut: s.cut,
            },
            Some(Edit::Typed),
        )
    }
}

/// What a `Ctrl` chord does.
pub open spec fn chorded(s: Line, c: char) -> (Line, Option<Edit>) {
    if c == 'a' {
        moved(s, 0)
    } else if c == 'e' {
        moved(s, s.text.len() as int)
    } else if c == 'b' {
        moved(s, back(s))
    } else if c == 'f' {
        moved(s, forward(s))
    } else if c == 'h' {
        killed(s, back(s), s.at)
    } else if c == 'd' {
        // Never readline's end-of-file: outside a field `Ctrl-D` deletes a
        // note, so it must not depend on what has been typed.
        killed(s, s.at, forward(s))
    } else if c == 'w' {
        killed(s, word_back(s, Word::Blank), s.at)
    } else if c == 'u' {
        killed(s, 0, s.at)
    } else if c == 'k' {
        killed(s, s.at, s.text.len() as int)
    } else if c == 'y' {
        yanked(s)
    } else {
        (s, None)
    }
}

/// What an `Alt` chord does.
pub open spec fn meta(s: Line, c: char) -> (Line, Option<Edit>) {
    if c == 'b' {
        moved(s, word_back(s, Word::Alnum))
    } else if c == 'f' {
        moved(s, word_forward(s, Word::Alnum))
    } else if c == 'd' {
        killed(s, s.at, word_forward(s, Word::Alnum))
    } else {
        (s, None)
    }
}

/// What a key does to a field whose cursor is drawn. `None` leaves the key to
/// the caller, including an unbound chord, which must not type its letter.
pub open spec fn keyed(s: Line, key: Key) -> (Line, Option<Edit>) {
    match key.code {
        Code::Char(c) => if key.ctrl {
            chorded(s, c)
        } else if key.alt {
            meta(s, c)
        } else {
            inserted(s, c)
        },
        Code::Backspace => if key.alt {
            killed(s, word_back(s, Word::Alnum), s.at)
        } else {
            killed(s, back(s), s.at)
        },
        Code::Delete => killed(s, s.at, forward(s)),
        Code::Left => if key.ctrl || key.alt {
            moved(s, word_back(s, Word::Alnum))
        } else {
            moved(s, back(s))
        },
        Code::Right => if key.ctrl || key.alt {
            moved(s, word_forward(s, Word::Alnum))
        } else {
            moved(s, forward(s))
        },
        Code::Home => moved(s, 0),
        Code::End => moved(s, s.text.len() as int),
        Code::Up | Code::Down | Code::Enter | Code::Esc | Code::Other => (s, None),
    }
}

/// What a key does to a field whose cursor is not drawn: only keys that keep
/// the cursor at the end, so nothing moves the insertion point out of sight.
pub open spec fn erased(s: Line, key: Key) -> (Line, Option<Edit>) {
    match key.code {
        Code::Char(c) => if key.ctrl && c == 'w' {
            killed(s, word_back(s, Word::Blank), s.at)
        } else if key.ctrl && (c == 'u' || c == 'k') {
            // The cursor is at the end, so both kill everything.
            killed(s, 0, s.at)
        } else if key.ctrl && c == 'h' {
            killed(s, back(s), s.at)
        } else if key.ctrl || key.alt {
            (s, None)
        } else {
            inserted(s, c)
        },
        Code::Backspace => if key.alt {
            killed(s, word_back(s, Word::Alnum), s.at)
        } else {
            killed(s, back(s), s.at)
        },
        _ => (s, None),
    }
}

proof fn lemma_walk_back(text: Seq<char>, at: int, word: Word, into: bool)
    requires
        0 <= at <= text.len(),
    ensures
        0 <= walk_back(text, at, word, into) <= at,
    decreases at,
{
    if at > 0 {
        lemma_walk_back(text, at - 1, word, holds(word, text[at - 1]) || into);
        lemma_walk_back(text, at - 1, word, true);
        lemma_walk_back(text, at - 1, word, false);
    }
}

proof fn lemma_walk_forward(text: Seq<char>, at: int, word: Word, into: bool)
    requires
        0 <= at <= text.len(),
    ensures
        at <= walk_forward(text, at, word, into) <= text.len(),
    decreases text.len() - at,
{
    if at < text.len() {
        lemma_walk_forward(text, at + 1, word, true);
        lemma_walk_forward(text, at + 1, word, false);
    }
}

/// What a kill took, a yank puts back where it was: `Ctrl-Y` undoes a
/// `Ctrl-W`, and the cursor lands after what came back.
pub proof fn yank_undoes_kill(s: Line, from: int, to: int)
    requires
        fits(s),
        0 <= from < to <= s.text.len(),
    ensures
        yanked(killed(s, from, to).0).0.text == s.text,
        yanked(killed(s, from, to).0).0.at == to,
        yanked(killed(s, from, to).0).1 == Some(Edit::Typed),
{
    let k = killed(s, from, to).0;
    assert(k.text.subrange(0, from) =~= s.text.subrange(0, from));
    assert(k.text.subrange(from, k.text.len() as int) =~= s.text.subrange(to, s.text.len() as int));
    assert(s.text =~= s.text.subrange(0, from) + s.text.subrange(from, to) + s.text.subrange(to, s.text.len() as int));
}

/// A kill that takes nothing changes nothing, the cut included, so an idle
/// `Ctrl-K` at the end of a line keeps what `Ctrl-W` took.
pub proof fn an_empty_kill_keeps_the_cut(s: Line, from: int, to: int)
    requires
        from >= to,
    ensures
        killed(s, from, to) == (s, Option::<Edit>::None),
{
}

/// A chord the field does not bind leaves the field as it was and the key to
/// the caller: it never types its letter.
pub proof fn an_unbound_chord_does_nothing(s: Line, c: char)
    requires
        c != 'a' && c != 'e' && c != 'b' && c != 'f' && c != 'h' && c != 'd' && c != 'w'
            && c != 'u' && c != 'k' && c != 'y',
    ensures
        keyed(s, Key { code: Code::Char(c), ctrl: true, alt: false }) == (s, Option::<Edit>::None),
{
}

/// Where the cursor is not drawn, every key leaves it at the end of the text.
pub proof fn erasing_keeps_the_cursor_at_the_end(s: Line, key: Key)
    requires
        fits(s),
        s.at == s.text.len(),
    ensures
        erased(s, key).0.at == erased(s, key).0.text.len(),
{
    lemma_walk_back(s.text, s.at, Word::Blank, false);
    lemma_walk_back(s.text, s.at, Word::Alnum, false);
}

/// Every key leaves the cursor inside the text or at its end.
pub proof fn keys_keep_the_cursor_in_the_text(s: Line, key: Key)
    requires
        fits(s),
    ensures
        fits(keyed(s, key).0),
        fits(erased(s, key).0),
{
    lemma_walk_back(s.text, s.at, Word::Blank, false);
    lemma_walk_back(s.text, s.at, Word::Alnum, false);
    lemma_walk_forward(s.text, s.at, Word::Alnum, false);
}

#[derive(Debug)]
pub struct Field {
    text: Vec<char>,
    /// A count of characters, only ever moved within the text.
    at: usize,
    /// Kept across `set` and `clear`.
    cut: Vec<char>,
}

impl View for Field {
    type V = Line;

    closed spec fn view(&self) -> Line {
        Line { text: self.text@, at: self.at as int, cut: self.cut@ }
    }
}

impl Default for Field {
    fn default() -> (r: Field)
        ensures
            r@.text.len() == 0,
            r@.at == 0,
            r@.cut.len() == 0,
    {
        Field { text: Vec::new(), at: 0, cut: Vec::new() }
    }
}

impl Clone for Field {
    fn clone(&self) -> (r: Field)
        ensures
            r@ == self@,
    {
        Field { text: self.text.clone(), at: self.at, cut: self.cut.clone() }
    }
}

/// `v[..from] + mid + v[to..]`.
fn spliced(v: &Vec<char>, from: usize, to: usize, mid: &Vec<char>) -> (r: Vec<char>)
    requires
        from <= to <= v.len(),
    ensures
        r@ == v@.subrange(0, from as int) + mid@ + v@.subrange(to as int, v.len() as int),
{
    let mut out: Vec<char> = Vec::new();
    let mut i: usize = 0;
    while i < from
        invariant
            i <= from <= to <= v.len(),
            out@ == v@.subrange(0, i as int),
        decreases from - i,
    {
        out.push(v[i]);
        i += 1;
        assert(out@ =~= v@.subrange(0, i as int));
    }
    let mut j: usize = 0;
    while j < mid.len()
        invariant
            j <= mid.len(),
            out@ == v@.subrange(0, from as int) + mid@.subrange(0, j as int),
        decreases mid.len() - j,
    {
        out.push(mid[j]);
        j += 1;
        assert(out@ =~= v@.subrange(0, from as int) + mid@.subrange(0, j as int));
    }
    assert(mid@.subrange(0, mid.len() as int) =~= mid@);
    let mut k: usize = to;
    while k < v.len()
        invariant
            from <= to <= k <= v.len(),
            out@ == v@.subrange(0, from as int) + mid@ + v@.subrange(to as int, k as int),
        decreases v.len() - k,
    {
        out.push(v[k]);
        k += 1;
        assert(out@ =~= v@.subrange(0, from as int) + mid@ + v@.subrange(to as int, k as int));
    }
    out
}

impl Field {
    pub open spec fn wf(&self) -> bool {
        fits(self@)
    }

    pub fn text(&self) -> (r: String)
        ensures
            r@ == self@.text,
    {
        string_all(&self.text)
    }

    pub fn is_empty(&self) -> (r: bool)
        ensures
            r == (self@.text.len() == 0),
    {
        self.text.len() == 0
    }

    /// The text left of the cursor, which places the terminal's cursor.
    pub fn before(&self) -> (r: String)
        requires
            self.wf(),
        ensures
            r@ == self@.text.subrange(0, self@.at),
    {
        string_of(&self.text, 0, self.at)
    }

    /// Leaves the cursor at the end.
    pub fn set(&mut self, text: String)
        ensures
            final(self)@.text == text@,
            final(self)@.at == text@.len(),
            final(self)@.cut == old(self)@.cut,
            final(self).wf(),
    {
        self.text = chars_of(text.as_str());
        self.at = self.text.len();
    }

    pub fn clear(&mut self)
        ensures
            final(self)@.text.len() == 0,
            final(self)@.at == 0,
            final(self)@.cut == old(self)@.cut,
            final(self).wf(),
    {
        self.text = Vec::new();
        self.at = 0;
    }

    /// The text, leaving the field empty.
    pub fn take(&mut self) -> (r: String)
        ensures
            r@ == old(self)@.text,
            final(self)@.text.len() == 0,
            final(self)@.at == 0,
            final(self)@.cut == old(self)@.cut,
            final(self).wf(),
    {
        let r = string_all(&self.text);
        self.text = Vec::new();
        self.at = 0;
        r
    }

    /// What `key` does: see [`keyed`].
    pub fn key(&mut self, key: Key) -> (r: Option<Edit>)
        requires
            old(self).wf(),
        ensures
            (final(self)@, r) == keyed(old(self)@, key),
            final(self).wf(),
    {
        let ctrl = key.ctrl;
        let alt = key.alt;
        match key.code {
            Code::Char(c) => if ctrl {
                self.chord(c)
            } else if alt {
                self.meta(c)
            } else {
                Some(self.insert(c))
            },
            Code::Backspace => if alt {
                let from = self.word_back(Word::Alnum);
                self.kill(from, self.at)
            } else {
                let from = self.back();
                self.kill(from, self.at)
            },
            Code::Delete => {
                let to = self.forward();
                self.kill(self.at, to)
            },
            Code::Left => if ctrl || alt {
                let to = self.word_back(Word::Alnum);
                Some(self.to(to))
            } else {
                let to = self.back();
                Some(self.to(to))
            },
            Code::Right => if ctrl || alt {
                let to = self.word_forward(Word::Alnum);
                Some(self.to(to))
            } else {
                let to = self.forward();
                Some(self.to(to))
            },
            Code::Home => Some(self.to(0)),
            Code::End => {
                let end = self.text.len();
                Some(self.to(end))
            },
            Code::Up | Code::Down | Code::Enter | Code::Esc | Code::Other => None,
        }
    }

    /// What `key` does where the cursor is not drawn: see [`erased`].
    pub fn erasing(&mut self, key: Key) -> (r: Option<Edit>)
        requires
            old(self).wf(),
        ensures
            (final(self)@, r) == erased(old(self)@, key),
            final(self).wf(),
    {
        let ctrl = key.ctrl;
        let alt = key.alt;
        match key.code {
            Code::Char(c) => if ctrl && c == 'w' {
                let from = self.word_back(Word::Blank);
                self.kill(from, self.at)
            } else if ctrl && (c == 'u' || c == 'k') {
                self.kill(0, self.at)
            } else if ctrl && c == 'h' {
                let from = self.back();
                self.kill(from, self.at)
            } else if ctrl || alt {
                None
            } else {
                Some(self.insert(c))
            },
            Code::Backspace => if alt {
                let from = self.word_back(Word::Alnum);
                self.kill(from, self.at)
            } else {
                let from = self.back();
                self.kill(from, self.at)
            },
            _ => None,
        }
    }

    fn chord(&mut self, c: char) -> (r: Option<Edit>)
        requires
            old(self).wf(),
        ensures
            (final(self)@, r) == chorded(old(self)@, c),
            final(self).wf(),
    {
        if c == 'a' {
            Some(self.to(0))
        } else if c == 'e' {
            let end = self.text.len();
            Some(self.to(end))
        } else if c == 'b' {
            let to = self.back();
            Some(self.to(to))
        } else if c == 'f' {
            let to = self.forward();
            Some(self.to(to))
        } else if c == 'h' {
            let from = self.back();
            self.kill(from, self.at)
        } else if c == 'd' {
            let to = self.forward();
            self.kill(self.at, to)
        } else if c == 'w' {
            let from = self.word_back(Word::Blank);
            self.kill(from, self.at)
        } else if c == 'u' {
            self.kill(0, self.at)
        } else if c == 'k' {
            let end = self.text.len();
            self.kill(self.at, end)
        } else if c == 'y' {
            self.yank()
        } else {
            None
        }
    }

    fn meta(&mut self, c: char) -> (r: Option<Edit>)
        requires
            old(self).wf(),
        ensures
            (final(self)@, r) == meta(old(self)@, c),
            final(self).wf(),
    {
        if c == 'b' {
            let to = self.word_back(Word::Alnum);
            Some(self.to(to))
        } else if c == 'f' {
            let to = self.word_forward(Word::Alnum);
            Some(self.to(to))
        } else if c == 'd' {
            let to = self.word_forward(Word::Alnum);
            self.kill(self.at, to)
        } else {
            None
        }
    }

    fn insert(&mut self, c: char) -> (r: Edit)
        requires
            old(self).wf(),
        ensures
            (final(self)@, Some(r)) == inserted(old(self)@, c),
            final(self).wf(),
    {
        let one = vec![c];
        self.text = spliced(&self.text, self.at, self.at, &one);
        assert(one@ =~= seq![c]);
        assert(self.text@ =~= old(self)@.text.subrange(0, old(self)@.at).push(c)
            + old(self)@.text.subrange(old(self)@.at, old(self)@.text.len() as int));
        let n = self.text.len();
        assert(self.at + 1 <= n);
        self.at = self.at + 1;
        Edit::Typed
    }

    fn kill(&mut self, from: usize, to: usize) -> (r: Option<Edit>)
        requires
            old(self).wf(),
            from <= old(self)@.text.len(),
            to <= old(self)@.text.len(),
        ensures
            (final(self)@, r) == killed(old(self)@, from as int, to as int),
            final(self).wf(),
    {
        if from >= to {
            return None;
        }
        let nothing: Vec<char> = Vec::new();
        self.cut = string_of_vec(&self.text, from, to);
        self.text = spliced(&self.text, from, to, &nothing);
        assert(self.text@ =~= old(self)@.text.subrange(0, from as int)
            + old(self)@.text.subrange(to as int, old(self)@.text.len() as int));
        self.at = from;
        Some(Edit::Typed)
    }

    fn yank(&mut self) -> (r: Option<Edit>)
        requires
            old(self).wf(),
        ensures
            (final(self)@, r) == yanked(old(self)@),
            final(self).wf(),
    {
        if self.cut.len() == 0 {
            return None;
        }
        self.text = spliced(&self.text, self.at, self.at, &self.cut);
        let n = self.text.len();
        assert(self.at + self.cut.len() <= n);
        self.at = self.at + self.cut.len();
        Some(Edit::Typed)
    }

    fn to(&mut self, at: usize) -> (r: Edit)
        requires
            old(self).wf(),
            at <= old(self)@.text.len(),
        ensures
            (final(self)@, Some(r)) == moved(old(self)@, at as int),
            final(self).wf(),
    {
        self.at = at;
        Edit::Moved
    }

    fn back(&self) -> (r: usize)
        requires
            self.wf(),
        ensures
            r == back(self@),
    {
        if self.at > 0 { self.at - 1 } else { self.at }
    }

    fn forward(&self) -> (r: usize)
        requires
            self.wf(),
        ensures
            r == forward(self@),
    {
        if self.at < self.text.len() { self.at + 1 } else { self.at }
    }

    fn word_back(&self, word: Word) -> (r: usize)
        requires
            self.wf(),
        ensures
            r == word_back(self@, word),
            r <= self@.at,
    {
        let mut at = self.at;
        let mut into = false;
        proof {
            lemma_walk_back(self@.text, self@.at, word, false);
        }
        while at > 0
            invariant
                at <= self.at <= self.text.len(),
                walk_back(self@.text, at as int, word, into) == word_back(self@, word),
            decreases at,
        {
            let c = self.text[at - 1];
            let inside = word.holds(c);
            if !inside && into {
                return at;
            }
            if inside {
                into = true;
            }
            at -= 1;
        }
        proof {
            lemma_walk_back(self@.text, self@.at, word, false);
        }
        at
    }

    fn word_forward(&self, word: Word) -> (r: usize)
        requires
            self.wf(),
        ensures
            r == word_forward(self@, word),
            self@.at <= r <= self@.text.len(),
    {
        let mut at = self.at;
        let mut into = false;
        proof {
            lemma_walk_forward(self@.text, self@.at, word, false);
        }
        while at < self.text.len()
            invariant
                self.at <= at <= self.text.len(),
                walk_forward(self@.text, at as int, word, into) == word_forward(self@, word),
            decreases self.text.len() - at,
        {
            let c = self.text[at];
            let inside = word.holds(c);
            if !inside && into {
                return at;
            }
            if inside {
                into = true;
            }
            at += 1;
        }
        at
    }
}

fn string_of_vec(v: &Vec<char>, from: usize, to: usize) -> (r: Vec<char>)
    requires
        from <= to <= v.len(),
    ensures
        r@ == v@.subrange(from as int, to as int),
{
    let mut out: Vec<char> = Vec::new();
    let mut i = from;
    while i < to
        invariant
            from <= i <= to <= v.len(),
            out@ == v@.subrange(from as int, i as int),
        decreases to - i,
    {
        out.push(v[i]);
        i += 1;
        assert(out@ =~= v@.subrange(from as int, i as int));
    }
    out
}


/// `Home` goes to the start of the line and `End` to its end, wherever the
/// cursor stood, leaving the text and the cut alone; so a character typed
/// next lands in front of the whole text, or after it.
pub proof fn home_and_end_reach_the_ends(s: Line, ctrl: bool, alt: bool, c: char)
    requires
        fits(s),
    ensures
        keyed(s, Key { code: Code::Home, ctrl, alt }) == (Line { text: s.text, at: 0, cut: s.cut }, Some(Edit::Moved)),
        keyed(s, Key { code: Code::End, ctrl, alt }) == (Line { text: s.text, at: s.text.len() as int, cut: s.cut }, Some(Edit::Moved)),
        keyed(keyed(s, Key { code: Code::Home, ctrl, alt }).0, Key { code: Code::Char(c), ctrl: false, alt: false }).0.text
            == seq![c] + s.text,
        keyed(keyed(s, Key { code: Code::End, ctrl, alt }).0, Key { code: Code::Char(c), ctrl: false, alt: false }).0.text
            == s.text.push(c),
{
    let h = keyed(s, Key { code: Code::Home, ctrl, alt }).0;
    assert(h.text.subrange(0, 0).push(c) + h.text.subrange(0, h.text.len() as int) =~= seq![c] + s.text);
    let e = keyed(s, Key { code: Code::End, ctrl, alt }).0;
    assert(e.text.subrange(0, e.text.len() as int).push(c) + e.text.subrange(e.text.len() as int, e.text.len() as int) =~= s.text.push(c));
}
} // verus!
