//! The screens a session has open, and the first word on every key: the
//! listing at the bottom, never closed; each screen keeps its own cursor and
//! scroll, so going back lands where it was left; and `Ctrl-C` leaves from
//! anywhere.

use vstd::prelude::*;

use crate::text::owned;
use crate::tui::app::{crumb_of, Action, Mode, View};
use crate::tui::field::{Code, Key};
use vstd::view::View as _;

verus! {

/// One open screen: what it shows, where its cursor and scroll stand, and the
/// words it marks, inherited from the screen it was opened from.
pub struct Place {
    pub view: View,
    pub cursor: Option<usize>,
    pub scroll: u16,
    pub terms: Vec<String>,
}

/// A screen as the contracts see it.
pub struct Seen {
    pub view: View,
    pub cursor: Option<usize>,
    pub scroll: u16,
    pub terms: Seq<Seq<char>>,
}

pub open spec fn seen(p: Place) -> Seen {
    Seen { view: p.view, cursor: p.cursor, scroll: p.scroll, terms: p.terms@.map_values(|t: String| t@) }
}

/// The open screens, the listing first and the keyboard's last.
pub struct Stack {
    places: Vec<Place>,
}

impl vstd::view::View for Stack {
    type V = Seq<Seen>;

    closed spec fn view(&self) -> Seq<Seen> {
        self.places@.map_values(|p: Place| seen(p))
    }
}

/// A fresh screen of `view`, marking `terms`.
pub open spec fn fresh(view: View, terms: Seq<Seq<char>>) -> Seen {
    Seen { view, cursor: None, scroll: 0, terms }
}

/// A session is never on no screen, and its bottom screen is the listing.
pub open spec fn rooted(s: Seq<Seen>) -> bool {
    s.len() >= 1 && s[0].view == View::Notes
}

fn copy_terms(terms: &Vec<String>) -> (r: Vec<String>)
    ensures
        r@.map_values(|t: String| t@) == terms@.map_values(|t: String| t@),
{
    let mut out: Vec<String> = Vec::new();
    let mut i: usize = 0;
    while i < terms.len()
        invariant
            i <= terms.len(),
            out@.map_values(|t: String| t@) == terms@.subrange(0, i as int).map_values(|t: String| t@),
        decreases terms.len() - i,
    {
        let ghost before = out@.map_values(|t: String| t@);
        out.push(owned(terms[i].as_str()));
        assert(out@.map_values(|t: String| t@) =~= before.push(terms@[i as int]@));
        assert(terms@.subrange(0, i + 1).map_values(|t: String| t@) =~= terms@.subrange(0, i as int).map_values(|t: String| t@).push(terms@[i as int]@));
        i += 1;
    }
    assert(terms@.subrange(0, terms.len() as int) =~= terms@);
    out
}

impl Stack {
    /// The listing alone, with no cursor yet and nothing marked.
    pub fn new() -> (r: Stack)
        ensures
            r@ == seq![fresh(View::Notes, Seq::empty())],
    {
        let first = Place { view: View::Notes, cursor: None, scroll: 0, terms: Vec::new() };
        let places = vec![first];
        let r = Stack { places };
        assert(seen(r.places@[0]).terms =~= Seq::<Seq<char>>::empty());
        assert(r@ =~= seq![fresh(View::Notes, Seq::empty())]);
        r
    }

    /// How deep the stack is; one is the listing alone.
    pub fn depth(&self) -> (r: usize)
        ensures
            r == self@.len(),
    {
        self.places.len()
    }

    /// The screen the keyboard is on.
    pub fn top(&self) -> (r: &Place)
        requires
            rooted(self@),
        ensures
            seen(*r) == self@.last(),
    {
        let n = self.places.len();
        &self.places[n - 1]
    }

    /// The trail from the listing to where the keyboard is, outermost first.
    pub fn crumbs(&self) -> (r: Vec<String>)
        ensures
            r@.map_values(|c: String| c@) == self@.map_values(|s: Seen| crumb_of(s.view)),
    {
        let mut out: Vec<String> = Vec::new();
        let mut i: usize = 0;
        while i < self.places.len()
            invariant
                i <= self.places.len(),
                out@.map_values(|c: String| c@) == self@.subrange(0, i as int).map_values(|s: Seen| crumb_of(s.view)),
            decreases self.places.len() - i,
        {
            let ghost before = out@.map_values(|c: String| c@);
            let c = self.places[i].view.crumb();
            out.push(owned(c));
            assert(self@[i as int] == seen(self.places@[i as int]));
            assert(out@.map_values(|c: String| c@) =~= before.push(crumb_of(self@[i as int].view)));
            assert(self@.subrange(0, i + 1).map_values(|s: Seen| crumb_of(s.view))
                =~= self@.subrange(0, i as int).map_values(|s: Seen| crumb_of(s.view)).push(crumb_of(self@[i as int].view)));
            i += 1;
            assert(out@.map_values(|c: String| c@) =~= self@.subrange(0, i as int).map_values(|s: Seen| crumb_of(s.view)));
        }
        assert(self@.subrange(0, self@.len() as int) =~= self@);
        out
    }

    /// A screen opened on top, marking what the one below marks.
    pub fn open(&mut self, view: View)
        requires
            rooted(old(self)@),
        ensures
            final(self)@ == old(self)@.push(fresh(view, old(self)@.last().terms)),
    {
        let n = self.places.len();
        let terms = copy_terms(&self.places[n - 1].terms);
        self.places.push(Place { view, cursor: None, scroll: 0, terms });
        assert(self@ =~= old(self)@.push(fresh(view, old(self)@.last().terms)));
    }

    /// The top screen closed; `false`, and nothing closed, when it is the
    /// listing, so `Esc` can mean what it means there.
    pub fn back(&mut self) -> (r: bool)
        requires
            rooted(old(self)@),
        ensures
            r == (old(self)@.len() > 1),
            r ==> final(self)@ == old(self)@.drop_last(),
            !r ==> final(self)@ == old(self)@,
    {
        if self.places.len() > 1 {
            self.places.pop();
            assert(self@ =~= old(self)@.drop_last());
            true
        } else {
            false
        }
    }

    /// Where the keyboard's screen has its cursor and scroll now.
    pub fn settle(&mut self, cursor: Option<usize>, scroll: u16)
        requires
            rooted(old(self)@),
        ensures
            final(self)@ == old(self)@.update(old(self)@.len() - 1,
                Seen { cursor, scroll, ..old(self)@.last() }),
    {
        let n = self.places.len();
        let mut place = self.places.pop().unwrap();
        place.cursor = cursor;
        place.scroll = scroll;
        self.places.push(place);
        assert(self@ =~= old(self)@.update(n - 1, Seen { cursor, scroll, ..old(self)@.last() }));
    }
}

/// The listing is never closed: whatever is opened and closed, the bottom
/// screen stays the listing, and going all the way back ends there.
pub proof fn the_listing_is_never_popped(s: Seq<Seen>, view: View)
    requires
        rooted(s),
    ensures
        rooted(s.push(fresh(view, s.last().terms))),
        s.len() > 1 ==> rooted(s.drop_last()),
        s.drop_last().len() == 0 ==> s.len() == 1,
{
}

/// Going back undoes opening: the screen below is where it was left, its
/// cursor and scroll included.
pub proof fn back_lands_where_it_was_left(s: Seq<Seen>, view: View)
    requires
        rooted(s),
    ensures
        s.push(fresh(view, s.last().terms)).drop_last() == s,
{
    assert(s.push(fresh(view, s.last().terms)).drop_last() =~= s);
}

/// What happens to a key before any mode sees it.
#[derive(Debug, PartialEq, Eq)]
pub enum Gate {
    /// A key being released: the terminal reports both, which would move twice.
    Ignored,
    /// `Ctrl-C` leaves from anywhere without asking about the queue, as a
    /// terminal would; `q` is the key that asks.
    Quit,
    /// Any key dismisses the keys card or an alert.
    Dismissed,
    /// For the mode the keyboard is in.
    Dispatch(Mode),
}

/// What comes of a key before the mode's own keys, and which mode answers it.
pub fn gate(pressed: bool, key: Key, mode: Mode) -> (r: Gate)
    ensures
        !pressed ==> r == Gate::Ignored,
        pressed && key.ctrl && key.code == Code::Char('c') ==> r == Gate::Quit,
        pressed && !(key.ctrl && key.code == Code::Char('c')) ==> match mode {
            Mode::Help | Mode::Alert => r == Gate::Dismissed,
            _ => r == Gate::Dispatch(mode),
        },
{
    if !pressed {
        return Gate::Ignored;
    }
    if key.ctrl {
        match key.code {
            Code::Char('c') => return Gate::Quit,
            _ => {},
        }
    }
    match mode {
        Mode::Help | Mode::Alert => Gate::Dismissed,
        _ => Gate::Dispatch(mode),
    }
}

} // verus!
