//! What a key comes to while browsing, for the keys that mean the same on
//! every screen and for the `Ctrl` chords. What needs the session itself is
//! handed back for it to carry out; the keys that walk a list or scroll a
//! page are the screen's own.

use vstd::prelude::*;

use crate::text::owned;
use crate::tui::app::{half_page, Action, Ask, Subject, Touch, View};
use crate::tui::field::{Code, Key};
use crate::tui::prompt::{no_note, opt};
use vstd::view::View as _;

verus! {

/// What the key needs to know of the session.
pub struct Held {
    /// The note the cursor or the screen is on: its id, its title, and
    /// whether it is pinned.
    pub selected: Option<(String, String, bool)>,
    /// The file under the cursor, on the files screen.
    pub file_here: Option<String>,
    /// The note the screen is about, for `l`.
    pub about: Option<String>,
    pub touch: Touch,
    pub marks_empty: bool,
    pub queue_empty: bool,
    /// Whether the listing is the screen in front.
    pub on_listing: bool,
    /// The rows on screen, which `Ctrl-f` and `Ctrl-b` move half of.
    pub page: u16,
}

/// What a key comes to.
#[derive(Debug, PartialEq, Eq)]
pub enum Pressed {
    /// Nothing happens.
    Nothing,
    /// For the runtime.
    Act(Action),
    /// Quitting with a queue: asked about first.
    AskQuit,
    /// The keys card.
    Help,
    /// The `:` line, emptied.
    Command,
    /// The command palette, emptied.
    Commands,
    /// `updated` is now stamped, or now left alone.
    Touching(Touch),
    /// A prompt, filled with this to start from.
    Asking(Ask, String),
    /// Said on the status line: a failure, or not.
    Said(String, bool),
    /// The tag picker over these notes, or over the marked ones.
    Pick(Vec<String>),
    PickMarked,
    /// The queue, on screen.
    Queue,
    /// A screen put on the stack.
    Open(View),
    /// The listing narrowed to the `n`th commonest tag; `0` lets go.
    Scope(u32),
    /// The cursor or the page moved by this many rows.
    Step(i32),
    /// Delete what is marked, or the note on screen after a `y`.
    Delete,
    /// The listing's `-l` turned over.
    Wide,
    /// The crumb row shown or hidden.
    Crumbs,
    /// A key for the screen in front: walking, scrolling, opening.
    Screen,
}

/// The note on screen's id, if any.
pub open spec fn selected_id(held: Held) -> Option<Seq<char>> {
    match held.selected {
        Some((id, _, _)) => Some(id@),
        None => None,
    }
}

/// Whether `r` is what `key` comes to while browsing.
pub open spec fn pressed(r: Pressed, key: Key, held: Held) -> bool {
    if key.ctrl {
        match key.code {
            Code::Char('f') => r == Pressed::Step(half_page_of(held.page)),
            Code::Char('b') => r == Pressed::Step((-half_page_of(held.page)) as i32),
            Code::Char('d') => r == Pressed::Delete,
            Code::Char('a') => r == Pressed::Commands,
            Code::Char('w') => r == (if held.on_listing { Pressed::Wide } else { Pressed::Nothing }),
            Code::Char('g') => r == Pressed::Crumbs,
            _ => r == Pressed::Nothing,
        }
    } else {
        match key.code {
            Code::Char('q') => r == (if held.queue_empty { Pressed::Act(Action::Quit) } else { Pressed::AskQuit }),
            Code::Char('r') => r == Pressed::Act(Action::Reload),
            Code::Char('?') => r == Pressed::Help,
            Code::Char(':') => r == Pressed::Command,
            Code::Char('T') => r == Pressed::Touching(match held.touch { Touch::Stamp => Touch::Keep, Touch::Keep => Touch::Stamp }),
            Code::Char('e') => match held.selected {
                Some((id, _, _)) => r matches Pressed::Act(Action::Edit { key, touch }) && key@ == id@ && touch == held.touch,
                None => r == Pressed::Nothing,
            },
            Code::Char('a') => r matches Pressed::Asking(Ask::Title, start) && start@.len() == 0,
            Code::Char('m') => match held.selected {
                Some((_, title, _)) => r matches Pressed::Asking(Ask::Retitle, start) && start@ == title@,
                None => r == Pressed::Nothing,
            },
            Code::Char('p') => match held.selected {
                Some((id, _, pinned)) => r matches Pressed::Act(Action::Pin { key, pinned: p, touch })
                    && key@ == id@ && p == !pinned && touch == held.touch,
                None => r matches Pressed::Said(t, true) && t@ == "no note on screen — open one first"@,
            },
            Code::Char('#') => if held.marks_empty {
                match held.selected {
                    Some((id, _, _)) => r matches Pressed::Pick(keys) && keys@.len() == 1 && keys@[0]@ == id@,
                    None => r == Pressed::Nothing,
                }
            } else {
                r == Pressed::PickMarked
            },
            Code::Char('Q') => r == Pressed::Queue,
            Code::Char('t') => r == Pressed::Open(View::Todo),
            Code::Char('l') => r matches Pressed::Open(View::Log(about)) && opt(about) == opt(held.about),
            Code::Char('b') => match held.file_here {
                Some(name) => r matches Pressed::Open(View::Backlinks(Subject::File(f))) && f@ == name@,
                None => match selected_id(held) {
                    Some(id) => r matches Pressed::Open(View::Backlinks(Subject::Note(n))) && n@ == id,
                    None => r matches Pressed::Said(t, true) && t@ == no_note(),
                },
            },
            Code::Char('B') => match selected_id(held) {
                Some(id) => r matches Pressed::Open(View::Blame(n)) && n@ == id,
                None => r matches Pressed::Said(t, true) && t@ == no_note(),
            },
            Code::Char(c) => if '0' <= c && c <= '9' {
                r == Pressed::Scope((c as u32 - '0' as u32) as u32)
            } else if c == 'd' {
                r matches Pressed::Said(t, false) && t@ == "delete is Ctrl-d"@
            } else {
                r == Pressed::Screen
            },
            _ => r == Pressed::Screen,
        }
    }
}

/// Half a page as `Ctrl-f` moves it.
pub open spec fn half_page_of(page: u16) -> i32 {
    ((if page < 2 { 2 } else { page as int }) / 2) as i32
}

/// A key while browsing; see [`pressed`].
pub fn browsed(key: Key, held: &Held) -> (r: Pressed)
    ensures
        pressed(r, key, *held),
{
    if key.ctrl {
        return match key.code {
            Code::Char('f') => Pressed::Step(half_page(held.page)),
            Code::Char('b') => {
                let half = half_page(held.page);
                Pressed::Step(-half)
            },
            Code::Char('d') => Pressed::Delete,
            Code::Char('a') => Pressed::Commands,
            Code::Char('w') => if held.on_listing { Pressed::Wide } else { Pressed::Nothing },
            Code::Char('g') => Pressed::Crumbs,
            _ => Pressed::Nothing,
        };
    }
    match key.code {
        Code::Char('q') => if held.queue_empty { Pressed::Act(Action::Quit) } else { Pressed::AskQuit },
        Code::Char('r') => Pressed::Act(Action::Reload),
        Code::Char('?') => Pressed::Help,
        Code::Char(':') => Pressed::Command,
        Code::Char('T') => Pressed::Touching(match held.touch { Touch::Stamp => Touch::Keep, Touch::Keep => Touch::Stamp }),
        Code::Char('e') => match &held.selected {
            Some((id, _, _)) => Pressed::Act(Action::Edit { key: owned(id.as_str()), touch: held.touch }),
            None => Pressed::Nothing,
        },
        Code::Char('a') => {
            proof { reveal_strlit(""); }
            Pressed::Asking(Ask::Title, String::new())
        },
        Code::Char('m') => match &held.selected {
            Some((_, title, _)) => Pressed::Asking(Ask::Retitle, owned(title.as_str())),
            None => Pressed::Nothing,
        },
        Code::Char('p') => match &held.selected {
            Some((id, _, pinned)) => Pressed::Act(Action::Pin { key: owned(id.as_str()), pinned: !*pinned, touch: held.touch }),
            None => Pressed::Said(owned("no note on screen — open one first"), true),
        },
        Code::Char('#') => if held.marks_empty {
            match &held.selected {
                Some((id, _, _)) => {
                    let keys = vec![owned(id.as_str())];
                    Pressed::Pick(keys)
                },
                None => Pressed::Nothing,
            }
        } else {
            Pressed::PickMarked
        },
        Code::Char('Q') => Pressed::Queue,
        Code::Char('t') => Pressed::Open(View::Todo),
        Code::Char('l') => Pressed::Open(View::Log(match &held.about {
            Some(a) => Some(owned(a.as_str())),
            None => None,
        })),
        Code::Char('b') => match &held.file_here {
            Some(name) => Pressed::Open(View::Backlinks(Subject::File(owned(name.as_str())))),
            None => match &held.selected {
                Some((id, _, _)) => Pressed::Open(View::Backlinks(Subject::Note(owned(id.as_str())))),
                None => Pressed::Said(owned("no note on screen — name one, or open one first"), true),
            },
        },
        Code::Char('B') => match &held.selected {
            Some((id, _, _)) => Pressed::Open(View::Blame(owned(id.as_str()))),
            None => Pressed::Said(owned("no note on screen — name one, or open one first"), true),
        },
        Code::Char(c) => if '0' <= c && c <= '9' {
            Pressed::Scope(c as u32 - '0' as u32)
        } else if c == 'd' {
            Pressed::Said(owned("delete is Ctrl-d"), false)
        } else {
            Pressed::Screen
        },
        _ => Pressed::Screen,
    }
}

/// `p` turns the pin over: on a note whose pinned flag is `b` it asks the
/// runtime to pin the same note with the flag `!b`, keeping the stamping
/// choice; so a second `p` on the note as the first one left it puts the
/// flag back as it was.
pub proof fn p_toggles_the_pin(key: Key, held: Held, r: Pressed, again: Held, r2: Pressed)
    requires
        key.code == Code::Char('p'),
        !key.ctrl,
        held.selected is Some,
        pressed(r, key, held),
        again.selected is Some,
        again.selected.unwrap().0@ == held.selected.unwrap().0@,
        again.selected.unwrap().2 == !held.selected.unwrap().2,
        again.touch == held.touch,
        pressed(r2, key, again),
    ensures
        r matches Pressed::Act(Action::Pin { key: k, pinned, touch })
            && k@ == held.selected.unwrap().0@ && pinned == !held.selected.unwrap().2 && touch == held.touch,
        r2 matches Pressed::Act(Action::Pin { key: k, pinned, touch })
            && k@ == held.selected.unwrap().0@ && pinned == held.selected.unwrap().2 && touch == held.touch,
{
}

} // verus!
