//! noda's colours as what they mean: which slot of the terminal's palette a
//! kind of text takes, and whether it is dimmed or bold. Each writer (the
//! terminal browser, the stylesheet) decides how a slot is drawn.

use vstd::prelude::*;

verus! {

/// A slot of the terminal's sixteen-colour palette.
#[derive(Clone, Copy, PartialEq, Eq, Debug, Structural)]
pub enum Hue {
    Black,
    Red,
    Green,
    Yellow,
    Blue,
    Magenta,
    Cyan,
    White,
    BrightBlack,
    BrightRed,
    BrightGreen,
    BrightYellow,
    BrightBlue,
    BrightMagenta,
    BrightCyan,
    BrightWhite,
}

/// How a kind of text is drawn: a palette slot, or the default foreground,
/// and two effects.
#[derive(Clone, Copy, PartialEq, Eq, Debug, Structural)]
pub struct Ink {
    pub fg: Option<Hue>,
    pub bold: bool,
    pub dim: bool,
}

/// The default foreground, with no effect.
pub fn plain() -> (r: Ink)
    ensures
        r == (Ink { fg: None, bold: false, dim: false }),
{
    Ink { fg: None, bold: false, dim: false }
}

/// Timestamps and anything said in passing.
pub fn muted() -> (r: Ink)
    ensures
        r == (Ink { fg: None, bold: false, dim: true }),
{
    Ink { fg: None, bold: false, dim: true }
}

/// A note's id, and a commit's, which is an id too.
pub fn id() -> (r: Ink)
    ensures
        r == (Ink { fg: Some(Hue::Yellow), bold: false, dim: false }),
{
    Ink { fg: Some(Hue::Yellow), bold: false, dim: false }
}

/// The slug: the id's yellow, dimmed, so id and slug read as one filename.
pub fn slug() -> (r: Ink)
    ensures
        r == (Ink { fg: Some(Hue::Yellow), bold: false, dim: true }),
{
    Ink { fg: Some(Hue::Yellow), bold: false, dim: true }
}

pub fn tags() -> (r: Ink)
    ensures
        r == (Ink { fg: Some(Hue::Cyan), bold: false, dim: false }),
{
    Ink { fg: Some(Hue::Cyan), bold: false, dim: false }
}

/// The brackets and commas round tags: a step back by hue, not by `dim`,
/// which some terminals ignore.
pub fn tags_punct() -> (r: Ink)
    ensures
        r == (Ink { fg: Some(Hue::BrightBlack), bold: false, dim: false }),
{
    Ink { fg: Some(Hue::BrightBlack), bold: false, dim: false }
}

/// What is wrong.
pub fn invalid() -> (r: Ink)
    ensures
        r == (Ink { fg: Some(Hue::Red), bold: false, dim: false }),
{
    Ink { fg: Some(Hue::Red), bold: false, dim: false }
}

/// A due date that has passed.
pub fn overdue() -> (r: Ink)
    ensures
        r == (Ink { fg: Some(Hue::Red), bold: false, dim: false }),
{
    Ink { fg: Some(Hue::Red), bold: false, dim: false }
}

/// The pin: the one hue not otherwise used.
pub fn pin() -> (r: Ink)
    ensures
        r == (Ink { fg: Some(Hue::Magenta), bold: false, dim: false }),
{
    Ink { fg: Some(Hue::Magenta), bold: false, dim: false }
}

/// What a search matched.
pub fn matched() -> (r: Ink)
    ensures
        r == (Ink { fg: None, bold: true, dim: false }),
{
    Ink { fg: None, bold: true, dim: false }
}

/// What ends a pinned note's row, after its tags.
pub const PIN_MARK: &'static str = "pinned";

} // verus!
