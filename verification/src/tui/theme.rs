//! The palette as the terminal's cells draw it; no colour is chosen here.
//! Only the foreground, bold and dim cross over.

use vstd::prelude::*;

use crate::palette::{Hue, Ink};

verus! {

/// A colour a cell can be drawn in, by the names the terminal library gives
/// the sixteen slots.
#[derive(Clone, Copy, PartialEq, Eq, Debug, Structural)]
pub enum Shade {
    Black,
    Red,
    Green,
    Yellow,
    Blue,
    Magenta,
    Cyan,
    Gray,
    DarkGray,
    LightRed,
    LightGreen,
    LightYellow,
    LightBlue,
    LightMagenta,
    LightCyan,
    White,
}

/// How a cell is drawn: a foreground, if any, and two modifiers.
#[derive(Clone, Copy, PartialEq, Eq, Debug, Structural)]
pub struct Look {
    pub fg: Option<Shade>,
    pub bold: bool,
    pub dim: bool,
}

/// The slot each hue names. The terminal library calls the palette's white
/// "gray" and its bright white "white"; the slot, not an RGB value, so the
/// terminal's theme still decides the colours.
pub open spec fn shade_of(hue: Hue) -> Shade {
    match hue {
        Hue::Black => Shade::Black,
        Hue::Red => Shade::Red,
        Hue::Green => Shade::Green,
        Hue::Yellow => Shade::Yellow,
        Hue::Blue => Shade::Blue,
        Hue::Magenta => Shade::Magenta,
        Hue::Cyan => Shade::Cyan,
        Hue::White => Shade::Gray,
        Hue::BrightBlack => Shade::DarkGray,
        Hue::BrightRed => Shade::LightRed,
        Hue::BrightGreen => Shade::LightGreen,
        Hue::BrightYellow => Shade::LightYellow,
        Hue::BrightBlue => Shade::LightBlue,
        Hue::BrightMagenta => Shade::LightMagenta,
        Hue::BrightCyan => Shade::LightCyan,
        Hue::BrightWhite => Shade::White,
    }
}

/// The cell's colour for a palette slot.
pub fn ansi(hue: Hue) -> (r: Shade)
    ensures
        r == shade_of(hue),
{
    match hue {
        Hue::Black => Shade::Black,
        Hue::Red => Shade::Red,
        Hue::Green => Shade::Green,
        Hue::Yellow => Shade::Yellow,
        Hue::Blue => Shade::Blue,
        Hue::Magenta => Shade::Magenta,
        Hue::Cyan => Shade::Cyan,
        Hue::White => Shade::Gray,
        Hue::BrightBlack => Shade::DarkGray,
        Hue::BrightRed => Shade::LightRed,
        Hue::BrightGreen => Shade::LightGreen,
        Hue::BrightYellow => Shade::LightYellow,
        Hue::BrightBlue => Shade::LightBlue,
        Hue::BrightMagenta => Shade::LightMagenta,
        Hue::BrightCyan => Shade::LightCyan,
        Hue::BrightWhite => Shade::White,
    }
}

/// An ink as a cell draws it.
pub fn from(ink: Ink) -> (r: Look)
    ensures
        r.fg == (match ink.fg {
            Some(h) => Some(shade_of(h)),
            None => None::<Shade>,
        }),
        r.bold == ink.bold,
        r.dim == ink.dim,
{
    let fg = match ink.fg {
        Some(h) => Some(ansi(h)),
        None => None,
    };
    Look { fg, bold: ink.bold, dim: ink.dim }
}

/// No two slots of the palette are drawn in one colour: a distinction the
/// palette makes by hue survives the crossing.
pub proof fn no_two_hues_share_a_shade(a: Hue, b: Hue)
    requires
        a != b,
    ensures
        shade_of(a) != shade_of(b),
{
}

} // verus!
