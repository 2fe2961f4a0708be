//! noda's palette in CSS. No colour is chosen here, as none is in the
//! terminal's theme: which colour an id is remains the palette's answer.
//!
//! A terminal fills the yellow slot from its own theme; CSS has no such
//! slots, so this file supplies what a terminal would — in two themes, because
//! ANSI yellow on white is unreadable.

use vstd::prelude::*;

use crate::palette::{Hue, Ink, id, invalid, muted, overdue, pin, plain, slug, tags, tags_punct};
use crate::text::push_str;

verus! {

/// Only the slots noda's palette uses. One added to the palette and forgotten
/// here falls through `fill` to the default foreground.
pub struct Terminal {
    /// The default foreground.
    pub text: &'static str,
    /// A colour, not an opacity, for the tag punctuation's reason.
    pub dim: &'static str,
    pub yellow: &'static str,
    /// The slug: must stay recognisably the id's hue.
    pub yellow_dim: &'static str,
    pub cyan: &'static str,
    /// `BrightBlack`.
    pub grey: &'static str,
    pub red: &'static str,
    /// The pin: the one hue not otherwise used.
    pub magenta: &'static str,
    /// Not a slot: a terminal never tells the program its background.
    pub background: &'static str,
    /// A sunk panel: half a step from `background`, not a second hue.
    pub sunk: &'static str,
    /// The line between two rows.
    pub rule: &'static str,
    /// A row being pressed.
    pub press: &'static str,
    /// What a search matched, as a background, which is how a run inside a
    /// line is marked.
    pub mark: &'static str,
}

pub open spec fn light_theme() -> Terminal {
    Terminal {
        text: "#17191d",
        dim: "#6b7280",
        yellow: "#8a6100",
        yellow_dim: "#a98741",
        cyan: "#0e6f7a",
        grey: "#8b929c",
        red: "#b3261e",
        magenta: "#a626a4",
        background: "#ffffff",
        sunk: "#f4f5f7",
        rule: "#e3e5e9",
        press: "#ebedf0",
        mark: "#f3d98a",
    }
}

pub fn light() -> (r: Terminal)
    ensures
        r == light_theme(),
{
    Terminal {
        text: "#17191d",
        dim: "#6b7280",
        // Unreadable on white, so round it to amber as light terminal themes do.
        yellow: "#8a6100",
        yellow_dim: "#a98741",
        cyan: "#0e6f7a",
        grey: "#8b929c",
        red: "#b3261e",
        magenta: "#a626a4",
        background: "#ffffff",
        sunk: "#f4f5f7",
        rule: "#e3e5e9",
        press: "#ebedf0",
        mark: "#f3d98a",
    }
}

pub open spec fn dark_theme() -> Terminal {
    Terminal {
        text: "#d8dce2",
        dim: "#868e9a",
        yellow: "#e0ac4d",
        yellow_dim: "#9c7c3c",
        cyan: "#56b6c2",
        grey: "#6b7280",
        red: "#e06c75",
        magenta: "#c678dd",
        background: "#14161a",
        sunk: "#1b1e24",
        rule: "#272b32",
        press: "#242830",
        mark: "#5a4a1e",
    }
}

pub fn dark() -> (r: Terminal)
    ensures
        r == dark_theme(),
{
    Terminal {
        text: "#d8dce2",
        dim: "#868e9a",
        yellow: "#e0ac4d",
        yellow_dim: "#9c7c3c",
        cyan: "#56b6c2",
        grey: "#6b7280",
        red: "#e06c75",
        magenta: "#c678dd",
        // Not black: under white text, pure black smears as the eye moves.
        background: "#14161a",
        sunk: "#1b1e24",
        rule: "#272b32",
        press: "#242830",
        mark: "#5a4a1e",
    }
}

/// An ink as a theme draws it. Only foreground and `dim` cross over; `bold`
/// is left to the markup, so it is said in one place.
pub open spec fn filled(ink: Ink, t: Terminal) -> Seq<char> {
    match ink.fg {
        Some(Hue::Yellow) => if ink.dim { t.yellow_dim@ } else { t.yellow@ },
        Some(Hue::Cyan) => t.cyan@,
        Some(Hue::BrightBlack) => t.grey@,
        Some(Hue::Red) => t.red@,
        Some(Hue::Magenta) => t.magenta@,
        None => if ink.dim { t.dim@ } else { t.text@ },
        _ => t.text@,
    }
}

pub fn fill(ink: Ink, t: &Terminal) -> (r: &'static str)
    ensures
        r@ == filled(ink, *t),
{
    match ink.fg {
        Some(Hue::Yellow) => if ink.dim { t.yellow_dim } else { t.yellow },
        Some(Hue::Cyan) => t.cyan,
        Some(Hue::BrightBlack) => t.grey,
        Some(Hue::Red) => t.red,
        Some(Hue::Magenta) => t.magenta,
        None => if ink.dim { t.dim } else { t.text },
        _ => t.text,
    }
}

pub open spec fn property(name: Seq<char>, value: Seq<char>) -> Seq<char> {
    name + ":"@ + value + ";"@
}

/// Named after the palette's kinds (`--tag`, not `--cyan`), so a property is
/// not reused for anything that merely wants its colour.
pub open spec fn properties(t: Terminal) -> Seq<char> {
    property("--bg"@, t.background@) + property("--bg-sunk"@, t.sunk@)
        + property("--press"@, t.press@) + property("--rule"@, t.rule@)
        + property("--mark"@, t.mark@)
        + property("--text"@, filled(Ink { fg: None, bold: false, dim: false }, t))
        + property("--muted"@, filled(Ink { fg: None, bold: false, dim: true }, t))
        + property("--id"@, filled(Ink { fg: Some(Hue::Yellow), bold: false, dim: false }, t))
        + property("--id-dim"@, filled(Ink { fg: Some(Hue::Yellow), bold: false, dim: true }, t))
        + property("--tag"@, filled(Ink { fg: Some(Hue::Cyan), bold: false, dim: false }, t))
        + property("--punct"@, filled(Ink { fg: Some(Hue::BrightBlack), bold: false, dim: false }, t))
        + property("--alert"@, filled(Ink { fg: Some(Hue::Red), bold: false, dim: false }, t))
        + property("--overdue"@, filled(Ink { fg: Some(Hue::Red), bold: false, dim: false }, t))
        + property("--pin"@, filled(Ink { fg: Some(Hue::Magenta), bold: false, dim: false }, t))
}

fn push_property(out: &mut String, name: &str, value: &str)
    ensures
        final(out)@ == old(out)@ + property(name@, value@),
{
    push_str(out, name);
    push_str(out, ":");
    push_str(out, value);
    push_str(out, ";");
}

fn properties_of(t: &Terminal) -> (r: String)
    ensures
        r@ == properties(*t),
{
    let mut css = String::new();
    push_property(&mut css, "--bg", t.background);
    push_property(&mut css, "--bg-sunk", t.sunk);
    push_property(&mut css, "--press", t.press);
    push_property(&mut css, "--rule", t.rule);
    push_property(&mut css, "--mark", t.mark);
    push_property(&mut css, "--text", fill(plain(), t));
    push_property(&mut css, "--muted", fill(muted(), t));
    push_property(&mut css, "--id", fill(id(), t));
    push_property(&mut css, "--id-dim", fill(slug(), t));
    push_property(&mut css, "--tag", fill(tags(), t));
    push_property(&mut css, "--punct", fill(tags_punct(), t));
    push_property(&mut css, "--alert", fill(invalid(), t));
    // Its own property though it is `--alert`'s red: it marks meaning.
    push_property(&mut css, "--overdue", fill(overdue(), t));
    push_property(&mut css, "--pin", fill(pin(), t));
    css
}

/// Light on `:root`, dark inside the media query. No toggle and no stored
/// preference: the reader already told their device.
pub open spec fn sheet() -> Seq<char> {
    ":root{"@ + properties(light_theme()) + "}@media (prefers-color-scheme:dark){:root{"@
        + properties(dark_theme()) + "}}"@
}

/// The stylesheet's colours: both themes, as custom properties.
pub fn stylesheet() -> (r: String)
    ensures
        r@ == sheet(),
{
    let mut out = String::new();
    push_str(&mut out, ":root{");
    let light_props = properties_of(&light());
    push_str(&mut out, light_props.as_str());
    push_str(&mut out, "}@media (prefers-color-scheme:dark){:root{");
    let dark_props = properties_of(&dark());
    push_str(&mut out, dark_props.as_str());
    push_str(&mut out, "}}");
    out
}

} // verus!
