//! noda's browsing logic: the pages a browser is shown, the terminal
//! browser's field and key grid, and the checks a request passes.

pub mod note;
pub mod palette;
pub mod query;
pub mod sort;
pub mod text;
pub mod tui;
pub mod web;

use vstd::prelude::*;

verus! {

/// Which build is answering, as the status screen says it for bug reports.
pub const VERSION: &'static str = "0.1.0";

} // verus!
