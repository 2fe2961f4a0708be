//! A note as the pages read it: what its frontmatter says, and its file.

use vstd::prelude::*;

verus! {

pub struct Note {
    pub title: String,
    pub tags: Vec<String>,
    /// As written, offset and all; `None` when the note has no such field.
    pub created: Option<String>,
    pub updated: Option<String>,
    /// `None` when the field is absent or holds something that is not a
    /// boolean, which is not a pin.
    pub pinned: Option<bool>,
    /// Frontmatter lines noda does not read, kept as written.
    pub extra: Vec<String>,
    pub body: String,
}

impl Note {
    pub fn is_pinned(&self) -> (r: bool)
        ensures
            r == (self.pinned == Some(true)),
    {
        match self.pinned {
            Some(p) => p,
            None => false,
        }
    }
}

/// A note and the filename that names it: `<id>-<slug>.md`.
pub struct NoteFile {
    pub id: String,
    pub slug: String,
    pub note: Note,
}

} // verus!
