//! Three-way merge of what the reader wrote with what was saved since,
//! against the version the edit began from.
//!
//! Bodies only: merging frontmatter would make somebody else's tag change a
//! conflict over a line the reader never saw. The labels are for a person, so
//! they name the versions as the page does.

use vstd::prelude::*;

use crate::web::asset::blob_hash;
use crate::web::{lossy, text_of_bytes, utf8};
use crate::web::asset::Asset;
use crate::web::page::{about_at, clash_form, clashed, conflicted, edit_form, laid_out, About, CLASHED, CONFLICTED};

verus! {

/// What the merge gives back.
#[derive(Debug, PartialEq, Eq)]
pub enum Merged {
    Clean(String),
    /// Carrying git's conflict markers.
    Conflicted(String),
}

/// libgit2 reported an error, so there is nothing to show: its message.
#[derive(Debug, PartialEq, Eq)]
pub struct Unmerged(pub String);

/// The reader's side, as a conflict marker names it.
pub const OURS: &'static str = "what you wrote";

/// The other side.
pub const THEIRS: &'static str = "saved since";

/// What `git2::merge_file` makes of three versions with these two labels:
/// the merged bytes and whether they merged without a conflict, or `None`
/// where libgit2 reports an error.
pub uninterp spec fn merged(base: Seq<u8>, mine: Seq<u8>, theirs: Seq<u8>, ours_label: Seq<char>, theirs_label: Seq<char>) -> Option<(Seq<u8>, bool)>;

/// `git2::merge_file` over three contents, with our and their labels: its
/// content and `is_automergeable`, or libgit2's message where it reports an
/// error. `merge_file` does not start libgit2, and fails (or traps in C) if
/// reached first in a process, so libgit2 is started here first, as
/// `Oid::hash_object` of nothing starts it; where that fails, so does this.
/// What it merges to is named, not stated: git's xdiff. A label is handed to
/// C, so it holds no NUL (`IntoCString` would panic).
#[verifier::external_body]
fn merge_file(base: &[u8], mine: &[u8], theirs: &[u8], ours_label: &str, theirs_label: &str) -> (r: Result<(Vec<u8>, bool), String>)
    requires
        !ours_label@.contains('\0'),
        !theirs_label@.contains('\0'),
    ensures
        blob_hash(Seq::<u8>::empty()) is None ==> r is Err,
        blob_hash(Seq::<u8>::empty()) is Some ==> match merged(base@, mine@, theirs@, ours_label@, theirs_label@) {
            Some((content, clean)) => r matches Ok((c, k)) && c@ == content && k == clean,
            None => r is Err,
        },
{
    git2::Oid::hash_object(git2::ObjectType::Blob, &[]).map_err(|e| e.message().to_owned())?;
    let (mut ancestor, mut ours, mut yours) = (git2::MergeFileInput::new(), git2::MergeFileInput::new(), git2::MergeFileInput::new());
    ancestor.content(base);
    ours.content(mine);
    yours.content(theirs);
    let mut options = git2::MergeFileOptions::new();
    options.our_label(ours_label).their_label(theirs_label);
    git2::merge_file(&ancestor, &ours, &yours, Some(&mut options))
        .map(|m| (m.content().to_vec(), m.is_automergeable()))
        .map_err(|e| e.message().to_owned())
}

/// What a merge's content and verdict become: the content as text, clean or
/// carrying its conflict.
pub fn outcome(content: &Vec<u8>, clean: bool) -> (r: Merged)
    ensures
        clean ==> (r matches Merged::Clean(t) && t@ == lossy(content@)),
        !clean ==> (r matches Merged::Conflicted(t) && t@ == lossy(content@)),
{
    let text = text_of_bytes(content);
    if clean {
        Merged::Clean(text)
    } else {
        Merged::Conflicted(text)
    }
}

/// The reader's version merged with the saved one, against the base.
pub fn merge(base: &str, mine: &str, theirs: &str) -> (r: Result<Merged, Unmerged>)
    ensures
        blob_hash(Seq::<u8>::empty()) is None ==> r is Err,
        blob_hash(Seq::<u8>::empty()) is Some ==> match merged(utf8(base@), utf8(mine@), utf8(theirs@), OURS@, THEIRS@) {
            Some((content, true)) => r matches Ok(Merged::Clean(t)) && t@ == lossy(content),
            Some((content, false)) => r matches Ok(Merged::Conflicted(t)) && t@ == lossy(content),
            None => r is Err,
        },
{
    proof {
        reveal_strlit("what you wrote");
        reveal_strlit("saved since");
    }
    match merge_file(base.as_bytes(), mine.as_bytes(), theirs.as_bytes(), OURS, THEIRS) {
        Err(said) => Err(Unmerged(said)),
        Ok((content, clean)) => Ok(outcome(&content, clean)),
    }
}


/// What a save does with the reader's body.
#[derive(Debug, PartialEq, Eq)]
pub enum Saving {
    /// Write this body.
    Write(String),
    /// Write nothing, and show this page: neither version is lost.
    Show(String),
}

/// What was saved since an edit began: the note's body now, and the body the
/// edit began from, if git has it (a note never committed has none).
#[derive(Debug)]
pub struct Since {
    pub theirs: String,
    pub base: Option<String>,
}

/// The page that shows both versions of a note that changed under an edit
/// with no base to merge from.
pub open spec fn clashed_page(book: Seq<char>, about: About, theirs: Seq<char>, mine: Seq<char>, now: Seq<char>) -> Seq<char> {
    laid_out(book, about.title@, about_at(book, about.id@), CLASHED@,
        clash_form(about_at(book, about.id@), theirs, mine, now), seq![Asset::Watching])
}

/// The page that hands a conflicted merge back to the reader, to be saved
/// against the note as it is now.
pub open spec fn conflicted_page(book: Seq<char>, about: About, merged: Seq<char>, now: Seq<char>) -> Seq<char> {
    laid_out(book, about.title@, about_at(book, about.id@), CONFLICTED@,
        edit_form(about_at(book, about.id@), now, merged), seq![Asset::Watching])
}

/// The optimistic lock: an edit carries the fingerprint the note had when the
/// page was drawn (`was`), and the note is at `now`. Unchanged since, the
/// reader's body is written. Changed, it is merged with what was saved: a
/// clean merge is written, git keeping both sides; a conflict is handed back
/// to resolve; with no base, nothing is written and both are shown. So an
/// edit begun on a phone cannot flatten one made since.
pub fn saving(book: &str, about: &About, mine: String, was: &str, now: &str, since: Option<Since>) -> (r: Result<Saving, Unmerged>)
    requires
        was@ != now@ ==> since is Some,
    ensures
        was@ == now@ ==> (r matches Ok(Saving::Write(b)) && b@ == mine@),
        was@ != now@ ==> match since {
            Some(Since { theirs, base: None }) => r matches Ok(Saving::Show(p))
                && p@ == clashed_page(book@, *about, theirs@, mine@, now@),
            Some(Since { theirs, base: Some(base) }) => if blob_hash(Seq::<u8>::empty()) is None {
                r is Err
            } else {
                match merged(utf8(base@), utf8(mine@), utf8(theirs@), OURS@, THEIRS@) {
                    Some((content, true)) => r matches Ok(Saving::Write(b)) && b@ == lossy(content),
                    Some((content, false)) => r matches Ok(Saving::Show(p))
                        && p@ == conflicted_page(book@, *about, lossy(content), now@),
                    None => r is Err,
                }
            },
            None => false,
        },
{
    let x = crate::text::chars_of(was);
    let y = crate::text::chars_of(now);
    if crate::text::same(&x, &y) {
        return Ok(Saving::Write(mine));
    }
    let since = since.unwrap();
    match since.base {
        None => Ok(Saving::Show(clashed(book, about, since.theirs.as_str(), mine.as_str(), now))),
        Some(base) => match merge(base.as_str(), mine.as_str(), since.theirs.as_str()) {
            Err(e) => Err(e),
            Ok(Merged::Clean(text)) => Ok(Saving::Write(text)),
            Ok(Merged::Conflicted(text)) => Ok(Saving::Show(conflicted(book, about, text.as_str(), now))),
        },
    }
}

} // verus!
