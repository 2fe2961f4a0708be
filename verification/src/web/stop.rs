//! What the server says on stdout as it starts and stops: the address to
//! open, and what a stop waits for. Not logged, since none of it is about a
//! request.

use vstd::prelude::*;

use crate::text::{owned, push_str};
use crate::web::work::{errand_name, Errand};

verus! {

/// What is printed once the server listens: the address, and a warning when
/// it is not this machine's alone.
pub open spec fn listening_lines(at: Seq<char>, loopback: bool) -> Seq<Seq<char>> {
    let first = seq!["noda is at http://"@ + at];
    if loopback { first } else { first.push("reachable from the network — there is no password on it"@) }
}

pub fn listening(at: &str, loopback: bool) -> (r: Vec<String>)
    ensures
        r@.map_values(|s: String| s@) == listening_lines(at@, loopback),
{
    let mut first = owned("noda is at http://");
    push_str(&mut first, at);
    let mut out = vec![first];
    if !loopback {
        out.push(owned("reachable from the network — there is no password on it"));
    }
    assert(out@.map_values(|s: String| s@) =~= listening_lines(at@, loopback));
    out
}

/// The first signal: requests in flight are answered first.
pub open spec fn finishing_line(signal: Seq<char>) -> Seq<char> {
    signal + " — finishing what is in flight"@
}

pub fn finishing(signal: &str) -> (r: String)
    ensures
        r@ == finishing_line(signal@),
{
    let mut out = owned(signal);
    push_str(&mut out, " — finishing what is in flight");
    out
}

/// The second signal: the wait for errands is cut short.
pub open spec fn not_waiting_line(signal: Seq<char>) -> Seq<char> {
    signal + " again — not waiting"@
}

pub fn not_waiting(signal: &str) -> (r: String)
    ensures
        r@ == not_waiting_line(signal@),
{
    let mut out = owned(signal);
    push_str(&mut out, " again — not waiting");
    out
}

/// Said for each errand still running once requests are done.
pub open spec fn waiting_line(book: Seq<char>, errand: Errand) -> Seq<char> {
    "waiting for "@ + errand_name(errand) + " in "@ + book + " — signal again to leave it unfinished"@
}

pub fn waiting(book: &str, errand: Errand) -> (r: String)
    ensures
        r@ == waiting_line(book@, errand),
{
    let mut out = owned("waiting for ");
    push_str(&mut out, errand.name());
    push_str(&mut out, " in ");
    push_str(&mut out, book);
    push_str(&mut out, " — signal again to leave it unfinished");
    out
}

/// One errand left behind: `sync in work`.
pub open spec fn left_piece(left: (Seq<char>, Errand)) -> Seq<char> {
    errand_name(left.1) + " in "@ + left.0
}

/// What a stop reports of the errands it gave up on: nothing after an
/// ordinary stop, so it exits `0`; else a failure naming each, so a
/// supervisor can tell an errand was cut off.
pub open spec fn unfinished_of(left: Seq<(Seq<char>, Errand)>) -> Option<Seq<char>> {
    if left.len() == 0 {
        None
    } else {
        Some("left "@ + crate::web::markup::join(left.map_values(|p: (Seq<char>, Errand)| left_piece(p)), ", "@) + " unfinished"@)
    }
}

pub fn unfinished(left: &Vec<(String, Errand)>) -> (r: Option<String>)
    ensures
        match unfinished_of(left@.map_values(|p: (String, Errand)| (p.0@, p.1))) {
            Some(t) => r matches Some(s) && s@ == t,
            None => r is None,
        },
{
    let ghost seen = left@.map_values(|p: (String, Errand)| (p.0@, p.1));
    if left.len() == 0 {
        return None;
    }
    let mut pieces: Vec<String> = Vec::new();
    let mut i: usize = 0;
    while i < left.len()
        invariant
            i <= left.len(),
            seen == left@.map_values(|p: (String, Errand)| (p.0@, p.1)),
            crate::web::markup::texts(pieces@) == seen.subrange(0, i as int).map_values(|p: (Seq<char>, Errand)| left_piece(p)),
        decreases left.len() - i,
    {
        let (book, errand) = &left[i];
        let mut piece = owned(errand.name());
        push_str(&mut piece, " in ");
        push_str(&mut piece, book.as_str());
        let ghost before = crate::web::markup::texts(pieces@);
        assert(seen[i as int] == (book@, *errand));
        pieces.push(piece);
        assert(crate::web::markup::texts(pieces@) =~= before.push(left_piece(seen[i as int])));
        assert(seen.subrange(0, i + 1).map_values(|p: (Seq<char>, Errand)| left_piece(p))
            =~= seen.subrange(0, i as int).map_values(|p: (Seq<char>, Errand)| left_piece(p)).push(left_piece(seen[i as int])));
        i += 1;
    }
    assert(seen.subrange(0, seen.len() as int) =~= seen);
    let mut out = owned("left ");
    crate::web::markup::push_joined(&mut out, &pieces, ", ");
    push_str(&mut out, " unfinished");
    Some(out)
}

} // verus!
