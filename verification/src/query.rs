//! What the search line is written in, where the library writes a query for
//! the reader.

use vstd::prelude::*;

use crate::text::{is_white, push_char, push_str, white};

verus! {

/// Whether a value holds whitespace, so that unquoted it would be read as
/// more than one term.
pub open spec fn spaced(value: Seq<char>) -> bool {
    exists|i: int| 0 <= i < value.len() && white(value[i])
}

/// The query that finds the notes carrying `tag`.
pub open spec fn scoped_query(tag: Seq<char>) -> Seq<char> {
    if spaced(tag) {
        "tag:\""@ + tag + "\""@
    } else {
        "tag:"@ + tag
    }
}

/// The query for one tag, quoted where the tag has a space in it: unquoted,
/// `24.04 Dark patterns` would be three terms and find nothing.
pub fn scoped(tag: &str) -> (r: String)
    ensures
        r@ == scoped_query(tag@),
{
    let chars = crate::text::chars_of(tag);
    let mut spaced_at: bool = false;
    let mut i: usize = 0;
    while i < chars.len()
        invariant
            i <= chars.len(),
            chars@ == tag@,
            spaced_at <==> exists|j: int| 0 <= j < i && white(chars@[j]),
        decreases chars.len() - i,
    {
        if is_white(chars[i]) {
            spaced_at = true;
        }
        i += 1;
    }
    let mut out = String::new();
    push_str(&mut out, "tag:");
    if spaced_at {
        push_char(&mut out, '"');
        push_str(&mut out, tag);
        push_char(&mut out, '"');
        proof {
            reveal_strlit("tag:\"");
            reveal_strlit("tag:");
            reveal_strlit("\"");
        }
    } else {
        push_str(&mut out, tag);
    }
    out
}


/// Where the search line's splitting stands after some characters: the
/// pieces done, the one being read, and the quote it is inside, if any.
pub struct Splitting {
    pub pieces: Seq<Seq<char>>,
    pub piece: Seq<char>,
    pub quote: Option<char>,
}

/// One character read: inside a quote everything but the closing quote is
/// kept; outside, a quote opens one, whitespace ends a piece, and anything
/// else is kept.
pub open spec fn split_step(st: Splitting, c: char) -> Splitting {
    match st.quote {
        Some(q) => if c == q {
            Splitting { quote: None, ..st }
        } else {
            Splitting { piece: st.piece.push(c), ..st }
        },
        None => if c == '"' || c == '\'' {
            Splitting { quote: Some(c), ..st }
        } else if white(c) {
            Splitting { pieces: if st.piece.len() > 0 { st.pieces.push(st.piece) } else { st.pieces }, piece: Seq::empty(), quote: None }
        } else {
            Splitting { piece: st.piece.push(c), ..st }
        },
    }
}

pub open spec fn split_run(t: Seq<char>) -> Splitting
    decreases t.len(),
{
    if t.len() == 0 {
        Splitting { pieces: Seq::empty(), piece: Seq::empty(), quote: None }
    } else {
        split_step(split_run(t.drop_last()), t.last())
    }
}

/// The search line's terms: split at whitespace, a quoted stretch held
/// together without its quotes, an unclosed quote running to the end (its
/// closer usually being the next character typed), and no empty piece.
pub open spec fn tokens(t: Seq<char>) -> Seq<Seq<char>> {
    let st = split_run(t);
    if st.piece.len() > 0 { st.pieces.push(st.piece) } else { st.pieces }
}

/// The search line's terms; see `tokens`.
pub fn split(text: &str) -> (r: Vec<String>)
    ensures
        r@.map_values(|s: String| s@) == tokens(text@),
{
    let chars = crate::text::chars_of(text);
    let mut pieces: Vec<String> = Vec::new();
    let mut piece = String::new();
    let mut quote: Option<char> = None;
    let mut i: usize = 0;
    assert(chars@.subrange(0, 0) =~= Seq::<char>::empty());
    assert(pieces@.map_values(|s: String| s@) =~= Seq::<Seq<char>>::empty());
    assert(piece@ =~= Seq::<char>::empty());
    while i < chars.len()
        invariant
            i <= chars.len(),
            chars@ == text@,
            split_run(chars@.subrange(0, i as int)) == (Splitting {
                pieces: pieces@.map_values(|s: String| s@),
                piece: piece@,
                quote,
            }),
        decreases chars.len() - i,
    {
        let c = chars[i];
        let ghost before = pieces@.map_values(|s: String| s@);
        assert(chars@.subrange(0, i + 1).drop_last() =~= chars@.subrange(0, i as int));
        match quote {
            Some(q) => {
                if c == q {
                    quote = None;
                } else {
                    push_char(&mut piece, c);
                }
            },
            None => {
                if c == '"' || c == '\'' {
                    quote = Some(c);
                } else if is_white(c) {
                    if !piece.as_str().is_empty() {
                        let done = piece;
                        pieces.push(done);
                        assert(pieces@.map_values(|s: String| s@) =~= before.push(done@));
                    } else {
                        assert(piece@.len() == 0);
                    }
                    piece = String::new();
                } else {
                    push_char(&mut piece, c);
                }
            },
        }
        i += 1;
    }
    assert(chars@.subrange(0, chars@.len() as int) =~= chars@);
    if !piece.as_str().is_empty() {
        let ghost before = pieces@.map_values(|s: String| s@);
        let done = piece;
        pieces.push(done);
        assert(pieces@.map_values(|s: String| s@) =~= before.push(done@));
    }
    pieces
}

} // verus!
