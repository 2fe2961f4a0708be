//! The pieces every page is made of: escaped text, joined lists, counts in
//! words. Only five characters are ever escaped, so the one place escaping
//! happens reads in one screen.

use vstd::prelude::*;

use crate::text::{chars_of, count_of, decimal, push_char, push_str};

verus! {

/// What one character becomes inside markup.
pub open spec fn esc_char(c: char) -> Seq<char> {
    if c == '&' {
        "&amp;"@
    } else if c == '<' {
        "&lt;"@
    } else if c == '>' {
        "&gt;"@
    } else if c == '"' {
        "&quot;"@
    } else if c == '\'' {
        "&#39;"@
    } else {
        seq![c]
    }
}

/// `text` with the five characters markup could mistake written as
/// entities.
pub open spec fn esc(s: Seq<char>) -> Seq<char>
    decreases s.len(),
{
    if s.len() == 0 {
        Seq::empty()
    } else {
        esc(s.drop_last()) + esc_char(s.last())
    }
}

pub proof fn lemma_esc_concat(a: Seq<char>, b: Seq<char>)
    ensures
        esc(a + b) == esc(a) + esc(b),
    decreases b.len(),
{
    if b.len() == 0 {
        assert(a + b =~= a);
    } else {
        lemma_esc_concat(a, b.drop_last());
        assert((a + b).drop_last() =~= a + b.drop_last());
    }
}

/// A character that could open or close markup, or end an attribute.
pub open spec fn markup_char(c: char) -> bool {
    c == '<' || c == '>' || c == '"' || c == '\''
}

/// A note cannot write markup into a page: nothing escaped holds a character
/// that could open or close a tag or end an attribute.
pub proof fn escaped_text_holds_no_markup(s: Seq<char>)
    ensures
        forall|i: int| 0 <= i < esc(s).len() ==> !markup_char(#[trigger] esc(s)[i]),
    decreases s.len(),
{
    if s.len() > 0 {
        escaped_text_holds_no_markup(s.drop_last());
        let c = s.last();
        reveal_strlit("&amp;");
        reveal_strlit("&lt;");
        reveal_strlit("&gt;");
        reveal_strlit("&quot;");
        reveal_strlit("&#39;");
        let head = esc(s.drop_last());
        assert forall|i: int| 0 <= i < esc(s).len() implies !markup_char(#[trigger] esc(s)[i]) by {
            if i < head.len() {
                assert(esc(s)[i] == head[i]);
            } else {
                assert(esc(s)[i] == esc_char(c)[i - head.len()]);
            }
        }
    }
}

/// `v[from..to]`, escaped, onto the end of `out`.
pub fn push_esc_range(out: &mut String, v: &Vec<char>, from: usize, to: usize)
    requires
        from <= to <= v.len(),
    ensures
        final(out)@ == old(out)@ + esc(v@.subrange(from as int, to as int)),
{
    let mut i = from;
    assert(v@.subrange(from as int, from as int) =~= Seq::<char>::empty());
    while i < to
        invariant
            from <= i <= to <= v.len(),
            out@ == old(out)@ + esc(v@.subrange(from as int, i as int)),
        decreases to - i,
    {
        let c = v[i];
        if c == '&' {
            push_str(out, "&amp;");
        } else if c == '<' {
            push_str(out, "&lt;");
        } else if c == '>' {
            push_str(out, "&gt;");
        } else if c == '"' {
            push_str(out, "&quot;");
        } else if c == '\'' {
            push_str(out, "&#39;");
        } else {
            push_char(out, c);
            assert(seq![c] =~= esc_char(c));
        }
        i += 1;
        assert(v@.subrange(from as int, i as int).drop_last() =~= v@.subrange(from as int, i - 1));
    }
}

/// `text`, escaped, onto the end of `out`.
pub fn push_esc(out: &mut String, text: &str)
    ensures
        final(out)@ == old(out)@ + esc(text@),
{
    let v = chars_of(text);
    push_esc_range(out, &v, 0, v.len());
    assert(v@.subrange(0, v@.len() as int) =~= text@);
}

/// `parts`, with `sep` between each two.
pub open spec fn join(parts: Seq<Seq<char>>, sep: Seq<char>) -> Seq<char>
    decreases parts.len(),
{
    if parts.len() == 0 {
        Seq::empty()
    } else if parts.len() == 1 {
        parts[0]
    } else {
        join(parts.drop_last(), sep) + sep + parts.last()
    }
}

/// The texts of a list of strings.
pub open spec fn texts(v: Seq<String>) -> Seq<Seq<char>> {
    v.map_values(|s: String| s@)
}

pub proof fn lemma_texts_push(v: Seq<String>, x: String)
    ensures
        texts(v.push(x)) == texts(v).push(x@),
{
    assert(texts(v.push(x)) =~= texts(v).push(x@));
}

pub proof fn lemma_texts_prefix(v: Seq<String>, i: int)
    requires
        0 <= i < v.len(),
    ensures
        texts(v).subrange(0, i + 1) == texts(v).subrange(0, i).push(v[i]@),
{
    assert(texts(v).subrange(0, i + 1) =~= texts(v).subrange(0, i).push(v[i]@));
}

/// `parts` joined by `sep`, onto the end of `out`.
pub fn push_joined(out: &mut String, parts: &Vec<String>, sep: &str)
    ensures
        final(out)@ == old(out)@ + join(texts(parts@), sep@),
{
    let mut i: usize = 0;
    let ghost start = out@;
    while i < parts.len()
        invariant
            i <= parts.len(),
            out@ == start + join(texts(parts@).subrange(0, i as int), sep@),
        decreases parts.len() - i,
    {
        if i > 0 {
            push_str(out, sep);
        }
        push_str(out, parts[i].as_str());
        i += 1;
        let ghost done = texts(parts@).subrange(0, i as int);
        assert(done.drop_last() =~= texts(parts@).subrange(0, i - 1));
        assert(done.last() == parts@[i - 1]@);
    }
    assert(texts(parts@).subrange(0, parts@.len() as int) =~= texts(parts@));
}

/// `1 note` / `2 notes`. English only, like every other string noda prints.
pub open spec fn plural(count: nat, thing: Seq<char>) -> Seq<char> {
    if count == 1 {
        decimal(count) + " "@ + thing
    } else {
        decimal(count) + " "@ + thing + "s"@
    }
}

pub fn push_plural(out: &mut String, count: usize, thing: &str)
    ensures
        final(out)@ == old(out)@ + plural(count as nat, thing@),
{
    let n = count_of(count);
    push_str(out, n.as_str());
    push_str(out, " ");
    push_str(out, thing);
    if count != 1 {
        push_str(out, "s");
    }
}

/// The count in decimal onto the end of `out`.
pub fn push_count(out: &mut String, count: usize)
    ensures
        final(out)@ == old(out)@ + decimal(count as nat),
{
    let n = count_of(count);
    push_str(out, n.as_str());
}

/// Whether a character is an ASCII digit.
pub open spec fn digit(c: char) -> bool {
    '0' <= c && c <= '9'
}

/// Whether `s` starts with a date: `DDDD-DD-DD`, in ASCII digits.
pub open spec fn dated(s: Seq<char>) -> bool {
    s.len() >= 10 && s[4] == '-' && s[7] == '-' && forall|i: int| 0 <= i < 10 && i != 4 && i != 7 ==> digit(#[trigger] s[i])
}

/// The day a stamp names: `2026-08-15`; anything not a date comes back as is.
///
/// Not the minute: stamps are UTC, and a time with the `Z` cut off to save room
/// looks local and is wrong, while converting would put the server's zone into
/// the note. The full stamp is on the note's own page.
pub open spec fn day_of(s: Seq<char>) -> Seq<char> {
    if dated(s) {
        s.subrange(0, 10)
    } else {
        s
    }
}

pub fn day(value: &str) -> (r: String)
    ensures
        r@ == day_of(value@),
{
    let v = chars_of(value);
    if v.len() >= 10 && v[4] == '-' && v[7] == '-' {
        let mut i: usize = 0;
        while i < 10
            invariant
                v.len() >= 10,
                v@ == value@,
                v@[4] == '-' && v@[7] == '-',
                i <= 10,
                forall|j: int| 0 <= j < i && j != 4 && j != 7 ==> digit(#[trigger] v@[j]),
            decreases 10 - i,
        {
            if i != 4 && i != 7 && !('0' <= v[i] && v[i] <= '9') {
                assert(!digit(v@[i as int]));
                assert(!dated(v@));
                return crate::text::string_all(&v);
            }
            i += 1;
        }
        return crate::text::string_of(&v, 0, 10);
    }
    crate::text::string_all(&v)
}

} // verus!
