//! Characters in and out of strings, and the searches every page and field
//! makes over them.

use vstd::prelude::*;

verus! {

/// What `char::is_whitespace` says of a character: Unicode's `White_Space`,
/// a fixed list of twenty-five code points.
pub open spec fn white(c: char) -> bool {
    let v = c as u32;
    (0x09 <= v && v <= 0x0D) || v == 0x20 || v == 0x85 || v == 0xA0 || v == 0x1680
        || (0x2000 <= v && v <= 0x200A) || v == 0x2028 || v == 0x2029 || v == 0x202F
        || v == 0x205F || v == 0x3000
}

/// What `char::is_alphanumeric` says of a character.
pub uninterp spec fn alnum(c: char) -> bool;

/// What `str::to_lowercase` makes of a text: Unicode's lower case, which is
/// not always one character for one.
pub uninterp spec fn lowercase(s: Seq<char>) -> Seq<char>;

/// `char::is_whitespace`: Unicode's `White_Space`, tested against its list.
pub(crate) fn is_white(c: char) -> (r: bool)
    ensures
        r == white(c),
{
    let v = c as u32;
    (0x09 <= v && v <= 0x0D) || v == 0x20 || v == 0x85 || v == 0xA0 || v == 0x1680
        || (0x2000 <= v && v <= 0x200A) || v == 0x2028 || v == 0x2029 || v == 0x202F
        || v == 0x205F || v == 0x3000
}

/// `char::is_alphanumeric`.
#[verifier::external_body]
pub(crate) fn is_alnum(c: char) -> (r: bool)
    ensures
        r == alnum(c),
{
    c.is_alphanumeric()
}

/// `str::to_lowercase`: of an all-ASCII text, `A` to `Z` lowered and every
/// other character as it was.
#[verifier::external_body]
pub(crate) fn to_lower(s: &str) -> (r: String)
    ensures
        r@ == lowercase(s@),
        (forall|i: int| 0 <= i < s@.len() ==> (#[trigger] s@[i] as u32) < 0x80) ==> r@ == s@.map_values(|c: char| ascii_lower(c)),
{
    s.to_lowercase()
}

/// `String::push`: one character onto the end.
#[verifier::external_body]
pub(crate) fn push_char(s: &mut String, c: char)
    ensures
        final(s)@ == old(s)@.push(c),
{
    s.push(c)
}

/// `s` onto the end of `out`.
pub fn push_str(out: &mut String, s: &str)
    ensures
        final(out)@ == old(out)@ + s@,
{
    out.append(s);
}

/// The characters of `s`, in order.
pub fn chars_of(s: &str) -> (r: Vec<char>)
    ensures
        r@ == s@,
{
    let mut out: Vec<char> = Vec::new();
    for c in it: s.chars()
        invariant
            out@ == it.seq().take(it.index() as int),
    {
        out.push(c);
    }
    out
}

/// The characters `v[from..to]`, as a string.
pub fn string_of(v: &Vec<char>, from: usize, to: usize) -> (r: String)
    requires
        from <= to <= v.len(),
    ensures
        r@ == v@.subrange(from as int, to as int),
{
    let mut out = String::new();
    let mut i = from;
    while i < to
        invariant
            from <= i <= to <= v.len(),
            out@ == v@.subrange(from as int, i as int),
        decreases to - i,
    {
        push_char(&mut out, v[i]);
        i += 1;
        assert(out@ =~= v@.subrange(from as int, i as int));
    }
    out
}

/// The whole of `v`, as a string.
pub fn string_all(v: &Vec<char>) -> (r: String)
    ensures
        r@ == v@,
{
    let r = string_of(v, 0, v.len());
    assert(v@.subrange(0, v@.len() as int) =~= v@);
    r
}

/// A copy of `s`.
pub fn owned(s: &str) -> (r: String)
    ensures
        r@ == s@,
{
    s.to_owned()
}

/// Whether `needle` stands in `hay` starting at `at`.
pub open spec fn occurs_at(hay: Seq<char>, needle: Seq<char>, at: int) -> bool {
    0 <= at && at + needle.len() <= hay.len() && hay.subrange(at, at + needle.len()) == needle
}

/// Whether `needle` stands anywhere in `hay`.
pub open spec fn contains(hay: Seq<char>, needle: Seq<char>) -> bool {
    exists|at: int| occurs_at(hay, needle, at)
}

/// Whether `needle` stands in `hay` at or after `from`, and where first.
pub open spec fn first_from(hay: Seq<char>, needle: Seq<char>, from: int) -> Option<int> {
    if exists|at: int| from <= at && occurs_at(hay, needle, at) {
        Some(choose|at: int| from <= at && occurs_at(hay, needle, at)
            && forall|b: int| from <= b < at ==> !occurs_at(hay, needle, b))
    } else {
        None
    }
}

/// Whether the two agree at `at`, compared one by one.
fn matches_at(hay: &Vec<char>, needle: &Vec<char>, at: usize) -> (r: bool)
    requires
        at + needle.len() <= hay.len(),
    ensures
        r == occurs_at(hay@, needle@, at as int),
{
    let mut i: usize = 0;
    while i < needle.len()
        invariant
            at + needle.len() <= hay.len(),
            i <= needle.len(),
            forall|j: int| 0 <= j < i ==> hay@[at + j] == needle@[j],
        decreases needle.len() - i,
    {
        if hay[at + i] != needle[i] {
            assert(hay@.subrange(at as int, at + needle.len())[i as int] != needle@[i as int]);
            return false;
        }
        i += 1;
    }
    assert(hay@.subrange(at as int, at + needle.len()) =~= needle@);
    true
}

/// The first place at or after `from` where `needle` stands in `hay`.
pub fn find_from(hay: &Vec<char>, needle: &Vec<char>, from: usize) -> (r: Option<usize>)
    ensures
        match r {
            Some(at) => from <= at && occurs_at(hay@, needle@, at as int)
                && forall|b: int| from <= b < at ==> !occurs_at(hay@, needle@, b),
            None => forall|b: int| from <= b ==> !occurs_at(hay@, needle@, b),
        },
{
    if needle.len() > hay.len() {
        return None;
    }
    if needle.len() == 0 {
        if from <= hay.len() {
            assert(hay@.subrange(from as int, from as int) =~= needle@);
            return Some(from);
        }
        return None;
    }
    let last = hay.len() - needle.len();
    let mut at = from;
    while at <= last
        invariant
            last == hay.len() - needle.len(),
            0 < needle.len() <= hay.len(),
            from <= at,
            forall|b: int| from <= b < at ==> !occurs_at(hay@, needle@, b),
        decreases last + 1 - at,
    {
        if matches_at(hay, needle, at) {
            return Some(at);
        }
        at += 1;
    }
    None
}

/// Whether `needle` stands anywhere in `hay`.
pub fn has(hay: &Vec<char>, needle: &Vec<char>) -> (r: bool)
    ensures
        r == contains(hay@, needle@),
{
    match find_from(hay, needle, 0) {
        Some(_) => true,
        None => false,
    }
}

/// Whether `hay` starts with `prefix`.
pub open spec fn starts(hay: Seq<char>, prefix: Seq<char>) -> bool {
    prefix.len() <= hay.len() && hay.subrange(0, prefix.len() as int) == prefix
}

/// Whether `hay` starts with `prefix`.
pub fn starts_with(hay: &Vec<char>, prefix: &Vec<char>) -> (r: bool)
    ensures
        r == starts(hay@, prefix@),
{
    if prefix.len() > hay.len() {
        return false;
    }
    let r = matches_at(hay, prefix, 0);
    r
}

/// `n` in decimal, with no leading zero.
pub open spec fn decimal(n: nat) -> Seq<char>
    decreases n,
{
    if n < 10 {
        seq![digit(n)]
    } else {
        decimal(n / 10).push(digit(n % 10))
    }
}

/// One decimal digit.
pub open spec fn digit(d: nat) -> char {
    if d == 0 { '0' } else if d == 1 { '1' } else if d == 2 { '2' } else if d == 3 { '3' }
    else if d == 4 { '4' } else if d == 5 { '5' } else if d == 6 { '6' } else if d == 7 { '7' }
    else if d == 8 { '8' } else { '9' }
}

fn digit_char(d: u64) -> (c: char)
    requires
        d < 10,
    ensures
        c == digit(d as nat),
{
    if d == 0 { '0' } else if d == 1 { '1' } else if d == 2 { '2' } else if d == 3 { '3' }
    else if d == 4 { '4' } else if d == 5 { '5' } else if d == 6 { '6' } else if d == 7 { '7' }
    else if d == 8 { '8' } else { '9' }
}

/// `n` in decimal.
pub fn decimal_of(n: u64) -> (r: String)
    ensures
        r@ == decimal(n as nat),
    decreases n,
{
    if n < 10 {
        let mut out = String::new();
        push_char(&mut out, digit_char(n));
        assert(out@ =~= seq![digit(n as nat)]);
        out
    } else {
        let mut out = decimal_of(n / 10);
        push_char(&mut out, digit_char(n % 10));
        out
    }
}

/// `n` in decimal, for a count.
pub fn count_of(n: usize) -> (r: String)
    ensures
        r@ == decimal(n as nat),
{
    decimal_of(n as u64)
}

} // verus!

verus! {

/// ASCII's lower case of one character; anything else stays.
pub open spec fn ascii_lower(c: char) -> char {
    if 'A' <= c && c <= 'Z' {
        ((c as u32) + 32) as char
    } else {
        c
    }
}

/// `str::eq_ignore_ascii_case`.
pub open spec fn same_ignoring_ascii_case(a: Seq<char>, b: Seq<char>) -> bool {
    a.len() == b.len() && forall|i: int| 0 <= i < a.len() ==> ascii_lower(a[i]) == ascii_lower(b[i])
}

pub fn lower_ascii_char(c: char) -> (r: char)
    ensures
        r == ascii_lower(c),
{
    if 'A' <= c && c <= 'Z' {
        let u = c as u32 + 32;
        proof {
            assert(0x41 <= u <= 0x7a);
        }
        char_of_ascii(u)
    } else {
        c
    }
}

/// The character with an ASCII code.
fn char_of_ascii(u: u32) -> (r: char)
    requires
        u < 128,
    ensures
        r == u as char,
{
    let b = u as u8;
    b as char
}

/// Compares two texts as `str::eq_ignore_ascii_case` does.
pub fn eq_ignoring_ascii_case(a: &Vec<char>, b: &Vec<char>) -> (r: bool)
    ensures
        r == same_ignoring_ascii_case(a@, b@),
{
    if a.len() != b.len() {
        return false;
    }
    let mut i: usize = 0;
    while i < a.len()
        invariant
            a.len() == b.len(),
            i <= a.len(),
            forall|j: int| 0 <= j < i ==> ascii_lower(a@[j]) == ascii_lower(b@[j]),
        decreases a.len() - i,
    {
        if lower_ascii_char(a[i]) != lower_ascii_char(b[i]) {
            return false;
        }
        i += 1;
    }
    true
}

/// `s` cut into the pieces between each `sep`; an empty text is one empty
/// piece, as `str::split` gives.
pub open spec fn split(s: Seq<char>, sep: char) -> Seq<Seq<char>>
    decreases s.len(),
{
    if s.len() == 0 {
        seq![Seq::<char>::empty()]
    } else {
        let rest = split(s.drop_last(), sep);
        if s.last() == sep {
            rest.push(Seq::<char>::empty())
        } else {
            rest.update(rest.len() - 1, rest.last().push(s.last()))
        }
    }
}

pub proof fn lemma_split_nonempty(s: Seq<char>, sep: char)
    ensures
        split(s, sep).len() >= 1,
    decreases s.len(),
{
    if s.len() > 0 {
        lemma_split_nonempty(s.drop_last(), sep);
    }
}

/// The texts of a list of character vectors.
pub open spec fn views(v: Seq<Vec<char>>) -> Seq<Seq<char>> {
    v.map_values(|x: Vec<char>| x@)
}

/// The pieces of `v[from..to]` between each `sep`.
pub fn split_vec(v: &Vec<char>, from: usize, to: usize, sep: char) -> (r: Vec<Vec<char>>)
    requires
        from <= to <= v.len(),
    ensures
        views(r@) == split(v@.subrange(from as int, to as int), sep),
{
    let mut done: Vec<Vec<char>> = Vec::new();
    let mut cur: Vec<char> = Vec::new();
    let mut i = from;
    assert(v@.subrange(from as int, from as int) =~= Seq::<char>::empty());
    assert(views(done@).push(cur@) =~= split(v@.subrange(from as int, i as int), sep));
    while i < to
        invariant
            from <= i <= to <= v.len(),
            views(done@).push(cur@) == split(v@.subrange(from as int, i as int), sep),
        decreases to - i,
    {
        let c = v[i];
        let ghost before = v@.subrange(from as int, i as int);
        i += 1;
        let ghost now = v@.subrange(from as int, i as int);
        assert(now.drop_last() =~= before);
        assert(now.last() == c);
        let ghost old_done = views(done@);
        let ghost old_cur = cur@;
        if c == sep {
            let piece = cur;
            done.push(piece);
            cur = Vec::new();
            assert(views(done@) =~= old_done.push(old_cur));
            assert(views(done@).push(cur@) =~= split(before, sep).push(Seq::<char>::empty()));
        } else {
            cur.push(c);
            assert(views(done@).push(cur@) =~= old_done.push(old_cur).update(
                old_done.len() as int, old_cur.push(c)));
        }
    }
    let ghost old_done = views(done@);
    let ghost last = cur@;
    done.push(cur);
    assert(views(done@) =~= old_done.push(last));
    done
}

/// `s` without its leading whitespace.
pub open spec fn trimmed_start(s: Seq<char>) -> Seq<char>
    decreases s.len(),
{
    if s.len() > 0 && white(s[0]) { trimmed_start(s.drop_first()) } else { s }
}

/// `s` without its trailing whitespace.
pub open spec fn trimmed_end(s: Seq<char>) -> Seq<char>
    decreases s.len(),
{
    if s.len() > 0 && white(s.last()) { trimmed_end(s.drop_last()) } else { s }
}

/// `str::trim`: whitespace off both ends.
pub open spec fn trimmed(s: Seq<char>) -> Seq<char> {
    trimmed_end(trimmed_start(s))
}

/// `s` with the whitespace at both ends taken off.
pub fn trim(s: &str) -> (r: String)
    ensures
        r@ == trimmed(s@),
{
    let v = chars_of(s);
    let mut from: usize = 0;
    assert(v@.subrange(0, v@.len() as int) =~= v@);
    while from < v.len() && is_white(v[from])
        invariant
            from <= v.len(),
            trimmed_start(v@) == trimmed_start(v@.subrange(from as int, v@.len() as int)),
        decreases v.len() - from,
    {
        assert(v@.subrange(from as int, v@.len() as int).drop_first() =~= v@.subrange(from + 1, v@.len() as int));
        from += 1;
    }
    assert(trimmed_start(v@.subrange(from as int, v@.len() as int)) == v@.subrange(from as int, v@.len() as int));
    let mut to: usize = v.len();
    while to > from && is_white(v[to - 1])
        invariant
            from <= to <= v.len(),
            trimmed(v@) == trimmed_end(v@.subrange(from as int, to as int)),
        decreases to,
    {
        assert(v@.subrange(from as int, to as int).drop_last() =~= v@.subrange(from as int, to - 1));
        to -= 1;
    }
    string_of(&v, from, to)
}

/// Whether `s` ends with `c`, then all of it cut off: `str::trim_end_matches`.
pub open spec fn trim_end(s: Seq<char>, c: char) -> Seq<char>
    decreases s.len(),
{
    if s.len() > 0 && s.last() == c {
        trim_end(s.drop_last(), c)
    } else {
        s
    }
}

} // verus!

verus! {

/// What [`find_from`] found is what [`first_from`] names.
pub proof fn lemma_first_is(hay: Seq<char>, needle: Seq<char>, from: int, at: int)
    requires
        from <= at,
        occurs_at(hay, needle, at),
        forall|b: int| from <= b < at ==> !occurs_at(hay, needle, b),
    ensures
        first_from(hay, needle, from) == Some(at),
{
    let w = choose|w: int| from <= w && occurs_at(hay, needle, w)
        && forall|b: int| from <= b < w ==> !occurs_at(hay, needle, b);
    assert(from <= w && occurs_at(hay, needle, w));
    if w < at {
        assert(!occurs_at(hay, needle, w));
    } else if w > at {
        assert(!occurs_at(hay, needle, at));
    }
}

/// Whether nothing in `hay` from `from` on is `needle`.
pub proof fn lemma_first_none(hay: Seq<char>, needle: Seq<char>, from: int)
    requires
        forall|b: int| from <= b ==> !occurs_at(hay, needle, b),
    ensures
        first_from(hay, needle, from) is None,
{
}

/// Whether two texts are the same.
pub fn same(a: &Vec<char>, b: &Vec<char>) -> (r: bool)
    ensures
        r == (a@ == b@),
{
    if a.len() != b.len() {
        return false;
    }
    let mut i: usize = 0;
    while i < a.len()
        invariant
            a.len() == b.len(),
            i <= a.len(),
            forall|j: int| 0 <= j < i ==> a@[j] == b@[j],
        decreases a.len() - i,
    {
        if a[i] != b[i] {
            return false;
        }
        i += 1;
    }
    assert(a@ =~= b@);
    true
}

} // verus!

verus! {

/// `String`'s order: by character, a prefix first.
pub open spec fn before(a: Seq<char>, b: Seq<char>) -> bool
    decreases a.len(),
{
    if a.len() == 0 {
        b.len() > 0
    } else if b.len() == 0 {
        false
    } else if a[0] < b[0] {
        true
    } else if a[0] == b[0] {
        before(a.drop_first(), b.drop_first())
    } else {
        false
    }
}

pub proof fn lemma_before_irreflexive(a: Seq<char>)
    ensures
        !before(a, a),
    decreases a.len(),
{
    if a.len() > 0 {
        lemma_before_irreflexive(a.drop_first());
    }
}

pub proof fn lemma_before_transitive(a: Seq<char>, b: Seq<char>, c: Seq<char>)
    requires
        before(a, b),
        before(b, c),
    ensures
        before(a, c),
    decreases a.len(),
{
    if a.len() > 0 && b.len() > 0 && c.len() > 0 {
        if a[0] == b[0] && b[0] == c[0] {
            lemma_before_transitive(a.drop_first(), b.drop_first(), c.drop_first());
        }
    }
}

pub proof fn lemma_before_total(a: Seq<char>, b: Seq<char>)
    requires
        a != b,
    ensures
        before(a, b) || before(b, a),
    decreases a.len(),
{
    if a.len() > 0 && b.len() > 0 {
        if a[0] == b[0] {
            if a.drop_first() == b.drop_first() {
                assert(a =~= seq![a[0]] + a.drop_first());
                assert(b =~= seq![b[0]] + b.drop_first());
            }
            lemma_before_total(a.drop_first(), b.drop_first());
        }
    } else if a.len() == 0 && b.len() == 0 {
        assert(a =~= b);
    }
}

pub proof fn lemma_before_asymmetric(a: Seq<char>, b: Seq<char>)
    requires
        before(a, b),
    ensures
        !before(b, a),
{
    if before(b, a) {
        lemma_before_transitive(a, b, a);
        lemma_before_irreflexive(a);
    }
}

/// Whether `a` sorts before `b`.
pub fn sorts_before(a: &Vec<char>, b: &Vec<char>) -> (r: bool)
    ensures
        r == before(a@, b@),
{
    let mut i: usize = 0;
    assert(a@.subrange(0, a.len() as int) =~= a@);
    assert(b@.subrange(0, b.len() as int) =~= b@);
    while i < a.len() && i < b.len() && a[i] == b[i]
        invariant
            i <= a.len(),
            i <= b.len(),
            before(a@.subrange(i as int, a.len() as int), b@.subrange(i as int, b.len() as int)) == before(a@, b@),
        decreases a.len() - i,
    {
        let ghost x = a@.subrange(i as int, a.len() as int);
        let ghost y = b@.subrange(i as int, b.len() as int);
        assert(x.drop_first() =~= a@.subrange(i + 1, a.len() as int));
        assert(y.drop_first() =~= b@.subrange(i + 1, b.len() as int));
        i += 1;
    }
    if i == a.len() {
        i < b.len()
    } else if i == b.len() {
        false
    } else {
        a[i] < b[i]
    }
}

} // verus!

verus! {

/// What [`first_from`] names: the first place at or after `from`, if any.
pub proof fn lemma_first_from(hay: Seq<char>, needle: Seq<char>, from: int)
    ensures
        match first_from(hay, needle, from) {
            Some(p) => from <= p && occurs_at(hay, needle, p)
                && forall|b: int| from <= b < p ==> !occurs_at(hay, needle, b),
            None => forall|b: int| from <= b ==> !occurs_at(hay, needle, b),
        },
    decreases hay.len() + 1 - from,
{
    if from > hay.len() {
        assert forall|b: int| from <= b implies !occurs_at(hay, needle, b) by {}
        return;
    }
    if from >= 0 && occurs_at(hay, needle, from) {
        lemma_first_is(hay, needle, from, from);
        return;
    }
    lemma_first_from(hay, needle, from + 1);
    match first_from(hay, needle, from + 1) {
        Some(p) => {
            assert forall|b: int| from <= b < p implies !occurs_at(hay, needle, b) by {
                if b > from {
                }
            }
            lemma_first_is(hay, needle, from, p);
        },
        None => {
            assert forall|b: int| from <= b implies !occurs_at(hay, needle, b) by {
                if b > from {
                }
            }
        },
    }
}

pub proof fn lemma_views_push(v: Seq<Vec<char>>, x: Vec<char>)
    ensures
        views(v.push(x)) == views(v).push(x@),
{
    assert(views(v.push(x)) =~= views(v).push(x@));
}

} // verus!

verus! {

/// What stands between two pieces stands in the whole.
pub proof fn lemma_contains_middle(a: Seq<char>, b: Seq<char>, c: Seq<char>)
    ensures
        contains(a + b + c, b),
{
    assert((a + b + c).subrange(a.len() as int, (a.len() + b.len()) as int) =~= b);
    assert(occurs_at(a + b + c, b, a.len() as int));
}

/// A piece of a piece is a piece of the whole.
pub proof fn lemma_contains_within(x: Seq<char>, y: Seq<char>, z: Seq<char>)
    requires
        contains(x, y),
        contains(y, z),
    ensures
        contains(x, z),
{
    let p = choose|p: int| occurs_at(x, y, p);
    let q = choose|q: int| occurs_at(y, z, q);
    assert(x.subrange(p + q, p + q + z.len()) =~= y.subrange(q, q + z.len()));
    assert(occurs_at(x, z, p + q));
}

} // verus!
