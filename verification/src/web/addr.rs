//! What counts as an IP address written out: the forms `IpAddr`'s parser
//! takes, four decimal octets or eight hex groups with one `::` gap.

use vstd::prelude::*;

use crate::text::{find_from, first_from, split, split_vec, views};

verus! {

pub open spec fn is_digit(c: char) -> bool {
    '0' <= c && c <= '9'
}

pub open spec fn is_hex(c: char) -> bool {
    is_digit(c) || ('a' <= c && c <= 'f') || ('A' <= c && c <= 'F')
}

/// The number a run of decimal digits spells.
pub open spec fn dec_value(p: Seq<char>) -> nat
    decreases p.len(),
{
    if p.len() == 0 {
        0
    } else {
        dec_value(p.drop_last()) * 10 + ((p.last() as nat) - ('0' as nat)) as nat
    }
}

/// One part of a dotted quad: one to three digits, no leading zero, at most
/// 255.
pub open spec fn octet(p: Seq<char>) -> bool {
    &&& 1 <= p.len() <= 3
    &&& forall|i: int| 0 <= i < p.len() ==> is_digit(#[trigger] p[i])
    &&& (p.len() == 1 || p[0] != '0')
    &&& dec_value(p) <= 255
}

/// `a.b.c.d`.
pub open spec fn ipv4(s: Seq<char>) -> bool {
    let parts = split(s, '.');
    parts.len() == 4 && forall|i: int| 0 <= i < 4 ==> octet(#[trigger] parts[i])
}

/// One to four hex digits.
pub open spec fn hex_group(p: Seq<char>) -> bool {
    1 <= p.len() <= 4 && forall|i: int| 0 <= i < p.len() ==> is_hex(#[trigger] p[i])
}

/// Eight groups, or six and a dotted quad, with no gap.
pub open spec fn full(s: Seq<char>) -> bool {
    let parts = split(s, ':');
    ||| parts.len() == 8 && forall|i: int| 0 <= i < 8 ==> hex_group(#[trigger] parts[i])
    ||| parts.len() == 7 && (forall|i: int| 0 <= i < 6 ==> hex_group(#[trigger] parts[i]))
        && ipv4(parts[6])
}

/// How many groups stand before a gap; a dotted quad may not.
pub open spec fn head_size(h: Seq<char>) -> Option<nat> {
    let parts = split(h, ':');
    if h.len() == 0 {
        Some(0)
    } else if forall|i: int| 0 <= i < parts.len() ==> hex_group(#[trigger] parts[i]) {
        Some(parts.len())
    } else {
        None
    }
}

/// How many groups stand after a gap, a closing dotted quad counting two.
pub open spec fn tail_size(t: Seq<char>) -> Option<nat> {
    let parts = split(t, ':');
    if t.len() == 0 {
        Some(0)
    } else if forall|i: int| 0 <= i < parts.len() ==> hex_group(#[trigger] parts[i]) {
        Some(parts.len())
    } else if (forall|i: int| 0 <= i < parts.len() - 1 ==> hex_group(#[trigger] parts[i]))
        && ipv4(parts.last()) {
        Some(parts.len() + 1)
    } else {
        None
    }
}

/// An IPv6 address: eight groups, or fewer with one `::` standing for at
/// least one group of zeros.
pub open spec fn ipv6(s: Seq<char>) -> bool {
    match first_from(s, seq![':', ':'], 0) {
        None => full(s),
        Some(gap) => match (head_size(s.subrange(0, gap)), tail_size(s.subrange(gap + 2, s.len() as int))) {
            (Some(h), Some(t)) => h + t <= 7,
            _ => false,
        },
    }
}

/// What `IpAddr`'s parser accepts.
pub open spec fn ip(s: Seq<char>) -> bool {
    ipv4(s) || ipv6(s)
}

fn digit(c: char) -> (r: bool)
    ensures
        r == is_digit(c),
{
    '0' <= c && c <= '9'
}

fn hex(c: char) -> (r: bool)
    ensures
        r == is_hex(c),
{
    ('0' <= c && c <= '9') || ('a' <= c && c <= 'f') || ('A' <= c && c <= 'F')
}

proof fn lemma_dec_small(p: Seq<char>)
    requires
        forall|i: int| 0 <= i < p.len() ==> is_digit(#[trigger] p[i]),
    ensures
        p.len() == 0 ==> dec_value(p) == 0,
        p.len() == 1 ==> dec_value(p) < 10,
        p.len() == 2 ==> dec_value(p) < 100,
        p.len() == 3 ==> dec_value(p) < 1000,
    decreases p.len(),
{
    if p.len() > 0 {
        let q = p.drop_last();
        assert forall|i: int| 0 <= i < q.len() implies is_digit(#[trigger] q[i]) by {
            assert(q[i] == p[i]);
        }
        lemma_dec_small(q);
        assert(is_digit(p[p.len() - 1]));
    }
}

fn is_octet(p: &Vec<char>) -> (r: bool)
    ensures
        r == octet(p@),
{
    if p.len() < 1 || p.len() > 3 {
        return false;
    }
    let mut i: usize = 0;
    let mut value: u32 = 0;
    while i < p.len()
        invariant
            1 <= p.len() <= 3,
            i <= p.len(),
            forall|j: int| 0 <= j < i ==> is_digit(#[trigger] p@[j]),
            value == dec_value(p@.subrange(0, i as int)),
            value < 1000,
        decreases p.len() - i,
    {
        let c = p[i];
        if !digit(c) {
            return false;
        }
        let ghost before = p@.subrange(0, i as int);
        proof {
            lemma_dec_small(before);
        }
        let d = (c as u32) - ('0' as u32);
        value = value * 10 + d;
        i += 1;
        proof {
            assert(p@.subrange(0, i as int).drop_last() =~= before);
            lemma_dec_small(p@.subrange(0, i as int));
        }
    }
    assert(p@.subrange(0, p.len() as int) =~= p@);
    if p.len() > 1 && p[0] == '0' {
        return false;
    }
    value <= 255
}

fn is_hex_group(p: &Vec<char>) -> (r: bool)
    ensures
        r == hex_group(p@),
{
    if p.len() < 1 || p.len() > 4 {
        return false;
    }
    let mut i: usize = 0;
    while i < p.len()
        invariant
            i <= p.len(),
            forall|j: int| 0 <= j < i ==> is_hex(#[trigger] p@[j]),
        decreases p.len() - i,
    {
        if !hex(p[i]) {
            return false;
        }
        i += 1;
    }
    true
}

/// Whether every piece from `from` up to `to` is a hex group.
fn all_hex(parts: &Vec<Vec<char>>, to: usize) -> (r: bool)
    requires
        to <= parts.len(),
    ensures
        r == forall|i: int| 0 <= i < to ==> hex_group(#[trigger] views(parts@)[i]),
{
    let mut i: usize = 0;
    while i < to
        invariant
            to <= parts.len(),
            i <= to,
            forall|j: int| 0 <= j < i ==> hex_group(#[trigger] views(parts@)[j]),
        decreases to - i,
    {
        if !is_hex_group(&parts[i]) {
            assert(views(parts@)[i as int] == parts@[i as int]@);
            return false;
        }
        assert(views(parts@)[i as int] == parts@[i as int]@);
        i += 1;
    }
    true
}

/// Whether `v[from..to]` is a dotted quad.
fn is_ipv4(v: &Vec<char>, from: usize, to: usize) -> (r: bool)
    requires
        from <= to <= v.len(),
    ensures
        r == ipv4(v@.subrange(from as int, to as int)),
{
    let parts = split_vec(v, from, to, '.');
    if parts.len() != 4 {
        return false;
    }
    let mut i: usize = 0;
    while i < 4
        invariant
            parts.len() == 4,
            i <= 4,
            views(parts@) == split(v@.subrange(from as int, to as int), '.'),
            forall|j: int| 0 <= j < i ==> octet(#[trigger] views(parts@)[j]),
        decreases 4 - i,
    {
        assert(views(parts@)[i as int] == parts@[i as int]@);
        if !is_octet(&parts[i]) {
            return false;
        }
        i += 1;
    }
    true
}

fn is_full(v: &Vec<char>) -> (r: bool)
    ensures
        r == full(v@),
{
    let parts = split_vec(v, 0, v.len(), ':');
    assert(v@.subrange(0, v.len() as int) =~= v@);
    if parts.len() == 8 {
        all_hex(&parts, 8)
    } else if parts.len() == 7 {
        if !all_hex(&parts, 6) {
            return false;
        }
        let last = &parts[6];
        assert(views(parts@)[6] == last@);
        let r = is_ipv4(last, 0, last.len());
        assert(last@.subrange(0, last.len() as int) =~= last@);
        r
    } else {
        false
    }
}

fn head_of(v: &Vec<char>, to: usize) -> (r: Option<usize>)
    requires
        to <= v.len(),
    ensures
        match head_size(v@.subrange(0, to as int)) {
            Some(n) => r matches Some(k) && k as nat == n,
            None => r is None,
        },
{
    if to == 0 {
        return Some(0);
    }
    let parts = split_vec(v, 0, to, ':');
    if all_hex(&parts, parts.len()) {
        Some(parts.len())
    } else {
        None
    }
}

fn tail_of(v: &Vec<char>, from: usize) -> (r: Option<usize>)
    requires
        from <= v.len(),
    ensures
        match tail_size(v@.subrange(from as int, v.len() as int)) {
            Some(n) => r matches Some(k) && (n <= 7 ==> k == n) && (n > 7 ==> k > 7),
            None => r is None,
        },
{
    if from == v.len() {
        return Some(0);
    }
    let parts = split_vec(v, from, v.len(), ':');
    proof {
        crate::text::lemma_split_nonempty(v@.subrange(from as int, v.len() as int), ':');
    }
    let n = parts.len();
    if all_hex(&parts, n) {
        return Some(n);
    }
    if !all_hex(&parts, n - 1) {
        return None;
    }
    let last = &parts[n - 1];
    assert(views(parts@)[n - 1] == last@);
    assert(last@.subrange(0, last.len() as int) =~= last@);
    if is_ipv4(last, 0, last.len()) {
        if n < 8 {
            Some(n + 1)
        } else {
            Some(8)
        }
    } else {
        None
    }
}

/// Whether `v` is an address `IpAddr` would read.
pub fn is_ip(v: &Vec<char>) -> (r: bool)
    ensures
        r == ip(v@),
{
    assert(v@.subrange(0, v.len() as int) =~= v@);
    if is_ipv4(v, 0, v.len()) {
        return true;
    }
    let gap_mark = vec![':', ':'];
    assert(gap_mark@ =~= seq![':', ':']);
    match find_from(v, &gap_mark, 0) {
        None => {
            proof { crate::text::lemma_first_none(v@, seq![':', ':'], 0); }
            is_full(v)
        },
        Some(gap) => {
            proof { crate::text::lemma_first_is(v@, seq![':', ':'], 0, gap as int); }
            assert(crate::text::occurs_at(v@, gap_mark@, gap as int));
            let h = head_of(v, gap);
            let t = tail_of(v, gap + 2);
            let r = match (h, t) {
                (Some(h), Some(t)) => h <= 7 && t <= 7 && h + t <= 7,
                _ => false,
            };
            assert(!ipv4(v@));
            assert(r == ipv6(v@));
            r
        },
    }
}

} // verus!
