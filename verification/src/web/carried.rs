//! What an address carries back: the order and the search a chip was drawn
//! with are the ones the server reads out of the link again.

use vstd::prelude::*;

use crate::text::{first_from, occurs_at, split, lemma_first_is, lemma_split_nonempty};
use crate::sort::{sort_name, Sort};
use crate::web::page::{beside, order_asked, Order};
use crate::web::{a_value_survives_the_trip, decoded, first_value, order_in, pair_key, pair_value, percent, sort_asked, unreserved, utf8};

verus! {

/// Cutting at a separator that joins two texts cuts each of them.
proof fn lemma_split_join(a: Seq<char>, b: Seq<char>, sep: char)
    ensures
        split(a + seq![sep] + b, sep) == split(a, sep) + split(b, sep),
    decreases b.len(),
{
    let whole = a + seq![sep] + b;
    if b.len() == 0 {
        assert(whole.drop_last() =~= a);
        assert(whole.last() == sep);
        assert(split(whole, sep) =~= split(a, sep) + split(b, sep));
    } else {
        let shorter = b.drop_last();
        lemma_split_join(a, shorter, sep);
        assert(whole.drop_last() =~= a + seq![sep] + shorter);
        assert(whole.last() == b.last());
        lemma_split_nonempty(shorter, sep);
        if b.last() == sep {
            assert(split(whole, sep) =~= split(a, sep) + split(b, sep));
        } else {
            let left = split(a, sep);
            let right = split(shorter, sep);
            assert(split(whole, sep) =~= left + right.update(right.len() - 1, right.last().push(b.last())));
            assert(split(whole, sep) =~= split(a, sep) + split(b, sep));
        }
    }
}

/// A text without the separator is one piece.
proof fn lemma_split_whole(w: Seq<char>, sep: char)
    requires
        forall|i: int| 0 <= i < w.len() ==> w[i] != sep,
    ensures
        split(w, sep) == seq![w],
    decreases w.len(),
{
    if w.len() > 0 {
        lemma_split_whole(w.drop_last(), sep);
        assert(w.drop_last().push(w.last()) =~= w);
        assert(split(w, sep) =~= seq![w]);
    } else {
        assert(w =~= Seq::<char>::empty());
    }
}

/// An encoded value holds no `&` and no `=`: neither is unreserved, `%` or a
/// hex digit.
proof fn lemma_percent_plain(b: Seq<u8>)
    ensures
        forall|i: int| 0 <= i < percent(b).len() ==> percent(b)[i] != '&' && percent(b)[i] != '=',
    decreases b.len(),
{
    if b.len() > 0 {
        lemma_percent_plain(b.drop_last());
        let last = b.last();
        let before = percent(b.drop_last());
        if unreserved(last) {
            assert(last as char != '&' && last as char != '=');
        } else {
            let h = last / 16;
            let l = last % 16;
            assert(crate::web::hex_digit(h) != '&' && crate::web::hex_digit(h) != '=');
            assert(crate::web::hex_digit(l) != '&' && crate::web::hex_digit(l) != '=');
        }
        assert forall|i: int| 0 <= i < percent(b).len() implies percent(b)[i] != '&' && percent(b)[i] != '=' by {
            if i < before.len() {
                assert(percent(b)[i] == before[i]);
            }
        }
    }
}

/// A character written as itself in a query string.
pub open spec fn plain_char(c: char) -> bool {
    (c as u32) < 128 && unreserved(c as u8)
}

/// A text written as itself in a query string: the names of the parameters
/// and the orders.
pub open spec fn plain(w: Seq<char>) -> bool {
    forall|i: int| 0 <= i < w.len() ==> plain_char(#[trigger] w[i])
}

proof fn lemma_plain_bytes(w: Seq<char>)
    requires
        plain(w),
    ensures
        utf8(w) == w.map_values(|c: char| c as u8),
        percent(w.map_values(|c: char| c as u8)) == w,
    decreases w.len(),
{
    if w.len() == 0 {
        assert(utf8(w) =~= w.map_values(|c: char| c as u8));
        assert(percent(w.map_values(|c: char| c as u8)) =~= w);
    } else {
        let front = w.drop_last();
        let c = w.last();
        assert(plain_char(w[w.len() - 1]));
        lemma_plain_bytes(front);
        crate::web::lemma_utf8_join(front, seq![c]);
        crate::web::lemma_utf8_ascii(c);
        assert(front + seq![c] =~= w);
        assert(utf8(w) =~= w.map_values(|c: char| c as u8));
        let b = w.map_values(|c: char| c as u8);
        assert(b.drop_last() =~= front.map_values(|c: char| c as u8));
        assert(b.last() == c as u8);
        lemma_ascii_round(c);
        assert(percent(b) =~= w);
    }
}

proof fn lemma_ascii_round(c: char)
    requires
        (c as u32) < 128,
    ensures
        (c as u8) as char == c,
{
    let v = c as u32;
    assert(c as u8 == v as u8);
    assert((v as u8) as u32 == v) by (bit_vector)
        requires v < 128;
}

/// A plain text decodes to itself.
proof fn lemma_plain_decodes(w: Seq<char>)
    requires
        plain(w),
    ensures
        decoded(w) == w,
{
    lemma_plain_bytes(w);
    a_value_survives_the_trip(w);
}

/// `key=value` with no `=` in the key reads back as that key and that value.
proof fn lemma_pair(key: Seq<char>, value: Seq<char>)
    requires
        forall|i: int| 0 <= i < key.len() ==> key[i] != '=',
    ensures
        pair_key(key + seq!['='] + value) == key,
        pair_value(key + seq!['='] + value) == value,
{
    let p = key + seq!['='] + value;
    let at = key.len() as int;
    assert(p.subrange(at, at + 1) =~= seq!['=']);
    assert forall|b: int| 0 <= b < at implies !occurs_at(p, seq!['='], b) by {
        assert(p.subrange(b, b + 1)[0] == key[b]);
    }
    lemma_first_is(p, seq!['='], 0, at);
    assert(p.subrange(0, at) =~= key);
    assert(p.subrange(at + 1, p.len() as int) =~= value);
}

/// Two pieces joined by `&`, where the second holds none, cut apart again.
proof fn lemma_split_beside(a: Seq<char>, b: Seq<char>)
    requires
        forall|i: int| 0 <= i < b.len() ==> b[i] != '&',
    ensures
        a.len() == 0 ==> beside(a, "&"@, b) == b,
        b.len() == 0 ==> beside(a, "&"@, b) == a,
        a.len() > 0 && b.len() > 0 ==> split(beside(a, "&"@, b), '&') == split(a, '&').push(b),
{
    reveal_strlit("&");
    if a.len() > 0 && b.len() > 0 {
        assert("&"@ =~= seq!['&']);
        lemma_split_join(a, b, '&');
        lemma_split_whole(b, '&');
        assert(split(a, '&') + seq![b] =~= split(a, '&').push(b));
    }
}

/// What a server is handed for a link whose address ends in `tail` (the
/// part after the path): nothing, or what follows the `?`.
pub open spec fn query_of(tail: Seq<char>) -> Option<Seq<char>> {
    if tail.len() == 0 { None } else { Some(tail.drop_first()) }
}

/// What `parameter` reads out of a query string for `name`.
pub open spec fn value_in(query: Option<Seq<char>>, name: Seq<char>) -> Seq<char> {
    match query {
        None => Seq::empty(),
        Some(q) => first_value(split(q, '&'), name, 0),
    }
}

/// An order the address names is the one read back.
proof fn lemma_sort_named(s: Sort)
    ensures
        plain(sort_name(s)),
        sort_name(s).len() > 0,
        sort_asked(sort_name(s)) == s,
        sort_asked(Seq::empty()) == Sort::Slug,
{
    reveal_strlit("slug");
    reveal_strlit("created");
    reveal_strlit("updated");
    reveal_strlit("title");
    assert("created"@[0] != "updated"@[0]);
    assert("slug"@.len() == 4 && "created"@.len() == 7 && "updated"@.len() == 7 && "title"@.len() == 5);
    match s {
        Sort::Slug => {},
        Sort::Created => {},
        Sort::Updated => {},
        Sort::Title => {},
    }
    assert(plain(sort_name(s))) by {
        assert forall|i: int| 0 <= i < sort_name(s).len() implies plain_char(#[trigger] sort_name(s)[i]) by {
            let c = sort_name(s)[i];
            assert('a' <= c && c <= 'z');
        }
    }
}

/// The `q` pair a link writes: the line typed, encoded; none for an empty one.
pub open spec fn q_piece(typed: Seq<char>) -> Seq<char> {
    if typed.len() > 0 { "q="@ + percent(utf8(typed)) } else { Seq::empty() }
}

/// The `sort` pair: none for the default order.
pub open spec fn sort_piece(order: Order) -> Seq<char> {
    if order.sort != Sort::Slug { "sort="@ + sort_name(order.sort) } else { Seq::empty() }
}

/// The `r` pair: none unless reversed.
pub open spec fn r_piece(order: Order) -> Seq<char> {
    if order.reversed { "r=1"@ } else { Seq::empty() }
}

/// The pairs a link writes, in order, leaving out the empty ones.
pub open spec fn pieces(order: Order, typed: Seq<char>) -> Seq<Seq<char>> {
    (if typed.len() > 0 { seq![q_piece(typed)] } else { Seq::empty() })
        + (if order.sort != Sort::Slug { seq![sort_piece(order)] } else { Seq::empty() })
        + (if order.reversed { seq![r_piece(order)] } else { Seq::empty() })
}

/// The pairs after the `?` are the pieces, and there is a `?` exactly when
/// there is a piece.
proof fn lemma_written(order: Order, typed: Seq<char>)
    ensures
        pieces(order, typed).len() == 0 ==> order_asked(order, typed).len() == 0,
        pieces(order, typed).len() > 0 ==> query_of(order_asked(order, typed)) == Some(beside(beside(q_piece(typed), "&"@, sort_piece(order)), "&"@, r_piece(order))),
        pieces(order, typed).len() > 0 ==> split(beside(beside(q_piece(typed), "&"@, sort_piece(order)), "&"@, r_piece(order)), '&') == pieces(order, typed),
{
    reveal_strlit("q=");
    reveal_strlit("sort=");
    reveal_strlit("r=1");
    reveal_strlit("?");
    let p = q_piece(typed);
    let s = sort_piece(order);
    let r = r_piece(order);
    let enc = percent(utf8(typed));
    lemma_sort_named(order.sort);
    lemma_percent_plain(utf8(typed));
    assert(forall|i: int| 0 <= i < p.len() ==> p[i] != '&') by {
        assert forall|i: int| 0 <= i < p.len() implies p[i] != '&' by {
            if i >= 2 {
                assert(p[i] == enc[i - 2]);
            }
        }
    }
    assert(forall|i: int| 0 <= i < s.len() ==> s[i] != '&') by {
        assert forall|i: int| 0 <= i < s.len() implies s[i] != '&' by {
            if i >= 5 {
                assert(s[i] == sort_name(order.sort)[i - 5]);
                assert(plain_char(sort_name(order.sort)[i - 5]));
            }
        }
    }
    assert(forall|i: int| 0 <= i < r.len() ==> r[i] != '&');
    let ps = beside(p, "&"@, s);
    let parts = beside(ps, "&"@, r);
    lemma_split_beside(p, s);
    lemma_split_beside(ps, r);
    lemma_split_whole(p, '&');
    lemma_split_whole(s, '&');
    lemma_split_whole(r, '&');
    assert(p.len() > 0 <==> typed.len() > 0);
    assert(s.len() > 0 <==> order.sort != Sort::Slug);
    assert(r.len() > 0 <==> order.reversed);
    assert(parts.len() > 0 <==> pieces(order, typed).len() > 0);
    if parts.len() > 0 {
        assert(("?"@ + parts).drop_first() =~= parts);
        assert(split(parts, '&') =~= pieces(order, typed));
    }
}

/// The first pair named `name` in a list that starts with `x`.
proof fn lemma_first_value_front(x: Seq<char>, rest: Seq<Seq<char>>, name: Seq<char>, k: int)
    requires
        0 <= k,
    ensures
        first_value(seq![x] + rest, name, k + 1) == first_value(rest, name, k),
    decreases rest.len() - k,
{
    let all = seq![x] + rest;
    if k < rest.len() {
        assert(all[k + 1] == rest[k]);
        lemma_first_value_front(x, rest, name, k + 1);
    }
}

/// Each piece's name and value, as read.
proof fn lemma_pieces_read(order: Order, typed: Seq<char>)
    ensures
        typed.len() > 0 ==> decoded(pair_key(q_piece(typed))) == "q"@ && decoded(pair_value(q_piece(typed))) == typed,
        order.sort != Sort::Slug ==> decoded(pair_key(sort_piece(order))) == "sort"@
            && decoded(pair_value(sort_piece(order))) == sort_name(order.sort),
        order.reversed ==> decoded(pair_key(r_piece(order))) == "r"@ && decoded(pair_value(r_piece(order))) == "1"@,
        "q"@ != "sort"@ && "r"@ != "sort"@ && "q"@ != "r"@,
        "1"@.len() > 0,
{
    reveal_strlit("q=");
    reveal_strlit("q");
    reveal_strlit("sort=");
    reveal_strlit("sort");
    reveal_strlit("r=1");
    reveal_strlit("r");
    reveal_strlit("1");
    lemma_sort_named(order.sort);
    lemma_percent_plain(utf8(typed));
    a_value_survives_the_trip(typed);
    assert("q="@ =~= "q"@ + seq!['=']);
    assert("sort="@ =~= "sort"@ + seq!['=']);
    assert("r=1"@ =~= "r"@ + seq!['='] + "1"@);
    lemma_pair("q"@, percent(utf8(typed)));
    lemma_pair("sort"@, sort_name(order.sort));
    lemma_pair("r"@, "1"@);
    assert(plain("q"@));
    assert(plain("sort"@));
    assert(plain("r"@));
    assert(plain("1"@));
    lemma_plain_decodes("q"@);
    lemma_plain_decodes("sort"@);
    lemma_plain_decodes("r"@);
    lemma_plain_decodes("1"@);
    lemma_plain_decodes(sort_name(order.sort));
    assert("q"@ != "sort"@ && "r"@ != "sort"@ && "q"@ != "r"@);
}

/// A list read from its front: its first pair answers for its own name, and
/// passes any other on to the rest.
proof fn lemma_first_value_head(x: Seq<char>, rest: Seq<Seq<char>>, name: Seq<char>)
    ensures
        decoded(pair_key(x)) == name ==> first_value(seq![x] + rest, name, 0) == decoded(pair_value(x)),
        decoded(pair_key(x)) != name ==> first_value(seq![x] + rest, name, 0) == first_value(rest, name, 0),
        first_value(Seq::<Seq<char>>::empty(), name, 0) == Seq::<char>::empty(),
{
    assert((seq![x] + rest)[0] == x);
    lemma_first_value_front(x, rest, name, 0);
}

/// What the server reads for each name out of the pieces a link writes.
proof fn lemma_pieces_values(order: Order, typed: Seq<char>)
    ensures
        first_value(pieces(order, typed), "q"@, 0) == typed,
        first_value(pieces(order, typed), "sort"@, 0) == (if order.sort != Sort::Slug { sort_name(order.sort) } else { Seq::empty() }),
        first_value(pieces(order, typed), "r"@, 0).len() > 0 <==> order.reversed,
{
    lemma_pieces_read(order, typed);
    let q = q_piece(typed);
    let s = sort_piece(order);
    let r = r_piece(order);
    let tail_r: Seq<Seq<char>> = if order.reversed { seq![r] } else { Seq::empty() };
    let tail_s: Seq<Seq<char>> = (if order.sort != Sort::Slug { seq![s] } else { Seq::empty() }) + tail_r;
    let all = pieces(order, typed);
    assert(all =~= (if typed.len() > 0 { seq![q] } else { Seq::empty() }) + tail_s);
    assert(tail_r =~= (if order.reversed { seq![r] + Seq::empty() } else { Seq::empty() }));
    assert(tail_s =~= (if order.sort != Sort::Slug { seq![s] + tail_r } else { tail_r }));
    if typed.len() > 0 {
        assert(all =~= seq![q] + tail_s);
    } else {
        assert(all =~= tail_s);
        assert(typed =~= Seq::<char>::empty());
    }
    let names = seq!["q"@, "sort"@, "r"@];
    assert forall|k: int| 0 <= k < 3 implies
        #[trigger] first_value(all, names[k], 0) == (if typed.len() > 0 && names[k] == "q"@ { typed } else { first_value(tail_s, names[k], 0) }) by {
        lemma_first_value_head(q, tail_s, names[k]);
    }
    assert forall|k: int| 0 <= k < 3 implies
        #[trigger] first_value(tail_s, names[k], 0) == (if order.sort != Sort::Slug && names[k] == "sort"@ { sort_name(order.sort) } else { first_value(tail_r, names[k], 0) }) by {
        lemma_first_value_head(s, tail_r, names[k]);
        if order.sort == Sort::Slug {
            assert(tail_s =~= tail_r);
        }
    }
    assert forall|k: int| 0 <= k < 3 implies
        #[trigger] first_value(tail_r, names[k], 0) == (if order.reversed && names[k] == "r"@ { "1"@ } else { Seq::<char>::empty() }) by {
        lemma_first_value_head(r, Seq::empty(), names[k]);
        if order.reversed {
            assert(tail_r =~= seq![r] + Seq::<Seq<char>>::empty());
        }
    }
    assert(names[0] == "q"@ && names[1] == "sort"@ && names[2] == "r"@);
    assert(first_value(all, names[0], 0) == typed);
    assert(first_value(all, names[1], 0) == first_value(tail_s, names[1], 0));
    assert(first_value(all, names[2], 0) == first_value(tail_s, names[2], 0));
    assert(first_value(tail_s, names[2], 0) == first_value(tail_r, names[2], 0));
}

/// A chip's link asks for the order it was drawn for and keeps the search
/// typed: what [`Order::asked`](crate::web::page::Order::asked) writes after
/// a listing's path, the server reads back with
/// [`order_of`](crate::web::order_of) and [`parameter`](crate::web::parameter)
/// as that order and that line. The default order with nothing typed writes
/// no query at all, and reads back as the default.
pub proof fn an_order_and_a_search_survive_the_address(order: Order, typed: Seq<char>)
    ensures
        order_in(query_of(order_asked(order, typed))) == order,
        value_in(query_of(order_asked(order, typed)), "q"@) == typed,
{
    lemma_written(order, typed);
    lemma_pieces_values(order, typed);
    lemma_sort_named(order.sort);
    if pieces(order, typed).len() == 0 {
        assert(typed.len() == 0 && order.sort == Sort::Slug && !order.reversed);
        assert(typed =~= Seq::<char>::empty());
    }
}

} // verus!
