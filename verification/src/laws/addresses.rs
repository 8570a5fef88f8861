//! Lists of addresses survive being written down and read back.

use vstd::prelude::*;

use crate::backend::{force_command, of_kind, profile_command};
use crate::report::{forced_servers, listed_servers};
use crate::laws::entries::law_trimmed_stays_trimmed;
use crate::laws::world::{
    law_forced_profile_reads_back, lemma_kinds_are_filters, modified, shown, Profile,
};
use crate::servers::{address_text, parsed_addresses, parses_as_ip, same_list};
use crate::text::{
    items, joined, lines, non_empty, one_of, pieces, strip_return, trim_end, trim_start, trimmed,
    unescaped, white,
};

verus! {

/// A text without separators is one piece.
pub proof fn lemma_one_piece(s: Seq<char>, sep: spec_fn(char) -> bool)
    requires
        forall|i: int| 0 <= i < s.len() ==> !sep(#[trigger] s[i]),
    ensures
        pieces(s, sep) == seq![s],
    decreases s.len(),
{
    if s.len() > 0 {
        let front = s.drop_last();
        assert forall|i: int| 0 <= i < front.len() implies !sep(#[trigger] front[i]) by {
            assert(front[i] == s[i]);
        }
        lemma_one_piece(front, sep);
        assert(!sep(s[s.len() - 1]));
        assert(front.push(s.last()) == s);
        assert(pieces(s, sep) =~= seq![s]);
    } else {
        assert(s =~= Seq::<char>::empty());
    }
}

/// The pieces of two texts around a separator are those of the one and those of the other.
pub proof fn lemma_pieces_around(a: Seq<char>, c: char, b: Seq<char>, sep: spec_fn(char) -> bool)
    requires
        sep(c),
    ensures
        pieces(a + seq![c] + b, sep) == pieces(a, sep) + pieces(b, sep),
        pieces(b, sep).len() > 0,
    decreases b.len(),
{
    let s = a + seq![c] + b;
    if b.len() == 0 {
        assert(s.drop_last() == a);
        assert(pieces(s, sep) =~= pieces(a, sep) + pieces(b, sep));
    } else {
        let front = b.drop_last();
        lemma_pieces_around(a, c, front, sep);
        assert(s.drop_last() == a + seq![c] + front);
        assert(s.last() == b.last());
        let p = pieces(a, sep);
        let q = pieces(front, sep);
        assert((p + q).last() == q.last());
        assert((p + q).drop_last() == p + q.drop_last());
        assert(pieces(s, sep) =~= p + pieces(b, sep));
    }
}

/// A text without white space at its ends is trimmed already.
pub proof fn lemma_trimmed(s: Seq<char>)
    requires
        s.len() > 0 ==> !white(s.first()) && !white(s.last()),
    ensures
        trimmed(s) == s,
{
}

/// Leaving out the empty texts goes part by part.
pub proof fn lemma_non_empty_add(a: Seq<Seq<char>>, b: Seq<Seq<char>>)
    ensures
        non_empty(a + b) == non_empty(a) + non_empty(b),
    decreases b.len(),
{
    reveal(Seq::filter);
    if b.len() == 0 {
        assert(a + b == a);
    } else {
        lemma_non_empty_add(a, b.drop_last());
        assert((a + b).drop_last() == a + b.drop_last());
        assert((a + b).last() == b.last());
        assert(non_empty(a + b) =~= non_empty(a) + non_empty(b));
    }
}

/// Of one text, nothing is left out unless it is empty.
pub proof fn lemma_non_empty_one(s: Seq<char>)
    ensures
        non_empty(seq![s]) == if s.len() > 0 {
            seq![s]
        } else {
            Seq::<Seq<char>>::empty()
        },
{
    reveal(Seq::filter);
    assert(seq![s].drop_last() == Seq::<Seq<char>>::empty());
    assert(non_empty(Seq::<Seq<char>>::empty()) =~= Seq::<Seq<char>>::empty());
    assert(non_empty(seq![s]) =~= if s.len() > 0 {
        seq![s]
    } else {
        Seq::<Seq<char>>::empty()
    });
}

/// An item that can stand in a list written with `seps`: not empty, without any of them, and
/// without white space at its ends.
pub open spec fn clean_item(s: Seq<char>, seps: Seq<char>) -> bool {
    &&& s.len() > 0
    &&& !white(s.first())
    &&& !white(s.last())
    &&& forall|i: int| 0 <= i < s.len() ==> !seps.contains(#[trigger] s[i])
}

/// A clean item stands for itself.
pub proof fn lemma_items_one(s: Seq<char>, seps: Seq<char>)
    requires
        clean_item(s, seps),
    ensures
        items(s, seps) == seq![s],
{
    lemma_one_piece(s, one_of(seps));
    lemma_trimmed(s);
    assert(seq![s].map_values(|p: Seq<char>| trimmed(p)) =~= seq![s]);
    lemma_non_empty_one(s);
}

/// An empty text holds no items.
pub proof fn lemma_items_none(seps: Seq<char>)
    ensures
        items(Seq::<char>::empty(), seps) == Seq::<Seq<char>>::empty(),
{
    let e = Seq::<char>::empty();
    assert(seq![e].map_values(|p: Seq<char>| trimmed(p)) =~= seq![e]);
    lemma_non_empty_one(e);
}

/// The items of two texts around a separator are those of the one and those of the other.
pub proof fn lemma_items_around(a: Seq<char>, c: char, b: Seq<char>, seps: Seq<char>)
    requires
        seps.contains(c),
    ensures
        items(a + seq![c] + b, seps) == items(a, seps) + items(b, seps),
{
    let f = |p: Seq<char>| trimmed(p);
    let p = pieces(a, one_of(seps));
    let q = pieces(b, one_of(seps));
    lemma_pieces_around(a, c, b, one_of(seps));
    assert((p + q).map_values(f) =~= p.map_values(f) + q.map_values(f));
    lemma_non_empty_add(p.map_values(f), q.map_values(f));
}

/// Joining clean items and splitting the text again gives the items back, where the text
/// between them is made of separators.
pub proof fn lemma_items_of_joined(list: Seq<Seq<char>>, glue: Seq<char>, seps: Seq<char>)
    requires
        forall|i: int| 0 <= i < list.len() ==> clean_item(#[trigger] list[i], seps),
        0 < glue.len() <= 2,
        forall|i: int| 0 <= i < glue.len() ==> seps.contains(#[trigger] glue[i]),
    ensures
        items(joined(list, glue), seps) == list,
    decreases list.len(),
{
    if list.len() == 0 {
        lemma_items_none(seps);
        assert(list =~= Seq::<Seq<char>>::empty());
    } else if list.len() == 1 {
        lemma_items_one(list[0], seps);
        assert(list =~= seq![list[0]]);
    } else {
        let front = list.drop_last();
        let x = list.last();
        assert forall|i: int| 0 <= i < front.len() implies clean_item(
            #[trigger] front[i],
            seps,
        ) by {
            assert(front[i] == list[i]);
        }
        lemma_items_of_joined(front, glue, seps);
        let a = joined(front, glue);
        assert(seps.contains(glue[0]));
        assert(clean_item(list[list.len() - 1], seps));
        lemma_items_one(x, seps);
        if glue.len() == 1 {
            assert(a + glue + x == a + seq![glue[0]] + x);
            lemma_items_around(a, glue[0], x, seps);
        } else {
            assert(seps.contains(glue[1]));
            let e = Seq::<char>::empty();
            assert(a + glue + x == a + seq![glue[0]] + (e + seq![glue[1]] + x));
            lemma_items_around(a, glue[0], e + seq![glue[1]] + x, seps);
            lemma_items_around(e, glue[1], x, seps);
            lemma_items_none(seps);
            assert(Seq::<Seq<char>>::empty() + seq![x] =~= seq![x]);
        }
        assert(list =~= front + seq![x]);
    }
}

/// An address is a clean item of any list written with commas, spaces and semicolons.
pub proof fn lemma_address_clean(s: Seq<char>)
    requires
        address_text(s),
    ensures
        clean_item(s, seq![',', ' ', ';']),
        clean_item(s, seq![',']),
{
    assert forall|i: int| 0 <= i < s.len() implies !seq![',', ' ', ';'].contains(#[trigger] s[i])
        && !seq![','].contains(s[i]) && !white(s[i]) by {
        assert(crate::servers::address_char(s[i]));
    }
    assert(!white(s[0]) && !white(s[s.len() - 1]));
}

/// No piece holds a separator.
pub proof fn lemma_pieces_hold_no_separator(s: Seq<char>, sep: spec_fn(char) -> bool)
    ensures
        pieces(s, sep).len() > 0,
        forall|i: int, k: int|
            0 <= i < pieces(s, sep).len() && 0 <= k < pieces(s, sep)[i].len() ==> !sep(
                #[trigger] pieces(s, sep)[i][k],
            ),
    decreases s.len(),
{
    if s.len() > 0 {
        let before = pieces(s.drop_last(), sep);
        let all = pieces(s, sep);
        lemma_pieces_hold_no_separator(s.drop_last(), sep);
        assert forall|i: int, k: int| 0 <= i < all.len() && 0 <= k < all[i].len() implies !sep(
            #[trigger] all[i][k],
        ) by {
            if i < before.len() && k < before[i].len() {
                assert(all[i][k] == before[i][k]);
            }
        }
    }
}

proof fn lemma_trim_start_keeps(s: Seq<char>, bad: spec_fn(char) -> bool)
    requires
        forall|i: int| 0 <= i < s.len() ==> !bad(#[trigger] s[i]),
    ensures
        forall|i: int| 0 <= i < trim_start(s).len() ==> !bad(#[trigger] trim_start(s)[i]),
    decreases s.len(),
{
    if s.len() > 0 && white(s.first()) {
        let rest = s.drop_first();
        assert forall|i: int| 0 <= i < rest.len() implies !bad(#[trigger] rest[i]) by {
            assert(rest[i] == s[i + 1]);
        }
        lemma_trim_start_keeps(rest, bad);
        assert(trim_start(s) == trim_start(rest));
    }
}

proof fn lemma_trim_end_keeps(s: Seq<char>, bad: spec_fn(char) -> bool)
    requires
        forall|i: int| 0 <= i < s.len() ==> !bad(#[trigger] s[i]),
    ensures
        forall|i: int| 0 <= i < trim_end(s).len() ==> !bad(#[trigger] trim_end(s)[i]),
    decreases s.len(),
{
    if s.len() > 0 && white(s.last()) {
        let rest = s.drop_last();
        assert forall|i: int| 0 <= i < rest.len() implies !bad(#[trigger] rest[i]) by {
            assert(rest[i] == s[i]);
        }
        lemma_trim_end_keeps(rest, bad);
        assert(trim_end(s) == trim_end(rest));
    }
}

/// The texts that are kept are not empty and stood in the list.
proof fn lemma_non_empty_kept(list: Seq<Seq<char>>)
    ensures
        forall|i: int|
            0 <= i < non_empty(list).len() ==> (#[trigger] non_empty(list)[i]).len() > 0
                && list.contains(non_empty(list)[i]),
    decreases list.len(),
{
    reveal(Seq::filter);
    if list.len() > 0 {
        let front = list.drop_last();
        let before = non_empty(front);
        let all = non_empty(list);
        lemma_non_empty_kept(front);
        assert(all == before || all == before.push(list.last()));
        assert forall|i: int| 0 <= i < all.len() implies (#[trigger] all[i]).len() > 0
            && list.contains(all[i]) by {
            if i < before.len() {
                assert(all[i] == before[i]);
                let k = choose|k: int| 0 <= k < front.len() && front[k] == before[i];
                assert(list[k] == all[i]);
            } else {
                assert(list[list.len() - 1] == all[i]);
            }
        }
    }
}

/// The items of a text are clean: they can be written as a list again.
pub proof fn lemma_items_clean(s: Seq<char>, seps: Seq<char>)
    ensures
        forall|i: int|
            0 <= i < items(s, seps).len() ==> clean_item(#[trigger] items(s, seps)[i], seps),
{
    let sep = one_of(seps);
    let parts = pieces(s, sep);
    let list = parts.map_values(|p: Seq<char>| trimmed(p));
    lemma_pieces_hold_no_separator(s, sep);
    lemma_non_empty_kept(list);
    assert forall|i: int| 0 <= i < items(s, seps).len() implies clean_item(
        #[trigger] items(s, seps)[i],
        seps,
    ) by {
        let item = items(s, seps)[i];
        assert(list.contains(item));
        let k = choose|k: int| 0 <= k < list.len() && list[k] == item;
        let part = parts[k];
        assert forall|j: int| 0 <= j < part.len() implies !sep(#[trigger] part[j]) by {
            assert(!sep(parts[k][j]));
        }
        lemma_trim_start_keeps(part, sep);
        lemma_trim_end_keeps(trim_start(part), sep);
        law_trimmed_stays_trimmed(part);
        assert forall|j: int| 0 <= j < item.len() implies !seps.contains(#[trigger] item[j]) by {
            assert(!sep(item[j]));
        }
    }
}

/// A list of texts that the standard library reads as addresses, each of them a clean item.
pub open spec fn readable_addresses(list: Seq<Seq<char>>) -> bool {
    &&& list.len() > 0
    &&& forall|i: int|
        0 <= i < list.len() ==> parses_as_ip(#[trigger] list[i]) && clean_item(
            list[i],
            seq![',', ' ', ';'],
        )
}

/// The text that such a list is shown as reads back as the list.
pub proof fn law_readable_addresses_read_back(list: Seq<Seq<char>>)
    requires
        readable_addresses(list),
    ensures
        parsed_addresses(joined(list, ", "@)) == Some(list),
{
    reveal_strlit(", ");
    let seps = seq![',', ' ', ';'];
    let glue = ", "@;
    assert(glue =~= seq![',', ' ']);
    assert(seps[0] == ',' && seps[1] == ' ');
    lemma_items_of_joined(list, glue, seps);
}

/// What was accepted in the addresses field is readable.
pub proof fn law_accepted_addresses_are_readable(input: Seq<char>)
    ensures
        parsed_addresses(input) matches Some(list) ==> readable_addresses(list),
{
    lemma_items_clean(input, seq![',', ' ', ';']);
}

/// The text that a list of addresses is shown as reads back as the same list: loading an
/// entry's addresses into the form and parsing them changes nothing. An address is what the
/// standard library reads as one, written in the characters of addresses.
pub proof fn law_addresses_read_back(list: Seq<Seq<char>>)
    requires
        list.len() > 0,
        forall|i: int|
            0 <= i < list.len() ==> parses_as_ip(#[trigger] list[i]) && address_text(list[i]),
    ensures
        parsed_addresses(joined(list, ", "@)) == Some(list),
{
    assert forall|i: int| 0 <= i < list.len() implies clean_item(
        #[trigger] list[i],
        seq![',', ' ', ';'],
    ) by {
        lemma_address_clean(list[i]);
    }
    law_readable_addresses_read_back(list);
}

/// Whatever was accepted in the addresses field reads back, once written as the form shows it,
/// as what it was accepted as.
pub proof fn law_accepted_addresses_read_back(input: Seq<char>)
    ensures
        parsed_addresses(input) matches Some(list) ==> parsed_addresses(joined(list, ", "@)) == Some(
            list,
        ),
{
    if let Some(list) = parsed_addresses(input) {
        law_accepted_addresses_are_readable(input);
        law_readable_addresses_read_back(list);
    }
}

/// `s` with each colon escaped by a backslash, as `nmcli -g` prints values.
pub open spec fn escaped(s: Seq<char>) -> Seq<char>
    decreases s.len(),
{
    if s.len() == 0 {
        s
    } else if s.last() == ':' {
        escaped(s.drop_last()).push('\\').push(':')
    } else {
        escaped(s.drop_last()).push(s.last())
    }
}

/// Unescaping undoes escaping.
pub proof fn law_unescape_undoes_escape(s: Seq<char>)
    ensures
        unescaped(escaped(s)) == s,
    decreases s.len(),
{
    if s.len() > 0 {
        let front = s.drop_last();
        law_unescape_undoes_escape(front);
        let e = escaped(front);
        if s.last() == ':' {
            let t = e.push('\\').push(':');
            assert(t.take(t.len() - 2) == e);
        } else {
            assert(e.push(s.last()).drop_last() == e);
        }
        assert(front.push(s.last()) == s);
    }
}

/// A text of address characters, commas and backslashes.
spec fn plain(s: Seq<char>) -> bool {
    forall|i: int|
        0 <= i < s.len() ==> crate::servers::address_char(#[trigger] s[i]) || s[i] == ',' || s[i]
            == '\\'
}

proof fn lemma_joined_plain(list: Seq<Seq<char>>)
    requires
        forall|i: int| 0 <= i < list.len() ==> address_text(#[trigger] list[i]),
    ensures
        plain(joined(list, ","@)),
    decreases list.len(),
{
    reveal_strlit(",");
    if list.len() == 1 {
        assert(address_text(list[0]));
    } else if list.len() > 1 {
        let front = list.drop_last();
        assert forall|i: int| 0 <= i < front.len() implies address_text(#[trigger] front[i]) by {
            assert(front[i] == list[i]);
        }
        lemma_joined_plain(front);
        assert(address_text(list[list.len() - 1]));
        let a = joined(front, ","@);
        let s = a + ","@ + list.last();
        assert forall|i: int| 0 <= i < s.len() implies crate::servers::address_char(#[trigger] s[i])
            || s[i] == ',' || s[i] == '\\' by {
            if i < a.len() {
                assert(s[i] == a[i]);
            } else if i > a.len() {
                assert(s[i] == list.last()[i - a.len() - 1]);
            } else {
                assert(s[i] == ',');
            }
        }
    }
}

proof fn lemma_escaped_plain(s: Seq<char>)
    requires
        plain(s),
    ensures
        plain(escaped(s)),
    decreases s.len(),
{
    if s.len() > 0 {
        let front = s.drop_last();
        assert forall|i: int| 0 <= i < front.len() implies crate::servers::address_char(
            #[trigger] front[i],
        ) || front[i] == ',' || front[i] == '\\' by {
            assert(front[i] == s[i]);
        }
        lemma_escaped_plain(front);
        let c = s[s.len() - 1];
        assert(crate::servers::address_char(c) || c == ',' || c == '\\');
    }
}

/// Text without white space is trimmed, is one line, and ends in no carriage return.
proof fn lemma_plain_line(s: Seq<char>)
    requires
        plain(s),
    ensures
        trimmed(s) == s,
        strip_return(s) == s,
        pieces(s, one_of(seq!['\n'])) == seq![s],
{
    if s.len() > 0 {
        let c = s[0];
        let d = s[s.len() - 1];
        assert(crate::servers::address_char(c) || c == ',' || c == '\\');
        assert(crate::servers::address_char(d) || d == ',' || d == '\\');
    }
    lemma_trimmed(s);
    let sep = one_of(seq!['\n']);
    assert forall|i: int| 0 <= i < s.len() implies !sep(#[trigger] s[i]) by {
        assert(crate::servers::address_char(s[i]) || s[i] == ',' || s[i] == '\\');
    }
    lemma_one_piece(s, sep);
}

/// Four lines, each ended by a line feed, read as these four.
pub proof fn lemma_four_lines(a: Seq<char>, b: Seq<char>, c: Seq<char>, d: Seq<char>)
    requires
        pieces(a, one_of(seq!['\n'])) == seq![a] && strip_return(a) == a,
        pieces(b, one_of(seq!['\n'])) == seq![b] && strip_return(b) == b,
        pieces(c, one_of(seq!['\n'])) == seq![c] && strip_return(c) == c,
        pieces(d, one_of(seq!['\n'])) == seq![d] && strip_return(d) == d,
    ensures
        lines(a + seq!['\n'] + b + seq!['\n'] + c + seq!['\n'] + d + seq!['\n']) == seq![a, b, c, d],
{
    let sep = one_of(seq!['\n']);
    let nl = seq!['\n'];
    assert(nl[0] == '\n');
    assert(sep('\n'));
    let e = Seq::<char>::empty();
    lemma_pieces_around(d, '\n', e, sep);
    lemma_pieces_around(c, '\n', d + nl + e, sep);
    lemma_pieces_around(b, '\n', c + nl + (d + nl + e), sep);
    lemma_pieces_around(a, '\n', b + nl + (c + nl + (d + nl + e)), sep);
    let s = a + nl + b + nl + c + nl + d + nl;
    assert(s == a + nl + (b + nl + (c + nl + (d + nl + e))));
    let p = pieces(s, sep);
    assert(p =~= seq![a, b, c, d, e]);
    let ended = p.drop_last().map_values(|q: Seq<char>| strip_return(q));
    assert(ended =~= seq![a, b, c, d]);
}

/// Choosing servers of one kind leaves addresses.
pub proof fn lemma_kinds_address(servers: Seq<Seq<char>>, v6: bool)
    requires
        forall|i: int| 0 <= i < servers.len() ==> address_text(#[trigger] servers[i]),
    ensures
        forall|i: int|
            0 <= i < of_kind(servers, v6).len() ==> address_text(
                #[trigger] of_kind(servers, v6)[i],
            ),
    decreases servers.len(),
{
    reveal(Seq::filter);
    if servers.len() > 0 {
        let front = servers.drop_last();
        assert forall|i: int| 0 <= i < front.len() implies address_text(#[trigger] front[i]) by {
            assert(front[i] == servers[i]);
        }
        lemma_kinds_address(front, v6);
        assert(address_text(servers[servers.len() - 1]));
        let before = of_kind(front, v6);
        let all = of_kind(servers, v6);
        assert(all == before || all == before.push(servers.last()));
        assert forall|i: int| 0 <= i < all.len() implies address_text(#[trigger] all[i]) by {
            if i < before.len() {
                assert(all[i] == before[i]);
            }
        }
    } else {
        assert(of_kind(servers, v6).len() == 0);
    }
}

/// Two lists are the same servers if and only if each server is in both equally often; so the
/// order does not matter, and a server more or less does.
pub proof fn law_same_servers_in_any_order(
    a: Seq<Seq<char>>,
    b: Seq<Seq<char>>,
    x: Seq<char>,
)
    ensures
        same_list(a, b) <==> forall|s: Seq<char>| #[trigger]
            a.to_multiset().count(s) == b.to_multiset().count(s),
        same_list(a + b, b + a),
        same_list(a, b) ==> a.len() == b.len(),
        !same_list(a.push(x), a),
        same_list(a.push(x), b.push(x)) <==> same_list(a, b),
{
    broadcast use vstd::multiset::group_multiset_axioms;

    if forall|s: Seq<char>| #[trigger] a.to_multiset().count(s) == b.to_multiset().count(s) {
        assert(a.to_multiset() =~= b.to_multiset());
    }
    vstd::seq_lib::lemma_multiset_commutative(a, b);
    vstd::seq_lib::lemma_multiset_commutative(b, a);
    assert((a + b).to_multiset() =~= (b + a).to_multiset());
    a.to_multiset_ensures();
    b.to_multiset_ensures();
    a.push(x).to_multiset_ensures();
    if same_list(a.push(x), b.push(x)) {
        let p = a.push(x).to_multiset();
        let q = b.push(x).to_multiset();
        assert(p == a.to_multiset().insert(x) && q == b.to_multiset().insert(x));
        assert forall|s: Seq<char>| #[trigger]
            a.to_multiset().count(s) == b.to_multiset().count(s) by {
            assert(p.count(s) == q.count(s));
        }
        assert(a.to_multiset() =~= b.to_multiset());
    }
}

/// Sorting servers by kind keeps each of them: the two parts together are the list in another
/// order.
pub proof fn law_kinds_keep_servers(servers: Seq<Seq<char>>)
    ensures
        same_list(of_kind(servers, false) + of_kind(servers, true), servers),
    decreases servers.len(),
{
    broadcast use vstd::multiset::group_multiset_axioms;

    reveal(Seq::filter);
    let a = of_kind(servers, false);
    let b = of_kind(servers, true);
    vstd::seq_lib::lemma_multiset_commutative(a, b);
    if servers.len() == 0 {
        assert(a + b =~= servers);
    } else {
        let front = servers.drop_last();
        let x = servers.last();
        law_kinds_keep_servers(front);
        let a0 = of_kind(front, false);
        let b0 = of_kind(front, true);
        vstd::seq_lib::lemma_multiset_commutative(a0, b0);
        a0.to_multiset_ensures();
        b0.to_multiset_ensures();
        front.to_multiset_ensures();
        assert(front.push(x) =~= servers);
        assert((a + b).to_multiset() =~= servers.to_multiset());
    }
}

/// What `nmcli -g` prints of a profile once the command that forces `servers` was run on it.
pub open spec fn forced_profile(servers: Seq<Seq<char>>) -> Seq<char> {
    let connection = Seq::<char>::empty();
    let before = Profile { v4: connection, v4_ignore: "no"@, v6: connection, v6_ignore: "no"@ };
    shown(modified(before, force_command(connection, servers)), profile_command(connection))
}

/// Servers that were forced on a profile are read back from it: each of them, equally often.
pub proof fn law_forced_servers_read_back(servers: Seq<Seq<char>>)
    requires
        servers.len() > 0,
        forall|i: int| 0 <= i < servers.len() ==> address_text(#[trigger] servers[i]),
    ensures
        forced_servers(forced_profile(servers)) == Some(
            of_kind(servers, false) + of_kind(servers, true),
        ),
        same_list(of_kind(servers, false) + of_kind(servers, true), servers),
{
    let connection = Seq::<char>::empty();
    let before = Profile { v4: connection, v4_ignore: "no"@, v6: connection, v6_ignore: "no"@ };
    law_kinds_keep_servers(servers);
    law_forced_profile_reads_back(before, connection, servers);
    lemma_kinds_are_filters(servers);
}

/// A list of addresses that was joined by commas and escaped is read back from its line.
pub proof fn lemma_listed_back(list: Seq<Seq<char>>)
    requires
        forall|i: int| 0 <= i < list.len() ==> address_text(#[trigger] list[i]),
    ensures
        listed_servers(escaped(joined(list, ","@))) == list,
        strip_return(escaped(joined(list, ","@))) == escaped(joined(list, ","@)),
        pieces(escaped(joined(list, ","@)), one_of(seq!['\n'])) == seq![escaped(joined(list, ","@))],
{
    let s = joined(list, ","@);
    lemma_joined_plain(list);
    lemma_escaped_plain(s);
    lemma_plain_line(escaped(s));
    law_unescape_undoes_escape(s);
    reveal_strlit(",");
    let seps = seq![','];
    assert(","@ =~= seps);
    assert(seps[0] == ',');
    assert forall|i: int| 0 <= i < list.len() implies clean_item(#[trigger] list[i], seps) by {
        lemma_address_clean(list[i]);
    }
    lemma_items_of_joined(list, ","@, seps);
}

/// A profile whose override was cleared reads as the router's default.
pub proof fn law_cleared_profile_reads_back()
    ensures
        forced_servers(seq!['\n'] + "no"@ + seq!['\n', '\n'] + "no"@ + seq!['\n']) is None,
{
    let e = Seq::<char>::empty();
    let no = "no"@;
    reveal_strlit("no");
    reveal_strlit("yes");
    assert forall|i: int| 0 <= i < no.len() implies !one_of(seq!['\n'])(#[trigger] no[i]) by {}
    lemma_one_piece(no, one_of(seq!['\n']));
    lemma_one_piece(e, one_of(seq!['\n']));
    lemma_trimmed(no);
    lemma_four_lines(e, no, e, no);
    assert(e + seq!['\n'] + no + seq!['\n'] + e + seq!['\n'] + no + seq!['\n'] =~= seq!['\n'] + no
        + seq!['\n', '\n'] + no + seq!['\n']);
    assert("yes"@.len() == 3);
}

} // verus!
