//! Saved DNS servers: named entries, their addresses, and how lists of addresses compare.

use vstd::prelude::*;

use crate::text;
use crate::text::{items, texts};

verus! {

/// A named set of DNS servers the user can switch to.
#[derive(Debug, PartialEq, Eq)]
pub struct DnsEntry {
    pub name: String,
    pub addresses: Vec<String>,
}

/// What a [`DnsEntry`] holds, as text.
pub struct EntryView {
    pub name: Seq<char>,
    pub addresses: Seq<Seq<char>>,
}

impl View for DnsEntry {
    type V = EntryView;

    open spec fn view(&self) -> EntryView {
        EntryView { name: self.name@, addresses: texts(self.addresses@) }
    }
}

impl Clone for DnsEntry {
    fn clone(&self) -> (res: Self)
        ensures
            res@ == self@,
    {
        DnsEntry { name: self.name.clone(), addresses: self.addresses.clone() }
    }
}

/// What a list of entries holds, as text.
pub open spec fn entries(list: Seq<DnsEntry>) -> Seq<EntryView> {
    list.map_values(|e: DnsEntry| e@)
}

/// A copy of a list of entries.
pub(crate) fn copy_entries(list: &Vec<DnsEntry>) -> (res: Vec<DnsEntry>)
    ensures
        entries(res@) == entries(list@),
{
    let mut res: Vec<DnsEntry> = Vec::new();
    let mut i: usize = 0;
    while i < list.len()
        invariant
            i <= list.len(),
            res.len() == i,
            forall|j: int| 0 <= j < i ==> (#[trigger] res@[j])@ == list@[j]@,
        decreases list.len() - i,
    {
        res.push(list[i].clone());
        i += 1;
    }
    assert(entries(res@) =~= entries(list@));
    res
}

/// The entries the list starts with on the first run.
pub open spec fn presets() -> Seq<EntryView> {
    seq![
        EntryView { name: "Cloudflare"@, addresses: seq!["1.1.1.1"@, "1.0.0.1"@] },
        EntryView { name: "Google"@, addresses: seq!["8.8.8.8"@, "8.8.4.4"@] },
        EntryView { name: "Quad9"@, addresses: seq!["9.9.9.9"@, "149.112.112.112"@] },
    ]
}

/// An entry with two addresses.
fn entry(name: &str, first: &str, second: &str) -> (res: DnsEntry)
    ensures
        res@ == (EntryView { name: name@, addresses: seq![first@, second@] }),
{
    let mut addresses: Vec<String> = Vec::new();
    addresses.push(first.to_string());
    addresses.push(second.to_string());
    assert(texts(addresses@) =~= seq![first@, second@]);
    DnsEntry { name: name.to_string(), addresses }
}

/// Sensible starting points; the user can delete any of them in Settings.
pub fn preset_entries() -> (list: Vec<DnsEntry>)
    ensures
        entries(list@) == presets(),
{
    let mut list: Vec<DnsEntry> = Vec::new();
    list.push(entry("Cloudflare", "1.1.1.1", "1.0.0.1"));
    list.push(entry("Google", "8.8.8.8", "8.8.4.4"));
    list.push(entry("Quad9", "9.9.9.9", "149.112.112.112"));
    assert(entries(list@) =~= presets());
    list
}

/// Whether two lists hold the same servers, each equally often, in whatever order.
pub open spec fn same_list(a: Seq<Seq<char>>, b: Seq<Seq<char>>) -> bool {
    a.to_multiset() == b.to_multiset()
}

/// The position of `s` in `list`.
fn position_of(list: &Vec<String>, s: &String) -> (at: Option<usize>)
    ensures
        match at {
            Some(i) => i < list.len() && list@[i as int]@ == s@,
            None => !texts(list@).contains(s@),
        },
{
    let mut i: usize = 0;
    while i < list.len()
        invariant
            i <= list.len(),
            forall|j: int| 0 <= j < i ==> (#[trigger] list@[j])@ != s@,
        decreases list.len() - i,
    {
        if list[i] == *s {
            return Some(i);
        }
        i += 1;
    }
    None
}

/// Taking one occurrence of `x` from `left` and putting it behind `done` keeps their sum.
proof fn lemma_move(done: Seq<Seq<char>>, left: Seq<Seq<char>>, j: int)
    requires
        0 <= j < left.len(),
    ensures
        done.push(left[j]).to_multiset().add(left.remove(j).to_multiset())
            == done.to_multiset().add(left.to_multiset()),
{
    broadcast use vstd::multiset::group_multiset_axioms;

    done.to_multiset_ensures();
    left.to_multiset_ensures();
    assert(left.contains(left[j]));
    assert(done.push(left[j]).to_multiset().add(left.remove(j).to_multiset())
        =~= done.to_multiset().add(left.to_multiset()));
}

/// A list that starts with `done` and `x` is not made of `done` and `left` where `left` lacks
/// `x`.
proof fn lemma_missing(all: Seq<Seq<char>>, i: int, left: Seq<Seq<char>>)
    requires
        0 <= i < all.len(),
        !left.contains(all[i]),
    ensures
        all.to_multiset() != all.take(i).to_multiset().add(left.to_multiset()),
{
    broadcast use vstd::multiset::group_multiset_axioms;

    let x = all[i];
    let done = all.take(i);
    left.to_multiset_ensures();
    done.to_multiset_ensures();
    assert(left.to_multiset().count(x) == 0);
    assert(all == done.push(x) + all.skip(i + 1));
    vstd::seq_lib::lemma_multiset_commutative(done.push(x), all.skip(i + 1));
    assert(done.push(x).to_multiset() == done.to_multiset().insert(x));
    assert(all.to_multiset().count(x) >= done.to_multiset().count(x) + 1);
}

/// Order-insensitive comparison of two server lists, so "1.1.1.1, 1.0.0.1" still matches its
/// entry if NetworkManager reports the pair reversed.
pub fn same_servers(a: &[String], b: &[String]) -> (same: bool)
    ensures
        same == same_list(texts(a@), texts(b@)),
{
    let ghost all = texts(a@);
    proof {
        all.to_multiset_ensures();
        texts(b@).to_multiset_ensures();
    }
    if a.len() != b.len() {
        return false;
    }
    let mut rest = text::copy_list(b);
    let mut i: usize = 0;
    proof {
        broadcast use vstd::multiset::group_multiset_axioms;

        all.take(0).to_multiset_ensures();
        assert(texts(b@).to_multiset() =~= all.take(0).to_multiset().add(
            texts(rest@).to_multiset(),
        ));
    }
    while i < a.len()
        invariant
            i <= a.len(),
            all == texts(a@),
            rest.len() == a.len() - i,
            texts(b@).to_multiset() == all.take(i as int).to_multiset().add(
                texts(rest@).to_multiset(),
            ),
        decreases a.len() - i,
    {
        let ghost left = texts(rest@);
        match position_of(&rest, &a[i]) {
            Some(j) => {
                rest.remove(j);
                proof {
                    lemma_move(all.take(i as int), left, j as int);
                    assert(texts(rest@) == left.remove(j as int));
                    assert(all.take(i + 1) == all.take(i as int).push(left[j as int]));
                }
            },
            None => {
                proof {
                    lemma_missing(all, i as int, left);
                }
                return false;
            },
        }
        i += 1;
    }
    proof {
        broadcast use vstd::multiset::group_multiset_axioms;

        assert(all.take(a.len() as int) == all);
        texts(rest@).to_multiset_ensures();
        assert(all.to_multiset() =~= texts(b@).to_multiset());
    }
    true
}

/// Whether the standard library reads a text as an IPv4 or IPv6 address.
pub uninterp spec fn parses_as_ip(s: Seq<char>) -> bool;

/// The characters that an address may be written with.
pub open spec fn address_char(c: char) -> bool {
    '0' <= c <= '9' || 'a' <= c <= 'f' || 'A' <= c <= 'F' || c == '.' || c == ':'
}

/// Whether a text is not empty and made of the characters of addresses alone.
pub open spec fn address_text(s: Seq<char>) -> bool {
    s.len() > 0 && forall|i: int| 0 <= i < s.len() ==> address_char(#[trigger] s[i])
}

/// Calls `str::parse` for `core::net::IpAddr`, whose answer depends on the text alone and is
/// named [`parses_as_ip`]. Claimed of it besides: an address is written in decimal or hexadecimal
/// digits, dots and colons, with at least one of them.
#[verifier::external_body]
fn is_ip_literal(s: &str) -> (yes: bool)
    ensures
        yes == parses_as_ip(s@),
        yes ==> address_text(s@),
{
    s.parse::<core::net::IpAddr>().is_ok()
}

/// What the addresses field stands for: its items, where there is one and each is an address.
pub open spec fn parsed_addresses(input: Seq<char>) -> Option<Seq<Seq<char>>> {
    let list = items(input, seq![',', ' ', ';']);
    if list.len() > 0 && forall|i: int| 0 <= i < list.len() ==> parses_as_ip(#[trigger] list[i]) {
        Some(list)
    } else {
        None
    }
}

/// The list, if there is something in it and every check of it is positive.
pub fn accept_addresses(list: Vec<String>, checks: &Vec<bool>) -> (res: Option<Vec<String>>)
    requires
        checks.len() == list.len(),
    ensures
        res == if list.len() > 0 && forall|i: int| 0 <= i < checks.len() ==> #[trigger] checks@[i] {
            Some(list)
        } else {
            None
        },
{
    if list.len() == 0 {
        return None;
    }
    let mut i: usize = 0;
    while i < checks.len()
        invariant
            i <= checks.len(),
            forall|j: int| 0 <= j < i ==> #[trigger] checks@[j],
        decreases checks.len() - i,
    {
        if !checks[i] {
            return None;
        }
        i += 1;
    }
    Some(list)
}

/// Parse the free-form addresses field: comma, space or semicolon separated IPv4/IPv6
/// literals. Returns None if anything in it isn't an IP address, or if there is nothing in it.
pub fn parse_addresses(input: &str) -> (res: Option<Vec<String>>)
    ensures
        match res {
            Some(list) => parsed_addresses(input@) == Some(texts(list@)),
            None => parsed_addresses(input@) is None,
        },
        res matches Some(list) ==> forall|i: int|
            0 <= i < list.len() ==> address_text(#[trigger] texts(list@)[i]),
{
    let list = text::split_items(input, &[',', ' ', ';']);
    assert([',', ' ', ';']@ == seq![',', ' ', ';']);
    let ghost parts = texts(list@);
    let mut checks: Vec<bool> = Vec::new();
    let mut i: usize = 0;
    while i < list.len()
        invariant
            i <= list.len(),
            checks.len() == i,
            parts == texts(list@),
            forall|j: int|
                0 <= j < i ==> (#[trigger] checks@[j]) == parses_as_ip(parts[j]) && (checks@[j]
                    ==> address_text(parts[j])),
        decreases list.len() - i,
    {
        checks.push(is_ip_literal(list[i].as_str()));
        i += 1;
    }
    proof {
        assert(parts == items(input@, seq![',', ' ', ';']));
        if forall|j: int| 0 <= j < parts.len() ==> parses_as_ip(#[trigger] parts[j]) {
            assert forall|j: int| 0 <= j < checks.len() implies #[trigger] checks@[j] by {
                assert(parses_as_ip(parts[j]));
            }
        }
    }
    let res = accept_addresses(list, &checks);
    proof {
        if res is Some {
            assert forall|j: int| 0 <= j < parts.len() implies parses_as_ip(#[trigger] parts[j])
                && address_text(parts[j]) by {
                assert(checks@[j]);
            }
        }
    }
    res
}

} // verus!
