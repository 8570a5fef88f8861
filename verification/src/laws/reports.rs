//! What the output of the network tools is read as.

use vstd::prelude::*;

use crate::laws::addresses::{escaped, law_unescape_undoes_escape};
use crate::laws::texts::{
    law_line_end_is_in_no_word, law_lines_go_one_by_one, law_unescaping_goes_part_by_part,
    law_words_go_part_by_part,
};
use crate::report::{active_connection, device_of_lines, route_device, word_after_dev};
use crate::text::{
    ascii_lower, line_at, lines, same_but_case, strip_return, trimmed, white, words,
};

verus! {

/// Whether among these words a "dev" at `at` is directly followed by a device.
pub open spec fn names_device(list: Seq<Seq<char>>, at: int, device: Seq<char>) -> bool {
    &&& 0 <= at
    &&& at + 1 < list.len()
    &&& list[at] == "dev"@
    &&& list[at + 1] == device
}

/// Whether none of these words before the one at `end` is "dev".
pub open spec fn no_dev_before(list: Seq<Seq<char>>, end: int) -> bool {
    forall|at: int| 0 <= at < end ==> #[trigger] list[at] != "dev"@
}

/// Whether among these words no "dev" is followed by a word.
pub open spec fn names_no_device(list: Seq<Seq<char>>) -> bool {
    no_dev_before(list, list.len() - 1)
}

/// Whether among these words the first "dev" that is followed by a word is followed by
/// `device`.
pub open spec fn names_first(list: Seq<Seq<char>>, device: Seq<char>) -> bool {
    exists|at: int| #[trigger] names_device(list, at, device) && no_dev_before(list, at)
}

/// Whether the line at `k` names `device`, and none before it names any.
pub open spec fn named_at(list: Seq<Seq<char>>, k: int, device: Seq<char>) -> bool {
    &&& 0 <= k < list.len()
    &&& names_first(words(list[k]), device)
    &&& forall|j: int| 0 <= j < k ==> names_no_device(words(#[trigger] list[j]))
}

proof fn lemma_word_after_dev(list: Seq<Seq<char>>)
    ensures
        word_after_dev(list) matches Some(device) ==> names_first(list, device),
        word_after_dev(list) is None ==> names_no_device(list),
    decreases list.len(),
{
    if list.len() >= 2 {
        if list[0] == "dev"@ {
            assert(names_device(list, 0, list[1]) && no_dev_before(list, 0));
        } else {
            let rest = list.drop_first();
            lemma_word_after_dev(rest);
            if let Some(device) = word_after_dev(rest) {
                let at = choose|at: int|
                    #[trigger] names_device(rest, at, device) && no_dev_before(rest, at);
                assert forall|k: int| 0 <= k < at + 1 implies #[trigger] list[k] != "dev"@ by {
                    if k > 0 {
                        assert(rest[k - 1] == list[k]);
                    }
                }
                assert(names_device(list, at + 1, device) && no_dev_before(list, at + 1));
            } else {
                assert forall|k: int| 0 <= k < list.len() - 1 implies #[trigger] list[k]
                    != "dev"@ by {
                    if k > 0 {
                        assert(rest[k - 1] == list[k]);
                    }
                }
            }
        }
    }
}

proof fn lemma_device_of_lines(list: Seq<Seq<char>>)
    ensures
        device_of_lines(list) matches Some(device) ==> exists|k: int|
            #[trigger] named_at(list, k, device),
        device_of_lines(list) is None ==> forall|j: int|
            0 <= j < list.len() ==> names_no_device(words(#[trigger] list[j])),
    decreases list.len(),
{
    if list.len() > 0 {
        let rest = list.drop_first();
        lemma_word_after_dev(words(list[0]));
        if let Some(device) = word_after_dev(words(list[0])) {
            assert(named_at(list, 0, device));
        } else {
            lemma_device_of_lines(rest);
            if let Some(device) = device_of_lines(rest) {
                let k = choose|k: int| #[trigger] named_at(rest, k, device);
                assert forall|j: int| 0 <= j < k + 1 implies names_no_device(
                    words(#[trigger] list[j]),
                ) by {
                    if j > 0 {
                        assert(rest[j - 1] == list[j]);
                    }
                }
                assert(list[k + 1] == rest[k]);
                assert(named_at(list, k + 1, device));
            } else {
                assert forall|j: int| 0 <= j < list.len() implies names_no_device(
                    words(#[trigger] list[j]),
                ) by {
                    if j > 0 {
                        assert(rest[j - 1] == list[j]);
                    }
                }
            }
        }
    }
}

/// The device of the default route is the one that the first line to name one names first; only
/// where no line names one is there none.
pub proof fn law_device_is_named_first(out: Seq<char>)
    ensures
        route_device(out) matches Ok(device) ==> exists|k: int|
            #[trigger] named_at(lines(out), k, device),
        route_device(out) matches Err(e) ==> e == "no default route — is the network up?"@,
        route_device(out) is Err <==> forall|j: int|
            0 <= j < lines(out).len() ==> names_no_device(words(#[trigger] lines(out)[j])),
{
    let list = lines(out);
    lemma_device_of_lines(list);
    if let Some(device) = device_of_lines(list) {
        let k = choose|k: int| #[trigger] named_at(list, k, device);
        let said = words(list[k]);
        let at = choose|at: int|
            #[trigger] names_device(said, at, device) && no_dev_before(said, at);
        assert(said[at] == "dev"@);
        assert(!names_no_device(words(lines(out)[k])));
        assert(route_device(out) == Ok::<Seq<char>, Seq<char>>(device));
        assert(named_at(lines(out), k, route_device(out)->Ok_0));
    }
}

/// Whether a text is one word.
pub open spec fn is_word(s: Seq<char>) -> bool {
    s.len() > 0 && forall|i: int| 0 <= i < s.len() ==> !white(#[trigger] s[i])
}

/// A route as it is printed, through this gateway and device, with more words about it.
pub open spec fn printed_route(gateway: Seq<char>, device: Seq<char>, about: Seq<char>) -> Seq<
    char,
> {
    "default via "@ + gateway + " dev "@ + device + about
}

/// The first route is the one that counts: where it is printed first, its device is found,
/// whatever lines follow.
pub proof fn law_first_route_counts(
    gateway: Seq<char>,
    device: Seq<char>,
    about: Seq<char>,
    more: Seq<char>,
)
    requires
        is_word(gateway),
        gateway != "dev"@,
        is_word(device),
        about.len() > 0 ==> white(about[0]),
        !about.contains('\n'),
    ensures
        route_device(printed_route(gateway, device, about)) == Ok::<Seq<char>, Seq<char>>(device),
        route_device(printed_route(gateway, device, about) + seq!['\n'] + more) == Ok::<
            Seq<char>,
            Seq<char>,
        >(device),
{
    reveal_strlit("default via ");
    reveal_strlit(" dev ");
    reveal_strlit("dev");
    let line = printed_route(gateway, device, about);
    let w0 = seq!['d', 'e', 'f', 'a', 'u', 'l', 't'];
    let w1 = seq!['v', 'i', 'a'];
    let w3 = "dev"@;
    let tail = device + about;
    let e = Seq::<char>::empty();
    let s3 = w3 + seq![' '] + tail;
    let s2 = gateway + seq![' '] + s3;
    let s1 = w1 + seq![' '] + s2;
    assert(line =~= w0 + seq![' '] + s1);
    law_words_go_part_by_part(w0, ' ', s1, w0);
    law_words_go_part_by_part(w1, ' ', s2, w1);
    law_words_go_part_by_part(gateway, ' ', s3, gateway);
    law_words_go_part_by_part(w3, ' ', tail, w3);
    let rest = if about.len() > 0 {
        about.drop_first()
    } else {
        e
    };
    if about.len() > 0 {
        assert(tail =~= device + seq![about[0]] + rest);
        law_words_go_part_by_part(device, about[0], rest, device);
    } else {
        assert(tail =~= device);
        law_words_go_part_by_part(e, ' ', e, device);
    }
    let all = words(line);
    assert(all[0] == w0 && all[1] == w1 && all[2] == gateway && all[3] == w3 && all[4] == device);
    assert(all.len() >= 5);
    assert(w0.len() == 7 && w3.len() == 3 && w1[0] == 'v' && w3[0] == 'd');
    reveal_with_fuel(word_after_dev, 5);
    let d1 = all.drop_first();
    let d2 = d1.drop_first();
    let d3 = d2.drop_first();
    assert(d1[0] == w1 && d2[0] == gateway && d3[0] == w3 && d3[1] == device);
    assert(word_after_dev(all) == Some(device));
    assert(!line.contains('\n')) by {
        if line.contains('\n') {
            let i = choose|i: int| 0 <= i < line.len() && line[i] == '\n';
            let n: int = 12;
            if n <= i < n + gateway.len() {
                assert(line[i] == gateway[i - n]);
            } else if n + gateway.len() + 5 <= i < n + gateway.len() + 5 + device.len() {
                assert(line[i] == device[i - n - gateway.len() - 5]);
            } else if i >= n + gateway.len() + 5 + device.len() {
                assert(line[i] == about[i - n - gateway.len() - 5 - device.len()]);
            }
        }
    }
    law_lines_go_one_by_one(line, more);
    law_line_end_is_in_no_word(line);
    assert(lines(line)[0] == line);
    assert(lines(line + seq!['\n'] + more)[0] == strip_return(line));
}

/// A text in small letters.
pub open spec fn lowered(s: Seq<char>) -> Seq<char> {
    s.map_values(|c: char| ascii_lower(c))
}

proof fn lemma_lowered(s: Seq<char>, word: Seq<char>)
    requires
        forall|i: int| 0 <= i < word.len() ==> ascii_lower(#[trigger] word[i]) == word[i],
    ensures
        same_but_case(s, word) <==> lowered(s) == word,
{
    if same_but_case(s, word) {
        assert(lowered(s) =~= word);
    }
    if lowered(s) == word {
        assert forall|i: int| 0 <= i < s.len() implies ascii_lower(#[trigger] s[i]) == ascii_lower(
            word[i],
        ) by {
            assert(lowered(s)[i] == word[i]);
        }
    }
}

/// A device counts as a tunnel if and only if its type is, in small letters, one of these five;
/// so Wi-Fi and cable are none. There is no connection on it if and only if the tool names none.
pub proof fn law_tunnels_are_of_five_types(device: Seq<char>, out: Seq<char>)
    ensures
        ({
            let name = trimmed(line_at(lines(out), 0));
            let kind = lowered(trimmed(line_at(lines(out), 1)));
            match active_connection(device, out) {
                Ok((connection, tunnel)) => {
                    &&& name.len() > 0 && name != "--"@
                    &&& tunnel <==> (kind == "wireguard"@ || kind == "tun"@ || kind == "tap"@ || kind
                        == "vpn"@ || kind == "ip-tunnel"@)
                    &&& kind == "wifi"@ || kind == "ethernet"@ ==> !tunnel
                },
                Err(e) => (name.len() == 0 || name == "--"@) && e
                    == "no NetworkManager connection on "@ + device,
            }
        }),
{
    reveal_strlit("wireguard");
    reveal_strlit("tun");
    reveal_strlit("tap");
    reveal_strlit("vpn");
    reveal_strlit("ip-tunnel");
    reveal_strlit("wifi");
    reveal_strlit("ethernet");
    let kind = trimmed(line_at(lines(out), 1));
    lemma_lowered(kind, "wireguard"@);
    lemma_lowered(kind, "tun"@);
    lemma_lowered(kind, "tap"@);
    lemma_lowered(kind, "vpn"@);
    lemma_lowered(kind, "ip-tunnel"@);
    assert("ethernet"@[0] == 'e' && "wifi"@[1] == 'i');
}

proof fn lemma_escaped_ends(s: Seq<char>)
    requires
        s.len() > 0,
    ensures
        escaped(s).len() > 0,
        escaped(s).last() == s.last(),
        escaped(s).first() == if s.first() == ':' {
            '\\'
        } else {
            s.first()
        },
        forall|c: char| c != '\\' && !s.contains(c) ==> !(#[trigger] escaped(s).contains(c)),
    decreases s.len(),
{
    let front = s.drop_last();
    let e = escaped(front);
    if front.len() > 0 {
        lemma_escaped_ends(front);
    }
    assert forall|c: char| c != '\\' && !s.contains(c) implies !(#[trigger] escaped(s).contains(
        c,
    )) by {
        assert(s.contains(s.last())) by {
            assert(s[s.len() - 1] == s.last());
        }
        if front.contains(c) {
            let k = choose|k: int| 0 <= k < front.len() && front[k] == c;
            assert(s[k] == c);
        }
        assert(!e.contains(c)) by {
            if front.len() == 0 {
                assert(e.len() == 0);
            }
        }
        if escaped(s).contains(c) {
            let k = choose|k: int| 0 <= k < escaped(s).len() && escaped(s)[k] == c;
            if k < e.len() {
                assert(e[k] == c);
            }
        }
    }
}

/// A name that a connection can have: not empty, on one line, without white space at its ends,
/// and not the sign for none.
pub open spec fn connection_name(name: Seq<char>) -> bool {
    &&& name.len() > 0
    &&& !name.contains('\n')
    &&& !white(name.first())
    &&& !white(name.last())
    &&& name != "--"@
}

/// A connection and the type of its device are read as the tool prints them, colons escaped.
pub proof fn law_connection_reads_back(
    device: Seq<char>,
    name: Seq<char>,
    kind: Seq<char>,
    more: Seq<char>,
)
    requires
        connection_name(name),
        !kind.contains('\n'),
        !kind.contains('\r'),
    ensures
        active_connection(device, escaped(name) + seq!['\n'] + (kind + seq!['\n'] + more))
            matches Ok((connection, tunnel)) && connection == name && (tunnel <==> {
            let small = lowered(trimmed(kind));
            small == "wireguard"@ || small == "tun"@ || small == "tap"@ || small == "vpn"@ || small
                == "ip-tunnel"@
        }),
{
    let first = escaped(name);
    let rest = kind + seq!['\n'] + more;
    let out = first + seq!['\n'] + rest;
    lemma_escaped_ends(name);
    assert(!first.contains('\n'));
    law_lines_go_one_by_one(first, rest);
    law_lines_go_one_by_one(kind, more);
    assert(lines(out)[0] == first);
    assert(lines(out)[1] == kind) by {
        assert(lines(rest)[0] == strip_return(kind));
        if kind.len() > 0 {
            assert(kind.contains(kind[kind.len() - 1]));
        }
    }
    assert(trimmed(first) == first);
    law_unescape_undoes_escape(name);
    if first == "--"@ {
        reveal_strlit("--");
        law_unescaping_goes_part_by_part("--"@, "--"@);
        assert(name == "--"@);
    }
    law_tunnels_are_of_five_types(device, out);
}

} // verus!
