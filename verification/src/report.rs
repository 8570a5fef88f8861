//! Reading what `ip`, `nmcli` and `resolvectl` print about the network.

use vstd::prelude::*;

use crate::text;
use crate::text::{
    first_position, items, line_at, lines, opt_text, result_text, same_but_case, texts, trimmed,
    unescaped, words,
};

verus! {

/// The word that follows the first "dev", if one does.
pub open spec fn word_after_dev(list: Seq<Seq<char>>) -> Option<Seq<char>>
    decreases list.len(),
{
    if list.len() < 2 {
        None
    } else if list[0] == "dev"@ {
        Some(list[1])
    } else {
        word_after_dev(list.drop_first())
    }
}

/// The device named by the first of these lines that names one.
pub open spec fn device_of_lines(list: Seq<Seq<char>>) -> Option<Seq<char>>
    decreases list.len(),
{
    if list.len() == 0 {
        None
    } else {
        match word_after_dev(words(list[0])) {
            Some(device) => Some(device),
            None => device_of_lines(list.drop_first()),
        }
    }
}

/// What the output of `ip route show default` says: the device that carries the default route.
pub open spec fn route_device(out: Seq<char>) -> Result<Seq<char>, Seq<char>> {
    match device_of_lines(lines(out)) {
        Some(device) => Ok(device),
        None => Err("no default route — is the network up?"@),
    }
}

fn find_word_after_dev(list: &Vec<String>) -> (res: Option<String>)
    ensures
        opt_text(res) == word_after_dev(texts(list@)),
{
    let ghost all = texts(list@);
    let mut i: usize = 0;
    assert(all.skip(0) == all);
    while list.len() - i > 1
        invariant
            all == texts(list@),
            i <= list.len(),
            word_after_dev(all) == word_after_dev(all.skip(i as int)),
        decreases list.len() - i,
    {
        if text::same_text(list[i].as_str(), "dev") {
            return Some(list[i + 1].clone());
        }
        assert(all.skip(i as int).drop_first() == all.skip(i + 1));
        i += 1;
    }
    None
}

/// The device that carries the default route, e.g. "enp5s0", from the output of
/// `ip route show default` ("default via 192.168.1.1 dev enp5s0 proto dhcp ...").
pub fn default_route_device(out: &str) -> (res: Result<String, String>)
    ensures
        result_text(res) == route_device(out@),
{
    let list = text::split_lines(out);
    let ghost all = texts(list@);
    let mut i: usize = 0;
    assert(all.skip(0) == all);
    while i < list.len()
        invariant
            all == texts(list@),
            all == lines(out@),
            i <= list.len(),
            device_of_lines(all) == device_of_lines(all.skip(i as int)),
        decreases list.len() - i,
    {
        assert(all.skip(i as int)[0] == all[i as int]);
        assert(all.skip(i as int).drop_first() == all.skip(i + 1));
        if let Some(device) = find_word_after_dev(&text::split_words(list[i].as_str())) {
            return Ok(device);
        }
        i += 1;
    }
    Err("no default route — is the network up?".to_string())
}

/// Whether a device of this type is a tunnel rather than a real interface.
pub open spec fn tunnel_type(kind: Seq<char>) -> bool {
    ||| same_but_case(kind, "wireguard"@)
    ||| same_but_case(kind, "tun"@)
    ||| same_but_case(kind, "tap"@)
    ||| same_but_case(kind, "vpn"@)
    ||| same_but_case(kind, "ip-tunnel"@)
}

/// What the output of `nmcli -g GENERAL.CONNECTION,GENERAL.TYPE device show` says of `device`.
pub open spec fn active_connection(device: Seq<char>, out: Seq<char>) -> Result<
    (Seq<char>, bool),
    Seq<char>,
> {
    let name = trimmed(line_at(lines(out), 0));
    let kind = trimmed(line_at(lines(out), 1));
    if name.len() == 0 || name == "--"@ {
        Err("no NetworkManager connection on "@ + device)
    } else {
        Ok((unescaped(name), tunnel_type(kind)))
    }
}

/// The NetworkManager connection profile active on `device`, plus whether the device is a
/// tunnel (wireguard/tun/vpn) rather than a real interface.
pub fn connection_for(device: &str, out: &str) -> (res: Result<(String, bool), String>)
    ensures
        match res {
            Ok((name, tunnel)) => active_connection(device@, out@) == Ok::<_, Seq<char>>(
                (name@, tunnel),
            ),
            Err(e) => active_connection(device@, out@) == Err::<(Seq<char>, bool), _>(e@),
        },
{
    let list = text::split_lines(out);
    let name = text::trim(text::get_line(&list, 0).as_str());
    let kind = text::trim(text::get_line(&list, 1).as_str());
    if name.as_str().is_empty() || text::same_text(name.as_str(), "--") {
        return Err("no NetworkManager connection on ".to_string().concat(device));
    }
    let kind = kind.as_str();
    let tunnel = text::equal_but_case(kind, "wireguard") || text::equal_but_case(kind, "tun")
        || text::equal_but_case(kind, "tap") || text::equal_but_case(kind, "vpn")
        || text::equal_but_case(kind, "ip-tunnel");
    // `-g` escapes separator characters in values.
    Ok((text::unescape(name.as_str()), tunnel))
}

/// The addresses of one DNS setting as `nmcli -g` prints it.
pub open spec fn listed_servers(line: Seq<char>) -> Seq<Seq<char>> {
    items(unescaped(trimmed(line)), seq![','])
}

/// What the output of `nmcli -g ipv4.dns,ipv4.ignore-auto-dns,ipv6.dns,ipv6.ignore-auto-dns
/// connection show` says: the servers forced on the connection, if it ignores those that the
/// router advertises on either side and has any of its own.
pub open spec fn forced_servers(out: Seq<char>) -> Option<Seq<Seq<char>>> {
    let list = lines(out);
    let servers = listed_servers(line_at(list, 0)) + listed_servers(line_at(list, 2));
    let ignores = trimmed(line_at(list, 1)) == "yes"@ || trimmed(line_at(list, 3)) == "yes"@;
    if ignores && servers.len() > 0 {
        Some(servers)
    } else {
        None
    }
}

/// An optional list of strings, as text.
pub open spec fn opt_texts(o: Option<Vec<String>>) -> Option<Seq<Seq<char>>> {
    match o {
        Some(list) => Some(texts(list@)),
        None => None,
    }
}

fn list_servers(line: &str) -> (res: Vec<String>)
    ensures
        texts(res@) == listed_servers(line@),
{
    assert([',']@ == seq![',']);
    text::split_items(text::unescape(text::trim(line).as_str()).as_str(), &[','])
}

/// The DNS servers forced on a connection, IPv4 before IPv6. `None` means the connection uses
/// whatever DHCP / the router advertises.
pub fn custom_servers(out: &str) -> (res: Option<Vec<String>>)
    ensures
        opt_texts(res) == forced_servers(out@),
{
    let list = text::split_lines(out);
    let mut servers = list_servers(text::get_line(&list, 0).as_str());
    let mut more = list_servers(text::get_line(&list, 2).as_str());
    let ghost v4 = texts(servers@);
    let ghost v6 = texts(more@);
    servers.append(&mut more);
    assert(texts(servers@) =~= v4 + v6);
    let v4_ignore = text::same_text(text::trim(text::get_line(&list, 1).as_str()).as_str(), "yes");
    let v6_ignore = text::same_text(text::trim(text::get_line(&list, 3).as_str()).as_str(), "yes");
    if (v4_ignore || v6_ignore) && servers.len() > 0 {
        Some(servers)
    } else {
        None
    }
}

/// The name in the head of a line: what stands between its first opening bracket and a closing
/// one at its end, or else all of it.
pub open spec fn link_name(head: Seq<char>) -> Seq<char> {
    let h = trimmed(head);
    let at = first_position(h, '(');
    if at >= 0 && at + 1 < h.len() && h.last() == ')' {
        h.subrange(at + 1, h.len() - 1)
    } else {
        h
    }
}

/// Whether the head of a line is that of the global setting, in whatever case.
pub open spec fn is_global(head: Seq<char>) -> bool {
    same_but_case(trimmed(head), "global"@)
}

/// The position of the last colon that follows a closing bracket, or -1.
pub open spec fn last_bracket_colon(s: Seq<char>) -> int
    decreases s.len(),
{
    if s.len() < 2 {
        -1
    } else if s[s.len() - 2] == ')' && s.last() == ':' {
        s.len() - 1
    } else {
        last_bracket_colon(s.drop_last())
    }
}

/// The position of the colon between the head of a line and its servers, or -1. The servers may
/// be written with colons themselves ("fd00::1"), so it is the one after the bracketed name;
/// in a line without such a name it is the first.
pub open spec fn head_end(line: Seq<char>) -> int {
    if last_bracket_colon(line) >= 0 {
        last_bracket_colon(line)
    } else {
        first_position(line, ':')
    }
}

/// The link that a line of `resolvectl dns` names ("Link 5 (hk-office): 192.168.4.1"), if the
/// line is about a link and lists servers for it.
pub open spec fn answering_link(line: Seq<char>) -> Option<Seq<char>> {
    let at = head_end(line);
    if at < 0 || trimmed(line.skip(at + 1)).len() == 0 || is_global(
        line.take(first_position(line, ':')),
    ) {
        None
    } else {
        Some(link_name(line.take(at)))
    }
}

/// The links that have servers, in the order of the lines.
pub open spec fn answering_links(list: Seq<Seq<char>>) -> Seq<Seq<char>>
    decreases list.len(),
{
    if list.len() == 0 {
        Seq::<Seq<char>>::empty()
    } else {
        let before = answering_links(list.drop_last());
        match answering_link(list.last()) {
            Some(name) => before.push(name),
            None => before,
        }
    }
}

/// The first of some names, if there is one.
pub open spec fn first_of(names: Seq<Seq<char>>) -> Option<Seq<char>> {
    if names.len() == 0 {
        None
    } else {
        Some(names.first())
    }
}

/// What the output of `resolvectl dns` says: the link that answers instead of `device`.
pub open spec fn foreign_owner(device: Seq<char>, out: Seq<char>) -> Option<Seq<char>> {
    let names = answering_links(lines(out));
    if names.contains(device) {
        None
    } else {
        first_of(names)
    }
}

fn name_of_link(head: &str) -> (res: String)
    ensures
        res@ == link_name(head@),
{
    let h = text::trim(head);
    proof {
        text::lemma_first_position(h@, '(');
    }
    if let Some((_, tail)) = text::split_at_first(h.as_str(), '(') {
        let n = tail.as_str().unicode_len();
        if n > 0 && tail.as_str().get_char(n - 1) == ')' {
            let ghost at = first_position(h@, '(');
            proof {
                assert(tail@[n - 1] == h@.last());
                assert(tail@.subrange(0, n - 1) == h@.subrange(at + 1, h@.len() - 1));
            }
            return tail.as_str().substring_char(0, n - 1).to_string();
        }
        proof {
            if n > 0 {
                assert(tail@[n - 1] == h@.last());
            }
        }
    }
    h
}

/// The last colon after a closing bracket is one, and none after it is; it is -1 only where
/// there is no such colon.
pub proof fn lemma_last_bracket_colon(s: Seq<char>)
    ensures
        -1 <= last_bracket_colon(s) < s.len(),
        last_bracket_colon(s) != 0,
        last_bracket_colon(s) > 0 ==> s[last_bracket_colon(s)] == ':' && s[last_bracket_colon(s) - 1]
            == ')',
        forall|i: int|
            last_bracket_colon(s) < i < s.len() && 0 < i && #[trigger] s[i] == ':' ==> s[i - 1]
                != ')',
    decreases s.len(),
{
    if s.len() >= 2 && !(s[s.len() - 2] == ')' && s.last() == ':') {
        let before = s.drop_last();
        lemma_last_bracket_colon(before);
        assert forall|i: int|
            last_bracket_colon(s) < i < s.len() && 0 < i && #[trigger] s[i] == ':' implies s[i - 1]
            != ')' by {
            if i < before.len() {
                assert(before[i] == s[i] && before[i - 1] == s[i - 1]);
            }
        }
    }
}

/// The parts of a line before and after the last colon that follows a closing bracket.
fn split_after_brackets(line: &str) -> (res: Option<(String, String)>)
    ensures
        match res {
            Some((before, after)) => {
                let at = last_bracket_colon(line@);
                at >= 0 && before@ == line@.take(at) && after@ == line@.skip(at + 1)
            },
            None => last_bracket_colon(line@) < 0,
        },
{
    let chars = text::chars_of(line);
    let n = chars.len();
    let mut i: usize = n;
    assert(line@.take(n as int) == line@);
    while i >= 2 && !(chars[i - 2] == ')' && chars[i - 1] == ':')
        invariant
            n == chars.len(),
            chars@ == line@,
            i <= n,
            last_bracket_colon(line@) == last_bracket_colon(line@.take(i as int)),
        decreases i,
    {
        assert(line@.take(i as int).drop_last() == line@.take(i - 1));
        i -= 1;
    }
    if i < 2 {
        None
    } else {
        proof {
            assert(line@.subrange(0, i - 1) == line@.take(i - 1));
            assert(line@.subrange(i as int, n as int) == line@.skip(i as int));
        }
        Some((line.substring_char(0, i - 1).to_string(), line.substring_char(i, n).to_string()))
    }
}

fn link_with_servers(line: &str) -> (res: Option<String>)
    ensures
        opt_text(res) == answering_link(line@),
{
    proof {
        text::lemma_first_position(line@, ':');
        lemma_last_bracket_colon(line@);
    }
    match text::split_at_first(line, ':') {
        None => None,
        Some((first, rest)) => {
            if text::equal_but_case(text::trim(first.as_str()).as_str(), "global") {
                return None;
            }
            let (head, servers) = match split_after_brackets(line) {
                Some(parts) => parts,
                None => (first, rest),
            };
            if text::trim(servers.as_str()).as_str().is_empty() {
                None
            } else {
                Some(name_of_link(head.as_str()))
            }
        },
    }
}

/// If systemd-resolved routes the device's DNS through a different link than `device` (a
/// full-tunnel VPN, say), the name of that link.
pub fn dns_owner(device: &str, out: &str) -> (res: Option<String>)
    ensures
        opt_text(res) == foreign_owner(device@, out@),
{
    let list = text::split_lines(out);
    let ghost all = texts(list@);
    let mut ours_has_dns = false;
    let mut other: Option<String> = None;
    let mut i: usize = 0;
    while i < list.len()
        invariant
            all == texts(list@),
            all == lines(out@),
            i <= list.len(),
            ours_has_dns == answering_links(all.take(i as int)).contains(device@),
            !ours_has_dns ==> opt_text(other) == first_of(answering_links(all.take(i as int))),
        decreases list.len() - i,
    {
        let ghost names = answering_links(all.take(i as int));
        proof {
            assert(all.take(i + 1).drop_last() == all.take(i as int));
        }
        if let Some(name) = link_with_servers(list[i].as_str()) {
            proof {
                assert(names.push(name@).drop_last() == names);
                assert(names.push(name@)[names.len() as int] == name@);
                assert forall|x: Seq<char>| names.contains(x) implies names.push(
                    name@,
                ).contains(x) by {
                    let j = choose|j: int| 0 <= j < names.len() && names[j] == x;
                    assert(names.push(name@)[j] == x);
                }
            }
            if text::same_text(name.as_str(), device) {
                ours_has_dns = true;
            } else if other.is_none() {
                other = Some(name);
            }
        }
        i += 1;
    }
    assert(all.take(list.len() as int) == all);
    if ours_has_dns {
        None
    } else {
        other
    }
}

} // verus!
