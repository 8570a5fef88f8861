//! What the commands do to the connection profiles, the device and the cache, and what is read
//! of it afterwards.

use vstd::prelude::*;

use crate::backend::{
    clear_command, force_command, of_kind, profile_command, CommandView,
};
use crate::laws::addresses::{
    clean_item, escaped, law_kinds_keep_servers, lemma_address_clean, lemma_four_lines,
    lemma_items_of_joined, lemma_kinds_address, lemma_listed_back, lemma_one_piece,
    lemma_pieces_around, lemma_trimmed,
};
use crate::report::forced_servers;
use crate::servers::{address_text, same_list};
use crate::text::{items, joined, one_of, pieces, strip_return};

verus! {

/// The DNS settings of a connection profile.
pub struct Profile {
    pub v4: Seq<char>,
    pub v4_ignore: Seq<char>,
    pub v6: Seq<char>,
    pub v6_ignore: Seq<char>,
}

impl Profile {
    /// The profile with this setting given this value.
    pub open spec fn set(self, key: Seq<char>, value: Seq<char>) -> Profile {
        if key == "ipv4.dns"@ {
            Profile { v4: value, ..self }
        } else if key == "ipv4.ignore-auto-dns"@ {
            Profile { v4_ignore: value, ..self }
        } else if key == "ipv6.dns"@ {
            Profile { v6: value, ..self }
        } else if key == "ipv6.ignore-auto-dns"@ {
            Profile { v6_ignore: value, ..self }
        } else {
            self
        }
    }

    /// The value of this setting.
    pub open spec fn get(self, key: Seq<char>) -> Seq<char> {
        if key == "ipv4.dns"@ {
            self.v4
        } else if key == "ipv4.ignore-auto-dns"@ {
            self.v4_ignore
        } else if key == "ipv6.dns"@ {
            self.v6
        } else if key == "ipv6.ignore-auto-dns"@ {
            self.v6_ignore
        } else {
            Seq::<char>::empty()
        }
    }
}

/// The profile after these settings, each a key and its value, were made.
pub open spec fn settings_made(p: Profile, args: Seq<Seq<char>>) -> Profile
    decreases args.len(),
{
    if args.len() < 2 {
        p
    } else {
        settings_made(p.set(args[0], args[1]), args.skip(2))
    }
}

/// Whether a command is `nmcli connection modify` on this connection.
pub open spec fn modifies(c: CommandView, connection: Seq<char>) -> bool {
    &&& c.program == "nmcli"@
    &&& c.args.len() >= 3
    &&& c.args[0] == "connection"@
    &&& c.args[1] == "modify"@
    &&& c.args[2] == connection
}

/// What `nmcli connection modify` makes of a profile: the arguments behind the name of the
/// connection are settings and their values.
pub open spec fn modified(p: Profile, c: CommandView) -> Profile {
    settings_made(p, c.args.skip(3))
}

/// What is printed of a profile: the value of each field on a line of its own, colons escaped.
pub open spec fn shown_fields(p: Profile, fields: Seq<Seq<char>>) -> Seq<char>
    decreases fields.len(),
{
    if fields.len() == 0 {
        Seq::<char>::empty()
    } else {
        shown_fields(p, fields.drop_last()) + escaped(p.get(fields.last())) + seq!['\n']
    }
}

/// What `nmcli -g` prints of a profile: the fields that its second argument lists.
pub open spec fn shown(p: Profile, c: CommandView) -> Seq<char> {
    shown_fields(p, pieces(c.args[1], one_of(seq![','])))
}

/// The names of the settings differ.
proof fn lemma_keys()
    ensures
        "ipv4.dns"@ != "ipv4.ignore-auto-dns"@,
        "ipv4.dns"@ != "ipv6.dns"@,
        "ipv4.dns"@ != "ipv6.ignore-auto-dns"@,
        "ipv4.ignore-auto-dns"@ != "ipv6.dns"@,
        "ipv4.ignore-auto-dns"@ != "ipv6.ignore-auto-dns"@,
        "ipv6.dns"@ != "ipv6.ignore-auto-dns"@,
{
    reveal_strlit("ipv4.dns");
    reveal_strlit("ipv4.ignore-auto-dns");
    reveal_strlit("ipv6.dns");
    reveal_strlit("ipv6.ignore-auto-dns");
    assert("ipv4.dns"@.len() == 8 && "ipv4.ignore-auto-dns"@.len() == 20);
    assert("ipv6.dns"@.len() == 8 && "ipv6.ignore-auto-dns"@.len() == 20);
    assert("ipv4.dns"@[3] == '4' && "ipv6.dns"@[3] == '6');
    assert("ipv4.ignore-auto-dns"@[3] == '4' && "ipv6.ignore-auto-dns"@[3] == '6');
}

/// The fields that are asked for of a profile.
proof fn lemma_fields()
    ensures
        pieces(
            "ipv4.dns,ipv4.ignore-auto-dns,ipv6.dns,ipv6.ignore-auto-dns"@,
            one_of(seq![',']),
        ) == seq![
            "ipv4.dns"@,
            "ipv4.ignore-auto-dns"@,
            "ipv6.dns"@,
            "ipv6.ignore-auto-dns"@,
        ],
{
    reveal_strlit("ipv4.dns,ipv4.ignore-auto-dns,ipv6.dns,ipv6.ignore-auto-dns");
    reveal_strlit("ipv4.dns");
    reveal_strlit("ipv4.ignore-auto-dns");
    reveal_strlit("ipv6.dns");
    reveal_strlit("ipv6.ignore-auto-dns");
    let sep = one_of(seq![',']);
    assert(seq![','][0] == ',');
    let a = "ipv4.dns"@;
    let b = "ipv4.ignore-auto-dns"@;
    let c = "ipv6.dns"@;
    let d = "ipv6.ignore-auto-dns"@;
    assert forall|i: int| 0 <= i < a.len() implies !sep(#[trigger] a[i]) by {}
    assert forall|i: int| 0 <= i < b.len() implies !sep(#[trigger] b[i]) by {}
    assert forall|i: int| 0 <= i < c.len() implies !sep(#[trigger] c[i]) by {}
    assert forall|i: int| 0 <= i < d.len() implies !sep(#[trigger] d[i]) by {}
    lemma_one_piece(a, sep);
    lemma_one_piece(b, sep);
    lemma_one_piece(c, sep);
    lemma_one_piece(d, sep);
    let s3 = c + seq![','] + d;
    let s2 = b + seq![','] + s3;
    lemma_pieces_around(c, ',', d, sep);
    lemma_pieces_around(b, ',', s3, sep);
    lemma_pieces_around(a, ',', s2, sep);
    assert("ipv4.dns,ipv4.ignore-auto-dns,ipv6.dns,ipv6.ignore-auto-dns"@ =~= a + seq![','] + s2);
    assert(pieces(a + seq![','] + s2, sep) =~= seq![a, b, c, d]);
}

/// What is printed of a profile for the command that asks for its DNS settings: the servers and
/// the flag of either side, one after the other.
proof fn lemma_profile_shown(p: Profile, connection: Seq<char>)
    ensures
        shown(p, profile_command(connection)) == escaped(p.v4) + seq!['\n'] + escaped(p.v4_ignore)
            + seq!['\n'] + escaped(p.v6) + seq!['\n'] + escaped(p.v6_ignore) + seq!['\n'],
{
    lemma_keys();
    lemma_fields();
    reveal_with_fuel(shown_fields, 5);
    let f = seq!["ipv4.dns"@, "ipv4.ignore-auto-dns"@, "ipv6.dns"@, "ipv6.ignore-auto-dns"@];
    let f3 = f.drop_last();
    let f2 = f3.drop_last();
    let f1 = f2.drop_last();
    assert(f.last() == "ipv6.ignore-auto-dns"@ && f3.last() == "ipv6.dns"@ && f2.last()
        == "ipv4.ignore-auto-dns"@ && f1.last() == "ipv4.dns"@);
    assert(f1.drop_last().len() == 0);
    assert(profile_command(connection).args[1]
        == "ipv4.dns,ipv4.ignore-auto-dns,ipv6.dns,ipv6.ignore-auto-dns"@);
    assert(shown_fields(p, f1) =~= escaped(p.v4) + seq!['\n']);
    assert(shown(p, profile_command(connection)) =~= escaped(p.v4) + seq!['\n'] + escaped(
        p.v4_ignore,
    ) + seq!['\n'] + escaped(p.v6) + seq!['\n'] + escaped(p.v6_ignore) + seq!['\n']);
}

/// A flag is printed as it is, on one line.
proof fn lemma_flag(flag: Seq<char>)
    requires
        flag == "yes"@ || flag == "no"@,
    ensures
        escaped(flag) == flag,
        crate::text::trimmed(flag) == flag,
        strip_return(flag) == flag,
        pieces(flag, one_of(seq!['\n'])) == seq![flag],
        "yes"@ != "no"@,
{
    reveal_strlit("yes");
    reveal_strlit("no");
    reveal_with_fuel(escaped, 4);
    assert("yes"@.len() == 3 && "no"@.len() == 2);
    assert(flag[0] == 'y' || flag[0] == 'n');
    assert(flag.last() == 's' || flag.last() == 'o');
    assert(escaped(flag) =~= flag);
    assert forall|i: int| 0 <= i < flag.len() implies !one_of(seq!['\n'])(#[trigger] flag[i]) by {}
    lemma_one_piece(flag, one_of(seq!['\n']));
    lemma_trimmed(flag);
}

/// A profile reads as what it is: where it lists servers and ignores those of the router on at
/// least one side, exactly its servers are forced, those of the IPv4 side first; otherwise it is
/// the router's default.
pub proof fn law_profile_reads_as_it_is(
    p: Profile,
    connection: Seq<char>,
    v4: Seq<Seq<char>>,
    v6: Seq<Seq<char>>,
)
    requires
        forall|i: int| 0 <= i < v4.len() ==> address_text(#[trigger] v4[i]),
        forall|i: int| 0 <= i < v6.len() ==> address_text(#[trigger] v6[i]),
        p.v4 == joined(v4, ","@),
        p.v6 == joined(v6, ","@),
        p.v4_ignore == "yes"@ || p.v4_ignore == "no"@,
        p.v6_ignore == "yes"@ || p.v6_ignore == "no"@,
    ensures
        forced_servers(shown(p, profile_command(connection))) == if (p.v4_ignore == "yes"@
            || p.v6_ignore == "yes"@) && v4.len() + v6.len() > 0 {
            Some(v4 + v6)
        } else {
            None
        },
{
    lemma_profile_shown(p, connection);
    lemma_listed_back(v4);
    lemma_listed_back(v6);
    lemma_flag(p.v4_ignore);
    lemma_flag(p.v6_ignore);
    lemma_four_lines(escaped(p.v4), p.v4_ignore, escaped(p.v6), p.v6_ignore);
}

/// The two kinds of servers are those without and those with a colon.
pub proof fn lemma_kinds_are_filters(servers: Seq<Seq<char>>)
    ensures
        of_kind(servers, false) == servers.filter(|s: Seq<char>| !s.contains(':')),
        of_kind(servers, true) == servers.filter(|s: Seq<char>| s.contains(':')),
    decreases servers.len(),
{
    reveal(Seq::filter);
    if servers.len() > 0 {
        lemma_kinds_are_filters(servers.drop_last());
        assert(of_kind(servers, false) =~= servers.filter(|s: Seq<char>| !s.contains(':')));
        assert(of_kind(servers, true) =~= servers.filter(|s: Seq<char>| s.contains(':')));
    } else {
        assert(of_kind(servers, false) =~= servers.filter(|s: Seq<char>| !s.contains(':')));
        assert(of_kind(servers, true) =~= servers.filter(|s: Seq<char>| s.contains(':')));
    }
}

/// What the four settings of a modification come to.
proof fn lemma_four_settings(p: Profile, args: Seq<Seq<char>>)
    requires
        args.len() == 8,
        args[0] == "ipv4.dns"@,
        args[2] == "ipv4.ignore-auto-dns"@,
        args[4] == "ipv6.dns"@,
        args[6] == "ipv6.ignore-auto-dns"@,
    ensures
        settings_made(p, args) == (Profile {
            v4: args[1],
            v4_ignore: args[3],
            v6: args[5],
            v6_ignore: args[7],
        }),
{
    lemma_keys();
    reveal_with_fuel(settings_made, 5);
    let a1 = args.skip(2);
    let a2 = a1.skip(2);
    let a3 = a2.skip(2);
    assert(a1[0] == args[2] && a1[1] == args[3]);
    assert(a2[0] == args[4] && a2[1] == args[5]);
    assert(a3[0] == args[6] && a3[1] == args[7]);
    assert(a3.skip(2).len() == 0);
}

proof fn lemma_forced(p: Profile, connection: Seq<char>, servers: Seq<Seq<char>>)
    ensures
        modifies(force_command(connection, servers), connection),
        modified(p, force_command(connection, servers)) == (Profile {
            v4: joined(servers.filter(|s: Seq<char>| !s.contains(':')), ","@),
            v4_ignore: "yes"@,
            v6: joined(servers.filter(|s: Seq<char>| s.contains(':')), ","@),
            v6_ignore: "yes"@,
        }),
{
    let c = force_command(connection, servers);
    lemma_kinds_are_filters(servers);
    let args = c.args.skip(3);
    assert(args.len() == 8);
    lemma_four_settings(p, args);
}

proof fn lemma_cleared(p: Profile, connection: Seq<char>)
    ensures
        modifies(clear_command(connection), connection),
        modified(p, clear_command(connection)) == (Profile {
            v4: Seq::empty(),
            v4_ignore: "no"@,
            v6: Seq::empty(),
            v6_ignore: "no"@,
        }),
{
    let args = clear_command(connection).args.skip(3);
    assert(args.len() == 8);
    lemma_four_settings(p, args);
}

/// The command that forces servers carries every one of them: split at commas, the two lists
/// that it sets hold those without a colon and those with one, each in the order of the list and
/// together each server as often as the list does. The router's servers are ignored on both
/// sides.
pub proof fn law_every_server_is_forced(
    before: Profile,
    connection: Seq<char>,
    servers: Seq<Seq<char>>,
)
    requires
        forall|i: int| 0 <= i < servers.len() ==> address_text(#[trigger] servers[i]),
    ensures
        ({
            let c = force_command(connection, servers);
            let after = modified(before, c);
            &&& modifies(c, connection)
            &&& items(after.v4, seq![',']) == servers.filter(|s: Seq<char>| !s.contains(':'))
            &&& items(after.v6, seq![',']) == servers.filter(|s: Seq<char>| s.contains(':'))
            &&& same_list(items(after.v4, seq![',']) + items(after.v6, seq![',']), servers)
            &&& after.v4_ignore == "yes"@
            &&& after.v6_ignore == "yes"@
        }),
{
    lemma_forced(before, connection, servers);
    lemma_kinds_are_filters(servers);
    law_kinds_keep_servers(servers);
    lemma_split_back(servers, false);
    lemma_split_back(servers, true);
}

proof fn lemma_split_back(servers: Seq<Seq<char>>, v6: bool)
    requires
        forall|i: int| 0 <= i < servers.len() ==> address_text(#[trigger] servers[i]),
    ensures
        items(joined(of_kind(servers, v6), ","@), seq![',']) == of_kind(servers, v6),
{
    lemma_kinds_address(servers, v6);
    reveal_strlit(",");
    let seps = seq![','];
    let list = of_kind(servers, v6);
    assert(","@ =~= seps);
    assert(seps[0] == ',');
    assert forall|i: int| 0 <= i < list.len() implies clean_item(#[trigger] list[i], seps) by {
        lemma_address_clean(list[i]);
    }
    lemma_items_of_joined(list, ","@, seps);
}

/// Whatever a profile held, once servers were forced on it, it reads as forcing them, those
/// without a colon first.
pub proof fn law_forced_profile_reads_back(
    before: Profile,
    connection: Seq<char>,
    servers: Seq<Seq<char>>,
)
    requires
        servers.len() > 0,
        forall|i: int| 0 <= i < servers.len() ==> address_text(#[trigger] servers[i]),
    ensures
        ({
            let after = modified(before, force_command(connection, servers));
            forced_servers(shown(after, profile_command(connection))) == Some(
                servers.filter(|s: Seq<char>| !s.contains(':')) + servers.filter(
                    |s: Seq<char>| s.contains(':'),
                ),
            )
        }),
{
    lemma_forced(before, connection, servers);
    lemma_kinds_are_filters(servers);
    lemma_kinds_address(servers, false);
    lemma_kinds_address(servers, true);
    let v4 = of_kind(servers, false);
    let v6 = of_kind(servers, true);
    law_kinds_keep_servers(servers);
    (v4 + v6).to_multiset_ensures();
    servers.to_multiset_ensures();
    let after = modified(before, force_command(connection, servers));
    law_profile_reads_as_it_is(after, connection, v4, v6);
}

/// Whatever a profile held, once it was cleared, it reads as the router's default.
pub proof fn law_cleared_profile_is_the_default(before: Profile, connection: Seq<char>)
    ensures
        modifies(clear_command(connection), connection),
        forced_servers(
            shown(modified(before, clear_command(connection)), profile_command(connection)),
        ) is None,
{
    lemma_cleared(before, connection);
    let none = Seq::<Seq<char>>::empty();
    law_profile_reads_as_it_is(
        modified(before, clear_command(connection)),
        connection,
        none,
        none,
    );
}

} // verus!
