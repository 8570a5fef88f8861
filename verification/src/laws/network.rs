//! How the override follows the device from network to network, and whose answers it hides
//! behind.

use vstd::prelude::*;

use crate::backend::StateView;
use crate::laws::entries::lemma_trim_end_ends;
use crate::report::{
    answering_link, answering_links, first_of, foreign_owner, is_global, last_bracket_colon,
    lemma_last_bracket_colon, link_name,
};
use crate::text::{first_position, lemma_first_position, lines, same_but_case, trimmed};
use crate::update::{left_behind, reacted, shown_override};
use crate::window::{MessageView, OverrideView, TaskView, WindowView};

verus! {

/// The override follows the device: where the state shows another network than the one that
/// carries the override, and that network is no tunnel, the servers of the override are forced
/// there.
pub proof fn law_override_follows_the_device(w: WindowView, f: OverrideView, state: StateView)
    requires
        w.followed == Some(f),
        f.connection != state.connection,
        !state.tunnel,
        !w.applying,
    ensures
        ({
            let (next, reaction) = reacted(w, MessageView::StatusChecked(Ok(state)));
            &&& reaction.tasks == seq![TaskView::Follow(f.servers)]
            &&& next.applying
            &&& next.followed == w.followed
        }),
{
}

/// The override that is seen is followed: where a state shows servers forced on a network that
/// is no tunnel, and the next state another such network, the same servers are forced there.
pub proof fn law_seen_override_follows_the_device(
    w: WindowView,
    a: StateView,
    servers: Seq<Seq<char>>,
    b: StateView,
)
    requires
        !w.applying,
        !a.tunnel,
        a.custom == Some(servers),
        !left_behind(w.followed, a),
        !b.tunnel,
        b.connection != a.connection,
    ensures
        ({
            let w1 = reacted(w, MessageView::StatusChecked(Ok(a))).0;
            let (next, reaction) = reacted(w1, MessageView::StatusChecked(Ok(b)));
            &&& w1.followed == Some(OverrideView { connection: a.connection, servers })
            &&& reaction.tasks == seq![TaskView::Follow(servers)]
            &&& next.applying
        }),
{
    let w1 = reacted(w, MessageView::StatusChecked(Ok(a))).0;
    law_override_follows_the_device(
        w1,
        OverrideView { connection: a.connection, servers },
        b,
    );
}

/// Once the override is on the new network, it is cleaned off the one that was left, and
/// follows from the new one on.
pub proof fn law_left_network_is_cleaned(w: WindowView, f: OverrideView, state: StateView)
    requires
        w.followed == Some(f),
        f.connection != state.connection,
        !state.tunnel,
        state.custom is Some,
    ensures
        ({
            let (next, reaction) = reacted(w, MessageView::Followed(Ok(state)));
            &&& reaction.tasks == seq![TaskView::ClearProfile(f.connection)]
            &&& next.followed == Some(
                OverrideView { connection: state.connection, servers: state.custom->0 },
            )
            &&& next.current == Some(state)
            &&& !next.applying
        }),
{
}

/// Nothing is ever moved onto a network that the state shows to be a tunnel, nor while a switch
/// is under way, nor where there is no override.
pub proof fn law_nothing_follows_onto_a_tunnel(
    w: WindowView,
    m: MessageView,
    servers: Seq<Seq<char>>,
)
    requires
        reacted(w, m).1.tasks.contains(TaskView::Follow(servers)),
    ensures
        m matches MessageView::StatusChecked(Ok(state)) && !state.tunnel && left_behind(
            w.followed,
            state,
        ),
        !w.applying,
        w.followed->0.servers == servers,
{
}

/// An override outlives an outage and a tunnel: a state that cannot be read, and one that
/// shows a tunnel, leave it where it was.
pub proof fn law_override_outlives_outages(w: WindowView, result: Result<StateView, Seq<char>>)
    requires
        result matches Ok(state) ==> state.tunnel,
    ensures
        reacted(w, MessageView::StatusChecked(result)).0.followed == w.followed,
        reacted(w, MessageView::StatusChecked(result)).1.tasks.len() == 0,
{
}

/// What is followed is an override that a state showed on a network that is no tunnel, or what
/// was followed before, or nothing.
pub proof fn law_followed_was_seen(w: WindowView, m: MessageView)
    ensures
        ({
            let next = reacted(w, m).0;
            ||| next.followed == w.followed
            ||| next.followed is None
            ||| m matches MessageView::StatusChecked(Ok(state)) && !state.tunnel && next.followed
                == shown_override(state)
            ||| m matches MessageView::Applied(Ok(state)) && !state.tunnel && next.followed
                == shown_override(state)
            ||| m matches MessageView::Followed(Ok(state)) && !state.tunnel && next.followed
                == shown_override(state)
        }),
{
}

/// A move that failed is not tried again: the next state, whatever it shows, starts none.
pub proof fn law_failed_move_is_not_retried(w: WindowView, e: Seq<char>, state: StateView)
    ensures
        ({
            let w1 = reacted(w, MessageView::Followed(Err(e))).0;
            reacted(w1, MessageView::StatusChecked(Ok(state))).1.tasks.len() == 0
        }),
{
}

/// Switching off ends the following: the next state, whatever it shows, starts no move.
pub proof fn law_off_ends_the_following(
    w: WindowView,
    result: Result<StateView, Seq<char>>,
    state: StateView,
)
    requires
        !w.applying,
        result matches Ok(s) ==> s.custom is None,
    ensures
        ({
            let off = reacted(w, MessageView::SetCustom(false));
            let w2 = reacted(off.0, MessageView::Applied(result)).0;
            &&& off.1.tasks == seq![TaskView::Reset]
            &&& reacted(w2, MessageView::StatusChecked(Ok(state))).1.tasks.len() == 0
        }),
{
}

/// The link that is said to answer in place of a device is another link, the first that has
/// servers; and none is said to where the device has servers itself.
pub proof fn law_owner_is_another_link(device: Seq<char>, out: Seq<char>)
    ensures
        foreign_owner(device, out) matches Some(name) ==> {
            &&& name != device
            &&& first_of(answering_links(lines(out))) == Some(name)
            &&& !answering_links(lines(out)).contains(device)
        },
        answering_links(lines(out)).contains(device) ==> foreign_owner(device, out) is None,
{
    let names = answering_links(lines(out));
    if names.len() > 0 {
        assert(names.contains(names[0]));
    }
}

/// What a line about a link reads as: the link, if it has servers.
proof fn lemma_link_line(number: Seq<char>, name: Seq<char>, servers: Seq<char>)
    requires
        !number.contains('('),
        last_bracket_colon(servers) < 0,
    ensures
        answering_link("Link "@ + number + " ("@ + name + "):"@ + servers) == if trimmed(
            servers,
        ).len() == 0 {
            None
        } else {
            Some(name)
        },
{
    reveal_strlit("Link ");
    reveal_strlit(" (");
    reveal_strlit("):");
    reveal_strlit("global");
    let head = "Link "@ + number + " ("@ + name + seq![')'];
    let line = "Link "@ + number + " ("@ + name + "):"@ + servers;
    let at: int = head.len() as int;
    assert(line =~= head + seq![':'] + servers);
    assert(last_bracket_colon(line) == at) by {
        assert(line[at] == ':' && line[at - 1] == ')');
        lemma_last_bracket_colon(line);
        lemma_last_bracket_colon(servers);
        let p = last_bracket_colon(line);
        if p > at + 1 {
            assert(line[p] == servers[p - at - 1] && line[p - 1] == servers[p - at - 2]);
        }
    }
    assert(line.take(at) =~= head);
    assert(line.skip(at + 1) =~= servers);
    assert(!is_global(line.take(first_position(line, ':')))) by {
        lemma_first_position(line, ':');
        let first = line.take(first_position(line, ':'));
        assert(line[at] == ':');
        assert(line[0] == 'L');
        assert(first[0] == 'L');
        lemma_trim_end_ends(first);
        if trimmed(first).len() > 0 {
            assert(trimmed(first)[0] == 'L');
        }
    }
    assert(link_name(head) == name) by {
        lemma_link_head(number, name);
    }
}

/// The name in the head of a line about a link.
proof fn lemma_link_head(number: Seq<char>, name: Seq<char>)
    requires
        !number.contains('('),
    ensures
        link_name("Link "@ + number + " ("@ + name + seq![')']) == name,
{
    reveal_strlit("Link ");
    reveal_strlit(" (");
    let head = "Link "@ + number + " ("@ + name + seq![')'];
    let open: int = 5 + number.len() as int + 1;
    assert(head.first() == 'L' && head.last() == ')');
    assert(trimmed(head) == head);
    assert(first_position(head, '(') == open) by {
        assert(head[open] == '(');
        assert forall|i: int| 0 <= i < open implies #[trigger] head[i] != '(' by {
            if 5 <= i < open - 1 {
                assert(head[i] == number[i - 5]);
            }
        }
        lemma_first_position(head, '(');
    }
    assert(head.subrange(open + 1, head.len() - 1) =~= name);
}

/// A line about a link names it, whatever its name: the line of a link and its servers reads as
/// that link. The servers may be written with colons, though not with one right after a closing
/// bracket, which no address holds.
pub proof fn law_link_line_names_the_link(number: Seq<char>, name: Seq<char>, servers: Seq<char>)
    requires
        !number.contains('('),
        last_bracket_colon(servers) < 0,
        trimmed(servers).len() > 0,
    ensures
        answering_link("Link "@ + number + " ("@ + name + "):"@ + servers) == Some(name),
{
    lemma_link_line(number, name, servers);
}

/// The global setting is no link: its line names none, in whatever case it is written and
/// whatever servers it lists.
pub proof fn law_global_line_names_no_link(word: Seq<char>, servers: Seq<char>)
    requires
        same_but_case(word, "global"@),
    ensures
        answering_link(word + ":"@ + servers) is None,
{
    reveal_strlit("global");
    reveal_strlit(":");
    let line = word + ":"@ + servers;
    assert forall|i: int| 0 <= i < 6 implies #[trigger] word[i] != ':' && word[i] <= 'z'
        && word[i] >= 'A' by {
        assert('a' <= "global"@[i] <= 'z');
    }
    assert(line =~= word + seq![':'] + servers);
    lemma_first_position(line, ':');
    assert(line[6] == ':');
    assert(first_position(line, ':') == 6) by {
        let p = first_position(line, ':');
        if 0 <= p < 6 {
            assert(line[p] == word[p]);
        }
    }
    assert(line.take(6) =~= word);
    assert(trimmed(word) == word) by {
        assert(word.first() == word[0] && word.last() == word[5]);
    }
}

/// A line of `resolvectl dns`: the global servers, or those of a link.
pub enum DnsLine {
    Global { word: Seq<char>, servers: Seq<char> },
    Link { number: Seq<char>, name: Seq<char>, servers: Seq<char> },
}

impl DnsLine {
    /// The texts in it are such as the system prints: no closing bracket before a colon among
    /// the servers of a link, no opening one in its number.
    pub open spec fn wf(self) -> bool {
        match self {
            DnsLine::Global { word, servers } => same_but_case(word, "global"@),
            DnsLine::Link { number, name, servers } => {
                &&& !number.contains('(')
                &&& last_bracket_colon(servers) < 0
            },
        }
    }

    /// How it is printed.
    pub open spec fn printed(self) -> Seq<char> {
        match self {
            DnsLine::Global { word, servers } => word + ":"@ + servers,
            DnsLine::Link { number, name, servers } => "Link "@ + number + " ("@ + name + "):"@
                + servers,
        }
    }

    /// The link that it says has servers.
    pub open spec fn served(self) -> Option<Seq<char>> {
        match self {
            DnsLine::Global { .. } => None,
            DnsLine::Link { number, name, servers } => if trimmed(servers).len() == 0 {
                None
            } else {
                Some(name)
            },
        }
    }
}

proof fn lemma_answering_links(list: Seq<Seq<char>>)
    ensures
        forall|i: int|
            0 <= i < list.len() ==> (#[trigger] answering_link(list[i]) matches Some(name)
                ==> answering_links(list).contains(name)),
        forall|name: Seq<char>| #[trigger]
            answering_links(list).contains(name) ==> exists|i: int|
                0 <= i < list.len() && #[trigger] answering_link(list[i]) == Some(name),
        answering_links(list).len() > 0 ==> exists|i: int|
            {
                &&& 0 <= i < list.len()
                &&& #[trigger] answering_link(list[i]) == Some(answering_links(list).first())
                &&& forall|j: int| 0 <= j < i ==> #[trigger] answering_link(list[j]) is None
            },
    decreases list.len(),
{
    if list.len() > 0 {
        let before = list.drop_last();
        let names = answering_links(before);
        let last = answering_link(list.last());
        let all = answering_links(list);
        lemma_answering_links(before);
        assert forall|i: int| 0 <= i < before.len() implies before[i] == #[trigger] list[i] by {}
        assert forall|name: Seq<char>| names.contains(name) implies all.contains(name) by {
            let k = choose|k: int| 0 <= k < names.len() && names[k] == name;
            assert(all[k] == name);
        }
        if let Some(name) = last {
            assert(all[names.len() as int] == name);
        }
        assert forall|i: int|
            0 <= i < list.len() implies (#[trigger] answering_link(list[i]) matches Some(name)
            ==> all.contains(name)) by {
            if i < before.len() {
                assert(answering_link(before[i]) == answering_link(list[i]));
            }
        }
        assert forall|name: Seq<char>| #[trigger] all.contains(name) implies exists|i: int|
            0 <= i < list.len() && #[trigger] answering_link(list[i]) == Some(name) by {
            let k = choose|k: int| 0 <= k < all.len() && all[k] == name;
            if k < names.len() {
                assert(names.contains(names[k]));
                let i = choose|i: int|
                    0 <= i < before.len() && #[trigger] answering_link(before[i]) == Some(name);
                assert(answering_link(list[i]) == Some(name));
            } else {
                assert(answering_link(list[list.len() - 1]) == Some(name));
            }
        }
        if names.len() > 0 {
            let i = choose|i: int|
                {
                    &&& 0 <= i < before.len()
                    &&& #[trigger] answering_link(before[i]) == Some(names.first())
                    &&& forall|j: int| 0 <= j < i ==> #[trigger] answering_link(before[j]) is None
                };
            assert(all.first() == names.first());
            assert(answering_link(list[i]) == Some(all.first()));
            assert forall|j: int| 0 <= j < i implies #[trigger] answering_link(
                list[j],
            ) is None by {
                assert(answering_link(before[j]) is None);
            }
        } else if last is Some {
            let i = list.len() - 1;
            assert(answering_link(list[i]) == Some(all.first()));
            assert forall|j: int| 0 <= j < i implies #[trigger] answering_link(
                list[j],
            ) is None by {
                assert(list[j] == before[j]);
                if let Some(name) = answering_link(before[j]) {
                    assert(names.contains(name));
                }
            }
        }
    }
}

/// What is read from the lines of `resolvectl dns`: the first link with servers, unless the
/// device has servers itself; the global servers never count.
pub proof fn law_owner_is_the_first_served_link(
    device: Seq<char>,
    report: Seq<DnsLine>,
    out: Seq<char>,
)
    requires
        forall|i: int| 0 <= i < report.len() ==> (#[trigger] report[i]).wf(),
        lines(out) == report.map_values(|l: DnsLine| l.printed()),
    ensures
        match foreign_owner(device, out) {
            Some(name) => {
                &&& forall|i: int|
                    0 <= i < report.len() ==> (#[trigger] report[i]).served() != Some(device)
                &&& exists|i: int|
                    {
                        &&& 0 <= i < report.len()
                        &&& (#[trigger] report[i]).served() == Some(name)
                        &&& forall|j: int|
                            0 <= j < i ==> (#[trigger] report[j]).served() is None
                    }
            },
            None => {
                ||| exists|i: int|
                    0 <= i < report.len() && (#[trigger] report[i]).served() == Some(device)
                ||| forall|i: int|
                    0 <= i < report.len() ==> (#[trigger] report[i]).served() is None
            },
        },
{
    let list = lines(out);
    let names = answering_links(list);
    assert forall|i: int| 0 <= i < report.len() implies answering_link(#[trigger] list[i])
        == report[i].served() by {
        assert(report[i].wf());
        assert(list[i] == report[i].printed());
        match report[i] {
            DnsLine::Global { word, servers } => law_global_line_names_no_link(word, servers),
            DnsLine::Link { number, name, servers } => lemma_link_line(number, name, servers),
        }
    }
    lemma_answering_links(list);
    if names.contains(device) {
        let i = choose|i: int|
            0 <= i < list.len() && #[trigger] answering_link(list[i]) == Some(device);
        assert(report[i].served() == Some(device));
    } else {
        assert forall|i: int| 0 <= i < report.len() implies (#[trigger] report[i]).served()
            != Some(device) by {
            assert(answering_link(list[i]) == report[i].served());
        }
        if names.len() > 0 {
            let i = choose|i: int|
                {
                    &&& 0 <= i < list.len()
                    &&& #[trigger] answering_link(list[i]) == Some(names.first())
                    &&& forall|j: int| 0 <= j < i ==> #[trigger] answering_link(list[j]) is None
                };
            assert(report[i].served() == Some(names.first()));
            assert forall|j: int| 0 <= j < i implies (#[trigger] report[j]).served() is None by {
                assert(answering_link(list[j]) is None);
            }
        } else {
            assert forall|i: int| 0 <= i < report.len() implies (
            #[trigger] report[i]).served() is None by {
                assert(answering_link(list[i]) == report[i].served());
                if let Some(name) = answering_link(list[i]) {
                    assert(names.contains(name));
                }
            }
        }
    }
}

} // verus!
