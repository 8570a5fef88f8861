//! What a job runs, whatever its commands reply.

use vstd::prelude::*;

use crate::backend::{
    activate_command, after_connection, chore_step, clear_command, device_command, flush_command, force_command,
    old_flush_command, profile_command, query_command, query_step, reapply_command, resolver_command, route_command,
    ChoreStepView, ChoreView, CommandView, GoalView, QueryStepView, QueryView, StateView,
};
use crate::laws::addresses::{forced_profile, law_forced_servers_read_back};
use crate::report::{active_connection, route_device};
use crate::servers::{address_text, same_list};

verus! {

/// The commands that a query runs as it is given these replies, one after the other, and the
/// command that it then waits for, if it has not ended.
pub open spec fn commands(
    query: QueryView,
    replies: Seq<Result<Seq<char>, Seq<char>>>,
) -> Seq<CommandView>
    decreases replies.len(),
{
    let rest = if replies.len() == 0 {
        Seq::empty()
    } else {
        match query_step(query, replies[0]) {
            QueryStepView::Next(next) => commands(next, replies.drop_first()),
            QueryStepView::Done(_) => Seq::empty(),
        }
    };
    seq![query_command(query)] + rest
}

/// What a query ends in as it is given these replies, if it ends.
pub open spec fn outcome(
    query: QueryView,
    replies: Seq<Result<Seq<char>, Seq<char>>>,
) -> Option<Result<StateView, Seq<char>>>
    decreases replies.len(),
{
    if replies.len() == 0 {
        None
    } else {
        match query_step(query, replies[0]) {
            QueryStepView::Next(next) => outcome(next, replies.drop_first()),
            QueryStepView::Done(result) => Some(result),
        }
    }
}

/// How many commands a query has before it at most.
pub open spec fn commands_left(query: QueryView) -> nat {
    match query {
        QueryView::ReadLinks { device, connection, tunnel, custom } => 1,
        QueryView::ReadProfile { device, connection, tunnel } => 2,
        QueryView::FindConnection(GoalView::Read, _) => 3,
        QueryView::FindRoute(GoalView::Read) => 4,
        QueryView::Flush(ChoreView::Flush) => 6,
        QueryView::Flush(_) => 5,
        QueryView::Activate { connection } => 7,
        QueryView::Reapply { device, connection } => 8,
        QueryView::Force { device, connection, servers } => 9,
        QueryView::Release { device, connection } => 9,
        QueryView::FindConnection(_, _) => 10,
        QueryView::FindRoute(_) => 11,
    }
}

/// Every reply brings a query nearer to its end, so every query ends.
pub proof fn law_queries_end(query: QueryView, reply: Result<Seq<char>, Seq<char>>)
    ensures
        query_step(query, reply) matches QueryStepView::Next(next) ==> commands_left(next)
            < commands_left(query),
        commands_left(query) >= 1,
{
}

/// A query has ended once it was given as many replies as it has commands left.
pub proof fn law_queries_end_in_time(
    query: QueryView,
    replies: Seq<Result<Seq<char>, Seq<char>>>,
)
    requires
        replies.len() >= commands_left(query),
    ensures
        outcome(query, replies) is Some,
    decreases replies.len(),
{
    law_queries_end(query, replies[0]);
    if let QueryStepView::Next(next) = query_step(query, replies[0]) {
        law_queries_end_in_time(next, replies.drop_first());
    }
}

/// The device and the connection that the first two replies name, as those of the default
/// route.
pub open spec fn default_route(replies: Seq<Result<Seq<char>, Seq<char>>>) -> Option<
    (Seq<char>, Seq<char>, bool),
> {
    match (replies[0], replies[1]) {
        (Ok(routes), Ok(shown)) => match route_device(routes) {
            Ok(device) => match active_connection(device, shown) {
                Ok((connection, tunnel)) => Some((device, connection, tunnel)),
                Err(_) => None,
            },
            Err(_) => None,
        },
        _ => None,
    }
}

/// Whether a command only reads.
pub open spec fn reads_only(c: CommandView) -> bool {
    ||| c == route_command()
    ||| exists|device: Seq<char>| c == #[trigger] device_command(device)
    ||| exists|connection: Seq<char>| c == #[trigger] profile_command(connection)
    ||| c == resolver_command()
}

/// Whether a query is past all changes, or never had any to make.
spec fn reading(query: QueryView) -> bool {
    match query {
        QueryView::FindRoute(goal) => goal is Read,
        QueryView::FindConnection(goal, _) => goal is Read,
        QueryView::ReadProfile { device, connection, tunnel } => true,
        QueryView::ReadLinks { device, connection, tunnel, custom } => true,
        _ => false,
    }
}

proof fn lemma_reading(query: QueryView, replies: Seq<Result<Seq<char>, Seq<char>>>)
    requires
        reading(query),
    ensures
        forall|i: int|
            0 <= i < commands(query, replies).len() ==> reads_only(
                #[trigger] commands(query, replies)[i],
            ),
    decreases replies.len(),
{
    let c = query_command(query);
    assert(reads_only(c));
    if replies.len() > 0 {
        if let QueryStepView::Next(next) = query_step(query, replies[0]) {
            assert(reading(next));
            lemma_reading(next, replies.drop_first());
            let rest = commands(next, replies.drop_first());
            assert forall|i: int| 0 <= i < commands(query, replies).len() implies reads_only(
                #[trigger] commands(query, replies)[i],
            ) by {
                if i > 0 {
                    assert(commands(query, replies)[i] == rest[i - 1]);
                }
            }
        }
    }
}

/// Whether a command belongs to the switch that `modify` makes on this connection and device:
/// it is one of the steps of that switch, flushes the cache, or only reads.
pub open spec fn within_switch(
    c: CommandView,
    modify: CommandView,
    device: Seq<char>,
    connection: Seq<char>,
) -> bool {
    ||| c == modify
    ||| c == reapply_command(device)
    ||| c == activate_command(connection)
    ||| c == flush_command()
    ||| c == old_flush_command()
    ||| reads_only(c)
}

/// What a switch ran: it modified the connection that owns the default route, pushed that onto
/// the device (or else re-activated the connection), and then flushed the cache. It changed
/// nothing else.
pub open spec fn switched(
    ran: Seq<CommandView>,
    modify: CommandView,
    device: Seq<char>,
    connection: Seq<char>,
) -> bool {
    &&& ran.len() > 4
    &&& ran[2] == modify
    &&& ran[3] == reapply_command(device)
    &&& ran[4] == flush_command() || (ran.len() > 5 && ran[4] == activate_command(connection)
        && ran[5] == flush_command())
    &&& forall|i: int|
        0 <= i < ran.len() ==> within_switch(#[trigger] ran[i], modify, device, connection)
}

/// Whether a query is at a step of the switch that `modify` makes, or past it.
spec fn switching(
    query: QueryView,
    modify: CommandView,
    device: Seq<char>,
    connection: Seq<char>,
) -> bool {
    match query {
        QueryView::Force { device: d, connection: c, servers } => d == device && c == connection
            && query_command(query) == modify,
        QueryView::Release { device: d, connection: c } => d == device && c == connection
            && query_command(query) == modify,
        QueryView::Reapply { device: d, connection: c } => d == device && c == connection,
        QueryView::Activate { connection: c } => c == connection,
        QueryView::Flush(chore) => !(chore is Clear),
        _ => reading(query),
    }
}

proof fn lemma_within(
    query: QueryView,
    replies: Seq<Result<Seq<char>, Seq<char>>>,
    modify: CommandView,
    device: Seq<char>,
    connection: Seq<char>,
)
    requires
        switching(query, modify, device, connection),
    ensures
        forall|i: int|
            0 <= i < commands(query, replies).len() ==> within_switch(
                #[trigger] commands(query, replies)[i],
                modify,
                device,
                connection,
            ),
    decreases replies.len(),
{
    if reading(query) {
        lemma_reading(query, replies);
    } else {
        assert(within_switch(query_command(query), modify, device, connection));
        if replies.len() > 0 {
            if let QueryStepView::Next(next) = query_step(query, replies[0]) {
                assert(switching(next, modify, device, connection));
                lemma_within(next, replies.drop_first(), modify, device, connection);
                let rest = commands(next, replies.drop_first());
                assert forall|i: int| 0 <= i < commands(query, replies).len() implies within_switch(
                    #[trigger] commands(query, replies)[i],
                    modify,
                    device,
                    connection,
                ) by {
                    if i > 0 {
                        assert(commands(query, replies)[i] == rest[i - 1]);
                    }
                }
            }
        }
    }
}

/// The first two commands only read, so a switch that ran them first is a switch.
proof fn lemma_switched(
    ran: Seq<CommandView>,
    rest: Seq<CommandView>,
    modify: CommandView,
    device: Seq<char>,
    connection: Seq<char>,
)
    requires
        ran == seq![route_command(), device_command(device)] + rest,
        rest.len() > 2,
        rest[0] == modify,
        rest[1] == reapply_command(device),
        rest[2] == flush_command() || (rest.len() > 3 && rest[2] == activate_command(connection)
            && rest[3] == flush_command()),
        forall|i: int|
            0 <= i < rest.len() ==> within_switch(#[trigger] rest[i], modify, device, connection),
    ensures
        switched(ran, modify, device, connection),
{
    assert(reads_only(route_command()));
    assert(reads_only(device_command(device)));
    assert forall|i: int| 0 <= i < ran.len() implies within_switch(
        #[trigger] ran[i],
        modify,
        device,
        connection,
    ) by {
        if i > 1 {
            assert(ran[i] == rest[i - 2]);
        }
    }
}

proof fn lemma_modified(
    query: QueryView,
    replies: Seq<Result<Seq<char>, Seq<char>>>,
    device: Seq<char>,
    connection: Seq<char>,
)
    requires
        query matches QueryView::Force { device: d, connection: c, servers } ==> d == device && c
            == connection,
        query matches QueryView::Release { device: d, connection: c } ==> d == device && c
            == connection,
        query is Force || query is Release,
        outcome(query, replies) matches Some(Ok(_)),
    ensures
        ({
            let ran = commands(query, replies);
            &&& ran.len() > 2
            &&& ran[0] == query_command(query)
            &&& ran[1] == reapply_command(device)
            &&& ran[2] == flush_command() || (ran.len() > 3 && ran[2] == activate_command(
                connection,
            ) && ran[3] == flush_command())
        }),
{
    reveal_with_fuel(commands, 4);
    reveal_with_fuel(outcome, 4);
    let next = QueryView::Reapply { device, connection };
    let r1 = replies.drop_first();
    assert(outcome(query, replies) == outcome(next, r1));
    assert(r1.len() > 0);
    let r2 = r1.drop_first();
    if r1[0] is Ok {
        assert(outcome(next, r1) == outcome(QueryView::Flush(ChoreView::Flush), r2));
    } else {
        let up = QueryView::Activate { connection };
        assert(outcome(next, r1) == outcome(up, r2));
        assert(r2.len() > 0);
    }
}

/// A switch to `servers` that succeeds forced them on the connection that owns the default
/// route, changed no other, and flushed the cache after that.
pub proof fn law_apply_switches_and_flushes(
    servers: Seq<Seq<char>>,
    replies: Seq<Result<Seq<char>, Seq<char>>>,
)
    requires
        outcome(QueryView::FindRoute(GoalView::Force(servers)), replies) matches Some(Ok(_)),
    ensures
        default_route(replies) matches Some((device, connection, _)) && switched(
            commands(QueryView::FindRoute(GoalView::Force(servers)), replies),
            force_command(connection, servers),
            device,
            connection,
        ),
{
    lemma_first_two(GoalView::Force(servers), replies);
    let (device, connection, _) = default_route(replies)->0;
    let q = QueryView::Force { device, connection, servers };
    lemma_modified(q, replies.skip(2), device, connection);
    lemma_within(q, replies.skip(2), query_command(q), device, connection);
    lemma_switched(
        commands(QueryView::FindRoute(GoalView::Force(servers)), replies),
        commands(q, replies.skip(2)),
        query_command(q),
        device,
        connection,
    );
}

/// A return to the router's servers that succeeds cleared the override of the connection that
/// owns the default route, changed no other, and flushed the cache after that.
pub proof fn law_reset_clears_and_flushes(replies: Seq<Result<Seq<char>, Seq<char>>>)
    requires
        outcome(QueryView::FindRoute(GoalView::Release), replies) matches Some(Ok(_)),
    ensures
        default_route(replies) matches Some((device, connection, _)) && switched(
            commands(QueryView::FindRoute(GoalView::Release), replies),
            clear_command(connection),
            device,
            connection,
        ),
{
    lemma_first_two(GoalView::Release, replies);
    let (device, connection, _) = default_route(replies)->0;
    let q = QueryView::Release { device, connection };
    lemma_modified(q, replies.skip(2), device, connection);
    lemma_within(q, replies.skip(2), query_command(q), device, connection);
    lemma_switched(
        commands(QueryView::FindRoute(GoalView::Release), replies),
        commands(q, replies.skip(2)),
        query_command(q),
        device,
        connection,
    );
}

/// The first two commands of a query find the connection that owns the default route.
pub proof fn lemma_first_two(goal: GoalView, replies: Seq<Result<Seq<char>, Seq<char>>>)
    requires
        outcome(QueryView::FindRoute(goal), replies) matches Some(Ok(_)),
    ensures
        replies.len() >= 2,
        default_route(replies) matches Some((device, connection, tunnel)) && {
            let next = after_connection(goal, device, connection, tunnel);
            &&& outcome(QueryView::FindRoute(goal), replies) == outcome(next, replies.skip(2))
            &&& commands(QueryView::FindRoute(goal), replies) == seq![
                route_command(),
                device_command(device),
            ] + commands(next, replies.skip(2))
        },
{
    reveal_with_fuel(commands, 3);
    reveal_with_fuel(outcome, 3);
    assert(replies.len() > 0);
    let r1 = replies.drop_first();
    let device = route_device(replies[0]->Ok_0)->Ok_0;
    assert(outcome(QueryView::FindRoute(goal), replies) == outcome(
        QueryView::FindConnection(goal, device),
        r1,
    ));
    assert(r1.len() > 0);
    assert(r1[0] == replies[1]);
    assert(r1.drop_first() == replies.skip(2));
    let (connection, tunnel) = active_connection(device, replies[1]->Ok_0)->Ok_0;
    let next = after_connection(goal, device, connection, tunnel);
    assert(commands(QueryView::FindRoute(goal), replies) =~= seq![
        route_command(),
        device_command(device),
    ] + commands(next, replies.skip(2)));
}

/// Reading the state changes nothing.
pub proof fn law_status_only_reads(replies: Seq<Result<Seq<char>, Seq<char>>>)
    ensures
        forall|i: int|
            0 <= i < commands(QueryView::FindRoute(GoalView::Read), replies).len() ==> reads_only(
                #[trigger] commands(QueryView::FindRoute(GoalView::Read), replies)[i],
            ),
{
    lemma_reading(QueryView::FindRoute(GoalView::Read), replies);
}

/// An override is never moved onto a tunnel: where the default route is found to belong to
/// one, moving an override there only reads.
pub proof fn law_follow_spares_tunnels(
    servers: Seq<Seq<char>>,
    replies: Seq<Result<Seq<char>, Seq<char>>>,
)
    requires
        default_route(replies) matches Some((_, _, tunnel)) && tunnel,
    ensures
        forall|i: int|
            0 <= i < commands(QueryView::FindRoute(GoalView::Follow(servers)), replies).len()
                ==> reads_only(
                #[trigger] commands(QueryView::FindRoute(GoalView::Follow(servers)), replies)[i],
            ),
{
    let q0 = QueryView::FindRoute(GoalView::Follow(servers));
    let (device, connection, tunnel) = default_route(replies)->0;
    let ran = commands(q0, replies);
    reveal_with_fuel(commands, 3);
    assert(reads_only(route_command()));
    assert(reads_only(device_command(device)));
    if replies.len() > 1 {
        let r1 = replies.drop_first();
        assert(r1[0] == replies[1]);
        let next = QueryView::ReadProfile { device, connection, tunnel };
        lemma_reading(next, r1.drop_first());
        let rest = commands(next, r1.drop_first());
        assert(ran =~= seq![route_command(), device_command(device)] + rest);
        assert forall|i: int| 0 <= i < ran.len() implies reads_only(#[trigger] ran[i]) by {
            if i > 1 {
                assert(ran[i] == rest[i - 2]);
            }
        }
    } else if replies.len() == 1 {
        assert(ran =~= seq![route_command(), device_command(device)]);
    }
}

/// Moving an override onto a network that is no tunnel is the same as switching to its servers
/// there.
pub proof fn law_follow_switches_elsewhere(
    servers: Seq<Seq<char>>,
    replies: Seq<Result<Seq<char>, Seq<char>>>,
)
    requires
        replies.len() >= 2,
        default_route(replies) matches Some((_, _, tunnel)) && !tunnel,
    ensures
        commands(QueryView::FindRoute(GoalView::Follow(servers)), replies) == commands(
            QueryView::FindRoute(GoalView::Force(servers)),
            replies,
        ),
        outcome(QueryView::FindRoute(GoalView::Follow(servers)), replies) == outcome(
            QueryView::FindRoute(GoalView::Force(servers)),
            replies,
        ),
{
    reveal_with_fuel(commands, 3);
    reveal_with_fuel(outcome, 3);
    let r1 = replies.drop_first();
    assert(r1[0] == replies[1]);
}

/// A cache that cannot be flushed fails no switch: whatever the flush replies, the state is
/// read next, after at most one more try.
pub proof fn law_flush_is_best_effort(first: Result<Seq<char>, Seq<char>>, second: Result<Seq<char>, Seq<char>>)
    ensures
        query_step(QueryView::Flush(ChoreView::Flush), first) matches QueryStepView::Next(next) && (
        next == QueryView::FindRoute(GoalView::Read) || query_step(next, second)
            == QueryStepView::Next(QueryView::FindRoute(GoalView::Read))),
{
}

/// Whatever its commands reply, a query changes nothing but the connection that its first two
/// replies name as that of the default route (and the cache), and so nothing at all where they
/// name none.
pub proof fn law_only_the_default_route_changes(
    goal: GoalView,
    replies: Seq<Result<Seq<char>, Seq<char>>>,
    i: int,
)
    requires
        0 <= i < commands(QueryView::FindRoute(goal), replies).len(),
    ensures
        ({
            let c = commands(QueryView::FindRoute(goal), replies)[i];
            ||| reads_only(c)
            ||| replies.len() > 1 && (default_route(replies) matches Some(
                (device, connection, tunnel),
            ) && within_switch(
                c,
                query_command(after_connection(goal, device, connection, tunnel)),
                device,
                connection,
            ))
        }),
{
    reveal_with_fuel(commands, 3);
    let q0 = QueryView::FindRoute(goal);
    let ran = commands(q0, replies);
    assert(reads_only(route_command()));
    if i > 0 {
        let q1 = query_step(q0, replies[0])->Next_0;
        let device = q1->FindConnection_1;
        let r1 = replies.drop_first();
        assert(ran[i] == commands(q1, r1)[i - 1]);
        assert(reads_only(device_command(device)));
        if i > 1 {
            assert(r1[0] == replies[1]);
            let q2 = query_step(q1, r1[0])->Next_0;
            assert(ran[i] == commands(q2, r1.drop_first())[i - 2]);
            let (_, connection, _) = default_route(replies)->0;
            lemma_within(q2, r1.drop_first(), query_command(q2), device, connection);
        }
    }
}

/// Every chore ends: only a first failed flush has another command after it.
pub proof fn law_chores_end(chore: ChoreView, reply: Result<Seq<char>, Seq<char>>)
    ensures
        chore_step(chore, reply) matches ChoreStepView::Next(next) ==> chore is Flush && next
            is OldFlush,
{
}

/// A switch shows what it forced: where the profile reads as the one on which `servers` were
/// forced, the state that is reported has each of them as its custom servers, whatever the
/// last command replies.
pub proof fn law_switch_shows_what_it_forced(
    servers: Seq<Seq<char>>,
    device: Seq<char>,
    connection: Seq<char>,
    tunnel: bool,
    links: Result<Seq<char>, Seq<char>>,
)
    requires
        servers.len() > 0,
        forall|i: int| 0 <= i < servers.len() ==> address_text(#[trigger] servers[i]),
    ensures
        outcome(
            QueryView::ReadProfile { device, connection, tunnel },
            seq![Ok(forced_profile(servers)), links],
        ) matches Some(Ok(state)) && state.connection == connection && (
        state.custom matches Some(custom) && same_list(custom, servers)),
{
    law_forced_servers_read_back(servers);
    reveal_with_fuel(outcome, 3);
    let replies = seq![Ok::<Seq<char>, Seq<char>>(forced_profile(servers)), links];
    assert(replies.drop_first() =~= seq![links]);
}

} // verus!
