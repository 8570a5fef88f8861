//! What a job leaves behind: which profiles it changed, what is live on the device, whether the
//! cache was dropped, and what it reports.

use vstd::prelude::*;

use crate::backend::{
    after_connection, apply_job, chore_command, chore_step, device_command, failure_text,
    follow_job, profile_command, query_command, query_step, reset_job, start_failure_text,
    status_job, ChoreStepView, ChoreView, CommandView, GoalView, QueryStepView, QueryView,
};
use crate::laws::addresses::{escaped, lemma_one_piece, lemma_pieces_around};
use crate::laws::jobs::{default_route, lemma_first_two, outcome};
use crate::laws::reports::{connection_name, law_connection_reads_back, lowered};
use crate::laws::world::{
    law_cleared_profile_is_the_default, law_every_server_is_forced, law_forced_profile_reads_back,
    modified, modifies, shown, Profile,
};
use crate::report::{active_connection, forced_servers, foreign_owner, route_device};
use crate::servers::address_text;
use crate::text::{one_of, pieces, trimmed};
use crate::update::reacted;
use crate::window::{MessageView, OverrideView, TaskView, WindowView};

verus! {

/// What the commands change, as far as one device and one connection are concerned.
pub struct World {
    /// The profile of each connection.
    pub profiles: spec_fn(Seq<char>) -> Profile,
    /// Whether the device uses the profile of the connection as it now is.
    pub live: bool,
    /// Whether the cache was dropped since.
    pub flushed: bool,
}

/// Whether a command is this program with these arguments.
pub open spec fn is_command(c: CommandView, program: Seq<char>, args: Seq<Seq<char>>) -> bool {
    c.program == program && c.args == args
}

/// Whether a command is `nmcli connection modify` on some connection.
pub open spec fn is_modification(c: CommandView) -> bool {
    c.args.len() >= 3 && modifies(c, c.args[2])
}

/// What a command that succeeds does: modifying a profile changes that profile and nothing on
/// the device; re-applying the device or activating the connection makes the profile live; a
/// flush drops the cache.
pub open spec fn effect(
    w: World,
    c: CommandView,
    device: Seq<char>,
    connection: Seq<char>,
) -> World {
    if is_modification(c) {
        let before = w.profiles;
        World {
            profiles: |name: Seq<char>|
                if name == c.args[2] {
                    modified(before(name), c)
                } else {
                    before(name)
                },
            live: w.live && c.args[2] != connection,
            flushed: w.flushed && c.args[2] != connection,
        }
    } else if is_command(c, "nmcli"@, seq!["device"@, "reapply"@, device]) || is_command(
        c,
        "nmcli"@,
        seq!["connection"@, "up"@, connection],
    ) {
        World { live: true, flushed: false, ..w }
    } else if is_command(c, "resolvectl"@, seq!["flush-caches"@]) || is_command(
        c,
        "systemd-resolve"@,
        seq!["--flush-caches"@],
    ) {
        World { flushed: true, ..w }
    } else {
        w
    }
}

/// What a query leaves behind as it is given these replies.
pub open spec fn left(
    query: QueryView,
    replies: Seq<Result<Seq<char>, Seq<char>>>,
    w: World,
    device: Seq<char>,
    connection: Seq<char>,
) -> World
    decreases replies.len(),
{
    if replies.len() == 0 {
        w
    } else {
        let next = if replies[0] is Ok {
            effect(w, query_command(query), device, connection)
        } else {
            w
        };
        match query_step(query, replies[0]) {
            QueryStepView::Next(q) => left(q, replies.drop_first(), next, device, connection),
            QueryStepView::Done(_) => next,
        }
    }
}

/// The words of the commands differ.
proof fn lemma_commands_differ()
    ensures
        "nmcli"@ != "ip"@,
        "nmcli"@ != "resolvectl"@,
        "nmcli"@ != "systemd-resolve"@,
        "ip"@ != "resolvectl"@,
        "ip"@ != "systemd-resolve"@,
        "resolvectl"@ != "systemd-resolve"@,
        "connection"@ != "device"@,
        "connection"@ != "-g"@,
        "device"@ != "-g"@,
        "modify"@ != "up"@,
        "flush-caches"@ != "dns"@,
{
    reveal_strlit("nmcli");
    reveal_strlit("ip");
    reveal_strlit("resolvectl");
    reveal_strlit("systemd-resolve");
    reveal_strlit("connection");
    reveal_strlit("device");
    reveal_strlit("-g");
    reveal_strlit("modify");
    reveal_strlit("up");
    reveal_strlit("flush-caches");
    reveal_strlit("dns");
    assert("nmcli"@.len() == 5 && "ip"@.len() == 2 && "resolvectl"@.len() == 10);
    assert("systemd-resolve"@.len() == 15 && "connection"@.len() == 10 && "device"@.len() == 6);
    assert("-g"@.len() == 2 && "modify"@.len() == 6 && "up"@.len() == 2);
    assert("flush-caches"@.len() == 12 && "dns"@.len() == 3);
}

/// Whether a query only reads from here on.
spec fn only_reads(query: QueryView) -> bool {
    match query {
        QueryView::FindRoute(goal) => goal is Read,
        QueryView::FindConnection(goal, _) => goal is Read,
        QueryView::ReadProfile { device, connection, tunnel } => true,
        QueryView::ReadLinks { device, connection, tunnel, custom } => true,
        _ => false,
    }
}

/// The commands that read change nothing.
proof fn lemma_reading_has_no_effect(
    query: QueryView,
    w: World,
    device: Seq<char>,
    connection: Seq<char>,
)
    requires
        query is FindRoute || query is FindConnection || query is ReadProfile || query is ReadLinks,
    ensures
        effect(w, query_command(query), device, connection) == w,
{
    lemma_commands_differ();
    let c = query_command(query);
    assert(seq!["device"@, "reapply"@, device][0] == "device"@);
    assert(seq!["connection"@, "up"@, connection][0] == "connection"@);
    assert(seq!["flush-caches"@][0] == "flush-caches"@);
    if query is ReadLinks {
        assert(c.args[0] == "dns"@);
    } else if !(query is FindRoute) {
        assert(c.args[0] == "-g"@);
    }
}

proof fn lemma_reading_leaves(
    query: QueryView,
    replies: Seq<Result<Seq<char>, Seq<char>>>,
    w: World,
    device: Seq<char>,
    connection: Seq<char>,
)
    requires
        only_reads(query),
    ensures
        left(query, replies, w, device, connection) == w,
    decreases replies.len(),
{
    if replies.len() > 0 {
        lemma_reading_has_no_effect(query, w, device, connection);
        if let QueryStepView::Next(next) = query_step(query, replies[0]) {
            assert(only_reads(next));
            lemma_reading_leaves(next, replies.drop_first(), w, device, connection);
        }
    }
}

/// Reading the state leaves everything as it was.
pub proof fn law_reading_leaves_everything(
    replies: Seq<Result<Seq<char>, Seq<char>>>,
    w: World,
    device: Seq<char>,
    connection: Seq<char>,
)
    ensures
        left(status_job(), replies, w, device, connection) == w,
{
    lemma_reading_leaves(status_job(), replies, w, device, connection);
}

/// What is asked to find the state: the default route, then the connection of the device, then
/// the profile of the connection, then the links.
pub proof fn law_state_is_asked_for(
    goal: GoalView,
    device: Seq<char>,
    connection: Seq<char>,
    tunnel: bool,
    custom: Option<Seq<Seq<char>>>,
)
    ensures
        is_command(
            query_command(QueryView::FindRoute(goal)),
            "ip"@,
            seq!["route"@, "show"@, "default"@],
        ),
        ({
            let c = query_command(QueryView::FindConnection(goal, device));
            &&& c.program == "nmcli"@
            &&& c.args.len() == 5
            &&& c.args[0] == "-g"@
            &&& c.args.skip(2) == seq!["device"@, "show"@, device]
        }),
        ({
            let c = query_command(QueryView::ReadProfile { device, connection, tunnel });
            &&& c.program == "nmcli"@
            &&& c.args.len() == 5
            &&& c.args[0] == "-g"@
            &&& c.args.skip(2) == seq!["connection"@, "show"@, connection]
        }),
        is_command(
            query_command(QueryView::ReadLinks { device, connection, tunnel, custom }),
            "resolvectl"@,
            seq!["dns"@],
        ),
{
    let c = query_command(QueryView::FindConnection(goal, device));
    assert(c.args.skip(2) =~= seq!["device"@, "show"@, device]);
    let p = query_command(QueryView::ReadProfile { device, connection, tunnel });
    assert(p.args.skip(2) =~= seq!["connection"@, "show"@, connection]);
}

/// A command that failed is told by what it printed, trimmed, and otherwise by its name and its
/// first argument.
pub proof fn law_failure_tells_what_was_printed(c: CommandView, printed: Seq<char>)
    ensures
        trimmed(printed).len() > 0 ==> failure_text(c, printed) == trimmed(printed),
        trimmed(printed).len() == 0 && c.args.len() > 0 ==> failure_text(c, printed) == c.program
            + " "@ + c.args[0] + " failed"@,
        trimmed(printed).len() == 0 && c.args.len() == 0 ==> failure_text(c, printed) == c.program
            + "  failed"@,
{
    reveal_strlit(" ");
    reveal_strlit(" failed");
    reveal_strlit("  failed");
    if trimmed(printed).len() == 0 && c.args.len() == 0 {
        assert(failure_text(c, printed) =~= c.program + "  failed"@);
    }
}

/// A command that did not start is told by its name, and by what is missing or why.
pub proof fn law_start_failure_tells_why(program: Seq<char>, reason: Seq<char>)
    ensures
        start_failure_text(program, true, reason) == "`"@ + program
            + "` not found — is NetworkManager installed?"@,
        start_failure_text(program, false, reason) == program + " failed to start: "@ + reason,
{
}

/// Whether both ways of dropping the cache were tried and failed, right after each other.
pub open spec fn flush_failed(replies: Seq<Result<Seq<char>, Seq<char>>>) -> bool {
    exists|i: int|
        0 < i && i + 1 < replies.len() && #[trigger] replies[i] is Err && replies[i + 1] is Err
}

/// From a modified profile on: it is made live, and the cache dropped after that.
proof fn lemma_reapply_lands(
    replies: Seq<Result<Seq<char>, Seq<char>>>,
    w: World,
    device: Seq<char>,
    connection: Seq<char>,
)
    requires
        outcome(QueryView::Reapply { device, connection }, replies) matches Some(Ok(_)),
    ensures
        ({
            let after = left(
                QueryView::Reapply { device, connection },
                replies,
                w,
                device,
                connection,
            );
            &&& after.profiles == w.profiles
            &&& after.live
            &&& after.flushed || flush_failed(replies)
        }),
{
    lemma_commands_differ();
    let reapply = QueryView::Reapply { device, connection };
    let flush = QueryView::Flush(ChoreView::Flush);
    let r1 = replies.drop_first();
    assert(replies.len() > 0);
    if replies[0] is Ok {
        let c = query_command(reapply);
        assert(c.args[0] == "device"@);
        let w1 = effect(w, c, device, connection);
        assert(w1 == (World { live: true, flushed: false, ..w }));
        assert(outcome(reapply, replies) == outcome(flush, r1));
        assert(left(reapply, replies, w, device, connection) == left(
            flush,
            r1,
            w1,
            device,
            connection,
        ));
        lemma_flush_lands(r1, w1, device, connection);
        if r1.len() > 1 && r1[0] is Err && r1[1] is Err {
            assert(replies[1] == r1[0] && replies[2] == r1[1]);
        }
    } else {
        let up = QueryView::Activate { connection };
        let r2 = r1.drop_first();
        let c = query_command(up);
        assert(c.args[1] == "up"@);
        let w1 = effect(w, c, device, connection);
        assert(w1 == (World { live: true, flushed: false, ..w }));
        assert(outcome(reapply, replies) == outcome(up, r1));
        assert(left(reapply, replies, w, device, connection) == left(
            up,
            r1,
            w,
            device,
            connection,
        ));
        assert(r1.len() > 0 && r1[0] is Ok);
        assert(outcome(up, r1) == outcome(flush, r2));
        assert(left(up, r1, w, device, connection) == left(flush, r2, w1, device, connection));
        lemma_flush_lands(r2, w1, device, connection);
        if r2.len() > 1 && r2[0] is Err && r2[1] is Err {
            assert(replies[2] == r2[0] && replies[3] == r2[1]);
        }
    }
}

/// From a modification on: the profile is modified, made live, and the cache dropped after that.
proof fn lemma_modification_lands(
    query: QueryView,
    replies: Seq<Result<Seq<char>, Seq<char>>>,
    w: World,
    device: Seq<char>,
    connection: Seq<char>,
)
    requires
        query matches QueryView::Force { device: d, connection: c, servers } ==> d == device && c
            == connection,
        query matches QueryView::Release { device: d, connection: c } ==> d == device && c
            == connection,
        query is Force || query is Release,
        modifies(query_command(query), connection),
        outcome(query, replies) matches Some(Ok(_)),
    ensures
        ({
            let after = left(query, replies, w, device, connection);
            &&& (after.profiles)(connection) == modified(
                (w.profiles)(connection),
                query_command(query),
            )
            &&& forall|other: Seq<char>|
                other != connection ==> #[trigger] (after.profiles)(other) == (w.profiles)(other)
            &&& after.live
            &&& after.flushed || flush_failed(replies)
        }),
{
    let r1 = replies.drop_first();
    let w1 = effect(w, query_command(query), device, connection);
    let reapply = QueryView::Reapply { device, connection };
    assert(replies.len() > 0 && replies[0] is Ok);
    assert(outcome(query, replies) == outcome(reapply, r1));
    assert(left(query, replies, w, device, connection) == left(
        reapply,
        r1,
        w1,
        device,
        connection,
    ));
    lemma_reapply_lands(r1, w1, device, connection);
    lemma_failure_widens(replies, r1, 1);
}

/// A flush drops the cache unless both of its commands fail, and changes nothing else.
proof fn lemma_flush_lands(
    replies: Seq<Result<Seq<char>, Seq<char>>>,
    w: World,
    device: Seq<char>,
    connection: Seq<char>,
)
    requires
        outcome(QueryView::Flush(ChoreView::Flush), replies) matches Some(Ok(_)),
    ensures
        ({
            let after = left(
                QueryView::Flush(ChoreView::Flush),
                replies,
                w,
                device,
                connection,
            );
            &&& after.profiles == w.profiles
            &&& after.live == w.live
            &&& after.flushed || (replies.len() > 1 && replies[0] is Err && replies[1] is Err)
        }),
{
    lemma_commands_differ();
    reveal_with_fuel(outcome, 3);
    let flush = QueryView::Flush(ChoreView::Flush);
    let read = QueryView::FindRoute(GoalView::Read);
    let r1 = replies.drop_first();
    let w1 = effect(w, query_command(flush), device, connection);
    assert(w1 == (World { flushed: true, ..w }));
    if replies[0] is Ok {
        assert(left(flush, replies, w, device, connection) == left(
            read,
            r1,
            w1,
            device,
            connection,
        ));
        lemma_reading_leaves(read, r1, w1, device, connection);
    } else {
        let old_flush = QueryView::Flush(ChoreView::OldFlush(replies[0]->Err_0));
        let r2 = r1.drop_first();
        assert(left(flush, replies, w, device, connection) == left(
            old_flush,
            r1,
            w,
            device,
            connection,
        ));
        assert(r1.len() > 0);
        assert(r1[0] == replies[1]);
        let w2 = effect(w, query_command(old_flush), device, connection);
        assert(w2 == (World { flushed: true, ..w }));
        if r1[0] is Ok {
            assert(left(old_flush, r1, w, device, connection) == left(
                read,
                r2,
                w2,
                device,
                connection,
            ));
            lemma_reading_leaves(read, r2, w2, device, connection);
        } else {
            assert(left(old_flush, r1, w, device, connection) == left(
                read,
                r2,
                w,
                device,
                connection,
            ));
            lemma_reading_leaves(read, r2, w, device, connection);
        }
    }
}

/// The first two commands of a query leave everything as it was.
proof fn lemma_first_two_leave(
    goal: GoalView,
    replies: Seq<Result<Seq<char>, Seq<char>>>,
    w: World,
)
    requires
        outcome(QueryView::FindRoute(goal), replies) matches Some(Ok(_)),
    ensures
        default_route(replies) matches Some((device, connection, tunnel)) && {
            let next = after_connection(goal, device, connection, tunnel);
            &&& outcome(next, replies.skip(2)) matches Some(Ok(_))
            &&& replies.len() >= 2
            &&& left(QueryView::FindRoute(goal), replies, w, device, connection) == left(
                next,
                replies.skip(2),
                w,
                device,
                connection,
            )
        },
{
    reveal_with_fuel(outcome, 3);
    reveal_with_fuel(left, 3);
    assert(replies.len() > 0);
    let q0 = QueryView::FindRoute(goal);
    let r1 = replies.drop_first();
    let device = route_device(replies[0]->Ok_0)->Ok_0;
    let q1 = QueryView::FindConnection(goal, device);
    assert(outcome(q0, replies) == outcome(q1, r1));
    assert(r1.len() > 0);
    assert(r1[0] == replies[1]);
    assert(r1.drop_first() == replies.skip(2));
    let (connection, tunnel) = active_connection(device, replies[1]->Ok_0)->Ok_0;
    lemma_reading_has_no_effect(q0, w, device, connection);
    lemma_reading_has_no_effect(q1, w, device, connection);
}

/// A switch to servers that succeeds leaves them forced on the connection that owns the default
/// route, live on its device, with every other profile as it was, and the cache dropped after
/// that unless it could not be.
pub proof fn law_apply_leaves_the_servers_forced(
    servers: Seq<Seq<char>>,
    replies: Seq<Result<Seq<char>, Seq<char>>>,
    w: World,
)
    requires
        servers.len() > 0,
        forall|i: int| 0 <= i < servers.len() ==> address_text(#[trigger] servers[i]),
        outcome(apply_job(servers), replies) matches Some(Ok(_)),
    ensures
        default_route(replies) matches Some((device, connection, _)) && {
            let query = apply_job(servers);
            let after = left(query, replies, w, device, connection);
            &&& forced_servers(
                shown((after.profiles)(connection), profile_command(connection)),
            ) == Some(
                servers.filter(|s: Seq<char>| !s.contains(':')) + servers.filter(
                    |s: Seq<char>| s.contains(':'),
                ),
            )
            &&& forall|other: Seq<char>|
                other != connection ==> #[trigger] (after.profiles)(other) == (w.profiles)(other)
            &&& after.live
            &&& after.flushed || flush_failed(replies)
        },
{
    let goal = GoalView::Force(servers);
    lemma_first_two_leave(goal, replies, w);
    let (device, connection, _) = default_route(replies)->0;
    let q = QueryView::Force { device, connection, servers };
    let before = (w.profiles)(connection);
    law_every_server_is_forced(before, connection, servers);
    law_forced_profile_reads_back(before, connection, servers);
    lemma_modification_lands(q, replies.skip(2), w, device, connection);
    lemma_failure_widens(replies, replies.skip(2), 2);
}

proof fn lemma_failure_widens(
    replies: Seq<Result<Seq<char>, Seq<char>>>,
    rest: Seq<Result<Seq<char>, Seq<char>>>,
    n: int,
)
    requires
        0 < n <= replies.len(),
        rest == replies.skip(n),
    ensures
        flush_failed(rest) ==> flush_failed(replies),
{
    if flush_failed(rest) {
        let i = choose|i: int|
            0 < i && i + 1 < rest.len() && #[trigger] rest[i] is Err && rest[i + 1] is Err;
        assert(replies[i + n] == rest[i] && replies[i + n + 1] == rest[i + 1]);
    }
}

/// A return to the router that succeeds leaves the connection that owns the default route as the
/// router's default, live on its device, with every other profile as it was, and the cache
/// dropped after that unless it could not be.
pub proof fn law_reset_leaves_the_default(
    replies: Seq<Result<Seq<char>, Seq<char>>>,
    w: World,
)
    requires
        outcome(reset_job(), replies) matches Some(Ok(_)),
    ensures
        default_route(replies) matches Some((device, connection, _)) && {
            let query = reset_job();
            let after = left(query, replies, w, device, connection);
            &&& forced_servers(
                shown((after.profiles)(connection), profile_command(connection)),
            ) is None
            &&& forall|other: Seq<char>|
                other != connection ==> #[trigger] (after.profiles)(other) == (w.profiles)(other)
            &&& after.live
            &&& after.flushed || flush_failed(replies)
        },
{
    lemma_first_two_leave(GoalView::Release, replies, w);
    let (device, connection, _) = default_route(replies)->0;
    let q = QueryView::Release { device, connection };
    law_cleared_profile_is_the_default((w.profiles)(connection), connection);
    lemma_modification_lands(q, replies.skip(2), w, device, connection);
    lemma_failure_widens(replies, replies.skip(2), 2);
}

/// An override that moves leaves its servers forced where the device now is, unless that is a
/// tunnel, where everything stays as it was.
pub proof fn law_follow_leaves_the_servers_forced(
    servers: Seq<Seq<char>>,
    replies: Seq<Result<Seq<char>, Seq<char>>>,
    w: World,
)
    requires
        servers.len() > 0,
        forall|i: int| 0 <= i < servers.len() ==> address_text(#[trigger] servers[i]),
        outcome(follow_job(servers), replies) matches Some(Ok(_)),
    ensures
        default_route(replies) matches Some((device, connection, tunnel)) && {
            let query = follow_job(servers);
            let after = left(query, replies, w, device, connection);
            &&& tunnel ==> after == w
            &&& !tunnel ==> forced_servers(
                shown((after.profiles)(connection), profile_command(connection)),
            ) == Some(
                servers.filter(|s: Seq<char>| !s.contains(':')) + servers.filter(
                    |s: Seq<char>| s.contains(':'),
                ),
            ) && after.live && (after.flushed || flush_failed(replies))
            &&& forall|other: Seq<char>|
                other != connection ==> #[trigger] (after.profiles)(other) == (w.profiles)(other)
        },
{
    let goal = GoalView::Follow(servers);
    lemma_first_two_leave(goal, replies, w);
    let (device, connection, tunnel) = default_route(replies)->0;
    if tunnel {
        let q = QueryView::ReadProfile { device, connection, tunnel };
        lemma_reading_leaves(q, replies.skip(2), w, device, connection);
    } else {
        let q = QueryView::Force { device, connection, servers };
        let before = (w.profiles)(connection);
        law_every_server_is_forced(before, connection, servers);
        law_forced_profile_reads_back(before, connection, servers);
        lemma_modification_lands(q, replies.skip(2), w, device, connection);
        lemma_failure_widens(replies, replies.skip(2), 2);
    }
}

/// Whether a query is at the switch or past it, and has yet to read the state.
spec fn at_the_switch(query: QueryView) -> bool {
    query is Force || query is Release || query is Reapply || query is Activate || query is Flush
}

proof fn lemma_ends_by_reading(query: QueryView, replies: Seq<Result<Seq<char>, Seq<char>>>)
    requires
        at_the_switch(query),
        outcome(query, replies) matches Some(Ok(_)),
    ensures
        exists|n: int|
            0 < n <= replies.len() && #[trigger] outcome(status_job(), replies.skip(n)) == outcome(
                query,
                replies,
            ),
    decreases replies.len(),
{
    let rest = replies.drop_first();
    assert(replies.skip(1) =~= rest);
    let next = query_step(query, replies[0])->Next_0;
    assert(outcome(query, replies) == outcome(next, rest));
    if next == status_job() {
        assert(outcome(status_job(), replies.skip(1)) == outcome(query, replies));
    } else {
        assert(at_the_switch(next));
        lemma_ends_by_reading(next, rest);
        let n = choose|n: int|
            0 < n <= rest.len() && #[trigger] outcome(status_job(), rest.skip(n)) == outcome(
                next,
                rest,
            );
        assert(replies.skip(n + 1) =~= rest.skip(n));
    }
}

/// What a switch reports is the state that is read anew after it: the same as the job that reads
/// the state reports, from the replies that come after those to the switch itself.
pub proof fn law_switch_reports_the_state_after_it(
    servers: Seq<Seq<char>>,
    back: bool,
    replies: Seq<Result<Seq<char>, Seq<char>>>,
)
    requires
        outcome(
            if back {
                reset_job()
            } else {
                apply_job(servers)
            },
            replies,
        ) matches Some(Ok(_)),
    ensures
        exists|n: int|
            4 < n <= replies.len() && #[trigger] outcome(status_job(), replies.skip(n)) == outcome(
                if back {
                    reset_job()
                } else {
                    apply_job(servers)
                },
                replies,
            ),
{
    let goal = if back {
        GoalView::Release
    } else {
        GoalView::Force(servers)
    };
    let first = QueryView::FindRoute(goal);
    assert(first == if back {
        reset_job()
    } else {
        apply_job(servers)
    });
    lemma_first_two(goal, replies);
    let (device, connection, tunnel) = default_route(replies)->0;
    let q = after_connection(goal, device, connection, tunnel);
    let r2 = replies.skip(2);
    let r3 = r2.drop_first();
    let r4 = r3.drop_first();
    let reapply = QueryView::Reapply { device, connection };
    assert(outcome(q, r2) == outcome(reapply, r3));
    let after = query_step(reapply, r3[0])->Next_0;
    assert(outcome(reapply, r3) == outcome(after, r4));
    lemma_ends_by_reading(after, r4);
    let n = choose|n: int|
        0 < n <= r4.len() && #[trigger] outcome(status_job(), r4.skip(n)) == outcome(after, r4);
    assert(replies.len() >= 4);
    assert(replies.skip(n + 4) =~= r4.skip(n));
}

/// Cleaning a profile makes it the router's default, with every other profile and what is live
/// as they were where that is another connection; it succeeds if its command does.
pub proof fn law_cleaning_makes_the_default(
    profile: Seq<char>,
    w: World,
    device: Seq<char>,
    connection: Seq<char>,
    e: Seq<char>,
)
    ensures
        ({
            let chore = ChoreView::Clear(profile);
            let after = effect(w, chore_command(chore), device, connection);
            &&& forced_servers(
                shown((after.profiles)(profile), profile_command(profile)),
            ) is None
            &&& forall|other: Seq<char>|
                other != profile ==> #[trigger] (after.profiles)(other) == (w.profiles)(other)
            &&& profile != connection ==> after.live == w.live && after.flushed == w.flushed
            &&& chore_step(chore, Ok(e)) == ChoreStepView::Done(Ok(()))
            &&& chore_step(chore, Err(e)) == ChoreStepView::Done(Err(e))
        }),
{
    law_cleared_profile_is_the_default((w.profiles)(profile), profile);
}

/// A flush drops the cache and nothing else, by the tool's older name where the first try fails;
/// where both fail, the error is that of the first.
pub proof fn law_flush_drops_the_cache(
    w: World,
    device: Seq<char>,
    connection: Seq<char>,
    out: Seq<char>,
    first: Seq<char>,
    second: Seq<char>,
)
    ensures
        ({
            let flush = ChoreView::Flush;
            &&& effect(w, chore_command(flush), device, connection) == (World {
                flushed: true,
                ..w
            })
            &&& chore_step(flush, Ok(out)) == ChoreStepView::Done(Ok(()))
            &&& chore_step(flush, Err(first)) matches ChoreStepView::Next(again) && {
                &&& chore_command(again) != chore_command(flush)
                &&& effect(w, chore_command(again), device, connection) == (World {
                    flushed: true,
                    ..w
                })
                &&& chore_step(again, Ok(out)) == ChoreStepView::Done(Ok(()))
                &&& chore_step(again, Err(second)) == ChoreStepView::Done(
                    Err("could not flush DNS cache: "@ + first),
                )
            }
        }),
{
    lemma_commands_differ();
}

/// What is printed of a device: its connection or its type for each field, on a line of its own.
pub open spec fn shown_device(name: Seq<char>, kind: Seq<char>, fields: Seq<Seq<char>>) -> Seq<char>
    decreases fields.len(),
{
    if fields.len() == 0 {
        Seq::<char>::empty()
    } else {
        let value = if fields[0] == "GENERAL.CONNECTION"@ {
            escaped(name)
        } else if fields[0] == "GENERAL.TYPE"@ {
            kind
        } else {
            Seq::<char>::empty()
        };
        value + seq!['\n'] + shown_device(name, kind, fields.drop_first())
    }
}

/// What the command that asks for the connection of a device prints.
pub open spec fn device_answer(device: Seq<char>, name: Seq<char>, kind: Seq<char>) -> Seq<char> {
    shown_device(name, kind, pieces(device_command(device).args[1], one_of(seq![','])))
}

proof fn lemma_device_answer(device: Seq<char>, name: Seq<char>, kind: Seq<char>)
    ensures
        device_answer(device, name, kind) == escaped(name) + seq!['\n'] + (kind + seq!['\n']
            + Seq::<char>::empty()),
{
    reveal_strlit("GENERAL.CONNECTION,GENERAL.TYPE");
    reveal_strlit("GENERAL.CONNECTION");
    reveal_strlit("GENERAL.TYPE");
    let a = "GENERAL.CONNECTION"@;
    let b = "GENERAL.TYPE"@;
    let sep = one_of(seq![',']);
    assert(seq![','][0] == ',');
    assert forall|i: int| 0 <= i < a.len() implies !sep(#[trigger] a[i]) by {}
    assert forall|i: int| 0 <= i < b.len() implies !sep(#[trigger] b[i]) by {}
    lemma_one_piece(a, sep);
    lemma_one_piece(b, sep);
    lemma_pieces_around(a, ',', b, sep);
    assert("GENERAL.CONNECTION,GENERAL.TYPE"@ =~= a + seq![','] + b);
    let fields = pieces("GENERAL.CONNECTION,GENERAL.TYPE"@, sep);
    assert(fields =~= seq![a, b]);
    assert(a.len() == 18 && b.len() == 12);
    assert(device_command(device).args[1] == "GENERAL.CONNECTION,GENERAL.TYPE"@);
    reveal_with_fuel(shown_device, 3);
    assert(fields.drop_first()[0] == b);
    assert(fields.drop_first().drop_first().len() == 0);
}

/// What is read is what there is: the device that the routes name, the connection and the type
/// that are shown for it, what its profile forces, and the link that answers in its place, if
/// the resolver tells.
pub proof fn law_status_reports_what_there_is(
    routes: Seq<char>,
    device: Seq<char>,
    name: Seq<char>,
    kind: Seq<char>,
    profile: Profile,
    links: Result<Seq<char>, Seq<char>>,
)
    requires
        route_device(routes) == Ok::<Seq<char>, Seq<char>>(device),
        connection_name(name),
        !kind.contains('\n'),
        !kind.contains('\r'),
    ensures
        outcome(
            status_job(),
            seq![
                Ok(routes),
                Ok(device_answer(device, name, kind)),
                Ok(shown(profile, profile_command(name))),
                links,
            ],
        ) matches Some(Ok(state)) && {
            let small = lowered(trimmed(kind));
            &&& state.device == device
            &&& state.connection == name
            &&& state.custom == forced_servers(shown(profile, profile_command(name)))
            &&& state.tunnel <==> (small == "wireguard"@ || small == "tun"@ || small == "tap"@
                || small == "vpn"@ || small == "ip-tunnel"@)
            &&& links matches Ok(out) ==> state.dns_owner == foreign_owner(device, out)
            &&& links is Err ==> state.dns_owner is None
        },
{
    lemma_device_answer(device, name, kind);
    law_connection_reads_back(device, name, kind, Seq::empty());
    let answer = device_answer(device, name, kind);
    let (connection, tunnel) = active_connection(device, answer)->Ok_0;
    let printed = shown(profile, profile_command(name));
    let r0 = seq![
        Ok::<Seq<char>, Seq<char>>(routes),
        Ok(answer),
        Ok(printed),
        links,
    ];
    let r1 = r0.drop_first();
    let r2 = r1.drop_first();
    let r3 = r2.drop_first();
    assert(r1[0] == r0[1] && r2[0] == r0[2] && r3[0] == links);
    reveal_with_fuel(outcome, 5);
    let custom = forced_servers(printed);
    let read = status_job();
    let q1 = QueryView::FindConnection(GoalView::Read, device);
    let q2 = QueryView::ReadProfile { device, connection, tunnel };
    let q3 = QueryView::ReadLinks { device, connection, tunnel, custom };
    assert(outcome(read, r0) == outcome(q1, r1));
    assert(outcome(q1, r1) == outcome(q2, r2));
    assert(outcome(q2, r2) == outcome(q3, r3));
}

/// A command that fails ends the job with its error, other than one that has a second way.
pub proof fn law_failed_reading_is_reported(query: QueryView, e: Seq<char>)
    requires
        query is FindRoute || query is FindConnection || query is Force || query is Release || query
            is Activate || query is ReadProfile,
    ensures
        query_step(query, Err(e)) == QueryStepView::Done(Err(e)),
{
}

/// The device joined another network: where an override is on another connection, and the type
/// of the device that is now in use is none of a tunnel, reading the state starts the move of
/// the override; where it is a tunnel, nothing moves.
pub proof fn law_joined_network_is_followed(
    w: WindowView,
    f: OverrideView,
    routes: Seq<char>,
    device: Seq<char>,
    name: Seq<char>,
    kind: Seq<char>,
    profile: Profile,
    links: Result<Seq<char>, Seq<char>>,
)
    requires
        !w.applying,
        w.followed == Some(f),
        f.connection != name,
        route_device(routes) == Ok::<Seq<char>, Seq<char>>(device),
        connection_name(name),
        !kind.contains('\n'),
        !kind.contains('\r'),
    ensures
        outcome(
            status_job(),
            seq![
                Ok(routes),
                Ok(device_answer(device, name, kind)),
                Ok(shown(profile, profile_command(name))),
                links,
            ],
        ) matches Some(read) && {
            let small = lowered(trimmed(kind));
            let tunnel = small == "wireguard"@ || small == "tun"@ || small == "tap"@ || small
                == "vpn"@ || small == "ip-tunnel"@;
            &&& !tunnel ==> reacted(w, MessageView::StatusChecked(read)).1.tasks == seq![
                TaskView::Follow(f.servers),
            ]
            &&& tunnel ==> reacted(w, MessageView::StatusChecked(read)).1.tasks.len() == 0
        },
{
    law_status_reports_what_there_is(routes, device, name, kind, profile, links);
}

} // verus!
