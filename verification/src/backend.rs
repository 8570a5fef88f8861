//! DNS switching via NetworkManager (`nmcli`) and cache flushing via systemd-resolved
//! (`resolvectl`), as plans: which command to run next, and what follows from its output.
//!
//! All changes target the connection that owns the default route, "the network this device is
//! actually using", so plugging into a different network or VPN doesn't silently get stale
//! settings.

use vstd::prelude::*;
use vstd::utf8::{decode_utf8, valid_utf8};

use crate::report;
use crate::report::{active_connection, forced_servers, foreign_owner, opt_texts, route_device};
use crate::text;
use crate::text::{joined, opt_text, result_text, texts, trimmed};

verus! {

/// The DNS state of the connection that owns the default route.
#[derive(Debug)]
pub struct DnsState {
    /// Network device carrying the default route (e.g. "enp5s0").
    pub device: String,
    /// NetworkManager connection profile active on that device.
    pub connection: String,
    /// DNS servers currently forced on the connection. `None` means the connection uses
    /// whatever DHCP / the router advertises.
    pub custom: Option<Vec<String>>,
    /// Set when some *other* link (typically a VPN) is answering the device's DNS queries right
    /// now, so changes here won't take effect until it disconnects. Holds that link's name.
    pub dns_owner: Option<String>,
    /// True when the default route itself belongs to a tunnel (full-tunnel VPN). DNS overrides
    /// are never migrated onto tunnels.
    pub tunnel: bool,
}

/// What a [`DnsState`] holds, as text.
pub struct StateView {
    pub device: Seq<char>,
    pub connection: Seq<char>,
    pub custom: Option<Seq<Seq<char>>>,
    pub dns_owner: Option<Seq<char>>,
    pub tunnel: bool,
}

impl View for DnsState {
    type V = StateView;

    open spec fn view(&self) -> StateView {
        StateView {
            device: self.device@,
            connection: self.connection@,
            custom: opt_texts(self.custom),
            dns_owner: opt_text(self.dns_owner),
            tunnel: self.tunnel,
        }
    }
}

/// A copy of an optional list of strings.
pub(crate) fn copy_opt_list(o: &Option<Vec<String>>) -> (res: Option<Vec<String>>)
    ensures
        opt_texts(res) == opt_texts(*o),
{
    match o {
        Some(list) => Some(list.clone()),
        None => None,
    }
}

/// A copy of an optional string.
pub(crate) fn copy_opt(o: &Option<String>) -> (res: Option<String>)
    ensures
        opt_text(res) == opt_text(*o),
{
    match o {
        Some(s) => Some(s.clone()),
        None => None,
    }
}

impl Clone for DnsState {
    fn clone(&self) -> (res: Self)
        ensures
            res@ == self@,
    {
        DnsState {
            device: self.device.clone(),
            connection: self.connection.clone(),
            custom: copy_opt_list(&self.custom),
            dns_owner: copy_opt(&self.dns_owner),
            tunnel: self.tunnel,
        }
    }
}

impl Default for DnsState {
    fn default() -> (res: Self)
        ensures
            res@ == (StateView {
                device: Seq::empty(),
                connection: Seq::empty(),
                custom: None,
                dns_owner: None,
                tunnel: false,
            }),
    {
        DnsState {
            device: String::new(),
            connection: String::new(),
            custom: None,
            dns_owner: None,
            tunnel: false,
        }
    }
}

/// A command to run: a program and its arguments.
#[derive(Debug)]
pub struct Command {
    pub program: String,
    pub args: Vec<String>,
}

/// What a [`Command`] holds, as text.
pub struct CommandView {
    pub program: Seq<char>,
    pub args: Seq<Seq<char>>,
}

impl View for Command {
    type V = CommandView;

    open spec fn view(&self) -> CommandView {
        CommandView { program: self.program@, args: texts(self.args@) }
    }
}

/// What a command came to: its standard output, or why it failed.
pub type Reply = Result<String, String>;

/// The error of a command that ran and did not succeed: what it printed, or else its name and
/// first argument.
pub open spec fn failure_text(command: CommandView, printed: Seq<char>) -> Seq<char> {
    let said = trimmed(printed);
    if said.len() > 0 {
        said
    } else {
        let what = if command.args.len() > 0 {
            command.args[0]
        } else {
            Seq::<char>::empty()
        };
        command.program + " "@ + what + " failed"@
    }
}

/// What bytes read as UTF-8, with U+FFFD for each sequence that is not valid.
pub uninterp spec fn lossy_text(bytes: Seq<u8>) -> Seq<char>;

/// Calls `String::from_utf8_lossy`, whose answer depends on the bytes alone and is named
/// [`lossy_text`]. Claimed of it besides: bytes that are valid UTF-8 give the characters that
/// they encode.
#[verifier::external_body]
fn from_utf8_lossy(bytes: &[u8]) -> (res: String)
    ensures
        res@ == lossy_text(bytes@),
        valid_utf8(bytes@) ==> res@ == decode_utf8(bytes@),
{
    String::from_utf8_lossy(bytes).into_owned()
}

/// The result of a command that ran, from the text that it printed.
pub fn command_result(command: &Command, success: bool, stdout: String, stderr: &str) -> (res:
    Reply)
    ensures
        match res {
            Ok(out) => success && out@ == stdout@,
            Err(e) => !success && e@ == failure_text(command@, stderr@),
        },
{
    if success {
        return Ok(stdout);
    }
    let said = text::trim(stderr);
    if !said.as_str().is_empty() {
        return Err(said);
    }
    let mut e = command.program.clone();
    e.append(" ");
    if command.args.len() > 0 {
        e.append(command.args[0].as_str());
    }
    e.append(" failed");
    Err(e)
}

/// The result of a command that ran, from the bytes that it printed.
pub fn finish_command(command: &Command, success: bool, stdout: &[u8], stderr: &[u8]) -> (res:
    Reply)
    ensures
        match res {
            Ok(out) => success && out@ == lossy_text(stdout@),
            Err(e) => !success && e@ == failure_text(command@, lossy_text(stderr@)),
        },
        match res {
            Ok(out) => valid_utf8(stdout@) ==> out@ == decode_utf8(stdout@),
            Err(e) => valid_utf8(stderr@) ==> e@ == failure_text(command@, decode_utf8(stderr@)),
        },
{
    let out = from_utf8_lossy(stdout);
    let err = from_utf8_lossy(stderr);
    command_result(command, success, out, err.as_str())
}

/// What is said of a command that did not start.
pub open spec fn start_failure_text(
    program: Seq<char>,
    missing: bool,
    reason: Seq<char>,
) -> Seq<char> {
    if missing {
        "`"@ + program + "` not found — is NetworkManager installed?"@
    } else {
        program + " failed to start: "@ + reason
    }
}

/// The error of a command that did not start, because its program is missing or for the
/// reason given.
pub fn start_failure(command: &Command, missing: bool, reason: &str) -> (res: String)
    ensures
        res@ == start_failure_text(command@.program, missing, reason@),
        res@ == if missing {
            "`"@ + command@.program + "` not found — is NetworkManager installed?"@
        } else {
            command@.program + " failed to start: "@ + reason@
        },
{
    if missing {
        let mut e = "`".to_string();
        e.append(command.program.as_str());
        e.append("` not found — is NetworkManager installed?");
        e
    } else {
        let mut e = command.program.clone();
        e.append(" failed to start: ");
        e.append(reason);
        e
    }
}

/// The command that reads the default route.
pub open spec fn route_command() -> CommandView {
    CommandView { program: "ip"@, args: seq!["route"@, "show"@, "default"@] }
}

/// The command that reads which connection is active on `device`.
pub open spec fn device_command(device: Seq<char>) -> CommandView {
    CommandView {
        program: "nmcli"@,
        args: seq!["-g"@, "GENERAL.CONNECTION,GENERAL.TYPE"@, "device"@, "show"@, device],
    }
}

/// The command that reads the DNS settings of a connection profile.
pub open spec fn profile_command(connection: Seq<char>) -> CommandView {
    CommandView {
        program: "nmcli"@,
        args: seq![
            "-g"@,
            "ipv4.dns,ipv4.ignore-auto-dns,ipv6.dns,ipv6.ignore-auto-dns"@,
            "connection"@,
            "show"@,
            connection,
        ],
    }
}

/// The command that reads which links answer DNS queries.
pub open spec fn resolver_command() -> CommandView {
    CommandView { program: "resolvectl"@, args: seq!["dns"@] }
}

/// The command that sets the DNS settings of a connection profile: the servers of either kind,
/// and whether to ignore those that the router advertises.
pub open spec fn modify_command(
    connection: Seq<char>,
    v4: Seq<char>,
    v6: Seq<char>,
    ignore: Seq<char>,
) -> CommandView {
    CommandView {
        program: "nmcli"@,
        args: seq![
            "connection"@,
            "modify"@,
            connection,
            "ipv4.dns"@,
            v4,
            "ipv4.ignore-auto-dns"@,
            ignore,
            "ipv6.dns"@,
            v6,
            "ipv6.ignore-auto-dns"@,
            ignore,
        ],
    }
}

/// The command that removes any DNS override from a connection profile.
pub open spec fn clear_command(connection: Seq<char>) -> CommandView {
    modify_command(connection, Seq::<char>::empty(), Seq::<char>::empty(), "no"@)
}

/// The servers of a list that are IPv6 addresses (`v6`), or those that are not, in order.
pub open spec fn of_kind(servers: Seq<Seq<char>>, v6: bool) -> Seq<Seq<char>> {
    servers.filter(|s: Seq<char>| s.contains(':') == v6)
}

/// The command that forces `servers` on a connection profile, IPv4 and IPv6 sorted into their
/// respective settings.
pub open spec fn force_command(connection: Seq<char>, servers: Seq<Seq<char>>) -> CommandView {
    modify_command(
        connection,
        joined(of_kind(servers, false), ","@),
        joined(of_kind(servers, true), ","@),
        "yes"@,
    )
}

/// The command that pushes a modified profile onto the live device.
pub open spec fn reapply_command(device: Seq<char>) -> CommandView {
    CommandView { program: "nmcli"@, args: seq!["device"@, "reapply"@, device] }
}

/// The command that re-activates a connection.
pub open spec fn activate_command(connection: Seq<char>) -> CommandView {
    CommandView { program: "nmcli"@, args: seq!["connection"@, "up"@, connection] }
}

/// The command that drops every cached lookup.
pub open spec fn flush_command() -> CommandView {
    CommandView { program: "resolvectl"@, args: seq!["flush-caches"@] }
}

/// The same under the tool's older name.
pub open spec fn old_flush_command() -> CommandView {
    CommandView { program: "systemd-resolve"@, args: seq!["--flush-caches"@] }
}

fn command(program: &str, args: &[&str]) -> (res: Command)
    ensures
        res@ == (CommandView { program: program@, args: args@.map_values(|a: &str| a@) }),
{
    let mut list: Vec<String> = Vec::new();
    let mut i: usize = 0;
    while i < args.len()
        invariant
            i <= args.len(),
            list.len() == i,
            forall|j: int| 0 <= j < i ==> (#[trigger] list@[j])@ == args@[j]@,
        decreases args.len() - i,
    {
        list.push(args[i].to_string());
        i += 1;
    }
    assert(texts(list@) =~= args@.map_values(|a: &str| a@));
    Command { program: program.to_string(), args: list }
}

fn modify(connection: &str, v4: &str, v6: &str, ignore: &str) -> (res: Command)
    ensures
        res@ == modify_command(connection@, v4@, v6@, ignore@),
{
    let res = command(
        "nmcli",
        &[
            "connection",
            "modify",
            connection,
            "ipv4.dns",
            v4,
            "ipv4.ignore-auto-dns",
            ignore,
            "ipv6.dns",
            v6,
            "ipv6.ignore-auto-dns",
            ignore,
        ],
    );
    assert(res@.args =~= modify_command(connection@, v4@, v6@, ignore@).args);
    res
}

fn clear(connection: &str) -> (res: Command)
    ensures
        res@ == clear_command(connection@),
{
    proof {
        reveal_strlit("");
        assert(""@ =~= Seq::<char>::empty());
    }
    modify(connection, "", "", "no")
}

/// The servers of a list that are IPv6 addresses, or those that are not.
fn select_kind(servers: &[String], v6: bool) -> (res: Vec<String>)
    ensures
        texts(res@) == of_kind(texts(servers@), v6),
{
    let ghost all = texts(servers@);
    let ghost kind = |s: Seq<char>| s.contains(':') == v6;
    let mut res: Vec<String> = Vec::new();
    let mut i: usize = 0;
    proof {
        reveal(Seq::filter);
        assert(texts(res@) =~= all.take(0).filter(kind));
    }
    while i < servers.len()
        invariant
            i <= servers.len(),
            all == texts(servers@),
            kind == (|s: Seq<char>| s.contains(':') == v6),
            texts(res@) == all.take(i as int).filter(kind),
        decreases servers.len() - i,
    {
        let ghost done = texts(res@);
        proof {
            reveal(Seq::filter);
            assert(all.take(i + 1).drop_last() == all.take(i as int));
        }
        if text::contains_char(servers[i].as_str(), ':') == v6 {
            res.push(servers[i].clone());
            assert(texts(res@) == done.push(all[i as int]));
        }
        i += 1;
    }
    assert(all.take(servers.len() as int) == all);
    res
}

fn force(connection: &str, servers: &[String]) -> (res: Command)
    ensures
        res@ == force_command(connection@, texts(servers@)),
{
    let v4 = text::join(select_kind(servers, false).as_slice(), ",");
    let v6 = text::join(select_kind(servers, true).as_slice(), ",");
    modify(connection, v4.as_str(), v6.as_str(), "yes")
}

/// A job of one purpose that reports only success or failure, at the command it waits for.
#[derive(Debug)]
pub enum Chore {
    /// Flushing the cache.
    Flush,
    /// Flushing the cache by the tool's older name; holds why the first try failed.
    OldFlush(String),
    /// Removing the DNS override from this connection profile.
    Clear(String),
}

/// What a [`Chore`] holds, as text.
pub enum ChoreView {
    Flush,
    OldFlush(Seq<char>),
    Clear(Seq<char>),
}

impl View for Chore {
    type V = ChoreView;

    open spec fn view(&self) -> ChoreView {
        match self {
            Chore::Flush => ChoreView::Flush,
            Chore::OldFlush(first) => ChoreView::OldFlush(first@),
            Chore::Clear(connection) => ChoreView::Clear(connection@),
        }
    }
}

/// Where a chore goes: on to the next command, or to its end.
#[derive(Debug)]
pub enum ChoreStep {
    Next(Chore),
    Done(Result<(), String>),
}

/// What a [`ChoreStep`] holds, as text.
pub enum ChoreStepView {
    Next(ChoreView),
    Done(Result<(), Seq<char>>),
}

impl View for ChoreStep {
    type V = ChoreStepView;

    open spec fn view(&self) -> ChoreStepView {
        match self {
            ChoreStep::Next(chore) => ChoreStepView::Next(chore@),
            ChoreStep::Done(Ok(_)) => ChoreStepView::Done(Ok(())),
            ChoreStep::Done(Err(e)) => ChoreStepView::Done(Err(e@)),
        }
    }
}

/// The command that a chore waits for.
pub open spec fn chore_command(chore: ChoreView) -> CommandView {
    match chore {
        ChoreView::Flush => flush_command(),
        ChoreView::OldFlush(_) => old_flush_command(),
        ChoreView::Clear(connection) => clear_command(connection),
    }
}

/// What follows from the reply to the command that a chore waits for.
pub open spec fn chore_step(
    chore: ChoreView,
    reply: Result<Seq<char>, Seq<char>>,
) -> ChoreStepView {
    match reply {
        Ok(_) => ChoreStepView::Done(Ok(())),
        Err(e) => match chore {
            ChoreView::Flush => ChoreStepView::Next(ChoreView::OldFlush(e)),
            ChoreView::OldFlush(first) => ChoreStepView::Done(
                Err("could not flush DNS cache: "@ + first),
            ),
            ChoreView::Clear(_) => ChoreStepView::Done(Err(e)),
        },
    }
}

impl Chore {
    /// The command to run next.
    pub fn command(&self) -> (res: Command)
        ensures
            res@ == chore_command(self@),
    {
        match self {
            Chore::Flush => {
                let res = command("resolvectl", &["flush-caches"]);
                assert(res@.args =~= flush_command().args);
                res
            },
            Chore::OldFlush(_) => {
                let res = command("systemd-resolve", &["--flush-caches"]);
                assert(res@.args =~= old_flush_command().args);
                res
            },
            Chore::Clear(connection) => clear(connection.as_str()),
        }
    }

    /// What follows from the reply to that command.
    pub fn step(self, reply: Reply) -> (res: ChoreStep)
        ensures
            res@ == chore_step(self@, result_text(reply)),
    {
        match reply {
            Ok(_) => ChoreStep::Done(Ok(())),
            Err(e) => match self {
                // Older name for the same tool, e.g. pre-24.04 systems.
                Chore::Flush => ChoreStep::Next(Chore::OldFlush(e)),
                Chore::OldFlush(first) => ChoreStep::Done(
                    Err("could not flush DNS cache: ".to_string().concat(first.as_str())),
                ),
                Chore::Clear(_) => ChoreStep::Done(Err(e)),
            },
        }
    }
}

/// Drop every cached lookup so the next resolution hits the new servers.
pub fn flush_cache() -> (chore: Chore)
    ensures
        chore@ == ChoreView::Flush,
{
    Chore::Flush
}

/// Remove any DNS override from a connection profile *without* touching the live device: used
/// to clean up the network we just left when the override moves to a new one (the profile may
/// well be inactive by then).
pub fn clear_profile(connection: &str) -> (chore: Chore)
    ensures
        chore@ == ChoreView::Clear(connection@),
{
    Chore::Clear(connection.to_string())
}

/// What to do with the connection that owns the default route.
#[derive(Debug)]
pub enum Goal {
    /// Read its DNS state.
    Read,
    /// Force these servers on it.
    Force(Vec<String>),
    /// Force these servers on it unless it is a tunnel.
    Follow(Vec<String>),
    /// Return it to the servers that the router advertises.
    Release,
}

/// What a [`Goal`] holds, as text.
pub enum GoalView {
    Read,
    Force(Seq<Seq<char>>),
    Follow(Seq<Seq<char>>),
    Release,
}

impl View for Goal {
    type V = GoalView;

    open spec fn view(&self) -> GoalView {
        match self {
            Goal::Read => GoalView::Read,
            Goal::Force(servers) => GoalView::Force(texts(servers@)),
            Goal::Follow(servers) => GoalView::Follow(texts(servers@)),
            Goal::Release => GoalView::Release,
        }
    }
}

/// A job that ends in the DNS state of the default-route connection, at the command it waits
/// for.
#[derive(Debug)]
pub enum Query {
    /// Reading the default route.
    FindRoute(Goal),
    /// Reading which connection is active on the device.
    FindConnection(Goal, String),
    /// Forcing these servers on the profile.
    Force { device: String, connection: String, servers: Vec<String> },
    /// Clearing the forced servers of the profile.
    Release { device: String, connection: String },
    /// Pushing the modified profile onto the live device.
    Reapply { device: String, connection: String },
    /// Re-activating the connection, where the device refused the profile.
    Activate { connection: String },
    /// Flushing the cache.
    Flush(Chore),
    /// Reading the DNS settings of the profile.
    ReadProfile { device: String, connection: String, tunnel: bool },
    /// Reading which links answer.
    ReadLinks { device: String, connection: String, tunnel: bool, custom: Option<Vec<String>> },
}

/// What a [`Query`] holds, as text.
pub enum QueryView {
    FindRoute(GoalView),
    FindConnection(GoalView, Seq<char>),
    Force { device: Seq<char>, connection: Seq<char>, servers: Seq<Seq<char>> },
    Release { device: Seq<char>, connection: Seq<char> },
    Reapply { device: Seq<char>, connection: Seq<char> },
    Activate { connection: Seq<char> },
    Flush(ChoreView),
    ReadProfile { device: Seq<char>, connection: Seq<char>, tunnel: bool },
    ReadLinks {
        device: Seq<char>,
        connection: Seq<char>,
        tunnel: bool,
        custom: Option<Seq<Seq<char>>>,
    },
}

impl View for Query {
    type V = QueryView;

    open spec fn view(&self) -> QueryView {
        match self {
            Query::FindRoute(goal) => QueryView::FindRoute(goal@),
            Query::FindConnection(goal, device) => QueryView::FindConnection(goal@, device@),
            Query::Force { device, connection, servers } => QueryView::Force {
                device: device@,
                connection: connection@,
                servers: texts(servers@),
            },
            Query::Release { device, connection } => QueryView::Release {
                device: device@,
                connection: connection@,
            },
            Query::Reapply { device, connection } => QueryView::Reapply {
                device: device@,
                connection: connection@,
            },
            Query::Activate { connection } => QueryView::Activate { connection: connection@ },
            Query::Flush(chore) => QueryView::Flush(chore@),
            Query::ReadProfile { device, connection, tunnel } => QueryView::ReadProfile {
                device: device@,
                connection: connection@,
                tunnel: *tunnel,
            },
            Query::ReadLinks { device, connection, tunnel, custom } => QueryView::ReadLinks {
                device: device@,
                connection: connection@,
                tunnel: *tunnel,
                custom: opt_texts(*custom),
            },
        }
    }
}

/// Where a query goes: on to the next command, or to its end.
#[derive(Debug)]
pub enum QueryStep {
    Next(Query),
    Done(Result<DnsState, String>),
}

/// What a [`QueryStep`] holds, as text.
pub enum QueryStepView {
    Next(QueryView),
    Done(Result<StateView, Seq<char>>),
}

/// A state or an error, as text.
pub open spec fn state_text(result: Result<DnsState, String>) -> Result<StateView, Seq<char>> {
    match result {
        Ok(state) => Ok(state@),
        Err(e) => Err(e@),
    }
}

impl View for QueryStep {
    type V = QueryStepView;

    open spec fn view(&self) -> QueryStepView {
        match self {
            QueryStep::Next(query) => QueryStepView::Next(query@),
            QueryStep::Done(result) => QueryStepView::Done(state_text(*result)),
        }
    }
}

/// The command that a query waits for.
pub open spec fn query_command(query: QueryView) -> CommandView {
    match query {
        QueryView::FindRoute(_) => route_command(),
        QueryView::FindConnection(_, device) => device_command(device),
        QueryView::Force { device, connection, servers } => force_command(connection, servers),
        QueryView::Release { device, connection } => clear_command(connection),
        QueryView::Reapply { device, connection } => reapply_command(device),
        QueryView::Activate { connection } => activate_command(connection),
        QueryView::Flush(chore) => chore_command(chore),
        QueryView::ReadProfile { device, connection, tunnel } => profile_command(connection),
        QueryView::ReadLinks { device, connection, tunnel, custom } => resolver_command(),
    }
}

/// What follows once the connection on `device` is known.
pub open spec fn after_connection(
    goal: GoalView,
    device: Seq<char>,
    connection: Seq<char>,
    tunnel: bool,
) -> QueryView {
    match goal {
        GoalView::Read => QueryView::ReadProfile { device, connection, tunnel },
        GoalView::Force(servers) => QueryView::Force { device, connection, servers },
        GoalView::Follow(servers) => if tunnel {
            QueryView::ReadProfile { device, connection, tunnel }
        } else {
            QueryView::Force { device, connection, servers }
        },
        GoalView::Release => QueryView::Release { device, connection },
    }
}

/// What follows from output of the command that a query waits for.
pub open spec fn query_step_ok(query: QueryView, out: Seq<char>) -> QueryStepView {
    match query {
        QueryView::FindRoute(goal) => match route_device(out) {
            Ok(device) => QueryStepView::Next(QueryView::FindConnection(goal, device)),
            Err(e) => QueryStepView::Done(Err(e)),
        },
        QueryView::FindConnection(goal, device) => match active_connection(device, out) {
            Ok((connection, tunnel)) => QueryStepView::Next(
                after_connection(goal, device, connection, tunnel),
            ),
            Err(e) => QueryStepView::Done(Err(e)),
        },
        QueryView::Force { device, connection, servers } => QueryStepView::Next(
            QueryView::Reapply { device, connection },
        ),
        QueryView::Release { device, connection } => QueryStepView::Next(
            QueryView::Reapply { device, connection },
        ),
        QueryView::Reapply { device, connection } => QueryStepView::Next(
            QueryView::Flush(ChoreView::Flush),
        ),
        QueryView::Activate { connection } => QueryStepView::Next(
            QueryView::Flush(ChoreView::Flush),
        ),
        QueryView::Flush(chore) => QueryStepView::Next(QueryView::FindRoute(GoalView::Read)),
        QueryView::ReadProfile { device, connection, tunnel } => QueryStepView::Next(
            QueryView::ReadLinks { device, connection, tunnel, custom: forced_servers(out) },
        ),
        QueryView::ReadLinks { device, connection, tunnel, custom } => QueryStepView::Done(
            Ok(
                StateView {
                    device,
                    connection,
                    custom,
                    dns_owner: foreign_owner(device, out),
                    tunnel,
                },
            ),
        ),
    }
}

/// What follows from a failure of the command that a query waits for. A device that refuses
/// the profile has its connection bounced, a cache that cannot be flushed fails nothing, and
/// without a resolver tool no other link is known to answer.
pub open spec fn query_step_err(query: QueryView, e: Seq<char>) -> QueryStepView {
    match query {
        QueryView::Reapply { device, connection } => QueryStepView::Next(
            QueryView::Activate { connection },
        ),
        QueryView::Flush(chore) => match chore_step(chore, Err(e)) {
            ChoreStepView::Next(next) => QueryStepView::Next(QueryView::Flush(next)),
            ChoreStepView::Done(_) => QueryStepView::Next(QueryView::FindRoute(GoalView::Read)),
        },
        QueryView::ReadLinks { device, connection, tunnel, custom } => QueryStepView::Done(
            Ok(StateView { device, connection, custom, dns_owner: None, tunnel }),
        ),
        _ => QueryStepView::Done(Err(e)),
    }
}

/// What follows from the reply to the command that a query waits for.
pub open spec fn query_step(
    query: QueryView,
    reply: Result<Seq<char>, Seq<char>>,
) -> QueryStepView {
    match reply {
        Ok(out) => query_step_ok(query, out),
        Err(e) => query_step_err(query, e),
    }
}

impl Query {
    /// The command to run next.
    pub fn command(&self) -> (res: Command)
        ensures
            res@ == query_command(self@),
    {
        match self {
            Query::FindRoute(_) => {
                let res = command("ip", &["route", "show", "default"]);
                assert(res@.args =~= route_command().args);
                res
            },
            Query::FindConnection(_, device) => {
                let res = command(
                    "nmcli",
                    &["-g", "GENERAL.CONNECTION,GENERAL.TYPE", "device", "show", device.as_str()],
                );
                assert(res@.args =~= device_command(device@).args);
                res
            },
            Query::Force { device: _, connection, servers } => force(
                connection.as_str(),
                servers.as_slice(),
            ),
            Query::Release { device: _, connection } => clear(connection.as_str()),
            Query::Reapply { device, connection: _ } => {
                let res = command("nmcli", &["device", "reapply", device.as_str()]);
                assert(res@.args =~= reapply_command(device@).args);
                res
            },
            Query::Activate { connection } => {
                let res = command("nmcli", &["connection", "up", connection.as_str()]);
                assert(res@.args =~= activate_command(connection@).args);
                res
            },
            Query::Flush(chore) => chore.command(),
            Query::ReadProfile { device: _, connection, tunnel: _ } => {
                let res = command(
                    "nmcli",
                    &[
                        "-g",
                        "ipv4.dns,ipv4.ignore-auto-dns,ipv6.dns,ipv6.ignore-auto-dns",
                        "connection",
                        "show",
                        connection.as_str(),
                    ],
                );
                assert(res@.args =~= profile_command(connection@).args);
                res
            },
            Query::ReadLinks { device: _, connection: _, tunnel: _, custom: _ } => {
                let res = command("resolvectl", &["dns"]);
                assert(res@.args =~= resolver_command().args);
                res
            },
        }
    }

    fn step_ok(self, out: &str) -> (res: QueryStep)
        ensures
            res@ == query_step_ok(self@, out@),
    {
        match self {
            Query::FindRoute(goal) => match report::default_route_device(out) {
                Ok(device) => QueryStep::Next(Query::FindConnection(goal, device)),
                Err(e) => QueryStep::Done(Err(e)),
            },
            Query::FindConnection(goal, device) => match report::connection_for(
                device.as_str(),
                out,
            ) {
                Ok((connection, tunnel)) => QueryStep::Next(
                    match goal {
                        Goal::Read => Query::ReadProfile { device, connection, tunnel },
                        Goal::Force(servers) => Query::Force { device, connection, servers },
                        Goal::Follow(servers) => if tunnel {
                            Query::ReadProfile { device, connection, tunnel }
                        } else {
                            Query::Force { device, connection, servers }
                        },
                        Goal::Release => Query::Release { device, connection },
                    },
                ),
                Err(e) => QueryStep::Done(Err(e)),
            },
            Query::Force { device, connection, servers: _ } => QueryStep::Next(
                Query::Reapply { device, connection },
            ),
            Query::Release { device, connection } => QueryStep::Next(
                Query::Reapply { device, connection },
            ),
            Query::Reapply { device: _, connection: _ } => QueryStep::Next(
                Query::Flush(flush_cache()),
            ),
            Query::Activate { connection: _ } => QueryStep::Next(Query::Flush(flush_cache())),
            Query::Flush(_) => QueryStep::Next(status()),
            Query::ReadProfile { device, connection, tunnel } => QueryStep::Next(
                Query::ReadLinks { device, connection, tunnel, custom: report::custom_servers(out) },
            ),
            Query::ReadLinks { device, connection, tunnel, custom } => {
                let dns_owner = report::dns_owner(device.as_str(), out);
                QueryStep::Done(Ok(DnsState { device, connection, custom, dns_owner, tunnel }))
            },
        }
    }

    fn step_err(self, e: String) -> (res: QueryStep)
        ensures
            res@ == query_step_err(self@, e@),
    {
        match self {
            Query::Reapply { device: _, connection } => QueryStep::Next(
                Query::Activate { connection },
            ),
            Query::Flush(chore) => match chore.step(Err(e)) {
                ChoreStep::Next(next) => QueryStep::Next(Query::Flush(next)),
                ChoreStep::Done(_) => QueryStep::Next(status()),
            },
            Query::ReadLinks { device, connection, tunnel, custom } => QueryStep::Done(
                Ok(DnsState { device, connection, custom, dns_owner: None, tunnel }),
            ),
            _ => QueryStep::Done(Err(e)),
        }
    }

    /// What follows from the reply to that command.
    pub fn step(self, reply: Reply) -> (res: QueryStep)
        ensures
            res@ == query_step(self@, result_text(reply)),
    {
        match reply {
            Ok(out) => self.step_ok(out.as_str()),
            Err(e) => self.step_err(e),
        }
    }
}

/// The job that reads the state.
pub open spec fn status_job() -> QueryView {
    QueryView::FindRoute(GoalView::Read)
}

/// The job that switches to servers.
pub open spec fn apply_job(servers: Seq<Seq<char>>) -> QueryView {
    QueryView::FindRoute(GoalView::Force(servers))
}

/// The job that moves an override with these servers to where the device is.
pub open spec fn follow_job(servers: Seq<Seq<char>>) -> QueryView {
    QueryView::FindRoute(GoalView::Follow(servers))
}

/// The job that returns to the router's servers.
pub open spec fn reset_job() -> QueryView {
    QueryView::FindRoute(GoalView::Release)
}

/// Read the current DNS state of the default-route connection.
pub fn status() -> (query: Query)
    ensures
        query@ == status_job(),
        query@ == QueryView::FindRoute(GoalView::Read),
{
    Query::FindRoute(Goal::Read)
}

/// Force `servers` as the connection's DNS, suppress the router-advertised servers, apply live,
/// and flush the cache; then read the resulting state.
pub fn apply(servers: &[String]) -> (query: Query)
    ensures
        query@ == apply_job(texts(servers@)),
        query@ == QueryView::FindRoute(GoalView::Force(texts(servers@))),
{
    Query::FindRoute(Goal::Force(text::copy_list(servers)))
}

/// Do the same for the network the device moved to, unless that is a tunnel: then only read
/// its state.
pub fn follow(servers: &[String]) -> (query: Query)
    ensures
        query@ == follow_job(texts(servers@)),
        query@ == QueryView::FindRoute(GoalView::Follow(texts(servers@))),
{
    Query::FindRoute(Goal::Follow(text::copy_list(servers)))
}

/// Clear the forced DNS and fall back to whatever the router/DHCP provides, apply live, and
/// flush the cache; then read the resulting state.
pub fn reset() -> (query: Query)
    ensures
        query@ == reset_job(),
        query@ == QueryView::FindRoute(GoalView::Release),
{
    Query::FindRoute(Goal::Release)
}

} // verus!
