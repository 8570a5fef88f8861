use cosmic_applet_dns::backend::{
    apply, clear_profile, command_result, finish_command, flush_cache, follow, reset,
    start_failure, status, Chore, ChoreStep, Command, DnsState, Query, QueryStep, Reply,
};

fn list(items: &[&str]) -> Vec<String> {
    items.iter().map(|s| s.to_string()).collect()
}

fn shown(c: &Command) -> String {
    format!("{} {}", c.program, c.args.join(" "))
}

fn ok(s: &str) -> Reply {
    Ok(s.to_string())
}

fn err(s: &str) -> Reply {
    Err(s.to_string())
}

/// Gives a query its replies and returns the commands it ran and what it ended in.
fn run(mut query: Query, replies: Vec<Reply>) -> (Vec<String>, Result<DnsState, String>) {
    let mut ran = Vec::new();
    for reply in replies {
        ran.push(shown(&query.command()));
        match query.step(reply) {
            QueryStep::Next(next) => query = next,
            QueryStep::Done(result) => return (ran, result),
        }
    }
    panic!("not ended after {:?}, at {:?}", ran, query);
}

fn run_chore(mut chore: Chore, replies: Vec<Reply>) -> (Vec<String>, Result<(), String>) {
    let mut ran = Vec::new();
    for reply in replies {
        ran.push(shown(&chore.command()));
        match chore.step(reply) {
            ChoreStep::Next(next) => chore = next,
            ChoreStep::Done(result) => return (ran, result),
        }
    }
    panic!("not ended after {:?}", ran);
}

const ROUTE: &str = "default via 192.168.1.1 dev enp5s0 proto dhcp\n";
const WIRED: &str = "Wired\nethernet\n";
const READ_PROFILE: &str =
    "nmcli -g ipv4.dns,ipv4.ignore-auto-dns,ipv6.dns,ipv6.ignore-auto-dns connection show Wired";
const READ_DEVICE: &str = "nmcli -g GENERAL.CONNECTION,GENERAL.TYPE device show enp5s0";

#[test]
fn status_reads_the_default_route() {
    let (ran, result) = run(
        status(),
        vec![
            ok(ROUTE),
            ok(WIRED),
            ok("1.1.1.1\nyes\n\\:\\:1\nyes\n"),
            ok("Link 5 (wg0): 10.0.0.1\n"),
        ],
    );
    assert_eq!(ran, vec!["ip route show default", READ_DEVICE, READ_PROFILE, "resolvectl dns"]);
    let state = result.unwrap();
    assert_eq!(state.device, "enp5s0");
    assert_eq!(state.connection, "Wired");
    assert_eq!(state.custom, Some(list(&["1.1.1.1", "::1"])));
    assert_eq!(state.dns_owner, Some("wg0".to_string()));
    assert!(!state.tunnel);
}

#[test]
fn status_does_without_a_resolver_tool() {
    let (_, result) = run(
        status(),
        vec![ok(ROUTE), ok("Office\nwireguard\n"), ok("\nno\n\nno\n"), err("not found")],
    );
    let state = result.unwrap();
    assert_eq!(state.custom, None);
    assert_eq!(state.dns_owner, None);
    assert!(state.tunnel);
}

#[test]
fn status_reports_what_failed() {
    assert_eq!(run(status(), vec![err("boom")]).1.unwrap_err(), "boom");
    assert_eq!(
        run(status(), vec![ok("")]).1.unwrap_err(),
        "no default route — is the network up?"
    );
    assert_eq!(run(status(), vec![ok(ROUTE), err("boom")]).1.unwrap_err(), "boom");
    assert_eq!(
        run(status(), vec![ok(ROUTE), ok("--\n")]).1.unwrap_err(),
        "no NetworkManager connection on enp5s0"
    );
    assert_eq!(run(status(), vec![ok(ROUTE), ok(WIRED), err("boom")]).1.unwrap_err(), "boom");
}

#[test]
fn apply_forces_reapplies_flushes_and_reads() {
    let (ran, result) = run(
        apply(&list(&["1.1.1.1", "2606:4700:4700::1111", "1.0.0.1"])),
        vec![
            ok(ROUTE),
            ok(WIRED),
            ok(""),
            ok(""),
            ok(""),
            ok(ROUTE),
            ok(WIRED),
            ok("1.1.1.1,1.0.0.1\nyes\n2606\\:4700\\:4700\\:\\:1111\nyes\n"),
            ok("Link 2 (enp5s0): 1.1.1.1\n"),
        ],
    );
    assert_eq!(
        ran,
        vec![
            "ip route show default",
            READ_DEVICE,
            "nmcli connection modify Wired ipv4.dns 1.1.1.1,1.0.0.1 ipv4.ignore-auto-dns yes \
             ipv6.dns 2606:4700:4700::1111 ipv6.ignore-auto-dns yes",
            "nmcli device reapply enp5s0",
            "resolvectl flush-caches",
            "ip route show default",
            READ_DEVICE,
            READ_PROFILE,
            "resolvectl dns",
        ]
    );
    assert_eq!(
        result.unwrap().custom,
        Some(list(&["1.1.1.1", "1.0.0.1", "2606:4700:4700::1111"]))
    );
}

#[test]
fn refused_reapply_bounces_the_connection() {
    let (ran, result) = run(
        apply(&list(&["9.9.9.9"])),
        vec![ok(ROUTE), ok(WIRED), ok(""), err("refused"), err("no secrets")],
    );
    assert_eq!(ran[4], "nmcli connection up Wired");
    assert_eq!(result.unwrap_err(), "no secrets");
}

#[test]
fn a_failed_flush_fails_no_switch() {
    let (ran, result) = run(
        reset(),
        vec![
            ok(ROUTE),
            ok(WIRED),
            ok(""),
            err("refused"),
            ok(""),
            err("no resolvectl"),
            err("no systemd-resolve"),
            ok(ROUTE),
            ok(WIRED),
            ok("\nno\n\nno\n"),
            ok(""),
        ],
    );
    assert_eq!(
        ran[2..7],
        [
            "nmcli connection modify Wired ipv4.dns  ipv4.ignore-auto-dns no ipv6.dns  \
             ipv6.ignore-auto-dns no",
            "nmcli device reapply enp5s0",
            "nmcli connection up Wired",
            "resolvectl flush-caches",
            "systemd-resolve --flush-caches",
        ]
    );
    assert_eq!(result.unwrap().custom, None);
}

#[test]
fn a_failed_modification_ends_the_switch() {
    let (ran, result) = run(apply(&[]), vec![ok(ROUTE), ok(WIRED), err("denied")]);
    assert_eq!(ran.len(), 3);
    assert_eq!(result.unwrap_err(), "denied");
}

#[test]
fn following_spares_a_tunnel() {
    let (ran, result) = run(
        follow(&list(&["9.9.9.9"])),
        vec![ok(ROUTE), ok("Wired\ntun\n"), ok("\nno\n\nno\n"), ok("")],
    );
    assert_eq!(ran, vec!["ip route show default", READ_DEVICE, READ_PROFILE, "resolvectl dns"]);
    assert!(result.unwrap().tunnel);
}

#[test]
fn following_switches_any_other_network() {
    let (ran, _) = run(
        follow(&list(&["9.9.9.9"])),
        vec![ok(ROUTE), ok(WIRED), ok(""), ok(""), ok(""), err("x")],
    );
    assert_eq!(
        ran[2],
        "nmcli connection modify Wired ipv4.dns 9.9.9.9 ipv4.ignore-auto-dns yes ipv6.dns  \
         ipv6.ignore-auto-dns yes"
    );
    assert_eq!(ran[4], "resolvectl flush-caches");
}

#[test]
fn flush_falls_back_to_the_older_tool() {
    assert_eq!(
        run_chore(flush_cache(), vec![ok("")]),
        (list(&["resolvectl flush-caches"]), Ok(()))
    );
    assert_eq!(
        run_chore(flush_cache(), vec![err("a"), ok("")]),
        (list(&["resolvectl flush-caches", "systemd-resolve --flush-caches"]), Ok(()))
    );
    assert_eq!(
        run_chore(flush_cache(), vec![err("a"), err("b")]).1,
        Err("could not flush DNS cache: a".to_string())
    );
}

#[test]
fn clearing_a_profile_touches_no_device() {
    let cleared = list(&["nmcli connection modify Home ipv4.dns  ipv4.ignore-auto-dns no \
         ipv6.dns  ipv6.ignore-auto-dns no"]);
    assert_eq!(run_chore(clear_profile("Home"), vec![ok("")]), (cleared.clone(), Ok(())));
    assert_eq!(
        run_chore(clear_profile("Home"), vec![err("unknown")]),
        (cleared, Err("unknown".to_string()))
    );
}

#[test]
fn commands_report_what_they_printed() {
    let c = clear_profile("Home").command();
    assert_eq!(finish_command(&c, true, b"out\n", b"err"), ok("out\n"));
    assert_eq!(finish_command(&c, false, b"out", b" bad \n"), err("bad"));
    assert_eq!(finish_command(&c, false, b"out", b" \n"), err("nmcli connection failed"));
    assert_eq!(command_result(&c, true, "x".to_string(), "y"), ok("x"));
    assert_eq!(command_result(&c, false, "x".to_string(), "y"), err("y"));
    let bare = Command { program: "ip".to_string(), args: vec![] };
    assert_eq!(command_result(&bare, false, "x".to_string(), ""), err("ip  failed"));
}

#[test]
fn output_is_read_as_utf8() {
    let c = status().command();
    assert_eq!(finish_command(&c, true, "Büro".as_bytes(), b""), ok("Büro"));
    assert_eq!(finish_command(&c, true, b"a\xffb", b""), ok("a\u{fffd}b"));
    assert_eq!(finish_command(&c, false, b"", b"\xe2\x80"), err("\u{fffd}"));
}

#[test]
fn commands_that_do_not_start_say_why() {
    let c = status().command();
    assert_eq!(start_failure(&c, true, "x"), "`ip` not found — is NetworkManager installed?");
    assert_eq!(start_failure(&c, false, "denied"), "ip failed to start: denied");
}

#[test]
fn an_empty_state_is_the_default() {
    let state = DnsState::default();
    assert_eq!((state.device.as_str(), state.connection.as_str()), ("", ""));
    assert_eq!((state.custom, state.dns_owner, state.tunnel), (None, None, false));
}
