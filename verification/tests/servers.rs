use cosmic_applet_dns::servers::{
    accept_addresses, parse_addresses, preset_entries, same_servers, DnsEntry,
};

fn list(items: &[&str]) -> Vec<String> {
    items.iter().map(|s| s.to_string()).collect()
}

#[test]
fn presets_are_the_three_public_resolvers() {
    let entry = |name: &str, addresses: &[&str]| DnsEntry {
        name: name.to_string(),
        addresses: list(addresses),
    };
    assert_eq!(
        preset_entries(),
        vec![
            entry("Cloudflare", &["1.1.1.1", "1.0.0.1"]),
            entry("Google", &["8.8.8.8", "8.8.4.4"]),
            entry("Quad9", &["9.9.9.9", "149.112.112.112"]),
        ]
    );
}

#[test]
fn presets_are_addresses() {
    for e in preset_entries() {
        assert_eq!(parse_addresses(&e.addresses.join(", ")), Some(e.addresses));
    }
}

#[test]
fn order_of_servers_does_not_matter() {
    let a = list(&["1.1.1.1", "1.0.0.1"]);
    assert!(same_servers(&a, &list(&["1.0.0.1", "1.1.1.1"])));
    assert!(same_servers(&a, &a));
    assert!(same_servers(&[], &[]));
    assert!(!same_servers(&a, &list(&["1.0.0.1"])));
    assert!(!same_servers(&a, &list(&["1.0.0.1", "1.1.1.2"])));
}

#[test]
fn repeated_servers_count() {
    assert!(!same_servers(&list(&["a", "a", "b"]), &list(&["a", "b", "b"])));
    assert!(same_servers(&list(&["a", "b", "a"]), &list(&["b", "a", "a"])));
}

#[test]
fn addresses_are_split_and_checked() {
    assert_eq!(
        parse_addresses(" 1.1.1.1, 1.0.0.1;9.9.9.9 2606:4700:4700::1111 "),
        Some(list(&["1.1.1.1", "1.0.0.1", "9.9.9.9", "2606:4700:4700::1111"]))
    );
    assert_eq!(parse_addresses("::1"), Some(list(&["::1"])));
    assert_eq!(parse_addresses("::ffff:1.2.3.4"), Some(list(&["::ffff:1.2.3.4"])));
}

#[test]
fn anything_that_is_no_address_is_refused() {
    for input in ["", " ,; ", "1.1.1.1, one", "1.1.1", "256.1.1.1", "fe80::1%eth0", "1.1.1.1/24"] {
        assert_eq!(parse_addresses(input), None, "{:?}", input);
    }
}

#[test]
fn addresses_read_back_as_they_are_shown() {
    let all = list(&["1.1.1.1", "fe80::1", "::"]);
    assert_eq!(parse_addresses(&all.join(", ")), Some(all));
    let read = parse_addresses(" ::1;1.1.1.1 ,, 1.1.1.1").unwrap();
    assert_eq!(read, list(&["::1", "1.1.1.1", "1.1.1.1"]));
    assert_eq!(parse_addresses(&read.join(", ")), Some(read));
}

#[test]
fn one_failed_check_refuses_the_list() {
    let all = list(&["a", "b"]);
    assert_eq!(accept_addresses(all.clone(), &vec![true, true]), Some(all.clone()));
    assert_eq!(accept_addresses(all.clone(), &vec![true, false]), None);
    assert_eq!(accept_addresses(all, &vec![false, true]), None);
    assert_eq!(accept_addresses(vec![], &vec![]), None);
}
