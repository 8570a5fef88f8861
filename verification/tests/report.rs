use cosmic_applet_dns::report::{
    connection_for, custom_servers, default_route_device, dns_owner,
};

fn list(items: &[&str]) -> Vec<String> {
    items.iter().map(|s| s.to_string()).collect()
}

#[test]
fn default_route_names_its_device() {
    assert_eq!(
        default_route_device("default via 192.168.1.1 dev enp5s0 proto dhcp\n"),
        Ok("enp5s0".to_string())
    );
    assert_eq!(
        default_route_device("default via x dev\nunreachable\ndefault dev wlan0 dev eth0\n"),
        Ok("wlan0".to_string())
    );
    assert_eq!(default_route_device("dev dev x"), Ok("dev".to_string()));
}

#[test]
fn no_default_route_is_an_error() {
    let error = Err("no default route — is the network up?".to_string());
    assert_eq!(default_route_device(""), error);
    assert_eq!(default_route_device("default via 10.0.0.1\n dev "), error);
}

#[test]
fn connection_and_tunnel_are_read() {
    assert_eq!(
        connection_for("enp5s0", "Wired connection 1\nethernet\n"),
        Ok(("Wired connection 1".to_string(), false))
    );
    assert_eq!(connection_for("wg0", " a\\:b \n WireGuard \n"), Ok(("a:b".to_string(), true)));
    for kind in ["wireguard", "tun", "tap", "vpn", "ip-tunnel", "IP-Tunnel", "TUN"] {
        let out = format!("x\n{}\n", kind);
        assert_eq!(connection_for("d", &out), Ok(("x".to_string(), true)), "{}", kind);
    }
    assert_eq!(connection_for("d", "x"), Ok(("x".to_string(), false)));
    assert_eq!(connection_for("d", "x\ntunx"), Ok(("x".to_string(), false)));
}

#[test]
fn tunnel_types_compare_as_in_lower_case() {
    // No letter outside ASCII becomes a letter of these words in lower case.
    for code in 0x80..=0x10ffffu32 {
        if let Some(c) = char::from_u32(code) {
            let lower: String = c.to_lowercase().collect();
            for word in ["wireguard", "tun", "tap", "vpn", "ip-tunnel"] {
                assert!(!word.contains(lower.as_str()), "U+{:04X}", code);
            }
        }
    }
}

#[test]
fn no_connection_is_an_error() {
    let error = Err("no NetworkManager connection on enp5s0".to_string());
    assert_eq!(connection_for("enp5s0", ""), error);
    assert_eq!(connection_for("enp5s0", "--\nethernet\n"), error);
    assert_eq!(connection_for("enp5s0", "  \nethernet\n"), error);
}

#[test]
fn forced_servers_are_read() {
    assert_eq!(
        custom_servers("1.1.1.1,1.0.0.1\nyes\n2606\\:4700\\:\\:1111, \\:\\:1\nyes\n"),
        Some(list(&["1.1.1.1", "1.0.0.1", "2606:4700::1111", "::1"]))
    );
    assert_eq!(custom_servers("1.1.1.1\nno\n\nyes\n"), Some(list(&["1.1.1.1"])));
}

#[test]
fn router_default_forces_nothing() {
    assert_eq!(custom_servers(""), None);
    assert_eq!(custom_servers("\nno\n\nno\n"), None);
    assert_eq!(custom_servers("1.1.1.1\nno\n\nno\n"), None);
    assert_eq!(custom_servers(" , \nyes\n\nyes\n"), None);
}

#[test]
fn another_link_owns_dns() {
    let out = "Global:\nLink 4 (enp63s0):\nLink 5 (hk-office): 192.168.4.1\nLink 6 (x): 1.1.1.1\n";
    assert_eq!(dns_owner("enp63s0", out), Some("hk-office".to_string()));
    assert_eq!(dns_owner("hk-office", out), None);
    assert_eq!(dns_owner("enp63s0", "GLOBAL: 1.1.1.1\n"), None);
    assert_eq!(dns_owner("enp63s0", "no colon\n"), None);
    assert_eq!(dns_owner("enp63s0", ""), None);
}

#[test]
fn own_servers_mean_no_owner() {
    let out = "Link 5 (hk-office): 192.168.4.1\nLink 4 (enp63s0): 1.1.1.1\n";
    assert_eq!(dns_owner("enp63s0", out), None);
}

#[test]
fn a_head_without_brackets_is_the_name() {
    assert_eq!(dns_owner("eth0", " tun0 : 10.0.0.1"), Some("tun0".to_string()));
    assert_eq!(dns_owner("eth0", "Link (a) b: 10.0.0.1"), Some("Link (a) b".to_string()));
    assert_eq!(dns_owner("eth0", "a(: 1"), Some("a(".to_string()));
    assert_eq!(dns_owner("eth0", "a(): 1"), Some("".to_string()));
}

#[test]
fn servers_may_be_written_with_colons() {
    assert_eq!(dns_owner("eth0", "Link 2 (eth0): fe80::1"), None);
    assert_eq!(dns_owner("enp5s0", "Link 2 (enp5s0): 192.168.1.1 fe80::1\n"), None);
    let out = "Link 2 (enp5s0):\nLink 5 (wg0): fd00::1\n";
    assert_eq!(dns_owner("enp5s0", out), Some("wg0".to_string()));
    assert_eq!(dns_owner("enp5s0", "Global: 2001:db8::1\nLink 2 (enp5s0):\n"), None);
}

#[test]
fn brackets_may_stand_in_a_name() {
    let out = "Link 2 (enp5s0):\nLink 5 (a(b): 10.0.0.1\n";
    assert_eq!(dns_owner("enp5s0", out), Some("a(b".to_string()));
    assert_eq!(dns_owner("a(b", out), None);
    assert_eq!(dns_owner("enp5s0", "Link 5 (a)b): 10.0.0.1\n"), Some("a)b".to_string()));
}

#[test]
fn colons_may_stand_in_a_name() {
    assert_eq!(dns_owner("enp5s0", "Link 2 (a:b): 1.1.1.1\n"), Some("a:b".to_string()));
    assert_eq!(dns_owner("enp5s0", "Link 2 (a:b): fd00::1 ::1\n"), Some("a:b".to_string()));
    assert_eq!(dns_owner("enp5s0", "Link 2 (a):b): 1.1.1.1\n"), Some("a):b".to_string()));
    assert_eq!(dns_owner("a:b", "Link 2 (a:b): 1.1.1.1\n"), None);
    assert_eq!(dns_owner("enp5s0", "Link 2 (a:b):\n"), None);
    assert_eq!(dns_owner("enp5s0", "global: x): 1.1.1.1\n"), None);
}

#[test]
fn without_brackets_the_servers_follow_the_first_colon() {
    assert_eq!(dns_owner("eth0", "tun0: fe80::1\n"), Some("tun0".to_string()));
}

#[test]
fn a_link_may_be_called_global() {
    let out = "gLoBaL: 1.1.1.1\nLink 2 (enp5s0):\nLink 5 (global): 10.0.0.1\n";
    assert_eq!(dns_owner("enp5s0", out), Some("global".to_string()));
    assert_eq!(dns_owner("global", out), None);
    assert_eq!(dns_owner("Global", "Global: 1.1.1.1\nLink 3 (x): 1.1.1.1\n"), Some("x".to_string()));
}
