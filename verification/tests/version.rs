use cosmic_applet_dns::version::is_newer;

#[test]
fn versions_compare_number_by_number() {
    assert!(is_newer("v0.2.0", "0.1.0"));
    assert!(is_newer("v0.10.0", "0.9.9"));
    assert!(is_newer("1.0", "0.99.99"));
    assert!(is_newer("v0.1.0.1", "0.1.0"));
    assert!(!is_newer("v0.1.0", "0.1.0"));
    assert!(!is_newer("v0.1", "0.1.0"));
    assert!(!is_newer("v0.1.0", "0.1.1"));
    assert!(!is_newer("v0.1.9", "0.2.0"));
}

#[test]
fn what_is_no_number_counts_as_nought() {
    assert!(!is_newer("", "0.0.0"));
    assert!(!is_newer("nightly", "0.1.0"));
    assert!(!is_newer("v1.0.0-beta", "1.0.0"));
    assert!(is_newer("v99999999999999999999999", "18446744073709551614"));
    assert!(!is_newer("v99999999999999999999999", "18446744073709551615"));
}
