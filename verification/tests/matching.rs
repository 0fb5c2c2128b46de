use network_switcher::config::{AppConfig, ConfigType, NetworkConfig};

fn config(name: &str, ssid: &str, mac: Option<&str>, auto: bool) -> NetworkConfig {
    NetworkConfig {
        name: name.to_string(),
        ssid: ssid.to_string(),
        config_type: ConfigType::Wifi,
        router_mac: mac.map(|m| m.to_string()),
        auto_apply: auto,
        target_service: None,
        use_dhcp: true,
        ip_address: None,
        subnet_mask: None,
        router: None,
        dns_servers: Vec::new(),
    }
}

#[test]
fn wildcard_empty_ssid_matches_anything() {
    let c = config("any", "", None, true);
    assert!(c.matches_network("HomeNet", Some("aa:bb:cc:dd:ee:ff")));
    assert!(c.matches_network("", None));
    assert!(c.matches_network("Other", None));
    let bound = config("any2", "", Some("aa:bb:cc:dd:ee:ff"), true);
    assert!(bound.matches_network("whatever", None));
}

#[test]
fn mac_bound_matches_iff_mac_equal_case_insensitive() {
    let c = config("home", "HomeNet", Some("aa:bb:cc:dd:ee:ff"), true);
    assert!(c.matches_network("HomeNet", Some("aa:bb:cc:dd:ee:ff")));
    assert!(c.matches_network("HomeNet", Some("AA:BB:CC:DD:EE:FF")));
    assert!(!c.matches_network("HomeNet", Some("aa:bb:cc:dd:ee:00")));
    assert!(!c.matches_network("HomeNet", None));
    assert!(!c.matches_network("OtherNet", Some("aa:bb:cc:dd:ee:ff")));
}

#[test]
fn ssid_only_config_ignores_probed_mac() {
    let c = config("plain", "Net", None, true);
    assert!(c.matches_network("Net", Some("11:22:33:44:55:66")));
    assert!(c.matches_network("Net", None));
    assert!(!c.matches_network("Net2", None));
}

#[test]
fn scenario_a_case_insensitive_mac_match() {
    let mut store = AppConfig::default();
    store.add_config(config("Home", "HomeNet", Some("aa:bb:cc:dd:ee:ff"), true));
    let found = store.find_auto_apply_config("HomeNet", Some("AA:BB:CC:DD:EE:FF"));
    assert_eq!(found.map(|c| c.name.as_str()), Some("Home"));
}

#[test]
fn scenario_b_fail_closed_on_absent_mac() {
    let mut store = AppConfig::default();
    store.add_config(config("Home", "HomeNet", Some("aa:bb:cc:dd:ee:ff"), true));
    assert!(store.find_auto_apply_config("HomeNet", None).is_none());
}

#[test]
fn scenario_c_legacy_config_matches_any_mac() {
    let mut store = AppConfig::default();
    store.add_config(config("Office", "OfficeNet", None, true));
    let found = store.find_auto_apply_config("OfficeNet", Some("11:22:33:44:55:66"));
    assert_eq!(found.map(|c| c.name.as_str()), Some("Office"));
}

#[test]
fn find_is_idempotent_on_unchanged_store() {
    let mut store = AppConfig::default();
    store.add_config(config("A", "NetA", None, true));
    store.add_config(config("B", "NetB", Some("aa:bb:cc:dd:ee:ff"), true));
    let first = store
        .find_auto_apply_config("NetB", Some("aa:bb:cc:dd:ee:ff"))
        .map(|c| c.name.clone());
    let second = store
        .find_auto_apply_config("NetB", Some("aa:bb:cc:dd:ee:ff"))
        .map(|c| c.name.clone());
    assert_eq!(first, second);
    assert_eq!(first, Some("B".to_string()));
}

#[test]
fn non_auto_apply_configs_never_selected() {
    let mut store = AppConfig::default();
    store.add_config(config("Manual", "Net", None, false));
    assert!(store.find_auto_apply_config("Net", None).is_none());
}

#[test]
fn first_pass_beats_legacy_fallback() {
    let mut store = AppConfig::default();
    // A MAC-bound config that cannot be verified right now, and a legacy
    // MAC-less config for the same SSID: the legacy pass picks the latter.
    store.add_config(config("Bound", "Net", Some("aa:bb:cc:dd:ee:ff"), true));
    store.add_config(config("Legacy", "Net", None, true));
    let no_mac = store.find_auto_apply_config("Net", None);
    assert_eq!(no_mac.map(|c| c.name.as_str()), Some("Legacy"));
    // With the right MAC probed, the strict pass already accepts the
    // bound config, which stands first.
    let with_mac = store.find_auto_apply_config("Net", Some("AA:BB:CC:DD:EE:FF"));
    assert_eq!(with_mac.map(|c| c.name.as_str()), Some("Bound"));
}

#[test]
fn wildcard_matches_in_first_pass_without_mac_check() {
    let mut store = AppConfig::default();
    // An empty SSID matches unconditionally in the strict pass: the MAC
    // binding is never consulted for a wildcard.
    store.add_config(config("W", "", Some("aa:bb:cc:dd:ee:ff"), true));
    let found = store.find_auto_apply_config("SomeNet", None);
    assert_eq!(found.map(|c| c.name.as_str()), Some("W"));
}

#[test]
fn store_add_replaces_by_name_and_remove_is_idempotent() {
    let mut store = AppConfig::default();
    store.add_config(config("A", "One", None, false));
    store.add_config(config("B", "Two", None, false));
    store.add_config(config("A", "Three", None, true));
    assert_eq!(store.configs.len(), 2);
    assert_eq!(store.configs[0].name, "A");
    assert_eq!(store.configs[0].ssid, "Three");
    assert_eq!(store.configs[1].name, "B");
    store.remove_config("A");
    assert_eq!(store.configs.len(), 1);
    store.remove_config("absent");
    assert_eq!(store.configs.len(), 1);
}

#[test]
fn empty_name_is_a_valid_degenerate_key() {
    let mut store = AppConfig::default();
    store.add_config(config("", "Net", None, false));
    assert_eq!(store.configs.len(), 1);
    store.add_config(config("", "Other", None, false));
    assert_eq!(store.configs.len(), 1);
    assert_eq!(store.configs[0].ssid, "Other");
    store.remove_config("");
    assert!(store.configs.is_empty());
}

#[test]
fn config_key_and_new_defaults() {
    let c = NetworkConfig::new(
        "Name".to_string(),
        "Ssid".to_string(),
        Some("Wi-Fi".to_string()),
        ConfigType::Service,
        Some("aa:bb".to_string()),
    );
    assert_eq!(c.config_key(), "Name");
    assert!(!c.auto_apply);
    assert!(c.use_dhcp);
    assert!(c.ip_address.is_none());
    assert!(c.dns_servers.is_empty());
    assert_eq!(c.config_type, ConfigType::Service);
}

#[test]
fn display_name_shows_mac_tail_and_ssid() {
    let c = config("Home", "HomeNet", Some("aa:bb:cc:dd:ee:ff"), true);
    let d = c.display_name();
    assert!(d.contains("Home"));
    assert!(d.contains("[HomeNet]"));
    assert!(d.contains("(dd:ee:ff)"));
    let plain = config("P", "Net", None, false);
    assert!(plain.display_name().contains("[Net]"));
    let bare = config("B", "", None, false);
    assert!(bare.display_name().contains("B"));
}
