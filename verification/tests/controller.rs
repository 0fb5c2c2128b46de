use network_switcher::config::{AppConfig, ConfigType, NetworkConfig};
use network_switcher::controller::{NetworkState, NetworkSwitcherApp};
use network_switcher::network::NetworkIdentity;

fn auto_config(name: &str, ssid: &str, mac: Option<&str>) -> NetworkConfig {
    NetworkConfig {
        name: name.to_string(),
        ssid: ssid.to_string(),
        config_type: ConfigType::Wifi,
        router_mac: mac.map(|m| m.to_string()),
        auto_apply: true,
        target_service: Some("Wi-Fi".to_string()),
        use_dhcp: true,
        ip_address: None,
        subnet_mask: None,
        router: None,
        dns_servers: Vec::new(),
    }
}

fn store_with_home() -> AppConfig {
    let mut store = AppConfig::default();
    store.auto_switch = true;
    store.network_service = "Wi-Fi".to_string();
    store.add_config(auto_config("Home", "HomeNet", Some("aa:bb:cc:dd:ee:ff")));
    store
}

fn live() -> NetworkConfig {
    NetworkConfig {
        name: String::new(),
        ssid: String::new(),
        config_type: ConfigType::Wifi,
        router_mac: None,
        auto_apply: false,
        target_service: None,
        use_dhcp: true,
        ip_address: Some("192.168.1.23".to_string()),
        subnet_mask: None,
        router: None,
        dns_servers: Vec::new(),
    }
}

fn home_snapshot() -> NetworkState {
    let mut state = NetworkState::default();
    let identity = NetworkIdentity {
        ssid: Some("HomeNet".to_string()),
        router_mac: Some("AA:BB:CC:DD:EE:FF".to_string()),
        is_wired: false,
        service_name: None,
    };
    state.publish(identity, live());
    state
}

#[test]
fn scenario_e_changed_ssid_triggers_immediate_apply() {
    let mut app = NetworkSwitcherApp::new(store_with_home());
    let mut state = NetworkState::default();
    assert!(app.begin_refresh(&mut state));
    state = home_snapshot();
    // The cadence window has not elapsed, yet the changed SSID makes the
    // tick ask for an apply at once.
    let (apply, refresh) = app.check_and_auto_apply(&state, false);
    assert_eq!(apply.map(|c| c.name), Some("Home".to_string()));
    assert!(!refresh);
    assert_eq!(app.current_ssid, Some("HomeNet".to_string()));
}

#[test]
fn two_ticks_over_unchanged_snapshot_apply_at_most_once() {
    let mut app = NetworkSwitcherApp::new(store_with_home());
    let mut state = NetworkState::default();
    assert!(app.begin_refresh(&mut state));
    state = home_snapshot();
    let (first, _) = app.check_and_auto_apply(&state, false);
    assert!(first.is_some());
    // The second tick sees the same snapshot: no further apply request.
    let (second, _) = app.check_and_auto_apply(&state, false);
    assert!(second.is_none());
}

#[test]
fn successful_apply_is_recorded_and_suppressed() {
    let mut app = NetworkSwitcherApp::new(store_with_home());
    let mut state = NetworkState::default();
    assert!(app.begin_refresh(&mut state));
    state = home_snapshot();
    let (apply, _) = app.check_and_auto_apply(&state, false);
    let cfg = apply.expect("first tick applies");
    let plan = app.apply_config_internal(&cfg);
    assert_eq!(plan.service, "Wi-Fi");
    let refresh = app.record_apply_outcome(&cfg, plan.service.as_str(), None);
    assert!(refresh);
    assert_eq!(app.last_applied_key, Some("Home".to_string()));
    assert!(app.status_message.contains("Home"));
    // Even a fresh consumption of an identical snapshot no longer applies:
    // the match equals the last applied configuration.
    assert!(app.begin_refresh(&mut state));
    let state2 = home_snapshot();
    let (again, _) = app.check_and_auto_apply(&state2, false);
    assert!(again.is_none());
}

#[test]
fn failed_apply_keeps_marker_clear_and_reports() {
    let mut app = NetworkSwitcherApp::new(store_with_home());
    let cfg = auto_config("Home", "HomeNet", None);
    let refresh = app.record_apply_outcome(&cfg, "Wi-Fi", Some("exit status 1".to_string()));
    assert!(!refresh);
    assert!(app.last_applied_key.is_none());
    assert!(app.status_message.contains("exit status 1"));
}

#[test]
fn no_match_clears_last_applied_marker() {
    let mut store = store_with_home();
    store.auto_switch = true;
    let mut app = NetworkSwitcherApp::new(store);
    app.last_applied_key = Some("Home".to_string());
    let mut state = NetworkState::default();
    assert!(app.begin_refresh(&mut state));
    let identity = NetworkIdentity {
        ssid: Some("StrangeNet".to_string()),
        router_mac: None,
        is_wired: false,
        service_name: None,
    };
    state.publish(identity, live());
    let (apply, _) = app.check_and_auto_apply(&state, false);
    assert!(apply.is_none());
    assert!(app.last_applied_key.is_none());
}

#[test]
fn auto_switch_off_never_applies() {
    let mut store = store_with_home();
    store.auto_switch = false;
    let mut app = NetworkSwitcherApp::new(store);
    let mut state = NetworkState::default();
    assert!(app.begin_refresh(&mut state));
    state = home_snapshot();
    let (apply, _) = app.check_and_auto_apply(&state, false);
    assert!(apply.is_none());
}

#[test]
fn snapshot_not_consumed_without_outstanding_refresh() {
    let mut app = NetworkSwitcherApp::new(store_with_home());
    let state = home_snapshot();
    // No refresh outstanding: the snapshot is not consumed, nothing applies.
    let (apply, _) = app.check_and_auto_apply(&state, false);
    assert!(apply.is_none());
    assert!(app.current_ssid.is_none());
}

#[test]
fn at_most_one_refresh_outstanding() {
    let mut app = NetworkSwitcherApp::new(AppConfig::default());
    let mut state = NetworkState::default();
    assert!(app.begin_refresh(&mut state));
    assert!(state.is_loading);
    assert!(!app.begin_refresh(&mut state));
}

#[test]
fn wired_snapshot_is_labelled() {
    let mut state = NetworkState::default();
    let identity = NetworkIdentity {
        ssid: None,
        router_mac: Some("aa:bb:cc:dd:ee:ff".to_string()),
        is_wired: true,
        service_name: Some("Thunderbolt Ethernet".to_string()),
    };
    state.publish(identity, live());
    assert_eq!(state.ssid, Some("[wired] Thunderbolt Ethernet".to_string()));
    assert!(!state.is_loading);
}

#[test]
fn password_gate() {
    let mut app = NetworkSwitcherApp::new(AppConfig::default());
    app.password_input = "wrong".to_string();
    assert!(!app.verify_password());
    assert!(!app.is_authenticated);
    assert!(app.password_error);
    assert!(app.password_input.is_empty());
    app.password_input = "Legna".to_string();
    assert!(app.verify_password());
    assert!(app.is_authenticated);
    assert!(!app.password_error);
}
