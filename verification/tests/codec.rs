use network_switcher::codec::{decode_document, encode_document, load_document};
use network_switcher::config::{AppConfig, ConfigType, NetworkConfig};

fn sample_store() -> AppConfig {
    let mut store = AppConfig::default();
    store.auto_switch = true;
    store.network_service = "Wi-Fi".to_string();
    // A config with automatic DNS.
    store.add_config(NetworkConfig {
        name: "Home".to_string(),
        ssid: "HomeNet".to_string(),
        config_type: ConfigType::Wifi,
        router_mac: Some("aa:bb:cc:dd:ee:ff".to_string()),
        auto_apply: true,
        target_service: Some("Wi-Fi".to_string()),
        use_dhcp: true,
        ip_address: None,
        subnet_mask: None,
        router: None,
        dns_servers: Vec::new(),
    });
    // A config without a MAC binding.
    store.add_config(NetworkConfig {
        name: "Office".to_string(),
        ssid: "OfficeNet".to_string(),
        config_type: ConfigType::Wifi,
        router_mac: None,
        auto_apply: true,
        target_service: None,
        use_dhcp: true,
        ip_address: None,
        subnet_mask: None,
        router: None,
        dns_servers: vec!["10.0.0.53".to_string()],
    });
    // A static config with every field populated.
    store.add_config(NetworkConfig {
        name: "Lab".to_string(),
        ssid: "LabNet".to_string(),
        config_type: ConfigType::Service,
        router_mac: Some("01:02:03:04:05:06".to_string()),
        auto_apply: false,
        target_service: Some("Ethernet".to_string()),
        use_dhcp: false,
        ip_address: Some("192.168.9.20".to_string()),
        subnet_mask: Some("255.255.255.0".to_string()),
        router: Some("192.168.9.1".to_string()),
        dns_servers: vec!["192.168.9.1".to_string(), "8.8.4.4".to_string()],
    });
    store
}

#[test]
fn document_round_trips_losslessly() {
    let store = sample_store();
    let bytes = encode_document(&store);
    let decoded = decode_document(&bytes).expect("a saved document must load");
    assert_eq!(decoded, store);
}

#[test]
fn empty_store_round_trips() {
    let store = AppConfig::default();
    let bytes = encode_document(&store);
    assert_eq!(decode_document(&bytes), Some(AppConfig::default()));
}

#[test]
fn unicode_strings_round_trip() {
    let mut store = AppConfig::default();
    store.network_service = "Wi-Fi".to_string();
    store.add_config(NetworkConfig {
        name: "caf\u{e9}".to_string(),
        ssid: "r\u{e9}seau \u{1F4F6}".to_string(),
        config_type: ConfigType::Wifi,
        router_mac: None,
        auto_apply: false,
        target_service: None,
        use_dhcp: true,
        ip_address: None,
        subnet_mask: None,
        router: None,
        dns_servers: Vec::new(),
    });
    let bytes = encode_document(&store);
    assert_eq!(decode_document(&bytes), Some(store));
}

#[test]
fn truncated_document_is_rejected() {
    let store = sample_store();
    let mut bytes = encode_document(&store);
    bytes.pop();
    assert!(decode_document(&bytes).is_none());
}

#[test]
fn trailing_garbage_is_rejected() {
    let store = sample_store();
    let mut bytes = encode_document(&store);
    bytes.push(0);
    assert!(decode_document(&bytes).is_none());
}

#[test]
fn corrupt_document_falls_back_to_default_store() {
    let garbage = vec![7u8, 99, 2, 250];
    let store = load_document(&garbage);
    assert_eq!(store, AppConfig::default());
    let empty: Vec<u8> = Vec::new();
    assert_eq!(load_document(&empty), AppConfig::default());
}

#[test]
fn loading_a_saved_document_restores_the_store() {
    let store = sample_store();
    let bytes = encode_document(&store);
    assert_eq!(load_document(&bytes), store);
}
