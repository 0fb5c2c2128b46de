use network_switcher::network::{
    apply_config, get_current_config, get_current_ssid, get_dns_servers, get_network_identity,
    get_network_services, is_ethernet_service, parse_arp_mac, parse_hardware_ports, parse_info_ip,
    parse_router_ip, parse_ssid_ioreg, parse_ssid_networksetup, parse_ssid_system_profiler,
    split_lines,
};

#[test]
fn ioreg_line_yields_quoted_ssid() {
    let out = "    \"IO80211SSID\" = \"HomeNet\"\n";
    assert_eq!(parse_ssid_ioreg(out), Some("HomeNet".to_string()));
    assert_eq!(parse_ssid_ioreg("nothing here"), None);
    assert_eq!(parse_ssid_ioreg("\"IO80211SSID\" = \"\""), None);
}

#[test]
fn networksetup_ssid_parsing() {
    let out = "Current Wi-Fi Network: HomeNet\n";
    assert_eq!(parse_ssid_networksetup(out), Some("HomeNet".to_string()));
    assert_eq!(
        parse_ssid_networksetup("You are not associated with an AirPort network.\n"),
        None
    );
    assert_eq!(parse_ssid_networksetup("Current Wi-Fi Network:   \n"), None);
}

#[test]
fn system_profiler_ssid_parsing() {
    let out = "Wi-Fi:\n\n      Current Network Information:\n\n            HomeNet:\n\n              PHY Mode: 802.11ax\n";
    assert_eq!(parse_ssid_system_profiler(out), Some("HomeNet".to_string()));
    let other = "Wi-Fi:\n\n      Other Local Wi-Fi Networks:\n\n            Neighbour:\n";
    assert_eq!(parse_ssid_system_profiler(other), None);
}

#[test]
fn first_ssid_source_wins() {
    let ioreg = "\"IO80211SSID\" = \"FromIoreg\"";
    let ns = "Current Wi-Fi Network: FromNetworksetup";
    assert_eq!(
        get_current_ssid(Some(ioreg), Some(ns), None),
        Some("FromIoreg".to_string())
    );
    assert_eq!(
        get_current_ssid(Some("junk"), Some(ns), None),
        Some("FromNetworksetup".to_string())
    );
    assert_eq!(get_current_ssid(None, None, None), None);
}

#[test]
fn arp_and_router_ip_parsing() {
    assert_eq!(parse_router_ip("192.168.1.1\n"), Some("192.168.1.1".to_string()));
    assert_eq!(parse_router_ip("   \n"), None);
    let arp = "? (192.168.1.1) at aa:bb:cc:dd:ee:ff on en0 ifscope [ethernet]\n";
    assert_eq!(parse_arp_mac(arp), Some("aa:bb:cc:dd:ee:ff".to_string()));
    let incomplete = "? (192.168.1.1) at (incomplete) on en0 ifscope [ethernet]\n";
    assert_eq!(parse_arp_mac(incomplete), None);
    assert_eq!(parse_arp_mac("no markers"), None);
}

#[test]
fn arp_mac_is_normalized_to_lower_case() {
    let arp = "? (192.168.1.1) at AA:BB:CC:DD:EE:0F on en0 ifscope [ethernet]\n";
    assert_eq!(parse_arp_mac(arp), Some("aa:bb:cc:dd:ee:0f".to_string()));
}

#[test]
fn identity_prefers_wifi_over_wired() {
    let id = get_network_identity(
        Some("HomeNet".to_string()),
        Some("Ethernet".to_string()),
        Some("aa:bb".to_string()),
    );
    assert_eq!(id.ssid, Some("HomeNet".to_string()));
    assert!(!id.is_wired);
    assert_eq!(id.router_mac, Some("aa:bb".to_string()));
    assert_eq!(id.service_name, None);

    let wired = get_network_identity(None, Some("Ethernet".to_string()), Some("aa:bb".to_string()));
    assert!(wired.is_wired);
    assert_eq!(wired.service_name, Some("Ethernet".to_string()));

    let unknown = get_network_identity(None, None, Some("aa:bb".to_string()));
    assert!(unknown.ssid.is_none());
    assert!(unknown.router_mac.is_none());
    assert!(!unknown.is_wired);
}

#[test]
fn service_listing_skips_heading_and_disabled() {
    let out = "An asterisk (*) denotes that a network service is disabled.\nWi-Fi\n*Bluetooth PAN\nThunderbolt Bridge\n";
    let services = get_network_services(Some(out));
    assert_eq!(services, vec!["Wi-Fi".to_string(), "Thunderbolt Bridge".to_string()]);
    assert_eq!(get_network_services(None), vec!["Wi-Fi".to_string()]);
}

#[test]
fn hardware_ports_pairing() {
    let out = "Hardware Port: Wi-Fi\nDevice: en0\nEthernet Address: aa:bb:cc:dd:ee:ff\n\nHardware Port: Thunderbolt Ethernet\nDevice: en5\n";
    let ports = parse_hardware_ports(out);
    assert_eq!(
        ports,
        vec![
            ("Wi-Fi".to_string(), "en0".to_string()),
            ("Thunderbolt Ethernet".to_string(), "en5".to_string()),
        ]
    );
}

#[test]
fn ethernet_detection_heuristics() {
    assert!(is_ethernet_service("Thunderbolt Ethernet", "en5"));
    assert!(is_ethernet_service("USB 10/100/1000 LAN", "en7"));
    assert!(!is_ethernet_service("Wi-Fi", "en0"));
    assert!(!is_ethernet_service("Bluetooth PAN", "en4"));
    assert!(!is_ethernet_service("Thunderbolt Bridge", "bridge0"));
    assert!(is_ethernet_service("Weird Adapter", "en9"));
    assert!(!is_ethernet_service("Weird Adapter", "utun0"));
}

#[test]
fn info_ip_parsing() {
    let out = "DHCP Configuration\nIP address: 192.168.1.23\nSubnet mask: 255.255.255.0\n";
    assert_eq!(parse_info_ip(out), Some("192.168.1.23".to_string()));
    assert_eq!(parse_info_ip("IP address: none\n"), None);
    assert_eq!(parse_info_ip("Router: 1.2.3.4\n"), None);
}

#[test]
fn dns_servers_from_service_query() {
    let out = "8.8.8.8\n1.1.1.1\n";
    assert_eq!(
        get_dns_servers(Some(out), None),
        vec!["8.8.8.8".to_string(), "1.1.1.1".to_string()]
    );
    let none = "There aren't any DNS Servers set on Wi-Fi.\n";
    assert!(get_dns_servers(Some(none), None).is_empty());
}

#[test]
fn dns_servers_from_resolver_fall_back_dedup_and_vpn_filter() {
    let scutil = "resolver #1\n  nameserver[0] : 8.8.8.8\n  nameserver[1] : 198.18.0.1\n  nameserver[2] : 8.8.8.8\n  nameserver[3] : 9.9.9.9\n";
    let none = "There aren't any DNS Servers set on Wi-Fi.\n";
    assert_eq!(
        get_dns_servers(Some(none), Some(scutil)),
        vec!["8.8.8.8".to_string(), "9.9.9.9".to_string()]
    );
    assert!(get_dns_servers(None, None).is_empty());
}

#[test]
fn current_config_reads_fields_and_mode() {
    let info = "DHCP Configuration\nIP address: 192.168.1.23\nSubnet mask: 255.255.255.0\nRouter: 192.168.1.1\nClient ID:\n";
    let cfg = get_current_config(info, Some("8.8.8.8\n"), None);
    assert!(cfg.use_dhcp);
    assert_eq!(cfg.ip_address, Some("192.168.1.23".to_string()));
    assert_eq!(cfg.subnet_mask, Some("255.255.255.0".to_string()));
    assert_eq!(cfg.router, Some("192.168.1.1".to_string()));
    assert_eq!(cfg.dns_servers, vec!["8.8.8.8".to_string()]);
    assert!(cfg.name.is_empty());

    let manual = "Manual Configuration\nIP address: 10.0.0.2\n";
    let cfg2 = get_current_config(manual, None, None);
    assert!(!cfg2.use_dhcp);
    assert_eq!(cfg2.ip_address, Some("10.0.0.2".to_string()));
    assert_eq!(cfg2.subnet_mask, None);
}

#[test]
fn split_lines_matches_line_semantics() {
    assert_eq!(
        split_lines("a\nb\r\nc"),
        vec!["a".to_string(), "b".to_string(), "c".to_string()]
    );
    assert_eq!(split_lines("a\n"), vec!["a".to_string()]);
    assert_eq!(split_lines(""), Vec::<String>::new());
    assert_eq!(split_lines("\n"), vec![String::new()]);
}

#[test]
fn plan_for_parsed_live_config_keeps_mode() {
    let info = "Manual Configuration\nIP address: 10.0.0.2\nSubnet mask: 255.255.255.0\nRouter: 10.0.0.1\n";
    let cfg = get_current_config(info, None, None);
    let plan = apply_config("Ethernet", &cfg);
    assert_eq!(plan.service, "Ethernet");
    assert_eq!(plan.steps.len(), 2);
}
