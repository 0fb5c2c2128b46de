use network_switcher::config::{ConfigType, NetworkConfig};
use network_switcher::network::{apply_config, ActuatorStep};

fn base() -> NetworkConfig {
    NetworkConfig {
        name: "c".to_string(),
        ssid: String::new(),
        config_type: ConfigType::Wifi,
        router_mac: None,
        auto_apply: false,
        target_service: None,
        use_dhcp: true,
        ip_address: None,
        subnet_mask: None,
        router: None,
        dns_servers: Vec::new(),
    }
}

#[test]
fn dhcp_plan_is_dhcp_then_dns_clear() {
    let plan = apply_config("Wi-Fi", &base());
    assert_eq!(plan.service, "Wi-Fi");
    assert_eq!(plan.steps.len(), 2);
    assert_eq!(plan.steps[0], ActuatorStep::SetDhcp);
    assert_eq!(plan.steps[1], ActuatorStep::SetDnsServers { servers: Vec::new() });
}

#[test]
fn scenario_d_static_defaults_missing_ip() {
    let mut c = base();
    c.use_dhcp = false;
    c.ip_address = None;
    c.subnet_mask = Some("255.255.0.0".to_string());
    c.router = Some("10.0.0.1".to_string());
    let plan = apply_config("Ethernet", &c);
    assert_eq!(
        plan.steps[0],
        ActuatorStep::SetStatic {
            ip: "192.168.1.100".to_string(),
            mask: "255.255.0.0".to_string(),
            router: "10.0.0.1".to_string(),
        }
    );
}

#[test]
fn static_plan_defaults_all_missing_fields() {
    let mut c = base();
    c.use_dhcp = false;
    let plan = apply_config("Wi-Fi", &c);
    assert_eq!(
        plan.steps[0],
        ActuatorStep::SetStatic {
            ip: "192.168.1.100".to_string(),
            mask: "255.255.255.0".to_string(),
            router: "192.168.1.1".to_string(),
        }
    );
}

#[test]
fn dns_servers_carried_verbatim_in_order() {
    let mut c = base();
    c.dns_servers = vec!["8.8.8.8".to_string(), "1.1.1.1".to_string()];
    let plan = apply_config("Wi-Fi", &c);
    assert_eq!(
        plan.steps[1],
        ActuatorStep::SetDnsServers {
            servers: vec!["8.8.8.8".to_string(), "1.1.1.1".to_string()],
        }
    );
}

#[test]
fn static_plan_uses_populated_fields() {
    let mut c = base();
    c.use_dhcp = false;
    c.ip_address = Some("192.168.7.2".to_string());
    c.subnet_mask = Some("255.255.255.0".to_string());
    c.router = Some("192.168.7.1".to_string());
    let plan = apply_config("Ethernet", &c);
    assert_eq!(
        plan.steps[0],
        ActuatorStep::SetStatic {
            ip: "192.168.7.2".to_string(),
            mask: "255.255.255.0".to_string(),
            router: "192.168.7.1".to_string(),
        }
    );
}
