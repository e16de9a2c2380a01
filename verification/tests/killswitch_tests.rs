use vpn_mobile::ip::{parse_address, IpAddress};
use vpn_mobile::killswitch::{
    Decision, Endpoint, FirewallRule, Flow, KillSwitch, KillSwitchConfig, KillSwitchMode,
    KillSwitchStatus,
};
use vpn_mobile::{ConnectionStatus, VpnError};

#[test]
fn test_kill_switch_enable_disable() {
    let config = KillSwitchConfig::default();
    let mut kill_switch = KillSwitch::new(config);

    assert!(!kill_switch.is_active());

    kill_switch.enable().unwrap();
    assert!(kill_switch.is_active());

    kill_switch.disable().unwrap();
    assert!(!kill_switch.is_active());
}

#[test]
fn test_kill_switch_configuration() {
    let config = KillSwitchConfig::default();
    let mut kill_switch = KillSwitch::new(config);

    kill_switch.add_allowed_ip("192.168.1.1".to_string());
    kill_switch.add_allowed_app("firefox".to_string());

    assert_eq!(kill_switch.get_config().allowed_ips.len(), 1);
    assert_eq!(kill_switch.get_config().allowed_apps.len(), 1);
}

fn flow(dst: &str, port: u16, app: &str, via_tunnel: bool) -> Flow {
    Flow { dst_ip: parse_address(dst).unwrap(), dst_port: port, app_id: app.to_string(), via_tunnel }
}

fn always_with_lan() -> KillSwitch {
    let mut k = KillSwitch::new(KillSwitchConfig {
        mode: KillSwitchMode::Always,
        allow_lan: true,
        allowed_ips: vec!["9.9.9.9".to_string()],
        allowed_apps: Vec::new(),
    });
    k.enable().unwrap();
    k
}

#[test]
fn always_mode_with_lan_allowed() {
    let k = always_with_lan();
    let s = ConnectionStatus::Disconnected;
    let d = k.decide(&flow("192.168.1.10", 443, "browser", false), &s, None);
    assert_eq!(d, Decision::LocalNetwork);
    assert!(d.is_allowed());
    let d = k.decide(&flow("8.8.8.8", 53, "browser", false), &s, None);
    assert_eq!(d, Decision::Denied);
    assert!(!d.is_allowed());
    let d = k.decide(&flow("9.9.9.9", 53, "browser", false), &s, None);
    assert_eq!(d, Decision::AllowedAddress);
    assert!(d.is_allowed());
}

#[test]
fn default_settings() {
    let c = KillSwitchConfig::default();
    assert_eq!(c.mode, KillSwitchMode::Automatic);
    assert!(c.allow_lan);
    assert!(c.allowed_ips.is_empty());
    assert!(c.allowed_apps.is_empty());
    let d = c.clone();
    assert_eq!(d.mode, KillSwitchMode::Automatic);
}

#[test]
fn kill_switch_enable_is_refused_when_disabled() {
    let mut k = KillSwitch::new(KillSwitchConfig {
        mode: KillSwitchMode::Disabled,
        allow_lan: true,
        allowed_ips: Vec::new(),
        allowed_apps: Vec::new(),
    });
    match k.enable() {
        Err(VpnError::ConfigError(m)) => {
            assert_eq!(m, "Kill switch is disabled in configuration")
        }
        other => panic!("unexpected: {:?}", other),
    }
    assert!(!k.is_active());
    assert_eq!(k.get_mode(), KillSwitchMode::Disabled);
}

#[test]
fn setting_mode_disabled_deactivates() {
    let mut k = always_with_lan();
    assert!(k.is_active());
    k.set_mode(KillSwitchMode::Automatic);
    assert!(k.is_active());
    assert_eq!(k.get_mode(), KillSwitchMode::Automatic);
    k.set_mode(KillSwitchMode::Disabled);
    assert!(!k.is_active());
    assert!(k.apply_firewall_rules().unwrap().is_empty());
}

#[test]
fn exceptions_are_tried_in_order() {
    let mut k = KillSwitch::new(KillSwitchConfig {
        mode: KillSwitchMode::Always,
        allow_lan: true,
        allowed_ips: vec!["10.1.0.0/16".to_string(), "127.0.0.1".to_string()],
        allowed_apps: vec!["mail".to_string()],
    });
    k.enable().unwrap();
    let s = ConnectionStatus::Connected;
    let server = Endpoint { addr: parse_address("203.0.113.7").unwrap(), port: 443 };
    let e = Some(server);
    assert_eq!(k.decide(&flow("127.0.0.1", 80, "mail", true), &s, e), Decision::Loopback);
    assert_eq!(k.decide(&flow("127.255.0.9", 80, "x", false), &s, e), Decision::Loopback);
    assert_eq!(k.decide(&flow("10.1.2.3", 80, "mail", true), &s, e), Decision::AllowedAddress);
    assert_eq!(k.decide(&flow("10.2.2.3", 80, "mail", true), &s, e), Decision::AllowedApp);
    assert_eq!(k.decide(&flow("10.2.2.3", 80, "x", true), &s, e), Decision::LocalNetwork);
    assert_eq!(k.decide(&flow("172.16.0.1", 80, "x", false), &s, e), Decision::LocalNetwork);
    assert_eq!(k.decide(&flow("172.32.0.1", 80, "x", false), &s, e), Decision::Denied);
    assert_eq!(k.decide(&flow("203.0.113.7", 443, "x", false), &s, e), Decision::TunnelEndpoint);
    assert_eq!(k.decide(&flow("203.0.113.7", 80, "x", false), &s, e), Decision::Denied);
    assert_eq!(k.decide(&flow("203.0.113.7", 443, "x", false), &s, None), Decision::Denied);
    assert_eq!(k.decide(&flow("8.8.8.8", 53, "x", true), &s, e), Decision::ViaTunnel);
    assert_eq!(k.decide(&flow("8.8.8.8", 53, "x", false), &s, e), Decision::Denied);
}

#[test]
fn tunnel_counts_only_while_connected() {
    let k = always_with_lan();
    let f = flow("8.8.8.8", 53, "x", true);
    assert_eq!(k.decide(&f, &ConnectionStatus::Connected, None), Decision::ViaTunnel);
    assert_eq!(k.decide(&f, &ConnectionStatus::Connecting, None), Decision::Denied);
    assert_eq!(k.decide(&f, &ConnectionStatus::Reconnecting, None), Decision::Denied);
    assert_eq!(k.decide(&f, &ConnectionStatus::Disconnecting, None), Decision::Denied);
    assert_eq!(k.decide(&f, &ConnectionStatus::Disconnected, None), Decision::Denied);
    assert_eq!(
        k.decide(&f, &ConnectionStatus::Error("down".to_string()), None),
        Decision::Denied
    );
}

#[test]
fn lan_exception_needs_permission() {
    let mut k = always_with_lan();
    k.allow_lan_traffic(false);
    let s = ConnectionStatus::Disconnected;
    assert_eq!(k.decide(&flow("192.168.1.10", 443, "x", false), &s, None), Decision::Denied);
    k.allow_lan_traffic(true);
    assert_eq!(
        k.decide(&flow("192.168.1.10", 443, "x", false), &s, None),
        Decision::LocalNetwork
    );
}

#[test]
fn private_ranges_of_both_families() {
    let k = always_with_lan();
    let s = ConnectionStatus::Disconnected;
    let v6 = |a: u128| Flow { dst_ip: IpAddress::V6(a), dst_port: 1, app_id: "x".to_string(), via_tunnel: false };
    assert_eq!(k.decide(&v6(0xfc00u128 << 112), &s, None), Decision::LocalNetwork);
    assert_eq!(k.decide(&v6(0xfdffu128 << 112), &s, None), Decision::LocalNetwork);
    assert_eq!(k.decide(&v6(0xfe00u128 << 112), &s, None), Decision::Denied);
    assert_eq!(k.decide(&v6(0xfbffu128 << 112), &s, None), Decision::Denied);
    assert_eq!(k.decide(&v6(1), &s, None), Decision::Loopback);
    assert_eq!(k.decide(&v6(2), &s, None), Decision::Denied);
}

#[test]
fn allowed_blocks_of_the_long_family() {
    let mut k = KillSwitch::new(KillSwitchConfig {
        mode: KillSwitchMode::Always,
        allow_lan: false,
        allowed_ips: vec!["2001:db8::/32".to_string(), "::ffff".to_string()],
        allowed_apps: Vec::new(),
    });
    k.enable().unwrap();
    let s = ConnectionStatus::Disconnected;
    assert_eq!(k.decide(&flow("2001:db8:1::5", 1, "x", false), &s, None), Decision::AllowedAddress);
    assert_eq!(k.decide(&flow("2001:db9::5", 1, "x", false), &s, None), Decision::Denied);
    assert_eq!(k.decide(&flow("::ffff", 1, "x", false), &s, None), Decision::AllowedAddress);
    assert_eq!(k.decide(&flow("fd00::1", 1, "x", false), &s, None), Decision::Denied);
    assert_eq!(k.decide(&flow("::1", 1, "x", false), &s, None), Decision::Loopback);
}

#[test]
fn automatic_mode_enforces_only_while_a_session_exists() {
    let mut k = KillSwitch::new(KillSwitchConfig::default());
    k.enable().unwrap();
    let f = flow("8.8.8.8", 53, "x", false);
    assert_eq!(k.decide(&f, &ConnectionStatus::Disconnected, None), Decision::Unenforced);
    assert_eq!(k.decide(&f, &ConnectionStatus::Connecting, None), Decision::Denied);
    assert_eq!(k.decide(&f, &ConnectionStatus::Connected, None), Decision::Denied);
    assert_eq!(k.decide(&f, &ConnectionStatus::Disconnecting, None), Decision::Denied);
    assert_eq!(k.decide(&f, &ConnectionStatus::Reconnecting, None), Decision::Denied);
    assert_eq!(
        k.decide(&f, &ConnectionStatus::Error("x".to_string()), None),
        Decision::Denied
    );
}

#[test]
fn inactive_switch_enforces_nothing() {
    let k = KillSwitch::new(KillSwitchConfig {
        mode: KillSwitchMode::Always,
        allow_lan: false,
        allowed_ips: Vec::new(),
        allowed_apps: Vec::new(),
    });
    let d = k.decide(&flow("8.8.8.8", 53, "x", false), &ConnectionStatus::Connected, None);
    assert_eq!(d, Decision::Unenforced);
    assert!(d.is_allowed());
}

#[test]
fn allowed_lists_are_value_sets() {
    let mut k = KillSwitch::new(KillSwitchConfig::default());
    k.add_allowed_ip("1.2.3.4".to_string());
    k.add_allowed_ip("1.2.3.4".to_string());
    k.add_allowed_ip("5.6.7.8".to_string());
    assert_eq!(k.get_config().allowed_ips, vec!["1.2.3.4", "5.6.7.8"]);
    k.remove_allowed_ip("1.2.3.4");
    assert_eq!(k.get_config().allowed_ips, vec!["5.6.7.8"]);
    k.remove_allowed_ip("9.9.9.9");
    assert_eq!(k.get_config().allowed_ips, vec!["5.6.7.8"]);
    k.add_allowed_app("a".to_string());
    k.add_allowed_app("a".to_string());
    assert_eq!(k.get_config().allowed_apps, vec!["a"]);
    k.remove_allowed_app("a");
    assert!(k.get_config().allowed_apps.is_empty());
    k.remove_allowed_app("a");
    assert!(k.get_config().allowed_apps.is_empty());
}

#[test]
fn removal_takes_every_repetition() {
    let mut k = KillSwitch::new(KillSwitchConfig {
        mode: KillSwitchMode::Always,
        allow_lan: true,
        allowed_ips: vec!["1.1.1.1".to_string(), "2.2.2.2".to_string(), "1.1.1.1".to_string()],
        allowed_apps: Vec::new(),
    });
    k.remove_allowed_ip("1.1.1.1");
    assert_eq!(k.get_config().allowed_ips, vec!["2.2.2.2"]);
}

#[test]
fn counters_count_since_enable() {
    let mut k = always_with_lan();
    let s = ConnectionStatus::Disconnected;
    assert_eq!(k.classify(&flow("8.8.8.8", 53, "x", false), &s, None), Decision::Denied);
    assert_eq!(k.classify(&flow("8.8.4.4", 53, "x", false), &s, None), Decision::Denied);
    assert_eq!(k.classify(&flow("9.9.9.9", 53, "x", false), &s, None), Decision::AllowedAddress);
    let t = k.test_kill_switch().unwrap();
    assert_eq!(
        t,
        KillSwitchStatus {
            is_working: true,
            leaks_detected: false,
            blocked_connections: 2,
            allowed_connections: 1
        }
    );
    k.disable().unwrap();
    assert_eq!(k.classify(&flow("8.8.8.8", 53, "x", false), &s, None), Decision::Unenforced);
    assert_eq!(k.test_kill_switch().unwrap().blocked_connections, 2);
    assert_eq!(k.test_kill_switch().unwrap().allowed_connections, 1);
    k.enable().unwrap();
    let t = k.test_kill_switch().unwrap();
    assert_eq!(t.blocked_connections, 0);
    assert_eq!(t.allowed_connections, 0);
}

#[test]
fn enable_then_disable_restores() {
    let mut k = KillSwitch::new(KillSwitchConfig {
        mode: KillSwitchMode::Always,
        allow_lan: true,
        allowed_ips: vec!["10.0.0.0/8".to_string(), "not an address".to_string()],
        allowed_apps: vec!["mail".to_string()],
    });
    assert!(k.apply_firewall_rules().unwrap().is_empty());
    k.enable().unwrap();
    let held = k.apply_firewall_rules().unwrap();
    assert_eq!(held.len(), 5);
    assert_eq!(held[0], FirewallRule::BlockAll);
    assert_eq!(held[1], FirewallRule::AllowTunnel);
    assert_eq!(held[2], FirewallRule::AllowLan);
    match held[3] {
        FirewallRule::AllowBlock(b) => {
            assert_eq!(b.base, parse_address("10.0.0.0").unwrap());
            assert_eq!(b.prefix_len, 8);
        }
        other => panic!("unexpected: {:?}", other),
    }
    assert_eq!(held[4], FirewallRule::AllowApp(0));
    k.disable().unwrap();
    assert!(!k.is_active());
    assert!(k.apply_firewall_rules().unwrap().is_empty());
    assert!(k.remove_firewall_rules().unwrap().is_empty());
    assert_eq!(k.get_config().allowed_ips.len(), 2);
    k.disable().unwrap();
    assert!(!k.is_active());
}

#[test]
fn status_summary() {
    let ok = KillSwitchStatus {
        is_working: true,
        leaks_detected: false,
        blocked_connections: 5,
        allowed_connections: 2,
    };
    assert_eq!(ok.summary(), "✓ Kill switch is working correctly. Blocked: 5, Allowed: 2");
    let big = KillSwitchStatus {
        is_working: true,
        leaks_detected: false,
        blocked_connections: u32::MAX,
        allowed_connections: 0,
    };
    assert_eq!(
        big.summary(),
        "✓ Kill switch is working correctly. Blocked: 4294967295, Allowed: 0"
    );
    let leaking = KillSwitchStatus { leaks_detected: true, ..ok };
    assert_eq!(leaking.summary(), "⚠ Kill switch may not be functioning properly");
    let broken = KillSwitchStatus { is_working: false, ..ok };
    assert_eq!(broken.summary(), "⚠ Kill switch may not be functioning properly");
}
