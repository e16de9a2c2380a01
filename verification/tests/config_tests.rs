use vpn_mobile::config::{ConfigFault, SubscriptionTier, UserProfile, VpnConfig};
use vpn_mobile::dns::DnsMode;
use vpn_mobile::killswitch::KillSwitchMode;
use vpn_mobile::protocol::VpnProtocol;
use vpn_mobile::split_tunnel::SplitTunnelMode;

#[test]
fn test_default_config() {
    let config = VpnConfig::default();
    assert!(config.validate().is_ok());
}

#[test]
fn config_test_preset_configs() {
    let max_security = VpnConfig::preset_maximum_security();
    assert!(max_security.validate().is_ok());
    assert!(max_security.block_malware);

    let streaming = VpnConfig::preset_streaming();
    assert!(streaming.validate().is_ok());

    let torrenting = VpnConfig::preset_torrenting();
    assert!(torrenting.validate().is_ok());
}

#[test]
fn test_config_validation() {
    let mut config = VpnConfig::default();
    config.connect_timeout = 2;
    assert!(config.validate().is_err());

    config.connect_timeout = 30;
    config.mtu = 1000;
    assert!(config.validate().is_err());
}

#[test]
fn default_config_fields() {
    let c = VpnConfig::default();
    assert!(!c.auto_connect);
    assert!(c.auto_connect_server.is_none());
    assert!(!c.start_on_boot);
    assert!(c.minimize_to_tray);
    assert_eq!(c.protocol_config.protocol, VpnProtocol::WireGuard);
    assert_eq!(c.protocol_config.port, 51820);
    assert_eq!(c.kill_switch.mode, KillSwitchMode::Automatic);
    assert!(c.kill_switch.allow_lan);
    assert!(matches!(c.dns_mode, DnsMode::Auto));
    assert_eq!(c.split_tunnel.mode, SplitTunnelMode::Disabled);
    assert_eq!(c.mtu, 1420);
    assert_eq!(c.connect_timeout, 30);
    assert!(c.reconnect_on_disconnect);
    assert_eq!(c.reconnect_attempts, 3);
    assert!(!c.block_trackers);
    assert!(!c.block_ads);
    assert!(c.block_malware);
    assert!(c.show_notifications);
    assert!(!c.notify_on_ip_change);
}

#[test]
fn connect_timeout_boundary() {
    let mut c = VpnConfig::default();
    c.connect_timeout = 5;
    assert!(c.validate().is_ok());
    c.connect_timeout = 4;
    assert_eq!(
        c.validate(),
        Err("Connect timeout must be at least 5 seconds".to_string())
    );
    assert_eq!(c.check(), Some(ConfigFault::TimeoutTooShort));
}

#[test]
fn mtu_boundary() {
    let mut c = VpnConfig::default();
    c.mtu = 1280;
    assert!(c.validate().is_ok());
    c.mtu = 1500;
    assert!(c.validate().is_ok());
    c.mtu = 1279;
    assert_eq!(c.validate(), Err("MTU must be between 1280 and 1500".to_string()));
    c.mtu = 1501;
    assert_eq!(c.validate(), Err("MTU must be between 1280 and 1500".to_string()));
    assert_eq!(c.check(), Some(ConfigFault::MtuOutOfRange));
}

#[test]
fn reconnect_attempts_boundary() {
    let mut c = VpnConfig::default();
    c.reconnect_attempts = 10;
    assert!(c.validate().is_ok());
    c.reconnect_attempts = 11;
    assert_eq!(c.validate(), Err("Reconnect attempts cannot exceed 10".to_string()));
    assert_eq!(c.check(), Some(ConfigFault::TooManyAttempts));
}

#[test]
fn first_broken_rule_is_reported() {
    let mut c = VpnConfig::default();
    c.connect_timeout = 0;
    c.reconnect_attempts = 99;
    c.mtu = 9000;
    assert_eq!(c.check(), Some(ConfigFault::TimeoutTooShort));
    c.connect_timeout = 30;
    assert_eq!(c.check(), Some(ConfigFault::TooManyAttempts));
    c.reconnect_attempts = 3;
    assert_eq!(c.check(), Some(ConfigFault::MtuOutOfRange));
}

#[test]
fn preset_maximum_security_fields() {
    let c = VpnConfig::preset_maximum_security();
    assert_eq!(c.protocol_config.protocol, VpnProtocol::WireGuard);
    assert!(c.protocol_config.obfuscation);
    assert_eq!(c.kill_switch.mode, KillSwitchMode::Always);
    assert!(!c.kill_switch.allow_lan);
    assert!(c.block_trackers && c.block_ads && c.block_malware);
    assert!(c.ipv6_leak_protection && c.webrtc_leak_protection);
}

#[test]
fn preset_streaming_fields() {
    let c = VpnConfig::preset_streaming();
    assert_eq!(c.protocol_config.protocol, VpnProtocol::WireGuard);
    assert!(!c.protocol_config.obfuscation);
    assert_eq!(c.kill_switch.mode, KillSwitchMode::Disabled);
    assert!(c.reconnect_on_disconnect);
    assert_eq!(c.reconnect_attempts, 5);
}

#[test]
fn preset_torrenting_fields() {
    let c = VpnConfig::preset_torrenting();
    assert_eq!(c.protocol_config.protocol, VpnProtocol::OpenVPN);
    assert_eq!(c.protocol_config.port, 1194);
    assert_eq!(c.kill_switch.mode, KillSwitchMode::Always);
    assert!(c.kill_switch.allow_lan);
    assert_eq!(c.split_tunnel.mode, SplitTunnelMode::IncludeOnly);
}

#[test]
fn reconnect_policy_follows_config() {
    let mut c = VpnConfig::default();
    c.reconnect_on_disconnect = false;
    c.reconnect_attempts = 7;
    let p = c.reconnect_policy();
    assert!(!p.reconnect_on_disconnect);
    assert_eq!(p.reconnect_attempts, 7);
}

#[test]
fn timeout_is_reached_at_the_limit() {
    let c = VpnConfig::default();
    assert!(!c.has_timed_out(100, 129));
    assert!(c.has_timed_out(100, 130));
    assert!(c.has_timed_out(i64::MIN, i64::MAX));
    assert!(!c.has_timed_out(i64::MAX, i64::MIN));
}

#[test]
fn subscription_tiers() {
    assert_eq!(SubscriptionTier::Free.name(), "Free");
    assert_eq!(SubscriptionTier::Premium.name(), "Premium");
    assert_eq!(SubscriptionTier::Business.name(), "Business");
    assert_eq!(SubscriptionTier::Free.max_devices(), 1);
    assert_eq!(SubscriptionTier::Premium.max_devices(), 5);
    assert_eq!(SubscriptionTier::Business.max_devices(), 10);
    assert!(SubscriptionTier::Free.has_feature("basic_vpn"));
    assert!(!SubscriptionTier::Free.has_feature("split_tunnel"));
    assert!(SubscriptionTier::Premium.has_feature("split_tunnel"));
    assert!(SubscriptionTier::Business.has_feature("anything"));
}

#[test]
fn default_user_profile() {
    let p = UserProfile::default();
    assert_eq!(p.username, "user");
    assert_eq!(p.email, "user@example.com");
    assert_eq!(p.subscription_tier, SubscriptionTier::Free);
    assert!(p.subscription_expires.is_none());
    assert_eq!(p.max_devices, 1);
    assert_eq!(p.data_limit, Some(10 * 1024 * 1024 * 1024));
    let q = p.clone();
    assert_eq!(q.username, "user");
}
