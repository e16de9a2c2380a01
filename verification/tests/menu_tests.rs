use vpn_mobile::config::VpnConfig;
use vpn_mobile::killswitch::{KillSwitch, KillSwitchConfig, KillSwitchMode};
use vpn_mobile::menu::{
    pick, pick_country, pick_preset, pick_protocol, toggle_kill_switch, toggle_split_tunnel, trim,
    MainCommand, Switch,
};
use vpn_mobile::protocol::VpnProtocol;
use vpn_mobile::server::Country;
use vpn_mobile::split_tunnel::{SplitTunnel, SplitTunnelConfig, SplitTunnelMode};

fn text(v: Vec<char>) -> String {
    v.into_iter().collect()
}

#[test]
fn trimming_follows_the_standard_library() {
    for line in [
        "", " ", "a", " a", "a ", "  a b  ", "\t\n7\r\n", "\u{85}x\u{a0}", "\u{1680}\u{2000}y\u{200a}",
        "\u{2028}\u{2029}\u{202f}\u{205f}\u{3000}z", "\u{200b}w", "\u{feff}v ", "x\u{b}\u{c}",
        " \u{1f} ", "\u{2007}1\u{2008}",
    ] {
        assert_eq!(text(trim(line)), line.trim(), "{:?}", line);
    }
}

#[test]
fn menu_numbers() {
    assert_eq!(pick("1", 3), Some(0));
    assert_eq!(pick("3\n", 3), Some(2));
    assert_eq!(pick("  2  ", 3), Some(1));
    assert_eq!(pick("+2", 3), Some(1));
    assert_eq!(pick("002", 3), Some(1));
    assert_eq!(pick("0", 3), None);
    assert_eq!(pick("4", 3), None);
    assert_eq!(pick("", 3), None);
    assert_eq!(pick("+", 3), None);
    assert_eq!(pick("-1", 3), None);
    assert_eq!(pick("1.", 3), None);
    assert_eq!(pick("1 2", 3), None);
    assert_eq!(pick("++1", 3), None);
    assert_eq!(pick("٣", 3), None);
    assert_eq!(pick("1", 0), None);
    assert_eq!(pick("99999999999999999999999999", 3), None);
    assert_eq!(pick("18446744073709551615", usize::MAX), Some(usize::MAX - 1));
    assert_eq!(pick("18446744073709551616", usize::MAX), None);
    assert_eq!(pick("25", 25), Some(24));
    assert_eq!(pick("26", 25), None);
    for n in 0..40usize {
        for count in [0usize, 1, 9, 10, 11, 39] {
            let expected = if n >= 1 && n <= count { Some(n - 1) } else { None };
            assert_eq!(pick(&n.to_string(), count), expected);
        }
    }
}

#[test]
fn main_menu_commands() {
    assert_eq!(MainCommand::parse("1"), Some(MainCommand::QuickConnect));
    assert_eq!(MainCommand::parse("2"), Some(MainCommand::SelectCountry));
    assert_eq!(MainCommand::parse("3"), Some(MainCommand::Disconnect));
    assert_eq!(MainCommand::parse("4"), Some(MainCommand::Status));
    assert_eq!(MainCommand::parse("5"), Some(MainCommand::ServerList));
    assert_eq!(MainCommand::parse("6"), Some(MainCommand::ProtocolSettings));
    assert_eq!(MainCommand::parse("7"), Some(MainCommand::SecuritySettings));
    assert_eq!(MainCommand::parse("8"), Some(MainCommand::SplitTunnel));
    assert_eq!(MainCommand::parse("9"), Some(MainCommand::Statistics));
    assert_eq!(MainCommand::parse("10\n"), Some(MainCommand::Settings));
    assert_eq!(MainCommand::parse(" 0 "), Some(MainCommand::Exit));
    for line in ["", "11", "00", "01", "+1", "010", "1 0", "x", "-1", "1x"] {
        assert_eq!(MainCommand::parse(line), None, "{:?}", line);
    }
}

#[test]
fn countries_and_protocols_by_number() {
    assert_eq!(pick_country("1"), Some(Country::UnitedStates));
    assert_eq!(pick_country("25"), Some(Country::Argentina));
    assert_eq!(pick_country("9 "), Some(Country::Japan));
    assert_eq!(pick_country("0"), None);
    assert_eq!(pick_country("26"), None);
    assert_eq!(pick_country("jp"), None);
    assert_eq!(pick_protocol("1"), Some(VpnProtocol::WireGuard));
    assert_eq!(pick_protocol("2"), Some(VpnProtocol::OpenVPN));
    assert_eq!(pick_protocol("5"), Some(VpnProtocol::PPTP));
    assert_eq!(pick_protocol("6"), None);
    assert_eq!(pick_protocol("0"), None);
}

#[test]
fn switches_flip() {
    let mut c = VpnConfig::default();
    assert_eq!(Switch::parse("1"), Some(Switch::AutoConnect));
    assert_eq!(Switch::parse("2"), Some(Switch::StartOnBoot));
    assert_eq!(Switch::parse("3"), Some(Switch::ShowNotifications));
    assert_eq!(Switch::parse("4"), Some(Switch::BlockAds));
    assert_eq!(Switch::parse("5"), Some(Switch::BlockMalware));
    assert_eq!(Switch::parse("6"), None);
    assert_eq!(Switch::parse("0"), None);
    assert!(Switch::AutoConnect.flip(&mut c));
    assert!(c.auto_connect);
    assert!(!Switch::AutoConnect.flip(&mut c));
    assert!(!c.auto_connect);
    assert!(Switch::StartOnBoot.flip(&mut c));
    assert!(c.start_on_boot);
    assert!(!Switch::ShowNotifications.flip(&mut c));
    assert!(!c.show_notifications);
    assert!(Switch::BlockAds.flip(&mut c));
    assert!(c.block_ads);
    assert!(!Switch::BlockMalware.flip(&mut c));
    assert!(!c.block_malware);
    assert_eq!(c.mtu, 1420);
    assert_eq!(c.connect_timeout, 30);
    assert!(c.validate().is_ok());
}

#[test]
fn presets_by_number() {
    assert_eq!(pick_preset("1").unwrap().kill_switch.mode, KillSwitchMode::Always);
    assert!(pick_preset("1").unwrap().block_trackers);
    assert_eq!(pick_preset("2").unwrap().reconnect_attempts, 5);
    assert_eq!(pick_preset("3").unwrap().split_tunnel.mode, SplitTunnelMode::IncludeOnly);
    assert!(pick_preset("4").is_none());
    assert!(pick_preset("0").is_none());
    assert!(pick_preset("").is_none());
}

#[test]
fn enforcers_toggle() {
    let mut k = KillSwitch::new(KillSwitchConfig::default());
    assert_eq!(toggle_kill_switch(&mut k).unwrap(), true);
    assert!(k.is_active());
    assert_eq!(toggle_kill_switch(&mut k).unwrap(), false);
    assert!(!k.is_active());
    k.set_mode(KillSwitchMode::Disabled);
    assert!(toggle_kill_switch(&mut k).is_err());
    assert!(!k.is_active());

    let mut r = SplitTunnel::new(SplitTunnelConfig::default());
    assert!(toggle_split_tunnel(&mut r).is_err());
    assert!(!r.is_active());
    r.set_mode(SplitTunnelMode::ExcludeOnly);
    assert_eq!(toggle_split_tunnel(&mut r).unwrap(), true);
    assert!(r.is_active());
    assert_eq!(toggle_split_tunnel(&mut r).unwrap(), false);
    assert!(!r.is_active());
}
