use vpn_mobile::dns::{
    BlockLists, DnsLeakTest, DnsManager, DnsMode, DnsNotice, DnsServer, FilterDecision,
};

#[test]
fn test_dns_leak_check() {
    let manager = DnsManager::new();
    let result = manager.check_dns_leak().unwrap();
    assert!(result.is_secure());
}

#[test]
fn test_dns_servers() {
    let cloudflare = DnsServer::cloudflare();
    assert_eq!(cloudflare.primary, "1.1.1.1");
    assert!(cloudflare.supports_doh);

    let servers = DnsManager::get_available_dns_servers();
    assert!(servers.len() >= 5);
}

#[test]
fn known_resolvers() {
    let g = DnsServer::google();
    assert_eq!(g.name, "Google");
    assert_eq!(g.primary, "8.8.8.8");
    assert_eq!(g.secondary, Some("8.8.4.4".to_string()));
    let q = DnsServer::quad9();
    assert_eq!(q.primary, "9.9.9.9");
    assert_eq!(q.secondary, Some("149.112.112.112".to_string()));
    let o = DnsServer::opendns();
    assert_eq!(o.name, "OpenDNS");
    assert_eq!(o.primary, "208.67.222.222");
    assert!(o.supports_dnssec);
    assert!(!o.supports_doh);
    assert!(!o.supports_dot);
    let a = DnsServer::adguard();
    assert_eq!(a.name, "AdGuard DNS");
    assert_eq!(a.primary, "94.140.14.14");
    assert_eq!(a.secondary, Some("94.140.15.15".to_string()));
    let c = DnsServer::cloudflare();
    assert_eq!(c.name, "Cloudflare");
    assert_eq!(c.secondary, Some("1.0.0.1".to_string()));
    assert!(c.supports_dot && c.supports_dnssec);
}

#[test]
fn available_resolvers_in_order() {
    let servers = DnsManager::get_available_dns_servers();
    let names: Vec<String> = servers.iter().map(|s| s.name.clone()).collect();
    assert_eq!(names, vec!["Cloudflare", "Google", "Quad9", "OpenDNS", "AdGuard DNS"]);
}

#[test]
fn initial_policy() {
    let m = DnsManager::new();
    assert!(matches!(m.get_mode(), DnsMode::Auto));
    assert!(m.is_leak_protected());
    let d = DnsManager::default();
    assert!(d.is_leak_protected());
    assert_eq!(
        m.apply_dns_configuration().unwrap(),
        vec![DnsNotice::LeakProtection, DnsNotice::MalwareBlocking]
    );
}

#[test]
fn resolvers_follow_the_mode() {
    let mut m = DnsManager::new();
    let advertised = vec!["10.8.0.1".to_string(), "10.8.0.2".to_string()];
    assert_eq!(m.active_resolvers(&advertised), advertised);
    m.set_mode(DnsMode::Custom(DnsServer::quad9()));
    assert_eq!(m.active_resolvers(&advertised), vec!["9.9.9.9", "149.112.112.112"]);
    let mut single = DnsServer::google();
    single.secondary = None;
    m.set_mode(DnsMode::Custom(single));
    assert_eq!(m.active_resolvers(&advertised), vec!["8.8.8.8"]);
    m.set_mode(DnsMode::System);
    assert!(m.active_resolvers(&advertised).is_empty());
}

#[test]
fn system_mode_with_leak_protection_warns() {
    let mut m = DnsManager::new();
    m.set_mode(DnsMode::System);
    let notices = m.apply_dns_configuration().unwrap();
    assert_eq!(
        notices,
        vec![
            DnsNotice::LeakProtection,
            DnsNotice::MalwareBlocking,
            DnsNotice::SystemResolverMayLeak
        ]
    );
    m.enable_leak_protection(false);
    assert_eq!(m.apply_dns_configuration().unwrap(), vec![DnsNotice::MalwareBlocking]);
}

#[test]
fn all_notices_in_order() {
    let mut m = DnsManager::new();
    m.enable_dns_filtering(true);
    m.enable_ad_blocking(true);
    assert_eq!(
        m.apply_dns_configuration().unwrap(),
        vec![
            DnsNotice::LeakProtection,
            DnsNotice::Filtering,
            DnsNotice::MalwareBlocking,
            DnsNotice::AdBlocking
        ]
    );
    m.enable_malware_blocking(false);
    m.enable_leak_protection(false);
    m.enable_dns_filtering(false);
    m.enable_ad_blocking(false);
    assert!(m.apply_dns_configuration().unwrap().is_empty());
}

#[test]
fn leak_is_reported_only_under_protection() {
    let mut m = DnsManager::new();
    assert!(m.reports_leak(false));
    assert!(!m.reports_leak(true));
    m.enable_leak_protection(false);
    assert!(!m.is_leak_protected());
    assert!(!m.reports_leak(false));
}

fn lists() -> BlockLists {
    BlockLists {
        malware: vec!["evil.example".to_string(), "both.example".to_string()],
        ads: vec!["ads.example".to_string(), "both.example".to_string()],
        user: vec!["work.example".to_string(), "ads.example".to_string()],
    }
}

#[test]
fn filter_runs_in_order_and_stops_at_first_block() {
    let mut m = DnsManager::new();
    m.enable_ad_blocking(true);
    m.enable_dns_filtering(true);
    let l = lists();
    assert_eq!(m.filter_query("evil.example", &l), FilterDecision::BlockedMalware);
    assert_eq!(m.filter_query("cdn.evil.example", &l), FilterDecision::BlockedMalware);
    assert_eq!(m.filter_query("both.example", &l), FilterDecision::BlockedMalware);
    assert_eq!(m.filter_query("ads.example", &l), FilterDecision::BlockedAds);
    assert_eq!(m.filter_query("work.example", &l), FilterDecision::BlockedByUser);
    assert_eq!(m.filter_query("good.example", &l), FilterDecision::Pass);
    assert_eq!(m.filter_query("notevil.example", &l), FilterDecision::Pass);
    assert_eq!(m.filter_query("example", &l), FilterDecision::Pass);
}

#[test]
fn filter_passes_over_lists_that_are_off() {
    let mut m = DnsManager::new();
    let l = lists();
    assert_eq!(m.filter_query("ads.example", &l), FilterDecision::Pass);
    assert_eq!(m.filter_query("work.example", &l), FilterDecision::Pass);
    m.enable_malware_blocking(false);
    assert_eq!(m.filter_query("evil.example", &l), FilterDecision::Pass);
    m.enable_ad_blocking(true);
    assert_eq!(m.filter_query("both.example", &l), FilterDecision::BlockedAds);
    m.enable_ad_blocking(false);
    m.enable_dns_filtering(true);
    assert_eq!(m.filter_query("x.ads.example", &l), FilterDecision::BlockedByUser);
}

#[test]
fn leak_check_sample() {
    let t = DnsManager::new().check_dns_leak().unwrap();
    assert!(!t.is_leaking);
    assert!(!t.isp_detected);
    assert!(t.location_matches_vpn);
    assert_eq!(t.detected_servers, vec!["1.1.1.1", "1.0.0.1"]);
    assert_eq!(t.summary(), "✓ Your DNS is secure. No leaks detected.");
}

fn leak_test(is_leaking: bool, isp_detected: bool, location_matches_vpn: bool) -> DnsLeakTest {
    DnsLeakTest { is_leaking, detected_servers: Vec::new(), isp_detected, location_matches_vpn }
}

#[test]
fn secure_means_all_three() {
    assert!(leak_test(false, false, true).is_secure());
    assert!(!leak_test(true, false, true).is_secure());
    assert!(!leak_test(false, true, true).is_secure());
    assert!(!leak_test(false, false, false).is_secure());
}

#[test]
fn leak_summary_lists_issues() {
    assert_eq!(leak_test(true, false, true).summary(), "⚠ Issues found: DNS leak detected");
    assert_eq!(leak_test(false, true, true).summary(), "⚠ Issues found: ISP DNS detected");
    assert_eq!(leak_test(false, false, false).summary(), "⚠ Issues found: Location mismatch");
    assert_eq!(
        leak_test(true, true, false).summary(),
        "⚠ Issues found: DNS leak detected, ISP DNS detected, Location mismatch"
    );
    assert_eq!(
        leak_test(true, false, false).summary(),
        "⚠ Issues found: DNS leak detected, Location mismatch"
    );
    assert_eq!(
        leak_test(false, true, false).summary(),
        "⚠ Issues found: ISP DNS detected, Location mismatch"
    );
}
