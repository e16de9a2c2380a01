//! The resolver policy: which resolvers answer while a session exists, which
//! names are filtered, and what a leak test says.

use vstd::prelude::*;
use crate::text::{any_domain_matches, copy_list, matches_any_domain, push_text, texts};
use crate::VpnError;

verus! {

/// A resolver that can be chosen by name.
#[derive(Debug)]
pub struct DnsServer {
    pub name: String,
    pub primary: String,
    pub secondary: Option<String>,
    pub supports_dnssec: bool,
    pub supports_doh: bool,
    pub supports_dot: bool,
}

impl Clone for DnsServer {
    fn clone(&self) -> (r: Self)
        ensures
            r == *self,
    {
        DnsServer {
            name: self.name.clone(),
            primary: self.primary.clone(),
            secondary: match &self.secondary {
                Some(s) => Some(s.clone()),
                None => None,
            },
            supports_dnssec: self.supports_dnssec,
            supports_doh: self.supports_doh,
            supports_dot: self.supports_dot,
        }
    }
}

impl DnsServer {
    /// The resolver has the given name and addresses, validates signatures,
    /// and speaks the encrypted transports or not, as `encrypted` says.
    pub open spec fn is(
        self,
        name: Seq<char>,
        primary: Seq<char>,
        secondary: Seq<char>,
        encrypted: bool,
    ) -> bool {
        &&& self.name@ == name
        &&& self.primary@ == primary
        &&& self.secondary matches Some(s) && s@ == secondary
        &&& self.supports_dnssec
        &&& self.supports_doh == encrypted
        &&& self.supports_dot == encrypted
    }

    /// The addresses of the resolver, primary first.
    pub open spec fn addresses(self) -> Seq<Seq<char>> {
        match self.secondary {
            Some(s) => seq![self.primary@, s@],
            None => seq![self.primary@],
        }
    }

    fn known(name: &str, primary: &str, secondary: &str, encrypted: bool) -> (r: Self)
        ensures
            r.is(name@, primary@, secondary@, encrypted),
    {
        DnsServer {
            name: name.to_string(),
            primary: primary.to_string(),
            secondary: Some(secondary.to_string()),
            supports_dnssec: true,
            supports_doh: encrypted,
            supports_dot: encrypted,
        }
    }

    pub fn cloudflare() -> (r: Self)
        ensures
            r.is("Cloudflare"@, "1.1.1.1"@, "1.0.0.1"@, true),
    {
        Self::known("Cloudflare", "1.1.1.1", "1.0.0.1", true)
    }

    pub fn google() -> (r: Self)
        ensures
            r.is("Google"@, "8.8.8.8"@, "8.8.4.4"@, true),
    {
        Self::known("Google", "8.8.8.8", "8.8.4.4", true)
    }

    pub fn quad9() -> (r: Self)
        ensures
            r.is("Quad9"@, "9.9.9.9"@, "149.112.112.112"@, true),
    {
        Self::known("Quad9", "9.9.9.9", "149.112.112.112", true)
    }

    pub fn opendns() -> (r: Self)
        ensures
            r.is("OpenDNS"@, "208.67.222.222"@, "208.67.220.220"@, false),
    {
        Self::known("OpenDNS", "208.67.222.222", "208.67.220.220", false)
    }

    pub fn adguard() -> (r: Self)
        ensures
            r.is("AdGuard DNS"@, "94.140.14.14"@, "94.140.15.15"@, true),
    {
        Self::known("AdGuard DNS", "94.140.14.14", "94.140.15.15", true)
    }
}

/// Who answers name queries while a session exists.
#[derive(Debug)]
pub enum DnsMode {
    /// The resolvers that the current server advertises.
    Auto,
    /// The given resolver: its primary address, then its secondary.
    Custom(DnsServer),
    /// Whatever the host is set up with. Queries may then pass the tunnel by.
    System,
}

impl Clone for DnsMode {
    fn clone(&self) -> (r: Self)
        ensures
            r == *self,
    {
        match self {
            DnsMode::Auto => DnsMode::Auto,
            DnsMode::Custom(s) => DnsMode::Custom(s.clone()),
            DnsMode::System => DnsMode::System,
        }
    }
}

/// The three block lists of the filter. Each is a set of host names; a name
/// is on a list when it is an entry of the list or lies below one.
#[derive(Debug)]
pub struct BlockLists {
    pub malware: Vec<String>,
    pub ads: Vec<String>,
    pub user: Vec<String>,
}

/// What the filter says of a query, and which list blocked it.
#[derive(Debug, Clone, Copy, PartialEq, Eq, Structural)]
pub enum FilterDecision {
    Pass,
    BlockedMalware,
    BlockedAds,
    BlockedByUser,
}

/// What applying the policy switches on, and what it warns of.
#[derive(Debug, Clone, Copy, PartialEq, Eq, Structural)]
pub enum DnsNotice {
    LeakProtection,
    Filtering,
    MalwareBlocking,
    AdBlocking,
    /// Leak protection is asked for, but queries go to the resolvers of the
    /// host, which it cannot protect.
    SystemResolverMayLeak,
}

/// The resolver policy.
pub struct DnsManager {
    mode: DnsMode,
    leak_protection: bool,
    dns_filtering: bool,
    block_malware: bool,
    block_ads: bool,
}

impl DnsManager {
    pub closed spec fn mode(&self) -> DnsMode {
        self.mode
    }

    pub closed spec fn leak_protection(&self) -> bool {
        self.leak_protection
    }

    pub closed spec fn dns_filtering(&self) -> bool {
        self.dns_filtering
    }

    pub closed spec fn block_malware(&self) -> bool {
        self.block_malware
    }

    pub closed spec fn block_ads(&self) -> bool {
        self.block_ads
    }

    /// The resolvers that answer, given those that the current server
    /// advertises. In the mode `System` the library names none: the host
    /// decides.
    pub open spec fn resolvers_of(&self, advertised: Seq<Seq<char>>) -> Seq<Seq<char>> {
        match self.mode() {
            DnsMode::Auto => advertised,
            DnsMode::Custom(s) => s.addresses(),
            DnsMode::System => Seq::empty(),
        }
    }

    /// The decision of the filter on a name. The lists are tried in the
    /// order malware, advertising, user; a list that is switched off is
    /// passed over; the first list that holds the name blocks it.
    pub open spec fn filter_of(&self, name: Seq<char>, lists: BlockLists) -> FilterDecision {
        if self.block_malware() && any_domain_matches(lists.malware@, name) {
            FilterDecision::BlockedMalware
        } else if self.block_ads() && any_domain_matches(lists.ads@, name) {
            FilterDecision::BlockedAds
        } else if self.dns_filtering() && any_domain_matches(lists.user@, name) {
            FilterDecision::BlockedByUser
        } else {
            FilterDecision::Pass
        }
    }

    /// What applying the policy reports, in order.
    pub open spec fn notices_of(&self) -> Seq<DnsNotice> {
        (if self.leak_protection() {
            seq![DnsNotice::LeakProtection]
        } else {
            Seq::empty()
        }) + (if self.dns_filtering() {
            seq![DnsNotice::Filtering]
        } else {
            Seq::empty()
        }) + (if self.block_malware() {
            seq![DnsNotice::MalwareBlocking]
        } else {
            Seq::empty()
        }) + (if self.block_ads() {
            seq![DnsNotice::AdBlocking]
        } else {
            Seq::empty()
        }) + (if self.leak_protection() && self.mode() is System {
            seq![DnsNotice::SystemResolverMayLeak]
        } else {
            Seq::empty()
        })
    }

    /// The policy a client starts with: the server's resolvers, leak
    /// protection and malware blocking on, the rest off.
    pub fn new() -> (r: Self)
        ensures
            r.mode() is Auto,
            r.leak_protection(),
            !r.dns_filtering(),
            r.block_malware(),
            !r.block_ads(),
    {
        DnsManager {
            mode: DnsMode::Auto,
            leak_protection: true,
            dns_filtering: false,
            block_malware: true,
            block_ads: false,
        }
    }

    pub fn set_mode(&mut self, mode: DnsMode)
        ensures
            final(self).mode() == mode,
            final(self).leak_protection() == old(self).leak_protection(),
            final(self).dns_filtering() == old(self).dns_filtering(),
            final(self).block_malware() == old(self).block_malware(),
            final(self).block_ads() == old(self).block_ads(),
    {
        self.mode = mode;
    }

    pub fn get_mode(&self) -> (r: &DnsMode)
        ensures
            *r == self.mode(),
    {
        &self.mode
    }

    pub fn enable_leak_protection(&mut self, enabled: bool)
        ensures
            final(self).leak_protection() == enabled,
            final(self).mode() == old(self).mode(),
            final(self).dns_filtering() == old(self).dns_filtering(),
            final(self).block_malware() == old(self).block_malware(),
            final(self).block_ads() == old(self).block_ads(),
    {
        self.leak_protection = enabled;
    }

    pub fn enable_dns_filtering(&mut self, enabled: bool)
        ensures
            final(self).dns_filtering() == enabled,
            final(self).mode() == old(self).mode(),
            final(self).leak_protection() == old(self).leak_protection(),
            final(self).block_malware() == old(self).block_malware(),
            final(self).block_ads() == old(self).block_ads(),
    {
        self.dns_filtering = enabled;
    }

    pub fn enable_malware_blocking(&mut self, enabled: bool)
        ensures
            final(self).block_malware() == enabled,
            final(self).mode() == old(self).mode(),
            final(self).leak_protection() == old(self).leak_protection(),
            final(self).dns_filtering() == old(self).dns_filtering(),
            final(self).block_ads() == old(self).block_ads(),
    {
        self.block_malware = enabled;
    }

    pub fn enable_ad_blocking(&mut self, enabled: bool)
        ensures
            final(self).block_ads() == enabled,
            final(self).mode() == old(self).mode(),
            final(self).leak_protection() == old(self).leak_protection(),
            final(self).dns_filtering() == old(self).dns_filtering(),
            final(self).block_malware() == old(self).block_malware(),
    {
        self.block_ads = enabled;
    }

    pub fn is_leak_protected(&self) -> (r: bool)
        ensures
            r == self.leak_protection(),
    {
        self.leak_protection
    }

    /// The resolvers that answer while the session exists, given those that
    /// the current server advertises.
    pub fn active_resolvers(&self, advertised: &Vec<String>) -> (r: Vec<String>)
        ensures
            texts(r@) == self.resolvers_of(texts(advertised@)),
    {
        match &self.mode {
            DnsMode::Auto => copy_list(advertised),
            DnsMode::Custom(s) => {
                let mut out: Vec<String> = Vec::new();
                out.push(s.primary.clone());
                match &s.secondary {
                    Some(second) => {
                        out.push(second.clone());
                    },
                    None => {},
                }
                assert(texts(out@) =~= s.addresses());
                out
            },
            DnsMode::System => {
                let out: Vec<String> = Vec::new();
                assert(texts(out@) =~= Seq::<Seq<char>>::empty());
                out
            },
        }
    }

    /// Whether a query is reported as a leak: leak protection is on and the
    /// query did not leave through the tunnel.
    pub fn reports_leak(&self, via_tunnel: bool) -> (r: bool)
        ensures
            r == (self.leak_protection() && !via_tunnel),
    {
        self.leak_protection && !via_tunnel
    }

    /// The decision of the filter on a queried name.
    pub fn filter_query(&self, name: &str, lists: &BlockLists) -> (r: FilterDecision)
        ensures
            r == self.filter_of(name@, *lists),
    {
        if self.block_malware && matches_any_domain(&lists.malware, name) {
            FilterDecision::BlockedMalware
        } else if self.block_ads && matches_any_domain(&lists.ads, name) {
            FilterDecision::BlockedAds
        } else if self.dns_filtering && matches_any_domain(&lists.user, name) {
            FilterDecision::BlockedByUser
        } else {
            FilterDecision::Pass
        }
    }

    /// The self-check of a policy that has no leak to report: two resolvers
    /// seen, both of the tunnel, the provider of the host not among them,
    /// the location that of the server.
    pub fn check_dns_leak(&self) -> (r: Result<DnsLeakTest, VpnError>)
        ensures
            r matches Ok(t) && !t.is_leaking && !t.isp_detected && t.location_matches_vpn
                && texts(t.detected_servers@) == seq!["1.1.1.1"@, "1.0.0.1"@],
    {
        let mut seen: Vec<String> = Vec::new();
        seen.push("1.1.1.1".to_string());
        seen.push("1.0.0.1".to_string());
        assert(texts(seen@) =~= seq!["1.1.1.1"@, "1.0.0.1"@]);
        Ok(
            DnsLeakTest {
                is_leaking: false,
                detected_servers: seen,
                isp_detected: false,
                location_matches_vpn: true,
            },
        )
    }

    /// The resolvers that can be chosen by name.
    pub fn get_available_dns_servers() -> (r: Vec<DnsServer>)
        ensures
            r.len() == 5,
            r[0].is("Cloudflare"@, "1.1.1.1"@, "1.0.0.1"@, true),
            r[1].is("Google"@, "8.8.8.8"@, "8.8.4.4"@, true),
            r[2].is("Quad9"@, "9.9.9.9"@, "149.112.112.112"@, true),
            r[3].is("OpenDNS"@, "208.67.222.222"@, "208.67.220.220"@, false),
            r[4].is("AdGuard DNS"@, "94.140.14.14"@, "94.140.15.15"@, true),
    {
        let mut out: Vec<DnsServer> = Vec::new();
        out.push(DnsServer::cloudflare());
        out.push(DnsServer::google());
        out.push(DnsServer::quad9());
        out.push(DnsServer::opendns());
        out.push(DnsServer::adguard());
        out
    }

    /// Applies the policy and reports what it switched on. Leak protection
    /// together with the resolvers of the host ends in a warning.
    pub fn apply_dns_configuration(&self) -> (r: Result<Vec<DnsNotice>, VpnError>)
        ensures
            r matches Ok(n) && n@ == self.notices_of(),
    {
        let mut out: Vec<DnsNotice> = Vec::new();
        if self.leak_protection {
            out.push(DnsNotice::LeakProtection);
        }
        if self.dns_filtering {
            out.push(DnsNotice::Filtering);
        }
        if self.block_malware {
            out.push(DnsNotice::MalwareBlocking);
        }
        if self.block_ads {
            out.push(DnsNotice::AdBlocking);
        }
        let system: bool = match &self.mode {
            DnsMode::System => true,
            _ => false,
        };
        if self.leak_protection && system {
            out.push(DnsNotice::SystemResolverMayLeak);
        }
        assert(out@ =~= self.notices_of());
        Ok(out)
    }
}

impl Default for DnsManager {
    fn default() -> (r: Self)
        ensures
            r.mode() is Auto,
            r.leak_protection(),
            !r.dns_filtering(),
            r.block_malware(),
            !r.block_ads(),
    {
        DnsManager::new()
    }
}

/// What a leak test found.
#[derive(Debug)]
pub struct DnsLeakTest {
    pub is_leaking: bool,
    pub detected_servers: Vec<String>,
    pub isp_detected: bool,
    pub location_matches_vpn: bool,
}

impl Clone for DnsLeakTest {
    fn clone(&self) -> (r: Self)
        ensures
            r.is_leaking == self.is_leaking,
            r.detected_servers@ == self.detected_servers@,
            r.isp_detected == self.isp_detected,
            r.location_matches_vpn == self.location_matches_vpn,
    {
        DnsLeakTest {
            is_leaking: self.is_leaking,
            detected_servers: copy_list(&self.detected_servers),
            isp_detected: self.isp_detected,
            location_matches_vpn: self.location_matches_vpn,
        }
    }
}

/// The texts joined, with a comma and a space between neighbours.
pub open spec fn joined(parts: Seq<Seq<char>>) -> Seq<char>
    decreases parts.len(),
{
    if parts.len() == 0 {
        Seq::empty()
    } else if parts.len() == 1 {
        parts[0]
    } else {
        joined(parts.drop_last()) + ", "@ + parts.last()
    }
}

impl DnsLeakTest {
    /// Secure means: no leak, the provider of the host not seen, and the
    /// location that of the server.
    pub open spec fn secure(self) -> bool {
        !self.is_leaking && !self.isp_detected && self.location_matches_vpn
    }

    /// What is wrong, in words, in a fixed order.
    pub open spec fn issues(self) -> Seq<Seq<char>> {
        (if self.is_leaking {
            seq!["DNS leak detected"@]
        } else {
            Seq::empty()
        }) + (if self.isp_detected {
            seq!["ISP DNS detected"@]
        } else {
            Seq::empty()
        }) + (if !self.location_matches_vpn {
            seq!["Location mismatch"@]
        } else {
            Seq::empty()
        })
    }

    /// The outcome in words.
    pub open spec fn summary_text(self) -> Seq<char> {
        if self.secure() {
            "✓ Your DNS is secure. No leaks detected."@
        } else {
            "⚠ Issues found: "@ + joined(self.issues())
        }
    }

    pub fn is_secure(&self) -> (r: bool)
        ensures
            r == self.secure(),
    {
        !self.is_leaking && !self.isp_detected && self.location_matches_vpn
    }

    pub fn summary(&self) -> (r: String)
        ensures
            r@ == self.summary_text(),
    {
        let mut out = String::new();
        if self.is_secure() {
            push_text(&mut out, "✓ Your DNS is secure. No leaks detected.");
            assert(out@ =~= self.summary_text());
            return out;
        }
        push_text(&mut out, "⚠ Issues found: ");
        let ghost head = out@;
        let ghost mut said: Seq<Seq<char>> = Seq::empty();
        let mut first: bool = true;
        assert(head + joined(said) =~= out@);
        if self.is_leaking {
            push_text(&mut out, "DNS leak detected");
            first = false;
            proof {
                said = said.push("DNS leak detected"@);
                assert(out@ =~= head + joined(said));
            }
        }
        if self.isp_detected {
            let ghost before = said;
            if !first {
                push_text(&mut out, ", ");
            }
            push_text(&mut out, "ISP DNS detected");
            first = false;
            proof {
                said = said.push("ISP DNS detected"@);
                assert(said.drop_last() =~= before);
                assert(out@ =~= head + joined(said));
            }
        }
        if !self.location_matches_vpn {
            let ghost before = said;
            if !first {
                push_text(&mut out, ", ");
            }
            push_text(&mut out, "Location mismatch");
            proof {
                said = said.push("Location mismatch"@);
                assert(said.drop_last() =~= before);
                assert(out@ =~= head + joined(said));
            }
        }
        assert(said =~= self.issues());
        out
    }
}

} // verus!
