//! The split-tunnel router: which flows go through the tunnel and which
//! pass it by, decided by application, host name or destination address.

use vstd::prelude::*;
use crate::ip::{block_set_holds, in_any_block, lemma_blocks_as_set, IpAddress};
use crate::text::{
    contains_text, distinct, domain_set_matches, insert_text, lemma_domain_rules_as_set,
    matches_any_domain, remove_text, text_set, texts,
};
use crate::VpnError;

verus! {

/// How the rules of the router are read.
#[derive(Debug, Clone, Copy, PartialEq, Eq, Structural)]
pub enum SplitTunnelMode {
    /// Everything goes through the tunnel.
    Disabled,
    /// Only what a rule selects goes through the tunnel.
    IncludeOnly,
    /// What a rule selects passes the tunnel by.
    ExcludeOnly,
}

/// The settings of the router. Each list is a value set: an entry counts
/// once however often it is written, and the order of entries means
/// nothing.
#[derive(Debug)]
pub struct SplitTunnelConfig {
    pub mode: SplitTunnelMode,
    pub apps: Vec<String>,
    pub domains: Vec<String>,
    pub ip_ranges: Vec<String>,
}

impl Default for SplitTunnelConfig {
    fn default() -> (r: Self)
        ensures
            r.mode == SplitTunnelMode::Disabled,
            r.apps@ == Seq::<String>::empty(),
            r.domains@ == Seq::<String>::empty(),
            r.ip_ranges@ == Seq::<String>::empty(),
    {
        SplitTunnelConfig {
            mode: SplitTunnelMode::Disabled,
            apps: Vec::new(),
            domains: Vec::new(),
            ip_ranges: Vec::new(),
        }
    }
}

impl Clone for SplitTunnelConfig {
    fn clone(&self) -> (r: Self)
        ensures
            r.mode == self.mode,
            r.apps@ == self.apps@,
            r.domains@ == self.domains@,
            r.ip_ranges@ == self.ip_ranges@,
    {
        SplitTunnelConfig {
            mode: self.mode,
            apps: crate::text::copy_list(&self.apps),
            domains: crate::text::copy_list(&self.domains),
            ip_ranges: crate::text::copy_list(&self.ip_ranges),
        }
    }
}

/// The router as the policy sees it: its mode, whether it is active, and its
/// three rule sets.
pub struct RouterState {
    pub mode: SplitTunnelMode,
    pub active: bool,
    pub apps: Set<Seq<char>>,
    pub domains: Set<Seq<char>>,
    pub ip_ranges: Set<Seq<char>>,
}

impl RouterState {
    /// Whether some rule selects the flow: its application is listed, a
    /// listed host name is its host name or a name above it, or a listed
    /// block holds its destination.
    pub open spec fn selects(self, app: Seq<char>, domain: Seq<char>, ip: IpAddress) -> bool {
        self.apps.contains(app) || domain_set_matches(self.domains, domain) || block_set_holds(
            self.ip_ranges,
            ip,
        )
    }

    /// Whether the flow goes through the tunnel.
    pub open spec fn routes_via_vpn(self, app: Seq<char>, domain: Seq<char>, ip: IpAddress) -> bool {
        if !self.active {
            true
        } else {
            match self.mode {
                SplitTunnelMode::Disabled => true,
                SplitTunnelMode::IncludeOnly => self.selects(app, domain, ip),
                SplitTunnelMode::ExcludeOnly => !self.selects(app, domain, ip),
            }
        }
    }

    /// Whether traffic of the application goes through the tunnel, judged by
    /// the application alone.
    pub open spec fn routes_app(self, app: Seq<char>) -> bool {
        if !self.active {
            true
        } else {
            match self.mode {
                SplitTunnelMode::Disabled => true,
                SplitTunnelMode::IncludeOnly => self.apps.contains(app),
                SplitTunnelMode::ExcludeOnly => !self.apps.contains(app),
            }
        }
    }

    /// The router after a preset is applied: the mode and the applications
    /// are the preset's, the rest is as it was.
    pub open spec fn with_preset(self, mode: SplitTunnelMode, apps: Set<Seq<char>>) -> RouterState {
        RouterState { mode, apps, ..self }
    }

    pub open spec fn with_app(self, app: Seq<char>) -> RouterState {
        RouterState { apps: self.apps.insert(app), ..self }
    }

    pub open spec fn with_domain(self, domain: Seq<char>) -> RouterState {
        RouterState { domains: self.domains.insert(domain), ..self }
    }

    pub open spec fn with_ip_range(self, range: Seq<char>) -> RouterState {
        RouterState { ip_ranges: self.ip_ranges.insert(range), ..self }
    }
}

/// The order in which rules are added means nothing: two rules added either
/// way round give the same router, and so the same decision on every flow.
pub proof fn lemma_insertion_order(
    s: RouterState,
    a: Seq<char>,
    b: Seq<char>,
    app: Seq<char>,
    domain: Seq<char>,
    ip: IpAddress,
)
    ensures
        s.with_app(a).with_app(b) == s.with_app(b).with_app(a),
        s.with_domain(a).with_domain(b) == s.with_domain(b).with_domain(a),
        s.with_ip_range(a).with_ip_range(b) == s.with_ip_range(b).with_ip_range(a),
        s.with_app(a).with_domain(b) == s.with_domain(b).with_app(a),
        s.with_app(a).with_ip_range(b) == s.with_ip_range(b).with_app(a),
        s.with_domain(a).with_ip_range(b) == s.with_ip_range(b).with_domain(a),
        s.with_app(a).with_app(b).routes_via_vpn(app, domain, ip) == s.with_app(b).with_app(
            a,
        ).routes_via_vpn(app, domain, ip),
        s.with_domain(a).with_domain(b).routes_via_vpn(app, domain, ip) == s.with_domain(
            b,
        ).with_domain(a).routes_via_vpn(app, domain, ip),
        s.with_ip_range(a).with_ip_range(b).routes_via_vpn(app, domain, ip) == s.with_ip_range(
            b,
        ).with_ip_range(a).routes_via_vpn(app, domain, ip),
{
    assert(s.apps.insert(a).insert(b) =~= s.apps.insert(b).insert(a));
    assert(s.domains.insert(a).insert(b) =~= s.domains.insert(b).insert(a));
    assert(s.ip_ranges.insert(a).insert(b) =~= s.ip_ranges.insert(b).insert(a));
}

/// Two lists that hold the same texts, in whatever order and however often,
/// give the same router.
pub proof fn lemma_rules_as_sets(a: SplitTunnelConfig, b: SplitTunnelConfig, active: bool)
    requires
        a.mode == b.mode,
        text_set(a.apps@) == text_set(b.apps@),
        text_set(a.domains@) == text_set(b.domains@),
        text_set(a.ip_ranges@) == text_set(b.ip_ranges@),
    ensures
        a.state(active) == b.state(active),
        forall|app: Seq<char>, domain: Seq<char>, ip: IpAddress|
            a.state(active).routes_via_vpn(app, domain, ip) == b.state(active).routes_via_vpn(
                app,
                domain,
                ip,
            ),
{
}

/// Applying a preset twice is the same as applying it once, and a second
/// preset replaces what the first one set.
pub proof fn lemma_preset_idempotent(
    s: RouterState,
    mode: SplitTunnelMode,
    apps: Set<Seq<char>>,
    other_mode: SplitTunnelMode,
    other_apps: Set<Seq<char>>,
)
    ensures
        s.with_preset(mode, apps).with_preset(mode, apps) == s.with_preset(mode, apps),
        s.with_preset(other_mode, other_apps).with_preset(mode, apps) == s.with_preset(mode, apps),
        s.with_preset(mode, apps).domains == s.domains,
        s.with_preset(mode, apps).ip_ranges == s.ip_ranges,
        s.with_preset(mode, apps).active == s.active,
{
}

impl SplitTunnelConfig {
    /// The router that these settings give.
    pub open spec fn state(self, active: bool) -> RouterState {
        RouterState {
            mode: self.mode,
            active,
            apps: text_set(self.apps@),
            domains: text_set(self.domains@),
            ip_ranges: text_set(self.ip_ranges@),
        }
    }
}

/// The split-tunnel router.
pub struct SplitTunnel {
    config: SplitTunnelConfig,
    active: bool,
}

impl View for SplitTunnel {
    type V = RouterState;

    closed spec fn view(&self) -> RouterState {
        self.config.state(self.active)
    }
}

impl SplitTunnel {
    /// An inactive router with the given settings.
    pub fn new(config: SplitTunnelConfig) -> (r: Self)
        ensures
            r@ == config.state(false),
    {
        SplitTunnel { config, active: false }
    }

    /// Activates the router. In the mode `Disabled` this is refused and
    /// nothing changes.
    pub fn enable(&mut self) -> (r: Result<(), VpnError>)
        ensures
            old(self)@.mode == SplitTunnelMode::Disabled ==> {
                &&& r matches Err(VpnError::ConfigError(m))
                &&& m@ == "Split tunneling is disabled in configuration"@
                &&& final(self)@ == old(self)@
            },
            old(self)@.mode != SplitTunnelMode::Disabled ==> {
                &&& r is Ok
                &&& final(self)@ == (RouterState { active: true, ..old(self)@ })
            },
    {
        match self.config.mode {
            SplitTunnelMode::Disabled => {
                Err(
                    VpnError::ConfigError(
                        "Split tunneling is disabled in configuration".to_string(),
                    ),
                )
            },
            _ => {
                self.active = true;
                Ok(())
            },
        }
    }

    /// Deactivates the router: from now on everything goes through the
    /// tunnel.
    pub fn disable(&mut self) -> (r: Result<(), VpnError>)
        ensures
            r is Ok,
            final(self)@ == (RouterState { active: false, ..old(self)@ }),
    {
        self.active = false;
        Ok(())
    }

    pub fn is_active(&self) -> (r: bool)
        ensures
            r == self@.active,
    {
        self.active
    }

    pub fn set_mode(&mut self, mode: SplitTunnelMode)
        ensures
            final(self)@ == (RouterState { mode, ..old(self)@ }),
    {
        self.config.mode = mode;
    }

    pub fn get_mode(&self) -> (r: SplitTunnelMode)
        ensures
            r == self@.mode,
    {
        self.config.mode
    }

    pub fn add_app(&mut self, app: String)
        ensures
            final(self)@ == old(self)@.with_app(app@),
    {
        insert_text(&mut self.config.apps, app);
    }

    pub fn remove_app(&mut self, app: &str)
        ensures
            final(self)@ == (RouterState { apps: old(self)@.apps.remove(app@), ..old(self)@ }),
    {
        remove_text(&mut self.config.apps, app);
    }

    /// The applications, each once, in no particular order.
    pub fn get_apps(&self) -> (r: Vec<String>)
        ensures
            text_set(r@) == self@.apps,
            texts(r@).no_duplicates(),
    {
        distinct(&self.config.apps)
    }

    pub fn clear_apps(&mut self)
        ensures
            final(self)@ == (RouterState { apps: Set::empty(), ..old(self)@ }),
    {
        self.config.apps = Vec::new();
        assert(text_set(self.config.apps@) =~= Set::<Seq<char>>::empty());
    }

    pub fn add_domain(&mut self, domain: String)
        ensures
            final(self)@ == old(self)@.with_domain(domain@),
    {
        insert_text(&mut self.config.domains, domain);
    }

    pub fn remove_domain(&mut self, domain: &str)
        ensures
            final(self)@ == (RouterState {
                domains: old(self)@.domains.remove(domain@),
                ..old(self)@
            }),
    {
        remove_text(&mut self.config.domains, domain);
    }

    /// The host names, each once, in no particular order.
    pub fn get_domains(&self) -> (r: Vec<String>)
        ensures
            text_set(r@) == self@.domains,
            texts(r@).no_duplicates(),
    {
        distinct(&self.config.domains)
    }

    pub fn add_ip_range(&mut self, ip_range: String)
        ensures
            final(self)@ == old(self)@.with_ip_range(ip_range@),
    {
        insert_text(&mut self.config.ip_ranges, ip_range);
    }

    pub fn remove_ip_range(&mut self, ip_range: &str)
        ensures
            final(self)@ == (RouterState {
                ip_ranges: old(self)@.ip_ranges.remove(ip_range@),
                ..old(self)@
            }),
    {
        remove_text(&mut self.config.ip_ranges, ip_range);
    }

    /// The address blocks, each once, in no particular order.
    pub fn get_ip_ranges(&self) -> (r: Vec<String>)
        ensures
            text_set(r@) == self@.ip_ranges,
            texts(r@).no_duplicates(),
    {
        distinct(&self.config.ip_ranges)
    }

    /// Whether traffic of the application goes through the tunnel, judged by
    /// the application alone.
    pub fn should_route_through_vpn(&self, app: &str) -> (r: bool)
        ensures
            r == self@.routes_app(app@),
    {
        if !self.active {
            return true;
        }
        match self.config.mode {
            SplitTunnelMode::Disabled => true,
            SplitTunnelMode::IncludeOnly => contains_text(&self.config.apps, app),
            SplitTunnelMode::ExcludeOnly => !contains_text(&self.config.apps, app),
        }
    }

    /// Whether the flow of the given application to the given host name and
    /// address goes through the tunnel.
    pub fn route_via_vpn(&self, app: &str, domain: &str, ip: &IpAddress) -> (r: bool)
        ensures
            r == self@.routes_via_vpn(app@, domain@, *ip),
    {
        if !self.active {
            return true;
        }
        proof {
            lemma_domain_rules_as_set(self.config.domains@, domain@);
            lemma_blocks_as_set(self.config.ip_ranges@, *ip);
        }
        match self.config.mode {
            SplitTunnelMode::Disabled => true,
            SplitTunnelMode::IncludeOnly => {
                contains_text(&self.config.apps, app) || matches_any_domain(
                    &self.config.domains,
                    domain,
                ) || in_any_block(&self.config.ip_ranges, ip)
            },
            SplitTunnelMode::ExcludeOnly => {
                !(contains_text(&self.config.apps, app) || matches_any_domain(
                    &self.config.domains,
                    domain,
                ) || in_any_block(&self.config.ip_ranges, ip))
            },
        }
    }

    /// The number of routing rules that the router holds: one for each of
    /// its entries while it is active, none while it is not.
    pub fn apply_routing_rules(&self) -> (r: Result<usize, VpnError>)
        ensures
            !self@.active ==> r == Ok::<usize, VpnError>(0),
            r matches Ok(n) ==> self@.active ==> n == self@.apps.len() + self@.domains.len()
                + self@.ip_ranges.len(),
            r is Err ==> self@.active && self@.apps.len() + self@.domains.len()
                + self@.ip_ranges.len() > usize::MAX,
    {
        if !self.active {
            return Ok(0);
        }
        let a = distinct(&self.config.apps);
        let d = distinct(&self.config.domains);
        let i = distinct(&self.config.ip_ranges);
        proof {
            lemma_distinct_count(a@);
            lemma_distinct_count(d@);
            lemma_distinct_count(i@);
        }
        match a.len().checked_add(d.len()) {
            Some(n) => match n.checked_add(i.len()) {
                Some(m) => Ok(m),
                None => Err(VpnError::ConfigError("Too many routing rules".to_string())),
            },
            None => Err(VpnError::ConfigError("Too many routing rules".to_string())),
        }
    }

    /// The number of routing rules that are left once the router has let go
    /// of its own: none.
    pub fn remove_routing_rules(&self) -> (r: Result<usize, VpnError>)
        ensures
            r == Ok::<usize, VpnError>(0),
    {
        Ok(0)
    }

    /// The presets of the router, in their fixed order.
    pub fn get_preset_configs() -> (r: Vec<PresetConfig>)
        ensures
            r.len() == 4,
            forall|i: int| 0 <= i < 4 ==> (#[trigger] r[i]).is_preset(i),
    {
        let mut out: Vec<PresetConfig> = Vec::new();
        let mut apps: Vec<String> = Vec::new();
        apps.push("Netflix".to_string());
        apps.push("Disney+".to_string());
        apps.push("Hulu".to_string());
        apps.push("Amazon Prime".to_string());
        apps.push("YouTube".to_string());
        assert(texts(apps@) =~= preset_apps(0));
        out.push(
            PresetConfig {
                name: "Streaming Apps".to_string(),
                description: "Route streaming apps outside VPN for better performance".to_string(),
                mode: SplitTunnelMode::ExcludeOnly,
                apps,
            },
        );
        let mut apps: Vec<String> = Vec::new();
        apps.push("Banking App".to_string());
        apps.push("PayPal".to_string());
        apps.push("Venmo".to_string());
        assert(texts(apps@) =~= preset_apps(1));
        out.push(
            PresetConfig {
                name: "Banking Apps".to_string(),
                description: "Keep banking apps outside VPN to avoid location issues".to_string(),
                mode: SplitTunnelMode::ExcludeOnly,
                apps,
            },
        );
        let mut apps: Vec<String> = Vec::new();
        apps.push("qBittorrent".to_string());
        apps.push("Transmission".to_string());
        apps.push("uTorrent".to_string());
        assert(texts(apps@) =~= preset_apps(2));
        out.push(
            PresetConfig {
                name: "Torrent Only".to_string(),
                description: "Only route torrent traffic through VPN".to_string(),
                mode: SplitTunnelMode::IncludeOnly,
                apps,
            },
        );
        let apps: Vec<String> = Vec::new();
        assert(texts(apps@) =~= preset_apps(3));
        out.push(
            PresetConfig {
                name: "Local Network".to_string(),
                description: "Exclude local network ranges".to_string(),
                mode: SplitTunnelMode::ExcludeOnly,
                apps,
            },
        );
        out
    }
}

/// A list without repetitions has as many entries as its value set has
/// members.
pub proof fn lemma_distinct_count(v: Seq<String>)
    requires
        texts(v).no_duplicates(),
    ensures
        text_set(v).len() == v.len(),
        text_set(v).finite(),
{
    texts(v).unique_seq_to_set();
    assert(text_set(v) =~= texts(v).to_set()) by {
        assert forall|t: Seq<char>| text_set(v).contains(t) == texts(v).to_set().contains(t) by {
            if text_set(v).contains(t) {
                let i = choose|i: int| 0 <= i < v.len() && (#[trigger] v[i])@ == t;
                assert(texts(v)[i] == t);
            }
            if texts(v).to_set().contains(t) {
                let i = choose|i: int| 0 <= i < texts(v).len() && texts(v)[i] == t;
                assert(v[i]@ == t);
            }
        }
    }
}

/// The name of the preset at index `i`.
pub open spec fn preset_name(i: int) -> Seq<char> {
    if i == 0 {
        "Streaming Apps"@
    } else if i == 1 {
        "Banking Apps"@
    } else if i == 2 {
        "Torrent Only"@
    } else {
        "Local Network"@
    }
}

/// What the preset at index `i` is for.
pub open spec fn preset_description(i: int) -> Seq<char> {
    if i == 0 {
        "Route streaming apps outside VPN for better performance"@
    } else if i == 1 {
        "Keep banking apps outside VPN to avoid location issues"@
    } else if i == 2 {
        "Only route torrent traffic through VPN"@
    } else {
        "Exclude local network ranges"@
    }
}

/// The mode of the preset at index `i`.
pub open spec fn preset_mode(i: int) -> SplitTunnelMode {
    if i == 2 {
        SplitTunnelMode::IncludeOnly
    } else {
        SplitTunnelMode::ExcludeOnly
    }
}

/// The applications of the preset at index `i`.
pub open spec fn preset_apps(i: int) -> Seq<Seq<char>> {
    if i == 0 {
        seq!["Netflix"@, "Disney+"@, "Hulu"@, "Amazon Prime"@, "YouTube"@]
    } else if i == 1 {
        seq!["Banking App"@, "PayPal"@, "Venmo"@]
    } else if i == 2 {
        seq!["qBittorrent"@, "Transmission"@, "uTorrent"@]
    } else {
        Seq::empty()
    }
}

/// A ready-made choice of mode and applications.
#[derive(Debug)]
pub struct PresetConfig {
    pub name: String,
    pub description: String,
    pub mode: SplitTunnelMode,
    pub apps: Vec<String>,
}

impl Clone for PresetConfig {
    fn clone(&self) -> (r: Self)
        ensures
            r.name == self.name,
            r.description == self.description,
            r.mode == self.mode,
            r.apps@ == self.apps@,
    {
        PresetConfig {
            name: self.name.clone(),
            description: self.description.clone(),
            mode: self.mode,
            apps: crate::text::copy_list(&self.apps),
        }
    }
}

impl PresetConfig {
    /// Whether this is the preset that stands at index `i` of the fixed
    /// list.
    pub open spec fn is_preset(self, i: int) -> bool {
        &&& self.name@ == preset_name(i)
        &&& self.description@ == preset_description(i)
        &&& self.mode == preset_mode(i)
        &&& texts(self.apps@) == preset_apps(i)
    }

    /// Applies the preset: the router takes the preset's mode and exactly
    /// the preset's applications. Host names, address blocks and whether the
    /// router is active stay as they are.
    pub fn apply_to(&self, split_tunnel: &mut SplitTunnel)
        ensures
            final(split_tunnel)@ == old(split_tunnel)@.with_preset(self.mode, text_set(self.apps@)),
    {
        split_tunnel.set_mode(self.mode);
        split_tunnel.clear_apps();
        let mut i: usize = 0;
        assert(text_set(self.apps@.take(0)) =~= Set::<Seq<char>>::empty());
        while i < self.apps.len()
            invariant
                i <= self.apps.len(),
                split_tunnel@ == old(split_tunnel)@.with_preset(
                    self.mode,
                    text_set(self.apps@.take(i as int)),
                ),
            decreases self.apps.len() - i,
        {
            split_tunnel.add_app(self.apps[i].clone());
            proof {
                let a = self.apps@.take(i as int);
                let b = self.apps@.take(i + 1);
                assert forall|t: Seq<char>| text_set(b).contains(t) == text_set(a).insert(
                    self.apps@[i as int]@,
                ).contains(t) by {
                    if text_set(b).contains(t) {
                        let j = choose|j: int| 0 <= j < b.len() && (#[trigger] b[j])@ == t;
                        if j < i {
                            assert(a[j]@ == t);
                        }
                    }
                    if text_set(a).insert(self.apps@[i as int]@).contains(t) {
                        if t == self.apps@[i as int]@ {
                            assert(b[i as int]@ == t);
                        } else {
                            let j = choose|j: int| 0 <= j < a.len() && (#[trigger] a[j])@ == t;
                            assert(b[j]@ == t);
                        }
                    }
                }
                assert(text_set(b) =~= text_set(a).insert(self.apps@[i as int]@));
            }
            i += 1;
        }
        assert(self.apps@.take(self.apps.len() as int) =~= self.apps@);
    }
}

} // verus!
