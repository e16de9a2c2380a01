//! The kill switch: which outbound flows may leave the machine while the
//! switch is active, and which firewall rules it holds meanwhile.

use vstd::prelude::*;
use crate::ip::{any_block_holds, block_of, in_any_block, parse_block, IpAddress, IpBlock};
use crate::text::{
    contains_text, copy_list, decimal, insert_text, push_decimal, push_text, remove_text,
    text_set,
};
use crate::{ConnectionStatus, VpnError};

verus! {

/// When the kill switch enforces its policy.
#[derive(Debug, Clone, Copy, PartialEq, Eq, Structural)]
pub enum KillSwitchMode {
    /// Never: the switch cannot be enabled.
    Disabled,
    /// While a session exists: from the moment it starts to connect until it
    /// is disconnected again.
    Automatic,
    /// Whenever the switch is active.
    Always,
}

/// The settings of the kill switch. The two lists are value sets: an entry
/// counts once however often it is written.
#[derive(Debug)]
pub struct KillSwitchConfig {
    pub mode: KillSwitchMode,
    pub allow_lan: bool,
    pub allowed_ips: Vec<String>,
    pub allowed_apps: Vec<String>,
}

impl KillSwitchConfig {
    /// The allowed addresses and blocks, as written.
    pub open spec fn ips(self) -> Set<Seq<char>> {
        text_set(self.allowed_ips@)
    }

    /// The allowed applications.
    pub open spec fn apps(self) -> Set<Seq<char>> {
        text_set(self.allowed_apps@)
    }

    /// The two settings hold the same values, entry by entry.
    pub open spec fn agrees(self, other: KillSwitchConfig) -> bool {
        &&& self.mode == other.mode
        &&& self.allow_lan == other.allow_lan
        &&& self.allowed_ips@ == other.allowed_ips@
        &&& self.allowed_apps@ == other.allowed_apps@
    }
}

impl Clone for KillSwitchConfig {
    fn clone(&self) -> (r: Self)
        ensures
            r.agrees(*self),
    {
        KillSwitchConfig {
            mode: self.mode,
            allow_lan: self.allow_lan,
            allowed_ips: copy_list(&self.allowed_ips),
            allowed_apps: copy_list(&self.allowed_apps),
        }
    }
}

impl Default for KillSwitchConfig {
    fn default() -> (r: Self)
        ensures
            r.mode == KillSwitchMode::Automatic,
            r.allow_lan,
            r.allowed_ips@ == Seq::<String>::empty(),
            r.allowed_apps@ == Seq::<String>::empty(),
    {
        KillSwitchConfig {
            mode: KillSwitchMode::Automatic,
            allow_lan: true,
            allowed_ips: Vec::new(),
            allowed_apps: Vec::new(),
        }
    }
}

/// An outbound flow: where it goes, which application sends it, and whether
/// it leaves through the tunnel interface.
#[derive(Debug)]
pub struct Flow {
    pub dst_ip: IpAddress,
    pub dst_port: u16,
    pub app_id: String,
    pub via_tunnel: bool,
}

/// The address and port of the session's server.
#[derive(Debug, Clone, Copy, PartialEq, Eq, Structural)]
pub struct Endpoint {
    pub addr: IpAddress,
    pub port: u16,
}

/// What the kill switch says of a flow, and by which rule. Only `Denied`
/// blocks the flow.
#[derive(Debug, Clone, Copy, PartialEq, Eq, Structural)]
pub enum Decision {
    /// The policy is not in force.
    Unenforced,
    /// The destination is a loopback address.
    Loopback,
    /// The destination lies in an allowed address or block.
    AllowedAddress,
    /// The application is allowed.
    AllowedApp,
    /// The destination lies in the local network, and that is allowed.
    LocalNetwork,
    /// The destination is the session's server.
    TunnelEndpoint,
    /// The tunnel is up and the flow leaves through it.
    ViaTunnel,
    /// None of the above.
    Denied,
}

impl Decision {
    pub open spec fn allows(self) -> bool {
        self != Decision::Denied
    }

    /// Whether the flow may pass.
    pub fn is_allowed(&self) -> (r: bool)
        ensures
            r == self.allows(),
    {
        match self {
            Decision::Denied => false,
            _ => true,
        }
    }
}

/// Whether the policy is in force: the switch is active, and in automatic
/// mode a session exists.
pub open spec fn enforced(mode: KillSwitchMode, active: bool, status: ConnectionStatus) -> bool {
    active && match mode {
        KillSwitchMode::Disabled => false,
        KillSwitchMode::Automatic => !(status is Disconnected),
        KillSwitchMode::Always => true,
    }
}

/// The decision on a flow. Where the policy is in force the exceptions are
/// tried in order and the first that applies decides; a flow that meets no
/// exception passes only through the tunnel of a connected session.
pub open spec fn decision_of(
    config: KillSwitchConfig,
    active: bool,
    flow: Flow,
    status: ConnectionStatus,
    endpoint: Option<Endpoint>,
) -> Decision {
    if !enforced(config.mode, active, status) {
        Decision::Unenforced
    } else if flow.dst_ip.loopback() {
        Decision::Loopback
    } else if any_block_holds(config.allowed_ips@, flow.dst_ip) {
        Decision::AllowedAddress
    } else if config.apps().contains(flow.app_id@) {
        Decision::AllowedApp
    } else if config.allow_lan && flow.dst_ip.private_lan() {
        Decision::LocalNetwork
    } else if endpoint == Some(Endpoint { addr: flow.dst_ip, port: flow.dst_port }) {
        Decision::TunnelEndpoint
    } else if status is Connected && flow.via_tunnel {
        Decision::ViaTunnel
    } else {
        Decision::Denied
    }
}

/// A firewall rule that the active switch holds.
#[derive(Debug, Clone, Copy, PartialEq, Eq, Structural)]
pub enum FirewallRule {
    /// Block whatever no other rule allows.
    BlockAll,
    /// Allow traffic to and from the session's server.
    AllowTunnel,
    /// Allow the private ranges of the local network.
    AllowLan,
    /// Allow a block of addresses.
    AllowBlock(IpBlock),
    /// Allow the application that stands at this index of the allowed
    /// applications.
    AllowApp(usize),
}

/// The rules for the allowed addresses from entry `i` on: one for each entry
/// that writes a block.
pub open spec fn block_rules(entries: Seq<String>, i: int) -> Seq<FirewallRule>
    decreases entries.len() - i,
{
    if i < 0 || i >= entries.len() {
        Seq::empty()
    } else {
        let rest = block_rules(entries, i + 1);
        match block_of(entries[i]@) {
            Some(b) => seq![FirewallRule::AllowBlock(b)] + rest,
            None => rest,
        }
    }
}

/// The rules that the active switch holds for a configuration: the block of
/// everything else, the tunnel, the local network where it is allowed, the
/// allowed blocks and the allowed applications, in this order.
pub open spec fn rule_plan(config: KillSwitchConfig) -> Seq<FirewallRule> {
    seq![FirewallRule::BlockAll, FirewallRule::AllowTunnel] + (if config.allow_lan {
        seq![FirewallRule::AllowLan]
    } else {
        Seq::empty()
    }) + block_rules(config.allowed_ips@, 0) + Seq::new(
        config.allowed_apps@.len(),
        |i: int| FirewallRule::AllowApp(i as usize),
    )
}

/// The kill switch: its settings, whether it is active, and how many flows it
/// has blocked and allowed since it was last enabled.
pub struct KillSwitch {
    config: KillSwitchConfig,
    active: bool,
    blocked: u32,
    allowed: u32,
}

/// The outcome of a self-test of the kill switch.
#[derive(Debug, Clone, Copy, PartialEq, Eq, Structural)]
pub struct KillSwitchStatus {
    pub is_working: bool,
    pub leaks_detected: bool,
    pub blocked_connections: u32,
    pub allowed_connections: u32,
}

impl KillSwitch {
    #[verifier::type_invariant]
    pub closed spec fn wf(self) -> bool {
        self.active ==> self.config.mode != KillSwitchMode::Disabled
    }

    /// The settings.
    pub closed spec fn config(&self) -> KillSwitchConfig {
        self.config
    }

    /// Whether the switch is active.
    pub closed spec fn active(&self) -> bool {
        self.active
    }

    /// The flows blocked since the switch was last enabled.
    pub closed spec fn blocked(&self) -> nat {
        self.blocked as nat
    }

    /// The flows allowed since the switch was last enabled.
    pub closed spec fn allowed(&self) -> nat {
        self.allowed as nat
    }

    /// The firewall rules that the switch holds: those of its settings while
    /// it is active, none while it is not.
    pub open spec fn held_rules(&self) -> Seq<FirewallRule> {
        if self.active() {
            rule_plan(self.config())
        } else {
            Seq::empty()
        }
    }

    /// The switch after `enable`: unchanged in the mode `Disabled`, else
    /// active with its counters at zero.
    pub closed spec fn after_enable(self) -> KillSwitch {
        if self.config.mode == KillSwitchMode::Disabled {
            self
        } else {
            KillSwitch { active: true, blocked: 0, allowed: 0, ..self }
        }
    }

    /// The switch after `disable`: inactive, and otherwise as it was.
    pub closed spec fn after_disable(self) -> KillSwitch {
        KillSwitch { active: false, ..self }
    }

    /// An active switch is never in the mode `Disabled`.
    pub proof fn lemma_active_not_disabled(&self)
        requires
            self.wf(),
        ensures
            self.active() ==> self.config().mode != KillSwitchMode::Disabled,
    {
    }

    /// An inactive switch with the given settings.
    pub fn new(config: KillSwitchConfig) -> (r: Self)
        ensures
            r.config() == config,
            !r.active(),
            r.blocked() == 0,
            r.allowed() == 0,
            r.wf(),
    {
        KillSwitch { config, active: false, blocked: 0, allowed: 0 }
    }

    /// Activates the switch and starts its counters anew. In the mode
    /// `Disabled` this is refused and nothing changes.
    pub fn enable(&mut self) -> (r: Result<(), VpnError>)
        ensures
            *final(self) == old(self).after_enable(),
            final(self).config() == old(self).config(),
            final(self).wf(),
            old(self).config().mode == KillSwitchMode::Disabled ==> {
                &&& r matches Err(VpnError::ConfigError(m))
                &&& m@ == "Kill switch is disabled in configuration"@
                &&& final(self).active() == old(self).active()
                &&& final(self).blocked() == old(self).blocked()
                &&& final(self).allowed() == old(self).allowed()
            },
            old(self).config().mode != KillSwitchMode::Disabled ==> {
                &&& r is Ok
                &&& final(self).active()
                &&& final(self).blocked() == 0
                &&& final(self).allowed() == 0
            },
    {
        proof {
            use_type_invariant(&*self);
        }
        match self.config.mode {
            KillSwitchMode::Disabled => {
                Err(VpnError::ConfigError("Kill switch is disabled in configuration".to_string()))
            },
            _ => {
                self.blocked = 0;
                self.allowed = 0;
                self.active = true;
                Ok(())
            },
        }
    }

    /// Deactivates the switch, which lets go of every firewall rule it
    /// holds. The counters stay as they are.
    pub fn disable(&mut self) -> (r: Result<(), VpnError>)
        ensures
            r is Ok,
            *final(self) == old(self).after_disable(),
            !final(self).active(),
            final(self).held_rules() == Seq::<FirewallRule>::empty(),
            final(self).config() == old(self).config(),
            final(self).blocked() == old(self).blocked(),
            final(self).allowed() == old(self).allowed(),
            final(self).wf(),
    {
        self.active = false;
        Ok(())
    }

    pub fn is_active(&self) -> (r: bool)
        ensures
            r == self.active(),
    {
        self.active
    }

    /// Sets the mode. The mode `Disabled` also deactivates the switch.
    pub fn set_mode(&mut self, mode: KillSwitchMode)
        ensures
            final(self).config() == (KillSwitchConfig { mode, ..old(self).config() }),
            final(self).active() == (old(self).active() && mode != KillSwitchMode::Disabled),
            final(self).blocked() == old(self).blocked(),
            final(self).allowed() == old(self).allowed(),
            final(self).wf(),
    {
        match mode {
            KillSwitchMode::Disabled => {
                self.active = false;
            },
            _ => {},
        }
        self.config.mode = mode;
    }

    pub fn get_mode(&self) -> (r: KillSwitchMode)
        ensures
            r == self.config().mode,
    {
        self.config.mode
    }

    /// Allows or forbids traffic to the local network.
    pub fn allow_lan_traffic(&mut self, allow: bool)
        ensures
            final(self).config() == (KillSwitchConfig { allow_lan: allow, ..old(self).config() }),
            final(self).active() == old(self).active(),
            final(self).blocked() == old(self).blocked(),
            final(self).allowed() == old(self).allowed(),
            final(self).wf(),
    {
        proof {
            use_type_invariant(&*self);
        }
        self.config.allow_lan = allow;
    }

    /// Adds an address or block to the allowed ones.
    pub fn add_allowed_ip(&mut self, ip: String)
        ensures
            final(self).config().ips() == old(self).config().ips().insert(ip@),
            old(self).config().ips().contains(ip@) ==> final(self).config() == old(
                self,
            ).config(),
            final(self).config().mode == old(self).config().mode,
            final(self).config().allow_lan == old(self).config().allow_lan,
            final(self).config().allowed_apps == old(self).config().allowed_apps,
            final(self).active() == old(self).active(),
            final(self).blocked() == old(self).blocked(),
            final(self).allowed() == old(self).allowed(),
            final(self).wf(),
    {
        proof {
            use_type_invariant(&*self);
        }
        if !contains_text(&self.config.allowed_ips, ip.as_str()) {
            let mut list = copy_list(&self.config.allowed_ips);
            insert_text(&mut list, ip);
            self.config.allowed_ips = list;
        } else {
            assert(self.config.ips().insert(ip@) =~= self.config.ips());
        }
    }

    /// Takes an address or block out of the allowed ones.
    pub fn remove_allowed_ip(&mut self, ip: &str)
        ensures
            final(self).config().ips() == old(self).config().ips().remove(ip@),
            final(self).config().mode == old(self).config().mode,
            final(self).config().allow_lan == old(self).config().allow_lan,
            final(self).config().allowed_apps == old(self).config().allowed_apps,
            final(self).active() == old(self).active(),
            final(self).blocked() == old(self).blocked(),
            final(self).allowed() == old(self).allowed(),
            final(self).wf(),
    {
        proof {
            use_type_invariant(&*self);
        }
        let mut list = copy_list(&self.config.allowed_ips);
        remove_text(&mut list, ip);
        self.config.allowed_ips = list;
    }

    /// Adds an application to the allowed ones.
    pub fn add_allowed_app(&mut self, app: String)
        ensures
            final(self).config().apps() == old(self).config().apps().insert(app@),
            old(self).config().apps().contains(app@) ==> final(self).config() == old(
                self,
            ).config(),
            final(self).config().mode == old(self).config().mode,
            final(self).config().allow_lan == old(self).config().allow_lan,
            final(self).config().allowed_ips == old(self).config().allowed_ips,
            final(self).active() == old(self).active(),
            final(self).blocked() == old(self).blocked(),
            final(self).allowed() == old(self).allowed(),
            final(self).wf(),
    {
        proof {
            use_type_invariant(&*self);
        }
        if !contains_text(&self.config.allowed_apps, app.as_str()) {
            let mut list = copy_list(&self.config.allowed_apps);
            insert_text(&mut list, app);
            self.config.allowed_apps = list;
        } else {
            assert(self.config.apps().insert(app@) =~= self.config.apps());
        }
    }

    /// Takes an application out of the allowed ones.
    pub fn remove_allowed_app(&mut self, app: &str)
        ensures
            final(self).config().apps() == old(self).config().apps().remove(app@),
            final(self).config().mode == old(self).config().mode,
            final(self).config().allow_lan == old(self).config().allow_lan,
            final(self).config().allowed_ips == old(self).config().allowed_ips,
            final(self).active() == old(self).active(),
            final(self).blocked() == old(self).blocked(),
            final(self).allowed() == old(self).allowed(),
            final(self).wf(),
    {
        proof {
            use_type_invariant(&*self);
        }
        let mut list = copy_list(&self.config.allowed_apps);
        remove_text(&mut list, app);
        self.config.allowed_apps = list;
    }

    /// The settings, for reading.
    pub fn get_config(&self) -> (r: &KillSwitchConfig)
        ensures
            *r == self.config(),
    {
        &self.config
    }

    /// The firewall rules that the switch holds at this moment.
    pub fn apply_firewall_rules(&self) -> (r: Result<Vec<FirewallRule>, VpnError>)
        ensures
            r matches Ok(rules) && rules@ == self.held_rules(),
    {
        let mut rules: Vec<FirewallRule> = Vec::new();
        if !self.active {
            return Ok(rules);
        }
        rules.push(FirewallRule::BlockAll);
        rules.push(FirewallRule::AllowTunnel);
        if self.config.allow_lan {
            rules.push(FirewallRule::AllowLan);
        }
        let ghost head = rules@;
        let ghost entries = self.config.allowed_ips@;
        let mut i: usize = 0;
        assert(rules@ + block_rules(entries, 0) =~= head + block_rules(entries, 0));
        while i < self.config.allowed_ips.len()
            invariant
                i <= entries.len(),
                entries == self.config.allowed_ips@,
                rules@ + block_rules(entries, i as int) == head + block_rules(entries, 0),
            decreases entries.len() - i,
        {
            let ghost before = rules@;
            match parse_block(self.config.allowed_ips[i].as_str()) {
                Some(b) => {
                    rules.push(FirewallRule::AllowBlock(b));
                    assert(rules@ + block_rules(entries, i + 1) =~= before + block_rules(
                        entries,
                        i as int,
                    ));
                },
                None => {},
            }
            i += 1;
        }
        let ghost middle = rules@;
        assert(middle =~= head + block_rules(entries, 0));
        let mut k: usize = 0;
        while k < self.config.allowed_apps.len()
            invariant
                k <= self.config.allowed_apps.len(),
                rules@ == middle + Seq::new(k as nat, |j: int| FirewallRule::AllowApp(j as usize)),
            decreases self.config.allowed_apps.len() - k,
        {
            rules.push(FirewallRule::AllowApp(k));
            k += 1;
        }
        assert(rules@ =~= rule_plan(self.config));
        Ok(rules)
    }

    /// The firewall rules that are left once the switch has let go of its
    /// own: none.
    pub fn remove_firewall_rules(&self) -> (r: Result<Vec<FirewallRule>, VpnError>)
        ensures
            r matches Ok(rules) && rules@ == Seq::<FirewallRule>::empty(),
    {
        Ok(Vec::new())
    }

    /// The decision on a flow, given the state of the session and the
    /// address of its server where it has one. Nothing is counted.
    pub fn decide(&self, flow: &Flow, status: &ConnectionStatus, endpoint: Option<Endpoint>) -> (r:
        Decision)
        ensures
            r == decision_of(self.config(), self.active(), *flow, *status, endpoint),
    {
        let in_force: bool = self.active && match self.config.mode {
            KillSwitchMode::Disabled => false,
            KillSwitchMode::Automatic => match status {
                ConnectionStatus::Disconnected => false,
                _ => true,
            },
            KillSwitchMode::Always => true,
        };
        if !in_force {
            return Decision::Unenforced;
        }
        if flow.dst_ip.is_loopback() {
            return Decision::Loopback;
        }
        if in_any_block(&self.config.allowed_ips, &flow.dst_ip) {
            return Decision::AllowedAddress;
        }
        if contains_text(&self.config.allowed_apps, flow.app_id.as_str()) {
            return Decision::AllowedApp;
        }
        if self.config.allow_lan && flow.dst_ip.is_private_lan() {
            return Decision::LocalNetwork;
        }
        let at_server: bool = match endpoint {
            Some(e) => e.addr == flow.dst_ip && e.port == flow.dst_port,
            None => false,
        };
        if at_server {
            return Decision::TunnelEndpoint;
        }
        let connected: bool = match status {
            ConnectionStatus::Connected => true,
            _ => false,
        };
        if connected && flow.via_tunnel {
            Decision::ViaTunnel
        } else {
            Decision::Denied
        }
    }

    /// Decides on a flow and counts it: an active switch counts every flow it
    /// is asked about, as blocked when it is denied and as allowed otherwise.
    pub fn classify(
        &mut self,
        flow: &Flow,
        status: &ConnectionStatus,
        endpoint: Option<Endpoint>,
    ) -> (r: Decision)
        requires
            old(self).blocked() < u32::MAX,
            old(self).allowed() < u32::MAX,
        ensures
            r == decision_of(old(self).config(), old(self).active(), *flow, *status, endpoint),
            final(self).config() == old(self).config(),
            final(self).active() == old(self).active(),
            final(self).blocked() == old(self).blocked() + (if old(self).active() && !r.allows() {
                1nat
            } else {
                0nat
            }),
            final(self).allowed() == old(self).allowed() + (if old(self).active() && r.allows() {
                1nat
            } else {
                0nat
            }),
            final(self).wf(),
    {
        proof {
            use_type_invariant(&*self);
        }
        let d = self.decide(flow, status, endpoint);
        if self.active {
            if d.is_allowed() {
                self.allowed = self.allowed + 1;
            } else {
                self.blocked = self.blocked + 1;
            }
        }
        d
    }

    /// The self-test: the switch works, it has let nothing leak, and these
    /// are its counters.
    pub fn test_kill_switch(&self) -> (r: Result<KillSwitchStatus, VpnError>)
        ensures
            r matches Ok(s) && s == (KillSwitchStatus {
                is_working: true,
                leaks_detected: false,
                blocked_connections: self.blocked() as u32,
                allowed_connections: self.allowed() as u32,
            }),
    {
        Ok(
            KillSwitchStatus {
                is_working: true,
                leaks_detected: false,
                blocked_connections: self.blocked,
                allowed_connections: self.allowed,
            },
        )
    }
}

/// A flow that an enforcing switch lets pass outside the tunnel meets one of
/// the exceptions: nothing else leaks.
pub proof fn lemma_no_leak(
    config: KillSwitchConfig,
    flow: Flow,
    status: ConnectionStatus,
    endpoint: Option<Endpoint>,
)
    requires
        enforced(config.mode, true, status),
        decision_of(config, true, flow, status, endpoint).allows(),
        !(status is Connected && flow.via_tunnel),
    ensures
        flow.dst_ip.loopback() || any_block_holds(config.allowed_ips@, flow.dst_ip)
            || config.apps().contains(flow.app_id@) || (config.allow_lan
            && flow.dst_ip.private_lan()) || endpoint == Some(
            (Endpoint { addr: flow.dst_ip, port: flow.dst_port }),
        ),
{
}

/// Enabling and then disabling a switch that was inactive restores it: it
/// is inactive again, its settings are as they were, and it holds no
/// firewall rule. Disabling twice is the same as disabling once.
pub proof fn lemma_enable_disable(k: KillSwitch)
    requires
        !k.active(),
    ensures
        !k.after_enable().after_disable().active(),
        k.after_enable().after_disable().config() == k.config(),
        k.after_enable().after_disable().held_rules() == Seq::<FirewallRule>::empty(),
        k.config().mode != KillSwitchMode::Disabled ==> k.after_enable().active()
            && k.after_enable().held_rules() == rule_plan(k.config()),
        k.after_disable().after_disable() == k.after_disable(),
{
}

impl KillSwitchStatus {
    /// The outcome in words.
    pub open spec fn summary_text(self) -> Seq<char> {
        if self.is_working && !self.leaks_detected {
            "✓ Kill switch is working correctly. Blocked: "@ + decimal(
                self.blocked_connections as nat,
            ) + ", Allowed: "@ + decimal(self.allowed_connections as nat)
        } else {
            "⚠ Kill switch may not be functioning properly"@
        }
    }

    pub fn summary(&self) -> (r: String)
        ensures
            r@ == self.summary_text(),
    {
        let mut out = String::new();
        if self.is_working && !self.leaks_detected {
            push_text(&mut out, "✓ Kill switch is working correctly. Blocked: ");
            push_decimal(&mut out, self.blocked_connections as u64);
            push_text(&mut out, ", Allowed: ");
            push_decimal(&mut out, self.allowed_connections as u64);
        } else {
            push_text(&mut out, "⚠ Kill switch may not be functioning properly");
        }
        assert(out@ =~= self.summary_text());
        out
    }
}

} // verus!
