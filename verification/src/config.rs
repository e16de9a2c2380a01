//! The settings of the client, their validation and the ready-made
//! presets, and the subscription tiers.

use vstd::prelude::*;
use crate::connection::ReconnectPolicy;
use crate::dns::DnsMode;
use crate::killswitch::{KillSwitchConfig, KillSwitchMode};
use crate::protocol::{ProtocolConfig, VpnProtocol};
use crate::split_tunnel::{SplitTunnelConfig, SplitTunnelMode};
use crate::text::str_eq;

verus! {

/// The least time, in seconds, that a connection attempt must be given.
pub const MIN_CONNECT_TIMEOUT: u32 = 5;

/// The most attempts a reconnect may make.
pub const MAX_RECONNECT_ATTEMPTS: u32 = 10;

/// The smallest packet size that is accepted.
pub const MIN_MTU: u16 = 1280;

/// The largest packet size that is accepted.
pub const MAX_MTU: u16 = 1500;

/// The settings of the client. `connect_timeout` is in seconds.
#[derive(Debug)]
pub struct VpnConfig {
    pub auto_connect: bool,
    pub auto_connect_server: Option<String>,
    pub start_on_boot: bool,
    pub minimize_to_tray: bool,
    pub protocol_config: ProtocolConfig,
    pub kill_switch: KillSwitchConfig,
    pub dns_mode: DnsMode,
    pub ipv6_leak_protection: bool,
    pub webrtc_leak_protection: bool,
    pub split_tunnel: SplitTunnelConfig,
    pub mtu: u16,
    pub connect_timeout: u32,
    pub reconnect_on_disconnect: bool,
    pub reconnect_attempts: u32,
    pub block_trackers: bool,
    pub block_ads: bool,
    pub block_malware: bool,
    pub anonymous_usage_stats: bool,
    pub show_notifications: bool,
    pub notify_on_connect: bool,
    pub notify_on_disconnect: bool,
    pub notify_on_ip_change: bool,
}

impl Clone for VpnConfig {
    fn clone(&self) -> (r: Self)
        ensures
            r.auto_connect == self.auto_connect,
            r.auto_connect_server == self.auto_connect_server,
            r.start_on_boot == self.start_on_boot,
            r.minimize_to_tray == self.minimize_to_tray,
            r.protocol_config == self.protocol_config,
            r.kill_switch.agrees(self.kill_switch),
            r.dns_mode == self.dns_mode,
            r.ipv6_leak_protection == self.ipv6_leak_protection,
            r.webrtc_leak_protection == self.webrtc_leak_protection,
            r.split_tunnel.mode == self.split_tunnel.mode,
            r.split_tunnel.apps@ == self.split_tunnel.apps@,
            r.split_tunnel.domains@ == self.split_tunnel.domains@,
            r.split_tunnel.ip_ranges@ == self.split_tunnel.ip_ranges@,
            r.mtu == self.mtu,
            r.connect_timeout == self.connect_timeout,
            r.reconnect_on_disconnect == self.reconnect_on_disconnect,
            r.reconnect_attempts == self.reconnect_attempts,
            r.block_trackers == self.block_trackers,
            r.block_ads == self.block_ads,
            r.block_malware == self.block_malware,
            r.anonymous_usage_stats == self.anonymous_usage_stats,
            r.show_notifications == self.show_notifications,
            r.notify_on_connect == self.notify_on_connect,
            r.notify_on_disconnect == self.notify_on_disconnect,
            r.notify_on_ip_change == self.notify_on_ip_change,
            r.fault() == self.fault(),
    {
        VpnConfig {
            auto_connect: self.auto_connect,
            auto_connect_server: match &self.auto_connect_server {
                Some(s) => Some(s.clone()),
                None => None,
            },
            start_on_boot: self.start_on_boot,
            minimize_to_tray: self.minimize_to_tray,
            protocol_config: self.protocol_config,
            kill_switch: self.kill_switch.clone(),
            dns_mode: self.dns_mode.clone(),
            ipv6_leak_protection: self.ipv6_leak_protection,
            webrtc_leak_protection: self.webrtc_leak_protection,
            split_tunnel: self.split_tunnel.clone(),
            mtu: self.mtu,
            connect_timeout: self.connect_timeout,
            reconnect_on_disconnect: self.reconnect_on_disconnect,
            reconnect_attempts: self.reconnect_attempts,
            block_trackers: self.block_trackers,
            block_ads: self.block_ads,
            block_malware: self.block_malware,
            anonymous_usage_stats: self.anonymous_usage_stats,
            show_notifications: self.show_notifications,
            notify_on_connect: self.notify_on_connect,
            notify_on_disconnect: self.notify_on_disconnect,
            notify_on_ip_change: self.notify_on_ip_change,
        }
    }
}

/// Why settings are refused.
#[derive(Debug, Clone, Copy, PartialEq, Eq, Structural)]
pub enum ConfigFault {
    TimeoutTooShort,
    TooManyAttempts,
    MtuOutOfRange,
}

impl ConfigFault {
    /// The fault in words.
    pub open spec fn text(self) -> Seq<char> {
        match self {
            ConfigFault::TimeoutTooShort => "Connect timeout must be at least 5 seconds"@,
            ConfigFault::TooManyAttempts => "Reconnect attempts cannot exceed 10"@,
            ConfigFault::MtuOutOfRange => "MTU must be between 1280 and 1500"@,
        }
    }
}

impl VpnConfig {
    /// Settings are accepted when the connect timeout is at least 5 seconds,
    /// the reconnect attempts are at most 10, and the MTU lies between 1280
    /// and 1500, both included.
    pub open spec fn valid(self) -> bool {
        self.fault() is None
    }

    /// The first rule that the settings break, in the order timeout,
    /// attempts, MTU.
    pub open spec fn fault(self) -> Option<ConfigFault> {
        if self.connect_timeout < 5 {
            Some(ConfigFault::TimeoutTooShort)
        } else if self.reconnect_attempts > 10 {
            Some(ConfigFault::TooManyAttempts)
        } else if self.mtu < 1280 || self.mtu > 1500 {
            Some(ConfigFault::MtuOutOfRange)
        } else {
            None
        }
    }

    /// Whether the settings are the initial ones but for the protocol, the
    /// kill switch's mode and local network, the split-tunnel mode, the
    /// reconnect attempts and the blocking of trackers and advertising,
    /// which are the given ones.
    pub open spec fn is_initial_with(
        self,
        protocol_config: ProtocolConfig,
        kill_switch_mode: KillSwitchMode,
        allow_lan: bool,
        split_tunnel_mode: SplitTunnelMode,
        reconnect_attempts: u32,
        block_trackers: bool,
        block_ads: bool,
    ) -> bool {
        &&& !self.auto_connect
        &&& self.auto_connect_server is None
        &&& !self.start_on_boot
        &&& self.minimize_to_tray
        &&& self.protocol_config == protocol_config
        &&& self.kill_switch.mode == kill_switch_mode
        &&& self.kill_switch.allow_lan == allow_lan
        &&& self.kill_switch.allowed_ips@ == Seq::<String>::empty()
        &&& self.kill_switch.allowed_apps@ == Seq::<String>::empty()
        &&& self.dns_mode is Auto
        &&& self.ipv6_leak_protection
        &&& self.webrtc_leak_protection
        &&& self.split_tunnel.mode == split_tunnel_mode
        &&& self.split_tunnel.apps@ == Seq::<String>::empty()
        &&& self.split_tunnel.domains@ == Seq::<String>::empty()
        &&& self.split_tunnel.ip_ranges@ == Seq::<String>::empty()
        &&& self.mtu == 1420
        &&& self.connect_timeout == 30
        &&& self.reconnect_on_disconnect
        &&& self.reconnect_attempts == reconnect_attempts
        &&& self.block_trackers == block_trackers
        &&& self.block_ads == block_ads
        &&& self.block_malware
        &&& !self.anonymous_usage_stats
        &&& self.show_notifications
        &&& self.notify_on_connect
        &&& self.notify_on_disconnect
        &&& !self.notify_on_ip_change
    }

    fn initial_with(
        protocol_config: ProtocolConfig,
        kill_switch_mode: KillSwitchMode,
        allow_lan: bool,
        split_tunnel_mode: SplitTunnelMode,
        reconnect_attempts: u32,
        block_trackers: bool,
        block_ads: bool,
    ) -> (r: Self)
        ensures
            r.is_initial_with(
                protocol_config,
                kill_switch_mode,
                allow_lan,
                split_tunnel_mode,
                reconnect_attempts,
                block_trackers,
                block_ads,
            ),
    {
        VpnConfig {
            auto_connect: false,
            auto_connect_server: None,
            start_on_boot: false,
            minimize_to_tray: true,
            protocol_config,
            kill_switch: KillSwitchConfig {
                mode: kill_switch_mode,
                allow_lan,
                allowed_ips: Vec::new(),
                allowed_apps: Vec::new(),
            },
            dns_mode: DnsMode::Auto,
            ipv6_leak_protection: true,
            webrtc_leak_protection: true,
            split_tunnel: SplitTunnelConfig {
                mode: split_tunnel_mode,
                apps: Vec::new(),
                domains: Vec::new(),
                ip_ranges: Vec::new(),
            },
            mtu: 1420,
            connect_timeout: 30,
            reconnect_on_disconnect: true,
            reconnect_attempts,
            block_trackers,
            block_ads,
            block_malware: true,
            anonymous_usage_stats: false,
            show_notifications: true,
            notify_on_connect: true,
            notify_on_disconnect: true,
            notify_on_ip_change: false,
        }
    }

    /// The preset for the most security: WireGuard with obfuscation, the
    /// kill switch always on and the local network shut out, trackers,
    /// advertising and malware blocked.
    pub fn preset_maximum_security() -> (r: Self)
        ensures
            r.is_initial_with(
                (ProtocolConfig {
                    obfuscation: true,
                    ..ProtocolConfig::initial(VpnProtocol::WireGuard)
                }),
                KillSwitchMode::Always,
                false,
                SplitTunnelMode::Disabled,
                3,
                true,
                true,
            ),
            r.valid(),
    {
        Self::initial_with(
            ProtocolConfig::new(VpnProtocol::WireGuard).with_obfuscation(true),
            KillSwitchMode::Always,
            false,
            SplitTunnelMode::Disabled,
            3,
            true,
            true,
        )
    }

    /// The preset for streaming: WireGuard, no kill switch, five reconnect
    /// attempts.
    pub fn preset_streaming() -> (r: Self)
        ensures
            r.is_initial_with(
                ProtocolConfig::initial(VpnProtocol::WireGuard),
                KillSwitchMode::Disabled,
                true,
                SplitTunnelMode::Disabled,
                5,
                false,
                false,
            ),
            r.valid(),
    {
        Self::initial_with(
            ProtocolConfig::new(VpnProtocol::WireGuard),
            KillSwitchMode::Disabled,
            true,
            SplitTunnelMode::Disabled,
            5,
            false,
            false,
        )
    }

    /// The preset for torrents: OpenVPN, the kill switch always on with the
    /// local network let through, and only selected traffic in the tunnel.
    pub fn preset_torrenting() -> (r: Self)
        ensures
            r.is_initial_with(
                ProtocolConfig::initial(VpnProtocol::OpenVPN),
                KillSwitchMode::Always,
                true,
                SplitTunnelMode::IncludeOnly,
                3,
                false,
                false,
            ),
            r.valid(),
    {
        Self::initial_with(
            ProtocolConfig::new(VpnProtocol::OpenVPN),
            KillSwitchMode::Always,
            true,
            SplitTunnelMode::IncludeOnly,
            3,
            false,
            false,
        )
    }

    /// The first rule that the settings break, if they break one.
    pub fn check(&self) -> (r: Option<ConfigFault>)
        ensures
            r == self.fault(),
    {
        if self.connect_timeout < MIN_CONNECT_TIMEOUT {
            Some(ConfigFault::TimeoutTooShort)
        } else if self.reconnect_attempts > MAX_RECONNECT_ATTEMPTS {
            Some(ConfigFault::TooManyAttempts)
        } else if self.mtu < MIN_MTU || self.mtu > MAX_MTU {
            Some(ConfigFault::MtuOutOfRange)
        } else {
            None
        }
    }

    /// Accepts the settings or says, in words, which rule they break first.
    pub fn validate(&self) -> (r: Result<(), String>)
        ensures
            match r {
                Ok(_) => self.valid(),
                Err(m) => self.fault() matches Some(f) && m@ == f.text(),
            },
    {
        match self.check() {
            None => Ok(()),
            Some(ConfigFault::TimeoutTooShort) => Err(
                "Connect timeout must be at least 5 seconds".to_string(),
            ),
            Some(ConfigFault::TooManyAttempts) => Err(
                "Reconnect attempts cannot exceed 10".to_string(),
            ),
            Some(ConfigFault::MtuOutOfRange) => Err(
                "MTU must be between 1280 and 1500".to_string(),
            ),
        }
    }

    /// What the session controller does on a fault, as these settings say.
    pub fn reconnect_policy(&self) -> (r: ReconnectPolicy)
        ensures
            r == (ReconnectPolicy {
                reconnect_on_disconnect: self.reconnect_on_disconnect,
                reconnect_attempts: self.reconnect_attempts,
            }),
    {
        ReconnectPolicy {
            reconnect_on_disconnect: self.reconnect_on_disconnect,
            reconnect_attempts: self.reconnect_attempts,
        }
    }

    /// Whether a connection attempt that started at `started` has run out of
    /// time at `now`: the connect timeout has passed.
    pub fn has_timed_out(&self, started: i64, now: i64) -> (r: bool)
        ensures
            r == (now - started >= self.connect_timeout),
    {
        (now as i128) - (started as i128) >= (self.connect_timeout as i128)
    }
}

impl Default for VpnConfig {
    fn default() -> (r: Self)
        ensures
            r.is_initial_with(
                ProtocolConfig::initial(VpnProtocol::WireGuard),
                KillSwitchMode::Automatic,
                true,
                SplitTunnelMode::Disabled,
                3,
                false,
                false,
            ),
            r.valid(),
    {
        VpnConfig::initial_with(
            ProtocolConfig::new(VpnProtocol::WireGuard),
            KillSwitchMode::Automatic,
            true,
            SplitTunnelMode::Disabled,
            3,
            false,
            false,
        )
    }
}

/// The bounds of validation are sharp: a timeout of 5 seconds passes and one
/// of 4 does not, an MTU of 1280 or 1500 passes and one of 1279 or 1501
/// does not, ten attempts pass and eleven do not.
pub proof fn lemma_validation_bounds(c: VpnConfig)
    ensures
        c.valid() <==> c.connect_timeout >= 5 && c.reconnect_attempts <= 10 && 1280 <= c.mtu
            <= 1500,
        c.valid() ==> (VpnConfig { connect_timeout: 5, ..c }).valid(),
        !(VpnConfig { connect_timeout: 4, ..c }).valid(),
        c.valid() ==> (VpnConfig { mtu: 1280, ..c }).valid(),
        c.valid() ==> (VpnConfig { mtu: 1500, ..c }).valid(),
        !(VpnConfig { mtu: 1279, ..c }).valid() && !(VpnConfig { mtu: 1501, ..c }).valid(),
        c.valid() ==> (VpnConfig { reconnect_attempts: 10, ..c }).valid(),
        !(VpnConfig { reconnect_attempts: 11, ..c }).valid(),
{
}

/// What a subscription includes.
#[derive(Debug, Clone, Copy, PartialEq, Eq, Structural)]
pub enum SubscriptionTier {
    Free,
    Premium,
    Business,
}

impl SubscriptionTier {
    pub open spec fn name_text(self) -> Seq<char> {
        match self {
            SubscriptionTier::Free => "Free"@,
            SubscriptionTier::Premium => "Premium"@,
            SubscriptionTier::Business => "Business"@,
        }
    }

    /// The devices that may use the subscription at once.
    pub open spec fn devices(self) -> u32 {
        match self {
            SubscriptionTier::Free => 1,
            SubscriptionTier::Premium => 5,
            SubscriptionTier::Business => 10,
        }
    }

    /// The free tier includes the feature `basic_vpn` and no other; the paid
    /// tiers include every feature.
    pub open spec fn includes(self, feature: Seq<char>) -> bool {
        match self {
            SubscriptionTier::Free => feature == "basic_vpn"@,
            _ => true,
        }
    }

    pub fn name(&self) -> (r: &'static str)
        ensures
            r@ == self.name_text(),
    {
        match self {
            SubscriptionTier::Free => "Free",
            SubscriptionTier::Premium => "Premium",
            SubscriptionTier::Business => "Business",
        }
    }

    pub fn max_devices(&self) -> (r: u32)
        ensures
            r == self.devices(),
    {
        match self {
            SubscriptionTier::Free => 1,
            SubscriptionTier::Premium => 5,
            SubscriptionTier::Business => 10,
        }
    }

    pub fn has_feature(&self, feature: &str) -> (r: bool)
        ensures
            r == self.includes(feature@),
    {
        match self {
            SubscriptionTier::Free => str_eq(feature, "basic_vpn"),
            _ => true,
        }
    }
}

/// A user of the service. `subscription_expires` is in seconds since the
/// Unix epoch, `data_limit` in bytes per month, absent where there is no
/// limit.
#[derive(Debug)]
pub struct UserProfile {
    pub username: String,
    pub email: String,
    pub subscription_tier: SubscriptionTier,
    pub subscription_expires: Option<i64>,
    pub max_devices: u32,
    pub data_limit: Option<u64>,
}

impl Clone for UserProfile {
    fn clone(&self) -> (r: Self)
        ensures
            r == *self,
    {
        UserProfile {
            username: self.username.clone(),
            email: self.email.clone(),
            subscription_tier: self.subscription_tier,
            subscription_expires: self.subscription_expires,
            max_devices: self.max_devices,
            data_limit: self.data_limit,
        }
    }
}

impl Default for UserProfile {
    fn default() -> (r: Self)
        ensures
            r.username@ == "user"@,
            r.email@ == "user@example.com"@,
            r.subscription_tier == SubscriptionTier::Free,
            r.subscription_expires is None,
            r.max_devices == 1,
            r.data_limit == Some(10_737_418_240u64),
    {
        UserProfile {
            username: "user".to_string(),
            email: "user@example.com".to_string(),
            subscription_tier: SubscriptionTier::Free,
            subscription_expires: None,
            max_devices: 1,
            data_limit: Some(10_737_418_240),
        }
    }
}

} // verus!
