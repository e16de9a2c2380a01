//! The catalogue of tunnel protocols and the per-session protocol settings.

use vstd::prelude::*;

verus! {

/// A tunnel protocol of the fixed catalogue.
#[derive(Debug, Clone, Copy, PartialEq, Eq, Structural)]
pub enum VpnProtocol {
    OpenVPN,
    WireGuard,
    IKEv2,
    L2TP,
    PPTP,
}

impl VpnProtocol {
    /// The display name of the protocol.
    pub open spec fn name_text(self) -> Seq<char> {
        match self {
            VpnProtocol::OpenVPN => "OpenVPN"@,
            VpnProtocol::WireGuard => "WireGuard"@,
            VpnProtocol::IKEv2 => "IKEv2/IPSec"@,
            VpnProtocol::L2TP => "L2TP/IPSec"@,
            VpnProtocol::PPTP => "PPTP"@,
        }
    }

    /// The one-line description of the protocol.
    pub open spec fn description_text(self) -> Seq<char> {
        match self {
            VpnProtocol::OpenVPN => "Industry standard, highly secure and reliable"@,
            VpnProtocol::WireGuard => "Modern, fast, and efficient protocol"@,
            VpnProtocol::IKEv2 => "Fast and stable, great for mobile"@,
            VpnProtocol::L2TP => "Good security with wide compatibility"@,
            VpnProtocol::PPTP => "Legacy protocol, fast but less secure"@,
        }
    }

    /// The port the protocol listens on unless configured otherwise.
    pub open spec fn port_of(self) -> u16 {
        match self {
            VpnProtocol::OpenVPN => 1194,
            VpnProtocol::WireGuard => 51820,
            VpnProtocol::IKEv2 => 500,
            VpnProtocol::L2TP => 1701,
            VpnProtocol::PPTP => 1723,
        }
    }

    /// The security rating, on a scale from 1 to 10.
    pub open spec fn security_of(self) -> u8 {
        match self {
            VpnProtocol::WireGuard => 10,
            VpnProtocol::OpenVPN => 9,
            VpnProtocol::IKEv2 => 8,
            VpnProtocol::L2TP => 7,
            VpnProtocol::PPTP => 4,
        }
    }

    /// The speed rating, on a scale from 1 to 10.
    pub open spec fn speed_of(self) -> u8 {
        match self {
            VpnProtocol::WireGuard => 10,
            VpnProtocol::PPTP => 9,
            VpnProtocol::IKEv2 => 8,
            VpnProtocol::OpenVPN => 7,
            VpnProtocol::L2TP => 6,
        }
    }

    /// The catalogue, best protocol first.
    pub open spec fn catalogue() -> Seq<VpnProtocol> {
        seq![
            VpnProtocol::WireGuard,
            VpnProtocol::OpenVPN,
            VpnProtocol::IKEv2,
            VpnProtocol::L2TP,
            VpnProtocol::PPTP,
        ]
    }

    pub fn name(&self) -> (r: &'static str)
        ensures
            r@ == self.name_text(),
    {
        match self {
            VpnProtocol::OpenVPN => "OpenVPN",
            VpnProtocol::WireGuard => "WireGuard",
            VpnProtocol::IKEv2 => "IKEv2/IPSec",
            VpnProtocol::L2TP => "L2TP/IPSec",
            VpnProtocol::PPTP => "PPTP",
        }
    }

    pub fn description(&self) -> (r: &'static str)
        ensures
            r@ == self.description_text(),
    {
        match self {
            VpnProtocol::OpenVPN => "Industry standard, highly secure and reliable",
            VpnProtocol::WireGuard => "Modern, fast, and efficient protocol",
            VpnProtocol::IKEv2 => "Fast and stable, great for mobile",
            VpnProtocol::L2TP => "Good security with wide compatibility",
            VpnProtocol::PPTP => "Legacy protocol, fast but less secure",
        }
    }

    pub fn default_port(&self) -> (r: u16)
        ensures
            r == self.port_of(),
    {
        match self {
            VpnProtocol::OpenVPN => 1194,
            VpnProtocol::WireGuard => 51820,
            VpnProtocol::IKEv2 => 500,
            VpnProtocol::L2TP => 1701,
            VpnProtocol::PPTP => 1723,
        }
    }

    /// Only WireGuard and OpenVPN are recommended.
    pub fn is_recommended(&self) -> (r: bool)
        ensures
            r == (*self == VpnProtocol::WireGuard || *self == VpnProtocol::OpenVPN),
    {
        match self {
            VpnProtocol::WireGuard => true,
            VpnProtocol::OpenVPN => true,
            _ => false,
        }
    }

    pub fn security_level(&self) -> (r: u8)
        ensures
            r == self.security_of(),
            1 <= r <= 10,
    {
        match self {
            VpnProtocol::WireGuard => 10,
            VpnProtocol::OpenVPN => 9,
            VpnProtocol::IKEv2 => 8,
            VpnProtocol::L2TP => 7,
            VpnProtocol::PPTP => 4,
        }
    }

    pub fn speed_rating(&self) -> (r: u8)
        ensures
            r == self.speed_of(),
            1 <= r <= 10,
    {
        match self {
            VpnProtocol::WireGuard => 10,
            VpnProtocol::PPTP => 9,
            VpnProtocol::IKEv2 => 8,
            VpnProtocol::OpenVPN => 7,
            VpnProtocol::L2TP => 6,
        }
    }

    /// The catalogue: every protocol, once.
    pub fn all() -> (r: Vec<VpnProtocol>)
        ensures
            r@ == Self::catalogue(),
            r@.no_duplicates(),
            forall|p: VpnProtocol| r@.contains(p),
    {
        let mut v: Vec<VpnProtocol> = Vec::new();
        v.push(VpnProtocol::WireGuard);
        v.push(VpnProtocol::OpenVPN);
        v.push(VpnProtocol::IKEv2);
        v.push(VpnProtocol::L2TP);
        v.push(VpnProtocol::PPTP);
        assert(v@ =~= Self::catalogue());
        proof {
            assert forall|p: VpnProtocol| v@.contains(p) by {
                lemma_catalogue_complete(p);
            }
            lemma_catalogue_complete(VpnProtocol::WireGuard);
        }
        v
    }
}

impl Default for VpnProtocol {
    fn default() -> (r: Self)
        ensures
            r == VpnProtocol::WireGuard,
    {
        VpnProtocol::WireGuard
    }
}

/// The catalogue lists every protocol exactly once.
pub proof fn lemma_catalogue_complete(p: VpnProtocol)
    ensures
        VpnProtocol::catalogue().contains(p),
        VpnProtocol::catalogue().no_duplicates(),
{
    let c = VpnProtocol::catalogue();
    assert(c[0] == VpnProtocol::WireGuard);
    assert(c[1] == VpnProtocol::OpenVPN);
    assert(c[2] == VpnProtocol::IKEv2);
    assert(c[3] == VpnProtocol::L2TP);
    assert(c[4] == VpnProtocol::PPTP);
}

/// How a session speaks to its server.
#[derive(Debug, Clone, Copy, PartialEq, Eq, Structural)]
pub struct ProtocolConfig {
    pub protocol: VpnProtocol,
    pub port: u16,
    pub use_tcp: bool,
    pub obfuscation: bool,
    pub mtu: u16,
}

impl ProtocolConfig {
    /// The settings a protocol starts with: its own port, UDP, no
    /// obfuscation, an MTU of 1420.
    pub open spec fn initial(protocol: VpnProtocol) -> ProtocolConfig {
        ProtocolConfig {
            protocol,
            port: protocol.port_of(),
            use_tcp: false,
            obfuscation: false,
            mtu: 1420,
        }
    }

    pub fn new(protocol: VpnProtocol) -> (r: Self)
        ensures
            r == Self::initial(protocol),
    {
        ProtocolConfig {
            protocol,
            port: protocol.default_port(),
            use_tcp: false,
            obfuscation: false,
            mtu: 1420,
        }
    }

    pub fn with_obfuscation(self, enabled: bool) -> (r: Self)
        ensures
            r == (ProtocolConfig { obfuscation: enabled, ..self }),
    {
        let mut c = self;
        c.obfuscation = enabled;
        c
    }

    pub fn with_tcp(self, use_tcp: bool) -> (r: Self)
        ensures
            r == (ProtocolConfig { use_tcp, ..self }),
    {
        let mut c = self;
        c.use_tcp = use_tcp;
        c
    }

    pub fn with_mtu(self, mtu: u16) -> (r: Self)
        ensures
            r == (ProtocolConfig { mtu, ..self }),
    {
        let mut c = self;
        c.mtu = mtu;
        c
    }
}

impl Default for ProtocolConfig {
    fn default() -> (r: Self)
        ensures
            r == ProtocolConfig::initial(VpnProtocol::WireGuard),
    {
        ProtocolConfig::new(VpnProtocol::WireGuard)
    }
}

} // verus!
