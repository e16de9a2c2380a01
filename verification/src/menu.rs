//! The decisions of a text front-end: what a line of input chooses from a
//! menu, and what the choice does to the settings and the enforcers.

use vstd::prelude::*;
use crate::config::VpnConfig;
use crate::ip::run_end;
use crate::killswitch::{KillSwitch, KillSwitchMode};
use crate::protocol::{ProtocolConfig, VpnProtocol};
use crate::server::Country;
use crate::split_tunnel::{SplitTunnel, SplitTunnelMode};
use crate::text::{chars_of, numeral_value};
use crate::VpnError;

verus! {

/// White space: the characters that Unicode lists as such.
pub open spec fn is_space(c: char) -> bool {
    ('\u{9}' <= c <= '\u{d}') || c == ' ' || c == '\u{85}' || c == '\u{a0}' || c == '\u{1680}' || (
    '\u{2000}' <= c <= '\u{200a}') || c == '\u{2028}' || c == '\u{2029}' || c == '\u{202f}' || c
        == '\u{205f}' || c == '\u{3000}'
}

/// Where the text starts once the white space at its start is passed over,
/// looking from `i` on.
pub open spec fn start_of(s: Seq<char>, i: int) -> int
    decreases s.len() - i,
{
    if i < 0 || i >= s.len() || !is_space(s[i]) {
        i
    } else {
        start_of(s, i + 1)
    }
}

/// Where the text ends once the white space at its end is passed over,
/// looking back from `j`, and not further back than `from`.
pub open spec fn end_of(s: Seq<char>, from: int, j: int) -> int
    decreases j,
{
    if j <= from || j > s.len() || j <= 0 || !is_space(s[j - 1]) {
        j
    } else {
        end_of(s, from, j - 1)
    }
}

/// The text without the white space at its start and at its end.
pub open spec fn trimmed(s: Seq<char>) -> Seq<char> {
    let a = start_of(s, 0);
    s.subrange(a, end_of(s, a, s.len() as int))
}

/// The number that a text writes in the way of a menu choice: digits, after
/// an optional plus sign.
pub open spec fn number_of(t: Seq<char>) -> Option<nat> {
    let digits = if t.len() > 0 && t[0] == '+' {
        t.skip(1)
    } else {
        t
    };
    if digits.len() >= 1 && run_end(digits, 0) == digits.len() {
        Some(numeral_value(digits))
    } else {
        None
    }
}

/// The entry that a line of input picks from a menu of `count` entries
/// numbered from one, counted from zero: the line, trimmed, must write a
/// number from 1 to `count`.
pub open spec fn pick_of(line: Seq<char>, count: nat) -> Option<nat> {
    match number_of(trimmed(line)) {
        Some(n) => if 1 <= n <= count {
            Some((n - 1) as nat)
        } else {
            None
        },
        None => None,
    }
}

/// Whether the character is white space.
fn is_white(c: char) -> (r: bool)
    ensures
        r == is_space(c),
{
    (c >= '\u{9}' && c <= '\u{d}') || c == ' ' || c == '\u{85}' || c == '\u{a0}' || c == '\u{1680}'
        || (c >= '\u{2000}' && c <= '\u{200a}') || c == '\u{2028}' || c == '\u{2029}' || c
        == '\u{202f}' || c == '\u{205f}' || c == '\u{3000}'
}

/// The characters of a line without the white space at its start and end.
pub fn trim(line: &str) -> (r: Vec<char>)
    ensures
        r@ == trimmed(line@),
{
    let s = chars_of(line);
    let mut a: usize = 0;
    while a < s.len() && is_white(s[a])
        invariant
            a <= s.len(),
            start_of(s@, 0) == start_of(s@, a as int),
        decreases s.len() - a,
    {
        a += 1;
    }
    let mut b: usize = s.len();
    while b > a && is_white(s[b - 1])
        invariant
            a <= b <= s.len(),
            end_of(s@, a as int, s@.len() as int) == end_of(s@, a as int, b as int),
        decreases b,
    {
        b -= 1;
    }
    let mut out: Vec<char> = Vec::new();
    let mut i: usize = a;
    while i < b
        invariant
            a <= i <= b,
            b <= s.len(),
            out@ == s@.subrange(a as int, i as int),
        decreases b - i,
    {
        out.push(s[i]);
        assert(out@ =~= s@.subrange(a as int, i + 1));
        i += 1;
    }
    out
}

/// The entry that a line of input picks from a menu of `count` entries
/// numbered from one.
pub fn pick(line: &str, count: usize) -> (r: Option<usize>)
    ensures
        match r {
            Some(i) => pick_of(line@, count as nat) == Some(i as nat),
            None => pick_of(line@, count as nat) is None,
        },
{
    let t = trim(line);
    let start: usize = if t.len() > 0 && t[0] == '+' {
        1
    } else {
        0
    };
    let ghost digits = t@.skip(start as int);
    proof {
        if start == 0 {
            assert(digits =~= t@);
        }
    }
    if start >= t.len() {
        return None;
    }
    let mut i: usize = start;
    let mut value: usize = 0;
    let mut beyond: bool = false;
    assert(digits.take(0) =~= Seq::<char>::empty());
    while i < t.len()
        invariant
            start <= i <= t.len(),
            t@ == trimmed(line@),
            start <= 1,
            start == 1 <==> (t.len() > 0 && t@[0] == '+'),
            start == 0 ==> digits == t@,
            digits == t@.skip(start as int),
            run_end(digits, 0) == run_end(digits, i - start),
            beyond ==> numeral_value(digits.take(i - start)) > count,
            !beyond ==> value == numeral_value(digits.take(i - start)) && value <= count,
        decreases t.len() - i,
    {
        let c: char = t[i];
        assert(digits[i - start] == c);
        if !(c >= '0' && c <= '9') {
            return None;
        }
        proof {
            let next = digits.take(i - start + 1);
            assert(next.drop_last() =~= digits.take(i - start));
            assert(next.last() == c);
        }
        if !beyond {
            let d: usize = ((c as u32) - ('0' as u32)) as usize;
            if count < d || value > (count - d) / 10 {
                beyond = true;
            } else {
                value = value * 10 + d;
            }
        }
        i += 1;
    }
    assert(digits.take(digits.len() as int) =~= digits);
    if beyond || value == 0 {
        None
    } else {
        Some(value - 1)
    }
}

/// What can be chosen from the main menu.
#[derive(Debug, Clone, Copy, PartialEq, Eq, Structural)]
pub enum MainCommand {
    QuickConnect,
    SelectCountry,
    Disconnect,
    Status,
    ServerList,
    ProtocolSettings,
    SecuritySettings,
    SplitTunnel,
    Statistics,
    Settings,
    Exit,
}

impl MainCommand {
    /// The command with a given number: the numbers 1 to 10 stand for the
    /// entries of the menu in their order, 0 for leaving.
    pub open spec fn numbered(n: nat) -> Option<MainCommand> {
        if n == 0 {
            Some(MainCommand::Exit)
        } else if n == 1 {
            Some(MainCommand::QuickConnect)
        } else if n == 2 {
            Some(MainCommand::SelectCountry)
        } else if n == 3 {
            Some(MainCommand::Disconnect)
        } else if n == 4 {
            Some(MainCommand::Status)
        } else if n == 5 {
            Some(MainCommand::ServerList)
        } else if n == 6 {
            Some(MainCommand::ProtocolSettings)
        } else if n == 7 {
            Some(MainCommand::SecuritySettings)
        } else if n == 8 {
            Some(MainCommand::SplitTunnel)
        } else if n == 9 {
            Some(MainCommand::Statistics)
        } else if n == 10 {
            Some(MainCommand::Settings)
        } else {
            None
        }
    }

    /// The command that a line of input asks for: the line, trimmed, must be
    /// the number of the command as the menu shows it.
    pub open spec fn asked(line: Seq<char>) -> Option<MainCommand> {
        let t = trimmed(line);
        if t == seq!['0'] {
            Some(MainCommand::Exit)
        } else if t.len() > 0 && t[0] != '+' && t[0] != '0' {
            match pick_of(line, 10) {
                Some(i) => Self::numbered(i + 1),
                None => None,
            }
        } else {
            None
        }
    }

    /// Reads a command off a line of input.
    pub fn parse(line: &str) -> (r: Option<MainCommand>)
        ensures
            r == Self::asked(line@),
    {
        let t = trim(line);
        if t.len() == 1 && t[0] == '0' {
            assert(t@ =~= seq!['0']);
            return Some(MainCommand::Exit);
        }
        if t.len() == 0 || t[0] == '+' || t[0] == '0' {
            return None;
        }
        match pick(line, 10) {
            Some(0) => Some(MainCommand::QuickConnect),
            Some(1) => Some(MainCommand::SelectCountry),
            Some(2) => Some(MainCommand::Disconnect),
            Some(3) => Some(MainCommand::Status),
            Some(4) => Some(MainCommand::ServerList),
            Some(5) => Some(MainCommand::ProtocolSettings),
            Some(6) => Some(MainCommand::SecuritySettings),
            Some(7) => Some(MainCommand::SplitTunnel),
            Some(8) => Some(MainCommand::Statistics),
            Some(9) => Some(MainCommand::Settings),
            _ => None,
        }
    }
}

/// The country that a line of input picks from the list of countries.
pub fn pick_country(line: &str) -> (r: Option<Country>)
    ensures
        match pick_of(line@, 25) {
            Some(i) => r == Some(Country::catalogue()[i as int]),
            None => r is None,
        },
{
    match pick(line, 25) {
        Some(i) => {
            let all = Country::all();
            Some(all[i])
        },
        None => None,
    }
}

/// The protocol that a line of input picks from the list of protocols.
pub fn pick_protocol(line: &str) -> (r: Option<VpnProtocol>)
    ensures
        match pick_of(line@, 5) {
            Some(i) => r == Some(VpnProtocol::catalogue()[i as int]),
            None => r is None,
        },
{
    match pick(line, 5) {
        Some(i) => {
            let all = VpnProtocol::all();
            Some(all[i])
        },
        None => None,
    }
}

fn flip_auto_connect(config: &mut VpnConfig) -> (r: bool)
    ensures
        *final(config) == (VpnConfig { auto_connect: r, ..*old(config) }),
        r == !old(config).auto_connect,
{
    config.auto_connect = !config.auto_connect;
    config.auto_connect
}

fn flip_start_on_boot(config: &mut VpnConfig) -> (r: bool)
    ensures
        *final(config) == (VpnConfig { start_on_boot: r, ..*old(config) }),
        r == !old(config).start_on_boot,
{
    config.start_on_boot = !config.start_on_boot;
    config.start_on_boot
}

fn flip_show_notifications(config: &mut VpnConfig) -> (r: bool)
    ensures
        *final(config) == (VpnConfig { show_notifications: r, ..*old(config) }),
        r == !old(config).show_notifications,
{
    config.show_notifications = !config.show_notifications;
    config.show_notifications
}

fn flip_block_ads(config: &mut VpnConfig) -> (r: bool)
    ensures
        *final(config) == (VpnConfig { block_ads: r, ..*old(config) }),
        r == !old(config).block_ads,
{
    config.block_ads = !config.block_ads;
    config.block_ads
}

fn flip_block_malware(config: &mut VpnConfig) -> (r: bool)
    ensures
        *final(config) == (VpnConfig { block_malware: r, ..*old(config) }),
        r == !old(config).block_malware,
{
    config.block_malware = !config.block_malware;
    config.block_malware
}

/// Settings in which one switch is set to the opposite of what it was are
/// the settings with that switch turned over.
proof fn lemma_flipped(switch: Switch, before: VpnConfig, after: VpnConfig, r: bool)
    requires
        r == !switch.of(before),
        match switch {
            Switch::AutoConnect => after == (VpnConfig { auto_connect: r, ..before }),
            Switch::StartOnBoot => after == (VpnConfig { start_on_boot: r, ..before }),
            Switch::ShowNotifications => after == (VpnConfig { show_notifications: r, ..before }),
            Switch::BlockAds => after == (VpnConfig { block_ads: r, ..before }),
            Switch::BlockMalware => after == (VpnConfig { block_malware: r, ..before }),
        },
    ensures
        after == switch.flipped(before),
        r == switch.of(after),
{
}

/// A switch of the settings menu.
#[derive(Debug, Clone, Copy, PartialEq, Eq, Structural)]
pub enum Switch {
    AutoConnect,
    StartOnBoot,
    ShowNotifications,
    BlockAds,
    BlockMalware,
}

impl Switch {
    /// The value of the switch in the settings.
    pub open spec fn of(self, c: VpnConfig) -> bool {
        match self {
            Switch::AutoConnect => c.auto_connect,
            Switch::StartOnBoot => c.start_on_boot,
            Switch::ShowNotifications => c.show_notifications,
            Switch::BlockAds => c.block_ads,
            Switch::BlockMalware => c.block_malware,
        }
    }

    /// The settings with the switch turned over and nothing else changed.
    pub open spec fn flipped(self, c: VpnConfig) -> VpnConfig {
        match self {
            Switch::AutoConnect => VpnConfig { auto_connect: !c.auto_connect, ..c },
            Switch::StartOnBoot => VpnConfig { start_on_boot: !c.start_on_boot, ..c },
            Switch::ShowNotifications => VpnConfig {
                show_notifications: !c.show_notifications,
                ..c
            },
            Switch::BlockAds => VpnConfig { block_ads: !c.block_ads, ..c },
            Switch::BlockMalware => VpnConfig { block_malware: !c.block_malware, ..c },
        }
    }

    /// Turns the switch over and says what it is now.
    #[verifier::rlimit(100)]
    pub fn flip(&self, config: &mut VpnConfig) -> (r: bool)
        ensures
            *final(config) == self.flipped(*old(config)),
            r == !self.of(*old(config)),
    {
        let r = match self {
            Switch::AutoConnect => flip_auto_connect(config),
            Switch::StartOnBoot => flip_start_on_boot(config),
            Switch::ShowNotifications => flip_show_notifications(config),
            Switch::BlockAds => flip_block_ads(config),
            Switch::BlockMalware => flip_block_malware(config),
        };
        proof {
            lemma_flipped(*self, *old(config), *config, r);
        }
        r
    }

    /// The switch that a line of input picks from the settings menu.
    pub fn parse(line: &str) -> (r: Option<Switch>)
        ensures
            r == (match pick_of(line@, 5) {
                Some(i) => Some(
                    if i == 0 {
                        Switch::AutoConnect
                    } else if i == 1 {
                        Switch::StartOnBoot
                    } else if i == 2 {
                        Switch::ShowNotifications
                    } else if i == 3 {
                        Switch::BlockAds
                    } else {
                        Switch::BlockMalware
                    },
                ),
                None => None,
            }),
    {
        match pick(line, 5) {
            Some(0) => Some(Switch::AutoConnect),
            Some(1) => Some(Switch::StartOnBoot),
            Some(2) => Some(Switch::ShowNotifications),
            Some(3) => Some(Switch::BlockAds),
            Some(4) => Some(Switch::BlockMalware),
            _ => None,
        }
    }
}

/// The preset that a line of input picks: 1 for the most security, 2 for
/// streaming, 3 for torrents.
pub fn pick_preset(line: &str) -> (r: Option<VpnConfig>)
    ensures
        match pick_of(line@, 3) {
            Some(i) => r matches Some(c) && c.valid() && (if i == 0 {
                c.is_initial_with(
                    (ProtocolConfig {
                        obfuscation: true,
                        ..ProtocolConfig::initial(VpnProtocol::WireGuard)
                    }),
                    KillSwitchMode::Always,
                    false,
                    SplitTunnelMode::Disabled,
                    3,
                    true,
                    true,
                )
            } else if i == 1 {
                c.is_initial_with(
                    ProtocolConfig::initial(VpnProtocol::WireGuard),
                    KillSwitchMode::Disabled,
                    true,
                    SplitTunnelMode::Disabled,
                    5,
                    false,
                    false,
                )
            } else {
                c.is_initial_with(
                    ProtocolConfig::initial(VpnProtocol::OpenVPN),
                    KillSwitchMode::Always,
                    true,
                    SplitTunnelMode::IncludeOnly,
                    3,
                    false,
                    false,
                )
            }),
            None => r is None,
        },
{
    match pick(line, 3) {
        Some(0) => Some(VpnConfig::preset_maximum_security()),
        Some(1) => Some(VpnConfig::preset_streaming()),
        Some(2) => Some(VpnConfig::preset_torrenting()),
        _ => None,
    }
}

/// Turns the kill switch over: off where it is on, on where it is off and
/// its mode allows it. Says whether it is on now.
pub fn toggle_kill_switch(kill_switch: &mut KillSwitch) -> (r: Result<bool, VpnError>)
    ensures
        final(kill_switch).wf(),
        final(kill_switch).config() == old(kill_switch).config(),
        old(kill_switch).active() ==> r == Ok::<bool, VpnError>(false) && *final(kill_switch)
            == old(kill_switch).after_disable(),
        !old(kill_switch).active() ==> *final(kill_switch) == old(kill_switch).after_enable() && (
        match r {
            Ok(on) => on && final(kill_switch).active(),
            Err(_) => !final(kill_switch).active() && old(kill_switch).config().mode
                == KillSwitchMode::Disabled,
        }),
{
    if kill_switch.is_active() {
        let _ = kill_switch.disable();
        Ok(false)
    } else {
        match kill_switch.enable() {
            Ok(_) => Ok(true),
            Err(e) => Err(e),
        }
    }
}

/// Turns the split-tunnel router over, in the same way.
pub fn toggle_split_tunnel(split_tunnel: &mut SplitTunnel) -> (r: Result<bool, VpnError>)
    ensures
        old(split_tunnel)@.active ==> r == Ok::<bool, VpnError>(false)
            && !final(split_tunnel)@.active,
        !old(split_tunnel)@.active ==> (match r {
            Ok(on) => on && final(split_tunnel)@.active,
            Err(_) => !final(split_tunnel)@.active && old(split_tunnel)@.mode
                == SplitTunnelMode::Disabled,
        }),
        final(split_tunnel)@.mode == old(split_tunnel)@.mode,
        final(split_tunnel)@.apps == old(split_tunnel)@.apps,
        final(split_tunnel)@.domains == old(split_tunnel)@.domains,
        final(split_tunnel)@.ip_ranges == old(split_tunnel)@.ip_ranges,
{
    if split_tunnel.is_active() {
        let _ = split_tunnel.disable();
        Ok(false)
    } else {
        match split_tunnel.enable() {
            Ok(_) => Ok(true),
            Err(e) => Err(e),
        }
    }
}

} // verus!
