//! The session controller: one session, its state machine, its live
//! counters.
//!
//! The controller decides; it does not wait. A command that needs work on
//! the wire is split in two: the request, which moves the machine and says
//! what is to be done, and the completion, which takes the outcome of that
//! work. `connect`, `disconnect` and `reconnect` run request and completion
//! in one call, for a caller that has the outcome at hand. Time is handed
//! in, in seconds since the Unix epoch.

use vstd::prelude::*;
use crate::analytics::ConnectionLog;
use crate::protocol::ProtocolConfig;
use crate::server::VpnServer;
use crate::{ConnectionInfo, ConnectionStatus, VpnError, VpnStats};

verus! {

/// What the controller does when a connected session fails.
#[derive(Debug, Clone, Copy, PartialEq, Eq, Structural)]
pub struct ReconnectPolicy {
    pub reconnect_on_disconnect: bool,
    pub reconnect_attempts: u32,
}

impl Default for ReconnectPolicy {
    fn default() -> (r: Self)
        ensures
            r == (ReconnectPolicy { reconnect_on_disconnect: true, reconnect_attempts: 3 }),
    {
        ReconnectPolicy { reconnect_on_disconnect: true, reconnect_attempts: 3 }
    }
}

/// How a handshake ended.
#[derive(Debug)]
pub enum HandshakeOutcome {
    /// The tunnel stands, with this address on its local end.
    Established { tunnel_ip: String },
    /// The server or the transport refused.
    Failed { reason: String },
    /// No answer within the time allowed.
    TimedOut,
}

/// A handshake outcome as the state machine sees it.
pub enum Outcome {
    Established(Seq<char>),
    Failed(Seq<char>),
    TimedOut,
}

impl View for HandshakeOutcome {
    type V = Outcome;

    open spec fn view(&self) -> Outcome {
        match self {
            HandshakeOutcome::Established { tunnel_ip } => Outcome::Established(tunnel_ip@),
            HandshakeOutcome::Failed { reason } => Outcome::Failed(reason@),
            HandshakeOutcome::TimedOut => Outcome::TimedOut,
        }
    }
}

impl Outcome {
    /// What a failed handshake is called in the state `Error`.
    pub open spec fn failure(self) -> Seq<char> {
        match self {
            Outcome::Failed(reason) => reason,
            _ => "timeout"@,
        }
    }
}

/// A reading of the data plane: the rates at this moment, the bytes moved
/// since the last reading, latency and packet loss.
#[derive(Debug, Clone, Copy, PartialEq, Eq, Structural)]
pub struct TrafficSample {
    pub speed_up: u64,
    pub speed_down: u64,
    pub bytes_up: u64,
    pub bytes_down: u64,
    pub latency: u32,
    pub packet_loss: u32,
}

/// The state of the session as the state machine sees it.
pub enum Phase {
    Disconnected,
    Connecting,
    Connected,
    Disconnecting,
    Reconnecting,
    Error(Seq<char>),
}

impl View for ConnectionStatus {
    type V = Phase;

    open spec fn view(&self) -> Phase {
        match self {
            ConnectionStatus::Disconnected => Phase::Disconnected,
            ConnectionStatus::Connecting => Phase::Connecting,
            ConnectionStatus::Connected => Phase::Connected,
            ConnectionStatus::Disconnecting => Phase::Disconnecting,
            ConnectionStatus::Reconnecting => Phase::Reconnecting,
            ConnectionStatus::Error(m) => Phase::Error(m@),
        }
    }
}

/// What a request to connect led to.
#[derive(Debug, Clone, Copy, PartialEq, Eq, Structural)]
pub enum ConnectStep {
    /// The connect has started: the machine is in `Connecting`. This is the
    /// moment to announce the attempt, to perform the handshake and to report
    /// its outcome.
    Started,
    /// The session is connected to this very server already: nothing to do.
    AlreadyConnected,
    /// The machine is busy: the request is refused.
    Busy,
}

/// What a request to disconnect led to.
#[derive(Debug, Clone, Copy, PartialEq, Eq, Structural)]
pub enum DisconnectStep {
    /// Nothing changed: the session is disconnected, or is disconnecting
    /// already.
    Nothing,
    /// The machine is in `Disconnecting`: tear the tunnel down and report
    /// when it is done.
    Teardown,
    /// The machine went from `Error` straight to `Disconnected`.
    Done,
}

/// What a request to reconnect led to.
#[derive(Debug, Clone, Copy, PartialEq, Eq, Structural)]
pub enum ReconnectStep {
    /// The machine is in `Reconnecting`: tear the tunnel down, wait, perform
    /// the handshake and report its outcome.
    Started,
    /// There is no session to reconnect: the request is refused.
    NoServer,
    /// The machine is busy: the request is refused.
    Busy,
}

/// What the report of a handshake led to.
#[derive(Debug, Clone, Copy, PartialEq, Eq, Structural)]
pub enum HandshakeReply {
    /// The session is connected.
    Connected,
    /// The handshake failed and another attempt is due.
    Retry,
    /// The handshake failed for good: the machine is in `Error`.
    Failed,
    /// The machine was not waiting for a handshake: nothing changed.
    Ignored,
}

/// The least time, in milliseconds, between two attempts of a reconnect.
pub const RECONNECT_BACKOFF_MS: u64 = 500;

/// The text of the tunnel address `10.8.a.b`.
pub open spec fn tunnel_text(a: u8, b: u8) -> Seq<char> {
    "10.8."@ + crate::text::decimal(a as nat) + "."@ + crate::text::decimal(b as nat)
}

/// The address `10.8.a.b` of the local end of a tunnel.
pub fn tunnel_address(a: u8, b: u8) -> (r: String)
    ensures
        r@ == tunnel_text(a, b),
{
    let mut out = String::new();
    crate::text::push_text(&mut out, "10.8.");
    crate::text::push_decimal(&mut out, a as u64);
    crate::text::push_text(&mut out, ".");
    crate::text::push_decimal(&mut out, b as u64);
    assert(out@ =~= tunnel_text(a, b));
    out
}

/// Counters at zero.
pub open spec fn zero_stats() -> VpnStats {
    VpnStats {
        current_speed_up: 0,
        current_speed_down: 0,
        total_upload: 0,
        total_download: 0,
        latency: 0,
        packet_loss: 0,
    }
}

/// The seconds from `since` to `now`, zero where `now` is the earlier.
pub open spec fn elapsed(now: i64, since: i64) -> nat {
    if now >= since {
        (now - since) as nat
    } else {
        0
    }
}

/// The session: its state and what is attached to it.
pub struct SessionState {
    pub phase: Phase,
    pub server: Option<VpnServer>,
    pub connected_at: Option<i64>,
    pub tunnel_ip: Option<Seq<char>>,
    pub stats: VpnStats,
    /// The handshakes that a reconnect may still try, the running one
    /// included.
    pub attempts_left: nat,
    pub policy: ReconnectPolicy,
    pub protocol: ProtocolConfig,
}

impl SessionState {
    /// What holds of every state the machine can reach: the moment of
    /// connection is set exactly in `Connected` and `Reconnecting`; a server
    /// is attached in `Connecting`, `Connected`, `Disconnecting` and
    /// `Reconnecting` and none in `Disconnected`; the tunnel address is set
    /// exactly in `Connected`; the counters are at zero outside `Connected`;
    /// attempts are left exactly in `Reconnecting`.
    pub open spec fn inv(self) -> bool {
        &&& self.connected_at is Some <==> (self.phase is Connected || self.phase is Reconnecting)
        &&& (self.phase is Connecting || self.phase is Connected || self.phase is Disconnecting
            || self.phase is Reconnecting) ==> self.server is Some
        &&& self.phase is Disconnected ==> self.server is None
        &&& self.tunnel_ip is Some <==> self.phase is Connected
        &&& !(self.phase is Connected) ==> self.stats == zero_stats()
        &&& self.attempts_left > 0 <==> self.phase is Reconnecting
    }

    /// The session a controller starts with.
    pub open spec fn initial(protocol: ProtocolConfig, policy: ReconnectPolicy) -> SessionState {
        SessionState {
            phase: Phase::Disconnected,
            server: None,
            connected_at: None,
            tunnel_ip: None,
            stats: zero_stats(),
            attempts_left: 0,
            policy,
            protocol,
        }
    }

    /// Whether the session is attached to the server with the id of
    /// `server`.
    pub open spec fn serves(self, server: VpnServer) -> bool {
        self.server matches Some(s) && s.id@ == server.id@
    }

    /// The answer to a request to connect to `server`.
    pub open spec fn connect_step(self, server: VpnServer) -> ConnectStep {
        match self.phase {
            Phase::Disconnected => ConnectStep::Started,
            Phase::Error(_) => ConnectStep::Started,
            Phase::Connected => if self.serves(server) {
                ConnectStep::AlreadyConnected
            } else {
                ConnectStep::Busy
            },
            _ => ConnectStep::Busy,
        }
    }

    /// The session after a request to connect to `server`.
    pub open spec fn after_connect_request(self, server: VpnServer) -> SessionState {
        if self.connect_step(server) == ConnectStep::Started {
            SessionState {
                phase: Phase::Connecting,
                server: Some(server),
                connected_at: None,
                tunnel_ip: None,
                stats: zero_stats(),
                attempts_left: 0,
                ..self
            }
        } else {
            self
        }
    }

    /// The answer to the report of a handshake.
    pub open spec fn handshake_reply(self, outcome: Outcome) -> HandshakeReply {
        match self.phase {
            Phase::Connecting => if outcome is Established {
                HandshakeReply::Connected
            } else {
                HandshakeReply::Failed
            },
            Phase::Reconnecting => if outcome is Established {
                HandshakeReply::Connected
            } else if self.attempts_left > 1 {
                HandshakeReply::Retry
            } else {
                HandshakeReply::Failed
            },
            _ => HandshakeReply::Ignored,
        }
    }

    /// The session after the report of a handshake that ended at `now`.
    pub open spec fn after_handshake(self, outcome: Outcome, now: i64) -> SessionState {
        match self.handshake_reply(outcome) {
            HandshakeReply::Connected => SessionState {
                phase: Phase::Connected,
                connected_at: Some(now),
                tunnel_ip: Some(outcome->Established_0),
                attempts_left: 0,
                ..self
            },
            HandshakeReply::Retry => SessionState {
                attempts_left: (self.attempts_left - 1) as nat,
                ..self
            },
            HandshakeReply::Failed => SessionState {
                phase: Phase::Error(outcome.failure()),
                connected_at: None,
                attempts_left: 0,
                ..self
            },
            HandshakeReply::Ignored => self,
        }
    }

    /// The answer to a request to disconnect.
    pub open spec fn disconnect_step(self) -> DisconnectStep {
        match self.phase {
            Phase::Disconnected => DisconnectStep::Nothing,
            Phase::Disconnecting => DisconnectStep::Nothing,
            Phase::Error(_) => DisconnectStep::Done,
            _ => DisconnectStep::Teardown,
        }
    }

    /// The session after a request to disconnect.
    pub open spec fn after_disconnect_request(self) -> SessionState {
        match self.disconnect_step() {
            DisconnectStep::Nothing => self,
            DisconnectStep::Done => SessionState {
                phase: Phase::Disconnected,
                server: None,
                connected_at: None,
                tunnel_ip: None,
                stats: zero_stats(),
                attempts_left: 0,
                ..self
            },
            DisconnectStep::Teardown => SessionState {
                phase: Phase::Disconnecting,
                connected_at: None,
                tunnel_ip: None,
                stats: zero_stats(),
                attempts_left: 0,
                ..self
            },
        }
    }

    /// The session after the tunnel is torn down.
    pub open spec fn after_teardown(self) -> SessionState {
        if self.phase is Disconnecting {
            SessionState { phase: Phase::Disconnected, server: None, ..self }
        } else {
            self
        }
    }

    /// The session after a whole disconnect: request, then teardown.
    pub open spec fn after_disconnect(self) -> SessionState {
        self.after_disconnect_request().after_teardown()
    }

    /// The answer to a request to reconnect.
    pub open spec fn reconnect_step(self) -> ReconnectStep {
        match self.phase {
            Phase::Connected => ReconnectStep::Started,
            Phase::Disconnected => ReconnectStep::NoServer,
            Phase::Error(_) => ReconnectStep::NoServer,
            _ => ReconnectStep::Busy,
        }
    }

    /// The session after a request to reconnect.
    pub open spec fn after_reconnect_request(self) -> SessionState {
        if self.phase is Connected {
            SessionState {
                phase: Phase::Reconnecting,
                tunnel_ip: None,
                stats: zero_stats(),
                attempts_left: 1,
                ..self
            }
        } else {
            self
        }
    }

    /// Whether a fault leads to reconnecting: the session is connected, the
    /// policy asks for it and allows an attempt, and the error is one that
    /// is retried.
    pub open spec fn retries(self, retryable: bool) -> bool {
        self.phase is Connected && self.policy.reconnect_on_disconnect
            && self.policy.reconnect_attempts > 0 && retryable
    }

    /// The session after a fault with the given text.
    pub open spec fn after_fault(self, retryable: bool, text: Seq<char>) -> SessionState {
        if self.phase is Error {
            self
        } else if self.retries(retryable) {
            SessionState {
                phase: Phase::Reconnecting,
                tunnel_ip: None,
                stats: zero_stats(),
                attempts_left: self.policy.reconnect_attempts as nat,
                ..self
            }
        } else {
            SessionState {
                phase: Phase::Error(text),
                connected_at: None,
                tunnel_ip: None,
                stats: zero_stats(),
                attempts_left: 0,
                ..self
            }
        }
    }

    /// Whether leaving the present state ends a session that was connected,
    /// so that a record of it is due.
    pub open spec fn ends_session(self) -> bool {
        self.phase is Connected
    }

    /// The counters after a reading of the data plane.
    pub open spec fn after_sample(self, sample: TrafficSample) -> SessionState {
        if self.phase is Connected {
            SessionState {
                stats: VpnStats {
                    current_speed_up: sample.speed_up,
                    current_speed_down: sample.speed_down,
                    total_upload: (self.stats.total_upload + sample.bytes_up) as u64,
                    total_download: (self.stats.total_download + sample.bytes_down) as u64,
                    latency: sample.latency,
                    packet_loss: sample.packet_loss,
                },
                ..self
            }
        } else {
            self
        }
    }

    /// Whether the counters can take the reading without running over.
    pub open spec fn takes(self, sample: TrafficSample) -> bool {
        self.phase is Connected ==> self.stats.total_upload + sample.bytes_up <= u64::MAX
            && self.stats.total_download + sample.bytes_down <= u64::MAX
    }

    /// The seconds the session has been connected at `now`: zero outside
    /// `Connected`.
    pub open spec fn duration_at(self, now: i64) -> nat {
        if self.phase is Connected && self.connected_at is Some {
            elapsed(now, self.connected_at->0)
        } else {
            0
        }
    }

    /// Whether `info` is the snapshot of the session at `now`.
    pub open spec fn shows(self, info: ConnectionInfo, now: i64) -> bool {
        &&& info.status@ == self.phase
        &&& info.server == self.server
        &&& info.connected_at == self.connected_at
        &&& info.bytes_sent == self.stats.total_upload
        &&& info.bytes_received == self.stats.total_download
        &&& info.duration == self.duration_at(now)
        &&& match info.ip_address {
            Some(a) => self.tunnel_ip == Some(a@),
            None => self.tunnel_ip is None,
        }
    }

    /// Whether `record` is the record of the connected session that ends at
    /// `now` for the given reason.
    pub open spec fn closes_with(
        self,
        record: ConnectionLog,
        now: i64,
        reason: Option<Seq<char>>,
    ) -> bool {
        &&& self.server matches Some(s)
        &&& self.connected_at matches Some(since)
        &&& record.timestamp == now
        &&& record.server_id@ == s.id@
        &&& record.server_name@ == s.name@
        &&& record.country@ == s.location.country.name_text()
        &&& record.duration == elapsed(now, since)
        &&& record.bytes_sent == self.stats.total_upload
        &&& record.bytes_received == self.stats.total_download
        &&& match record.disconnection_reason {
            Some(m) => reason == Some(m@),
            None => reason is None,
        }
    }

    /// Whether `record` is what leaving the present state at `now` emits:
    /// the record of the session where one ends, nothing otherwise.
    pub open spec fn emits(
        self,
        record: Option<ConnectionLog>,
        now: i64,
        reason: Option<Seq<char>>,
    ) -> bool {
        match record {
            Some(r) => self.ends_session() && self.closes_with(r, now, reason),
            None => !self.ends_session(),
        }
    }
}

/// The state machine keeps its invariant: the initial session has it, and
/// every step leads from a session that has it to one that has it.
pub proof fn lemma_invariant(
    s: SessionState,
    server: VpnServer,
    outcome: Outcome,
    sample: TrafficSample,
    retryable: bool,
    text: Seq<char>,
    now: i64,
)
    requires
        s.inv(),
    ensures
        SessionState::initial(s.protocol, s.policy).inv(),
        s.after_connect_request(server).inv(),
        s.after_handshake(outcome, now).inv(),
        s.after_disconnect_request().inv(),
        s.after_teardown().inv(),
        s.after_disconnect().inv(),
        s.after_reconnect_request().inv(),
        s.after_fault(retryable, text).inv(),
        s.after_sample(sample).inv(),
{
}

/// The table of the state machine: where each command leads from each
/// state, and which requests are refused. A refused request changes
/// nothing.
pub proof fn lemma_transition_table(s: SessionState, server: VpnServer, text: Seq<char>)
    ensures
        // connect
        s.phase is Disconnected || s.phase is Error ==> s.connect_step(server)
            == ConnectStep::Started && s.after_connect_request(server).phase is Connecting
            && s.after_connect_request(server).server == Some(server),
        s.phase is Connecting || s.phase is Disconnecting || s.phase is Reconnecting
            ==> s.connect_step(server) == ConnectStep::Busy,
        s.phase is Connected ==> s.connect_step(server) == (if s.serves(server) {
            ConnectStep::AlreadyConnected
        } else {
            ConnectStep::Busy
        }),
        s.connect_step(server) != ConnectStep::Started ==> s.after_connect_request(server) == s,
        // disconnect
        s.phase is Disconnected || s.phase is Disconnecting ==> s.after_disconnect_request() == s,
        s.phase is Connecting || s.phase is Connected || s.phase is Reconnecting
            ==> s.after_disconnect_request().phase is Disconnecting,
        s.phase is Error ==> s.after_disconnect_request().phase is Disconnected,
        // reconnect
        s.phase is Connected ==> s.reconnect_step() == ReconnectStep::Started
            && s.after_reconnect_request().phase is Reconnecting,
        s.phase is Disconnected || s.phase is Error ==> s.reconnect_step()
            == ReconnectStep::NoServer,
        s.phase is Connecting || s.phase is Disconnecting || s.phase is Reconnecting
            ==> s.reconnect_step() == ReconnectStep::Busy,
        !(s.phase is Connected) ==> s.after_reconnect_request() == s,
        // fault
        s.phase is Error ==> s.after_fault(true, text) == s && s.after_fault(false, text) == s,
        !(s.phase is Error) ==> s.after_fault(false, text).phase == Phase::Error(text),
        !(s.phase is Error) && !(s.phase is Connected) ==> s.after_fault(true, text).phase
            == Phase::Error(text),
        // teardown
        s.phase is Disconnecting ==> s.after_teardown().phase is Disconnected,
        !(s.phase is Disconnecting) ==> s.after_teardown() == s,
{
}

/// A snapshot taken of a connected session shows a server and the moment of
/// connection.
pub proof fn lemma_connected_snapshot(s: SessionState, info: ConnectionInfo, now: i64)
    requires
        s.inv(),
        s.shows(info, now),
        info.status is Connected,
    ensures
        info.server is Some,
        info.connected_at is Some,
        info.ip_address is Some,
{
}

/// Disconnecting twice is the same as disconnecting once: the second
/// disconnect changes nothing and emits no record.
pub proof fn lemma_disconnect_idempotent(s: SessionState)
    requires
        s.inv(),
    ensures
        s.after_disconnect().phase is Disconnected,
        s.after_disconnect().after_disconnect() == s.after_disconnect(),
        s.after_disconnect().disconnect_step() == DisconnectStep::Nothing,
        !s.after_disconnect().ends_session(),
{
}

/// A disconnect that arrives while a handshake is in flight cancels the
/// attempt: the machine goes to `Disconnecting` without a record, the
/// outcome of the handshake is ignored when it comes, whatever it is, and
/// the session ends disconnected without ever having been connected.
pub proof fn lemma_cancelled_connect(s: SessionState, server: VpnServer, outcome: Outcome, now: i64)
    requires
        s.inv(),
        s.connect_step(server) == ConnectStep::Started,
    ensures
        s.after_connect_request(server).phase is Connecting,
        !s.after_connect_request(server).ends_session(),
        s.after_connect_request(server).after_disconnect_request().phase is Disconnecting,
        s.after_connect_request(server).after_disconnect_request().handshake_reply(outcome)
            == HandshakeReply::Ignored,
        s.after_connect_request(server).after_disconnect_request().after_handshake(outcome, now)
            == s.after_connect_request(server).after_disconnect_request(),
        s.after_connect_request(server).after_disconnect().phase is Disconnected,
        s.after_connect_request(server).after_disconnect().after_handshake(outcome, now)
            == s.after_connect_request(server).after_disconnect(),
{
}

/// The cumulative counters never fall within a session: a reading adds to
/// them.
pub proof fn lemma_counters_grow(s: SessionState, sample: TrafficSample)
    requires
        s.takes(sample),
    ensures
        s.after_sample(sample).stats.total_upload >= s.stats.total_upload,
        s.after_sample(sample).stats.total_download >= s.stats.total_download,
        !(s.phase is Connected) ==> s.after_sample(sample) == s,
{
}

/// With the policy to reconnect and `n` attempts, a fault of a connected
/// session leads to `Reconnecting`; from there a handshake that succeeds
/// leads to `Connected`, and `n` handshakes that fail lead to `Error`, the
/// first `n - 1` of them leaving the machine in `Reconnecting`.
pub proof fn lemma_reconnect_on_fault(s: SessionState, text: Seq<char>, outcome: Outcome, now: i64)
    requires
        s.inv(),
        s.phase is Connected,
        s.policy.reconnect_on_disconnect,
        s.policy.reconnect_attempts > 0,
    ensures
        s.after_fault(true, text).phase is Reconnecting,
        s.after_fault(true, text).attempts_left == s.policy.reconnect_attempts,
        outcome is Established ==> s.after_fault(true, text).after_handshake(outcome, now).phase
            is Connected,
        !(outcome is Established) && s.policy.reconnect_attempts == 2 ==> {
            &&& s.after_fault(true, text).after_handshake(outcome, now).phase is Reconnecting
            &&& s.after_fault(true, text).after_handshake(outcome, now).after_handshake(
                outcome,
                now,
            ).phase is Error
        },
        s.after_fault(false, text).phase is Error,
{
}

/// However many attempts are left, that many failed handshakes end the
/// reconnect in `Error`, and none before the last does.
pub proof fn lemma_attempts_run_out(s: SessionState, outcome: Outcome, now: i64)
    requires
        s.inv(),
        s.phase is Reconnecting,
        !(outcome is Established),
    ensures
        failed_times(s, outcome, now, s.attempts_left).phase is Error,
        forall|k: nat|
            k < s.attempts_left ==> (#[trigger] failed_times(s, outcome, now, k)).phase
                is Reconnecting,
    decreases s.attempts_left,
{
    reveal_with_fuel(failed_times, 2);
    let next = s.after_handshake(outcome, now);
    if s.attempts_left > 1 {
        lemma_attempts_run_out(next, outcome, now);
        assert forall|k: nat| k < s.attempts_left implies (#[trigger] failed_times(
            s,
            outcome,
            now,
            k,
        )).phase is Reconnecting by {
            if k > 0 {
                assert(failed_times(s, outcome, now, k) == failed_times(
                    next,
                    outcome,
                    now,
                    (k - 1) as nat,
                ));
            }
        }
        assert(failed_times(s, outcome, now, s.attempts_left) == failed_times(
            next,
            outcome,
            now,
            next.attempts_left,
        ));
    } else {
        assert forall|k: nat| k < s.attempts_left implies (#[trigger] failed_times(
            s,
            outcome,
            now,
            k,
        )).phase is Reconnecting by {}
    }
}

/// The session after `n` handshakes in a row that ended with `outcome`.
pub open spec fn failed_times(s: SessionState, outcome: Outcome, now: i64, n: nat) -> SessionState
    decreases n,
{
    if n == 0 {
        s
    } else {
        failed_times(s.after_handshake(outcome, now), outcome, now, (n - 1) as nat)
    }
}

/// The session controller.
pub struct VpnConnection {
    status: ConnectionStatus,
    server: Option<VpnServer>,
    connected_at: Option<i64>,
    ip_address: Option<String>,
    stats: VpnStats,
    attempts_left: u32,
    policy: ReconnectPolicy,
    protocol_config: ProtocolConfig,
}

impl View for VpnConnection {
    type V = SessionState;

    closed spec fn view(&self) -> SessionState {
        SessionState {
            phase: self.status@,
            server: self.server,
            connected_at: self.connected_at,
            tunnel_ip: match self.ip_address {
                Some(a) => Some(a@),
                None => None,
            },
            stats: self.stats,
            attempts_left: self.attempts_left as nat,
            policy: self.policy,
            protocol: self.protocol_config,
        }
    }
}

/// The seconds from `since` to `now`, zero where `now` is the earlier.
fn seconds_between(now: i64, since: i64) -> (r: u64)
    ensures
        r == elapsed(now, since),
{
    if now >= since {
        ((now as i128) - (since as i128)) as u64
    } else {
        0
    }
}

/// Counters at zero.
fn no_traffic() -> (r: VpnStats)
    ensures
        r == zero_stats(),
{
    VpnStats {
        current_speed_up: 0,
        current_speed_down: 0,
        total_upload: 0,
        total_download: 0,
        latency: 0,
        packet_loss: 0,
    }
}

impl VpnConnection {
    #[verifier::type_invariant]
    pub closed spec fn wf(self) -> bool {
        self@.inv()
    }

    /// A disconnected session with the given protocol settings and the
    /// policy to reconnect up to three times.
    pub fn new(protocol_config: ProtocolConfig) -> (r: Self)
        ensures
            r@ == SessionState::initial(
                protocol_config,
                (ReconnectPolicy { reconnect_on_disconnect: true, reconnect_attempts: 3 }),
            ),
            r@.inv(),
    {
        Self::with_policy(
            protocol_config,
            ReconnectPolicy { reconnect_on_disconnect: true, reconnect_attempts: 3 },
        )
    }

    /// A disconnected session with the given protocol settings and policy.
    pub fn with_policy(protocol_config: ProtocolConfig, policy: ReconnectPolicy) -> (r: Self)
        ensures
            r@ == SessionState::initial(protocol_config, policy),
            r@.inv(),
    {
        VpnConnection {
            status: ConnectionStatus::Disconnected,
            server: None,
            connected_at: None,
            ip_address: None,
            stats: no_traffic(),
            attempts_left: 0,
            policy,
            protocol_config,
        }
    }

    /// Takes the session out and leaves a fresh one in its place.
    fn take(&mut self) -> (r: Self)
        ensures
            r@ == old(self)@,
            r@.inv(),
    {
        proof {
            use_type_invariant(&*self);
        }
        let mut taken = Self::with_policy(self.protocol_config, self.policy);
        std::mem::swap(self, &mut taken);
        taken
    }

    /// Asks to connect to `server`. From `Disconnected` and from `Error` the
    /// machine goes to `Connecting` with the server attached; a session that
    /// is connected to this server stays as it is; in every other case the
    /// request is refused and nothing changes.
    pub fn begin_connect(&mut self, server: VpnServer) -> (r: ConnectStep)
        ensures
            r == old(self)@.connect_step(server),
            final(self)@ == old(self)@.after_connect_request(server),
            final(self)@.inv(),
    {
        let cur = self.take();
        let step: ConnectStep = match &cur.status {
            ConnectionStatus::Disconnected => ConnectStep::Started,
            ConnectionStatus::Error(_) => ConnectStep::Started,
            ConnectionStatus::Connected => {
                let same: bool = match &cur.server {
                    Some(s) => crate::text::str_eq(s.id.as_str(), server.id.as_str()),
                    None => false,
                };
                if same {
                    ConnectStep::AlreadyConnected
                } else {
                    ConnectStep::Busy
                }
            },
            _ => ConnectStep::Busy,
        };
        match step {
            ConnectStep::Started => {
                *self = VpnConnection {
                    status: ConnectionStatus::Connecting,
                    server: Some(server),
                    connected_at: None,
                    ip_address: None,
                    stats: no_traffic(),
                    attempts_left: 0,
                    policy: cur.policy,
                    protocol_config: cur.protocol_config,
                };
            },
            _ => {
                *self = cur;
            },
        }
        step
    }

    /// Reports how the handshake ended, at `now`. The machine takes the
    /// report only while it waits for a handshake, in `Connecting` or
    /// `Reconnecting`; a report that comes after the attempt was cancelled
    /// changes nothing.
    pub fn complete_connect(&mut self, outcome: HandshakeOutcome, now: i64) -> (r: HandshakeReply)
        ensures
            r == old(self)@.handshake_reply(outcome@),
            final(self)@ == old(self)@.after_handshake(outcome@, now),
            final(self)@.inv(),
    {
        let cur = self.take();
        let waiting: bool = match &cur.status {
            ConnectionStatus::Connecting => true,
            ConnectionStatus::Reconnecting => true,
            _ => false,
        };
        if !waiting {
            *self = cur;
            return HandshakeReply::Ignored;
        }
        let VpnConnection {
            status,
            server,
            connected_at,
            ip_address,
            stats,
            attempts_left,
            policy,
            protocol_config,
        } = cur;
        match outcome {
            HandshakeOutcome::Established { tunnel_ip } => {
                *self = VpnConnection {
                    status: ConnectionStatus::Connected,
                    server,
                    connected_at: Some(now),
                    ip_address: Some(tunnel_ip),
                    stats,
                    attempts_left: 0,
                    policy,
                    protocol_config,
                };
                HandshakeReply::Connected
            },
            failure => {
                if attempts_left > 1 {
                    *self = VpnConnection {
                        status,
                        server,
                        connected_at,
                        ip_address,
                        stats,
                        attempts_left: attempts_left - 1,
                        policy,
                        protocol_config,
                    };
                    HandshakeReply::Retry
                } else {
                    let text: String = match failure {
                        HandshakeOutcome::Failed { reason } => reason,
                        _ => "timeout".to_string(),
                    };
                    *self = VpnConnection {
                        status: ConnectionStatus::Error(text),
                        server,
                        connected_at: None,
                        ip_address,
                        stats,
                        attempts_left: 0,
                        policy,
                        protocol_config,
                    };
                    HandshakeReply::Failed
                }
            },
        }
    }

    /// The record of the connected session that ends at `now`.
    fn closing_record(&self, now: i64, reason: Option<String>) -> (r: Option<ConnectionLog>)
        ensures
            self@.emits(
                r,
                now,
                match reason {
                    Some(m) => Some(m@),
                    None => None,
                },
            ),
    {
        proof {
            use_type_invariant(self);
        }
        let connected: bool = match &self.status {
            ConnectionStatus::Connected => true,
            _ => false,
        };
        if !connected {
            return None;
        }
        match (&self.server, self.connected_at) {
            (Some(s), Some(since)) => Some(
                ConnectionLog {
                    timestamp: now,
                    server_id: s.id.clone(),
                    server_name: s.name.clone(),
                    country: s.location.country.name().to_string(),
                    duration: seconds_between(now, since),
                    bytes_sent: self.stats.total_upload,
                    bytes_received: self.stats.total_download,
                    disconnection_reason: reason,
                },
            ),
            _ => None,
        }
    }

    /// Asks to disconnect, at `now`. A session that is disconnected or
    /// disconnecting stays as it is; from `Error` the machine goes straight
    /// to `Disconnected`; from every other state it goes to `Disconnecting`,
    /// and the tunnel is to be torn down. Where this ends a connected
    /// session, its record comes back, with the final counters and the
    /// duration.
    pub fn begin_disconnect(&mut self, now: i64) -> (r: (DisconnectStep, Option<ConnectionLog>))
        ensures
            r.0 == old(self)@.disconnect_step(),
            old(self)@.emits(r.1, now, None),
            final(self)@ == old(self)@.after_disconnect_request(),
            final(self)@.inv(),
    {
        let record = self.closing_record(now, None);
        let cur = self.take();
        let step: DisconnectStep = match &cur.status {
            ConnectionStatus::Disconnected => DisconnectStep::Nothing,
            ConnectionStatus::Disconnecting => DisconnectStep::Nothing,
            ConnectionStatus::Error(_) => DisconnectStep::Done,
            _ => DisconnectStep::Teardown,
        };
        match step {
            DisconnectStep::Nothing => {
                *self = cur;
            },
            DisconnectStep::Done => {
                *self = VpnConnection {
                    status: ConnectionStatus::Disconnected,
                    server: None,
                    connected_at: None,
                    ip_address: None,
                    stats: no_traffic(),
                    attempts_left: 0,
                    policy: cur.policy,
                    protocol_config: cur.protocol_config,
                };
            },
            DisconnectStep::Teardown => {
                let policy = cur.policy;
                let protocol_config = cur.protocol_config;
                *self = VpnConnection {
                    status: ConnectionStatus::Disconnecting,
                    server: cur.server,
                    connected_at: None,
                    ip_address: None,
                    stats: no_traffic(),
                    attempts_left: 0,
                    policy,
                    protocol_config,
                };
            },
        }
        (step, record)
    }

    /// Reports that the tunnel is torn down: from `Disconnecting` the
    /// machine goes to `Disconnected` and lets go of its server. In every
    /// other state nothing changes.
    pub fn complete_disconnect(&mut self)
        ensures
            final(self)@ == old(self)@.after_teardown(),
            final(self)@.inv(),
    {
        let cur = self.take();
        let leaving: bool = match &cur.status {
            ConnectionStatus::Disconnecting => true,
            _ => false,
        };
        if leaving {
            *self = VpnConnection {
                status: ConnectionStatus::Disconnected,
                server: None,
                connected_at: cur.connected_at,
                ip_address: None,
                stats: cur.stats,
                attempts_left: cur.attempts_left,
                policy: cur.policy,
                protocol_config: cur.protocol_config,
            };
        } else {
            *self = cur;
        }
    }

    /// Asks to reconnect, at `now`. Only a connected session is
    /// reconnected: the machine goes to `Reconnecting`, keeps its server,
    /// and the record of the session that ends comes back. Without a session
    /// there is no server to reconnect to, and in every other state the
    /// machine is busy; the request is then refused and nothing changes.
    pub fn begin_reconnect(&mut self, now: i64) -> (r: (ReconnectStep, Option<ConnectionLog>))
        ensures
            r.0 == old(self)@.reconnect_step(),
            old(self)@.emits(r.1, now, None),
            final(self)@ == old(self)@.after_reconnect_request(),
            final(self)@.inv(),
    {
        let record = self.closing_record(now, None);
        let cur = self.take();
        let step: ReconnectStep = match &cur.status {
            ConnectionStatus::Connected => ReconnectStep::Started,
            ConnectionStatus::Disconnected => ReconnectStep::NoServer,
            ConnectionStatus::Error(_) => ReconnectStep::NoServer,
            _ => ReconnectStep::Busy,
        };
        match step {
            ReconnectStep::Started => {
                let policy = cur.policy;
                let protocol_config = cur.protocol_config;
                *self = VpnConnection {
                    status: ConnectionStatus::Reconnecting,
                    server: cur.server,
                    connected_at: cur.connected_at,
                    ip_address: None,
                    stats: no_traffic(),
                    attempts_left: 1,
                    policy,
                    protocol_config,
                };
            },
            _ => {
                *self = cur;
            },
        }
        (step, record)
    }

    /// Reports a fault of the transport, at `now`. A connected session
    /// starts to reconnect where the policy asks for it and the error is one
    /// that is retried; otherwise the machine goes to `Error` with the error
    /// in words. In `Error` nothing changes. Where the fault ends a
    /// connected session, its record comes back with the error as the
    /// reason.
    pub fn fault(&mut self, error: &VpnError, now: i64) -> (r: Option<ConnectionLog>)
        ensures
            old(self)@.emits(r, now, Some(error.heading() + error.detail())),
            final(self)@ == old(self)@.after_fault(
                error is ConnectionFailed || error is NetworkError,
                error.heading() + error.detail(),
            ),
            final(self)@.inv(),
    {
        let record = self.closing_record(now, Some(error.to_string()));
        let cur = self.take();
        let failed: bool = match &cur.status {
            ConnectionStatus::Error(_) => true,
            _ => false,
        };
        if failed {
            *self = cur;
            return record;
        }
        let connected: bool = match &cur.status {
            ConnectionStatus::Connected => true,
            _ => false,
        };
        let policy = cur.policy;
        let protocol_config = cur.protocol_config;
        if connected && policy.reconnect_on_disconnect && policy.reconnect_attempts > 0
            && error.is_retryable() {
            *self = VpnConnection {
                status: ConnectionStatus::Reconnecting,
                server: cur.server,
                connected_at: cur.connected_at,
                ip_address: None,
                stats: no_traffic(),
                attempts_left: policy.reconnect_attempts,
                policy,
                protocol_config,
            };
        } else {
            *self = VpnConnection {
                status: ConnectionStatus::Error(error.to_string()),
                server: cur.server,
                connected_at: None,
                ip_address: None,
                stats: no_traffic(),
                attempts_left: 0,
                policy,
                protocol_config,
            };
        }
        record
    }

    /// Connects to `server` with a handshake that ended with `outcome` at
    /// `now`: the request, then the report. A refused request and a failed
    /// handshake come back as errors.
    pub fn connect(&mut self, server: VpnServer, outcome: HandshakeOutcome, now: i64) -> (r: Result<
        (),
        VpnError,
    >)
        ensures
            final(self)@.inv(),
            match old(self)@.connect_step(server) {
                ConnectStep::Started => {
                    &&& final(self)@ == old(self)@.after_connect_request(server).after_handshake(
                        outcome@,
                        now,
                    )
                    &&& match outcome@ {
                        Outcome::Established(_) => r is Ok,
                        failure => r matches Err(VpnError::ConnectionFailed(m)) && m@
                            == failure.failure(),
                    }
                },
                ConnectStep::AlreadyConnected => final(self)@ == old(self)@ && r is Ok,
                ConnectStep::Busy => {
                    &&& final(self)@ == old(self)@
                    &&& r matches Err(VpnError::ConnectionFailed(m))
                    &&& m@ == "Session is busy"@
                },
            },
    {
        match self.begin_connect(server) {
            ConnectStep::Busy => Err(VpnError::ConnectionFailed("Session is busy".to_string())),
            ConnectStep::AlreadyConnected => Ok(()),
            ConnectStep::Started => {
                let failure: Option<String> = match &outcome {
                    HandshakeOutcome::Established { .. } => None,
                    HandshakeOutcome::Failed { reason } => Some(reason.clone()),
                    HandshakeOutcome::TimedOut => Some("timeout".to_string()),
                };
                self.complete_connect(outcome, now);
                match failure {
                    None => Ok(()),
                    Some(m) => Err(VpnError::ConnectionFailed(m)),
                }
            },
        }
    }

    /// Disconnects at `now`: the request, then the report that the tunnel is
    /// torn down. The session ends in `Disconnected` whatever it was; the
    /// record of a connected session comes back. Disconnecting a session
    /// that is disconnected changes nothing.
    pub fn disconnect(&mut self, now: i64) -> (r: Result<Option<ConnectionLog>, VpnError>)
        ensures
            r matches Ok(record) && old(self)@.emits(record, now, None),
            final(self)@ == old(self)@.after_disconnect(),
            final(self)@.inv(),
    {
        let (_, record) = self.begin_disconnect(now);
        self.complete_disconnect();
        Ok(record)
    }

    /// Reconnects at `now` with a handshake that ended with `outcome`: the
    /// request, then the report. The record of the session that ended comes
    /// back beside the result.
    pub fn reconnect(&mut self, outcome: HandshakeOutcome, now: i64) -> (r: (
        Option<ConnectionLog>,
        Result<(), VpnError>,
    ))
        ensures
            final(self)@.inv(),
            old(self)@.emits(r.0, now, None),
            match old(self)@.reconnect_step() {
                ReconnectStep::Started => {
                    &&& final(self)@ == old(self)@.after_reconnect_request().after_handshake(
                        outcome@,
                        now,
                    )
                    &&& match outcome@ {
                        Outcome::Established(_) => r.1 is Ok,
                        failure => r.1 matches Err(VpnError::ConnectionFailed(m)) && m@
                            == failure.failure(),
                    }
                },
                ReconnectStep::NoServer => {
                    &&& final(self)@ == old(self)@
                    &&& r.1 matches Err(VpnError::ConnectionFailed(m))
                    &&& m@ == "No server to reconnect to"@
                },
                ReconnectStep::Busy => {
                    &&& final(self)@ == old(self)@
                    &&& r.1 matches Err(VpnError::ConnectionFailed(m))
                    &&& m@ == "Session is busy"@
                },
            },
    {
        let (step, record) = self.begin_reconnect(now);
        match step {
            ReconnectStep::NoServer => (
                record,
                Err(VpnError::ConnectionFailed("No server to reconnect to".to_string())),
            ),
            ReconnectStep::Busy => (
                record,
                Err(VpnError::ConnectionFailed("Session is busy".to_string())),
            ),
            ReconnectStep::Started => {
                let failure: Option<String> = match &outcome {
                    HandshakeOutcome::Established { .. } => None,
                    HandshakeOutcome::Failed { reason } => Some(reason.clone()),
                    HandshakeOutcome::TimedOut => Some("timeout".to_string()),
                };
                self.complete_connect(outcome, now);
                match failure {
                    None => (record, Ok(())),
                    Some(m) => (record, Err(VpnError::ConnectionFailed(m))),
                }
            },
        }
    }

    /// A snapshot of the session at `now`. The duration is the time since
    /// the connection was made while the session is connected, and zero
    /// otherwise.
    pub fn get_info(&self, now: i64) -> (r: ConnectionInfo)
        ensures
            self@.shows(r, now),
            self@.inv(),
    {
        proof {
            use_type_invariant(self);
        }
        let connected: bool = match &self.status {
            ConnectionStatus::Connected => true,
            _ => false,
        };
        let duration: u64 = match self.connected_at {
            Some(since) => if connected {
                seconds_between(now, since)
            } else {
                0
            },
            None => 0,
        };
        ConnectionInfo {
            status: self.status.clone(),
            server: match &self.server {
                Some(s) => Some(s.clone()),
                None => None,
            },
            connected_at: self.connected_at,
            bytes_sent: self.stats.total_upload,
            bytes_received: self.stats.total_download,
            duration,
            ip_address: match &self.ip_address {
                Some(a) => Some(a.clone()),
                None => None,
            },
        }
    }

    /// The live counters.
    pub fn get_stats(&self) -> (r: VpnStats)
        ensures
            r == self@.stats,
    {
        self.stats
    }

    /// Takes a reading of the data plane: while the session is connected
    /// the rates, latency and loss are those of the reading and the totals
    /// grow by its bytes; in every other state nothing changes.
    pub fn update_stats(&mut self, sample: TrafficSample)
        requires
            old(self)@.takes(sample),
        ensures
            final(self)@ == old(self)@.after_sample(sample),
            final(self)@.inv(),
    {
        let cur = self.take();
        let connected: bool = match &cur.status {
            ConnectionStatus::Connected => true,
            _ => false,
        };
        if connected {
            let stats = VpnStats {
                current_speed_up: sample.speed_up,
                current_speed_down: sample.speed_down,
                total_upload: cur.stats.total_upload + sample.bytes_up,
                total_download: cur.stats.total_download + sample.bytes_down,
                latency: sample.latency,
                packet_loss: sample.packet_loss,
            };
            let policy = cur.policy;
            let protocol_config = cur.protocol_config;
            let attempts_left = cur.attempts_left;
            let connected_at = cur.connected_at;
            *self = VpnConnection {
                status: ConnectionStatus::Connected,
                server: cur.server,
                connected_at,
                ip_address: cur.ip_address,
                stats,
                attempts_left,
                policy,
                protocol_config,
            };
        } else {
            *self = cur;
        }
    }

    /// Whether the counters can take the reading without running over.
    pub fn can_take(&self, sample: &TrafficSample) -> (r: bool)
        ensures
            r == self@.takes(*sample),
    {
        let connected: bool = match &self.status {
            ConnectionStatus::Connected => true,
            _ => false,
        };
        !connected || (self.stats.total_upload.checked_add(sample.bytes_up).is_some()
            && self.stats.total_download.checked_add(sample.bytes_down).is_some())
    }

    pub fn is_connected(&self) -> (r: bool)
        ensures
            r == (self@.phase is Connected),
    {
        match &self.status {
            ConnectionStatus::Connected => true,
            _ => false,
        }
    }

    pub fn get_protocol_config(&self) -> (r: &ProtocolConfig)
        ensures
            *r == self@.protocol,
    {
        &self.protocol_config
    }

    pub fn set_protocol_config(&mut self, config: ProtocolConfig)
        ensures
            final(self)@ == (SessionState { protocol: config, ..old(self)@ }),
            final(self)@.inv(),
    {
        proof {
            use_type_invariant(&*self);
        }
        self.protocol_config = config;
    }

    /// The policy for faults of a connected session.
    pub fn get_policy(&self) -> (r: ReconnectPolicy)
        ensures
            r == self@.policy,
    {
        self.policy
    }

    pub fn set_policy(&mut self, policy: ReconnectPolicy)
        ensures
            final(self)@ == (SessionState { policy, ..old(self)@ }),
            final(self)@.inv(),
    {
        proof {
            use_type_invariant(&*self);
        }
        self.policy = policy;
    }
}

} // verus!
