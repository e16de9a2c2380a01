//! Controller core of a VPN client: the session state machine, the server
//! inventory with its ranking, the kill switch, the resolver policy, the
//! split-tunnel router and the connection log with its rollups.
//!
//! Every function states what it returns or changes, and is proved to do so.
//! The exceptions are named where they stand: the few calls into `chrono`,
//! `aes-gcm`, `sha2`, `base64` and `rand`, and `String::push`, are believed
//! as their documentation describes them. Times are whole seconds since the
//! Unix epoch, durations whole seconds.

use vstd::prelude::*;

pub mod analytics;
pub mod config;
pub mod connection;
pub mod dns;
pub mod encryption;
pub mod ip;
pub mod killswitch;
pub mod menu;
pub mod protocol;
pub mod server;
pub mod split_tunnel;
pub mod text;

pub use config::VpnConfig;
pub use connection::VpnConnection;
pub use protocol::VpnProtocol;
pub use server::{ServerLocation, VpnServer};

verus! {

/// The state of the session.
#[derive(Debug)]
pub enum ConnectionStatus {
    Disconnected,
    Connecting,
    Connected,
    Disconnecting,
    Reconnecting,
    Error(String),
}

impl Clone for ConnectionStatus {
    fn clone(&self) -> (r: Self)
        ensures
            r == *self,
    {
        match self {
            ConnectionStatus::Disconnected => ConnectionStatus::Disconnected,
            ConnectionStatus::Connecting => ConnectionStatus::Connecting,
            ConnectionStatus::Connected => ConnectionStatus::Connected,
            ConnectionStatus::Disconnecting => ConnectionStatus::Disconnecting,
            ConnectionStatus::Reconnecting => ConnectionStatus::Reconnecting,
            ConnectionStatus::Error(m) => ConnectionStatus::Error(m.clone()),
        }
    }
}

/// A snapshot of the session. `connected_at` is in seconds since the Unix
/// epoch, `duration` in seconds.
#[derive(Debug)]
pub struct ConnectionInfo {
    pub status: ConnectionStatus,
    pub server: Option<VpnServer>,
    pub connected_at: Option<i64>,
    pub bytes_sent: u64,
    pub bytes_received: u64,
    pub duration: u64,
    pub ip_address: Option<String>,
}

impl Clone for ConnectionInfo {
    fn clone(&self) -> (r: Self)
        ensures
            r == *self,
    {
        ConnectionInfo {
            status: self.status.clone(),
            server: match &self.server {
                Some(s) => Some(s.clone()),
                None => None,
            },
            connected_at: self.connected_at,
            bytes_sent: self.bytes_sent,
            bytes_received: self.bytes_received,
            duration: self.duration,
            ip_address: match &self.ip_address {
                Some(a) => Some(a.clone()),
                None => None,
            },
        }
    }
}

/// The live counters of a session. Speeds are in bytes per second, totals in
/// bytes, `latency` in milliseconds, `packet_loss` in hundredths of a
/// percent.
#[derive(Debug, Clone, Copy, PartialEq, Eq, Structural)]
pub struct VpnStats {
    pub current_speed_up: u64,
    pub current_speed_down: u64,
    pub total_upload: u64,
    pub total_download: u64,
    pub latency: u32,
    pub packet_loss: u32,
}

/// What went wrong, with a message.
#[derive(Debug)]
pub enum VpnError {
    ConnectionFailed(String),
    AuthenticationFailed(String),
    ServerUnavailable(String),
    ConfigError(String),
    NetworkError(String),
    EncryptionError(String),
}

impl VpnError {
    /// The message the error carries.
    pub open spec fn detail(self) -> Seq<char> {
        match self {
            VpnError::ConnectionFailed(m) => m@,
            VpnError::AuthenticationFailed(m) => m@,
            VpnError::ServerUnavailable(m) => m@,
            VpnError::ConfigError(m) => m@,
            VpnError::NetworkError(m) => m@,
            VpnError::EncryptionError(m) => m@,
        }
    }

    /// The words that name the kind of the error.
    pub open spec fn heading(self) -> Seq<char> {
        match self {
            VpnError::ConnectionFailed(_) => "Connection failed: "@,
            VpnError::AuthenticationFailed(_) => "Authentication failed: "@,
            VpnError::ServerUnavailable(_) => "Server unavailable: "@,
            VpnError::ConfigError(_) => "Configuration error: "@,
            VpnError::NetworkError(_) => "Network error: "@,
            VpnError::EncryptionError(_) => "Encryption error: "@,
        }
    }

    /// The error in words: its kind, then its message.
    pub fn to_string(&self) -> (r: String)
        ensures
            r@ == self.heading() + self.detail(),
    {
        let mut out = String::new();
        let (head, tail): (&str, &String) = match self {
            VpnError::ConnectionFailed(m) => ("Connection failed: ", m),
            VpnError::AuthenticationFailed(m) => ("Authentication failed: ", m),
            VpnError::ServerUnavailable(m) => ("Server unavailable: ", m),
            VpnError::ConfigError(m) => ("Configuration error: ", m),
            VpnError::NetworkError(m) => ("Network error: ", m),
            VpnError::EncryptionError(m) => ("Encryption error: ", m),
        };
        text::push_text(&mut out, head);
        text::push_text(&mut out, tail.as_str());
        assert(out@ =~= self.heading() + self.detail());
        out
    }

    /// Whether the reconnect policy may try again after this error: only a
    /// failed connection and a network error are retried.
    pub fn is_retryable(&self) -> (r: bool)
        ensures
            r == (self is ConnectionFailed || self is NetworkError),
    {
        match self {
            VpnError::ConnectionFailed(_) => true,
            VpnError::NetworkError(_) => true,
            _ => false,
        }
    }
}

} // verus!
