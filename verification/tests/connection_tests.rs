use vpn_mobile::connection::{
    tunnel_address, ConnectStep, DisconnectStep, HandshakeOutcome, HandshakeReply, ReconnectPolicy,
    ReconnectStep, TrafficSample,
};
use vpn_mobile::protocol::{ProtocolConfig, VpnProtocol};
use vpn_mobile::server::{Country, ServerLocation, VpnServer};
use vpn_mobile::{ConnectionStatus, VpnConnection, VpnError};

fn server(id: &str) -> VpnServer {
    VpnServer {
        id: id.to_string(),
        name: "Test Server".to_string(),
        location: ServerLocation {
            city: "Test City".to_string(),
            country: Country::UnitedStates,
            latitude: 0,
            longitude: 0,
        },
        host: "test.vpn.com".to_string(),
        port: 443,
        load: 50,
        latency: 30,
        bandwidth: 1000,
        is_premium: false,
        supports_p2p: true,
        supports_streaming: true,
        online: true,
    }
}

fn up(ip: &str) -> HandshakeOutcome {
    HandshakeOutcome::Established { tunnel_ip: ip.to_string() }
}

fn down(reason: &str) -> HandshakeOutcome {
    HandshakeOutcome::Failed { reason: reason.to_string() }
}

fn sample(bytes_up: u64, bytes_down: u64) -> TrafficSample {
    TrafficSample {
        speed_up: 7,
        speed_down: 8,
        bytes_up,
        bytes_down,
        latency: 21,
        packet_loss: 3,
    }
}

fn check_table(c: &VpnConnection, now: i64) {
    let info = c.get_info(now);
    let connected = matches!(info.status, ConnectionStatus::Connected);
    let reconnecting = matches!(info.status, ConnectionStatus::Reconnecting);
    assert_eq!(info.connected_at.is_some(), connected || reconnecting);
    if matches!(
        info.status,
        ConnectionStatus::Connecting
            | ConnectionStatus::Connected
            | ConnectionStatus::Disconnecting
            | ConnectionStatus::Reconnecting
    ) {
        assert!(info.server.is_some());
    }
    if matches!(info.status, ConnectionStatus::Disconnected) {
        assert!(info.server.is_none());
    }
    assert_eq!(info.ip_address.is_some(), connected);
    if !connected {
        assert_eq!(info.duration, 0);
        assert_eq!(info.bytes_sent, 0);
        assert_eq!(info.bytes_received, 0);
    }
}

#[test]
fn test_connection_lifecycle() {
    let config = ProtocolConfig::default();
    let mut connection = VpnConnection::new(config);

    let server = server("test-1");

    assert!(connection.connect(server, up("10.8.3.4"), 1000).is_ok());
    assert!(connection.is_connected());

    assert!(connection.disconnect(1060).is_ok());
    assert!(!connection.is_connected());
}

#[test]
fn new_session_is_disconnected() {
    let c = VpnConnection::new(ProtocolConfig::new(VpnProtocol::OpenVPN));
    let info = c.get_info(5);
    assert!(matches!(info.status, ConnectionStatus::Disconnected));
    assert!(info.server.is_none());
    assert!(info.connected_at.is_none());
    assert!(info.ip_address.is_none());
    assert_eq!(info.duration, 0);
    assert_eq!(c.get_protocol_config().protocol, VpnProtocol::OpenVPN);
    assert_eq!(
        c.get_policy(),
        ReconnectPolicy { reconnect_on_disconnect: true, reconnect_attempts: 3 }
    );
    assert_eq!(ReconnectPolicy::default(), c.get_policy());
    assert_eq!(c.get_stats().total_upload, 0);
    check_table(&c, 5);
}

#[test]
fn connect_stamps_time_and_address() {
    let mut c = VpnConnection::new(ProtocolConfig::default());
    assert_eq!(c.begin_connect(server("a")), ConnectStep::Started);
    let info = c.get_info(10);
    assert!(matches!(info.status, ConnectionStatus::Connecting));
    assert_eq!(info.server.unwrap().id, "a");
    assert!(info.connected_at.is_none());
    check_table(&c, 10);
    assert_eq!(c.complete_connect(up("10.8.0.9"), 12), HandshakeReply::Connected);
    let info = c.get_info(72);
    assert!(matches!(info.status, ConnectionStatus::Connected));
    assert_eq!(info.connected_at, Some(12));
    assert_eq!(info.ip_address, Some("10.8.0.9".to_string()));
    assert_eq!(info.duration, 60);
    assert_eq!(c.get_info(11).duration, 0);
    assert_eq!(c.get_info(i64::MAX).duration, (i64::MAX - 12) as u64);
    check_table(&c, 72);
}

#[test]
fn duration_spans_the_whole_range_of_time() {
    let mut c = VpnConnection::new(ProtocolConfig::default());
    c.connect(server("a"), up("10.8.0.9"), i64::MIN).unwrap();
    assert_eq!(c.get_info(i64::MAX).duration, u64::MAX);
    let r = c.disconnect(i64::MAX).unwrap().unwrap();
    assert_eq!(r.duration, u64::MAX);
}

#[test]
fn failed_handshake_ends_in_error_without_record() {
    let mut c = VpnConnection::new(ProtocolConfig::default());
    match c.connect(server("a"), down("refused"), 5) {
        Err(VpnError::ConnectionFailed(m)) => assert_eq!(m, "refused"),
        other => panic!("unexpected: {:?}", other),
    }
    match c.get_info(6).status {
        ConnectionStatus::Error(m) => assert_eq!(m, "refused"),
        other => panic!("unexpected: {:?}", other),
    }
    check_table(&c, 6);
    let (step, record) = c.begin_disconnect(7);
    assert_eq!(step, DisconnectStep::Done);
    assert!(record.is_none());
    assert!(matches!(c.get_info(7).status, ConnectionStatus::Disconnected));
    assert!(c.get_info(7).server.is_none());
    check_table(&c, 7);
}

#[test]
fn timeout_is_called_timeout() {
    let mut c = VpnConnection::new(ProtocolConfig::default());
    match c.connect(server("a"), HandshakeOutcome::TimedOut, 5) {
        Err(VpnError::ConnectionFailed(m)) => assert_eq!(m, "timeout"),
        other => panic!("unexpected: {:?}", other),
    }
    match c.get_info(6).status {
        ConnectionStatus::Error(m) => assert_eq!(m, "timeout"),
        other => panic!("unexpected: {:?}", other),
    }
    assert!(c.disconnect(6).unwrap().is_none());
    assert!(matches!(c.get_info(7).status, ConnectionStatus::Disconnected));
}

#[test]
fn connect_from_error_starts_over() {
    let mut c = VpnConnection::new(ProtocolConfig::default());
    assert!(c.connect(server("a"), down("x"), 5).is_err());
    assert!(c.connect(server("b"), up("10.8.0.1"), 6).is_ok());
    assert_eq!(c.get_info(6).server.unwrap().id, "b");
    assert!(c.is_connected());
}

#[test]
fn busy_states_refuse_connect() {
    let mut c = VpnConnection::new(ProtocolConfig::default());
    assert_eq!(c.begin_connect(server("a")), ConnectStep::Started);
    assert_eq!(c.begin_connect(server("b")), ConnectStep::Busy);
    assert_eq!(c.begin_connect(server("a")), ConnectStep::Busy);
    match c.connect(server("b"), up("10.8.0.1"), 1) {
        Err(VpnError::ConnectionFailed(m)) => assert_eq!(m, "Session is busy"),
        other => panic!("unexpected: {:?}", other),
    }
    assert!(matches!(c.get_info(1).status, ConnectionStatus::Connecting));
    assert_eq!(c.get_info(1).server.unwrap().id, "a");
    c.complete_connect(up("10.8.0.1"), 2);
    assert_eq!(c.begin_connect(server("b")), ConnectStep::Busy);
    assert_eq!(c.begin_connect(server("a")), ConnectStep::AlreadyConnected);
    assert!(c.connect(server("a"), down("ignored"), 3).is_ok());
    assert_eq!(c.get_info(3).connected_at, Some(2));
    assert!(c.is_connected());
    c.begin_reconnect(4);
    assert_eq!(c.begin_connect(server("a")), ConnectStep::Busy);
    c.begin_disconnect(5);
    assert_eq!(c.begin_connect(server("a")), ConnectStep::Busy);
    check_table(&c, 5);
}

#[test]
fn disconnect_emits_record_with_final_counters() {
    let mut c = VpnConnection::new(ProtocolConfig::default());
    c.connect(server("us-9"), up("10.8.0.9"), 100).unwrap();
    c.update_stats(sample(1000, 5000));
    c.update_stats(sample(1, 2));
    let (step, record) = c.begin_disconnect(400);
    assert_eq!(step, DisconnectStep::Teardown);
    let r = record.unwrap();
    assert_eq!(r.timestamp, 400);
    assert_eq!(r.server_id, "us-9");
    assert_eq!(r.server_name, "Test Server");
    assert_eq!(r.country, "United States");
    assert_eq!(r.duration, 300);
    assert_eq!(r.bytes_sent, 1001);
    assert_eq!(r.bytes_received, 5002);
    assert!(r.disconnection_reason.is_none());
    let info = c.get_info(401);
    assert!(matches!(info.status, ConnectionStatus::Disconnecting));
    assert!(info.server.is_some());
    check_table(&c, 401);
    c.complete_disconnect();
    let info = c.get_info(402);
    assert!(matches!(info.status, ConnectionStatus::Disconnected));
    assert!(info.server.is_none());
    assert!(info.ip_address.is_none());
    assert!(info.connected_at.is_none());
    check_table(&c, 402);
}

#[test]
fn disconnect_twice_is_disconnect_once() {
    let mut c = VpnConnection::new(ProtocolConfig::default());
    assert!(c.disconnect(1).unwrap().is_none());
    c.connect(server("a"), up("10.8.0.9"), 100).unwrap();
    assert!(c.disconnect(200).unwrap().is_some());
    let first = c.get_info(300);
    assert!(c.disconnect(300).unwrap().is_none());
    let (step, record) = c.begin_disconnect(301);
    assert_eq!(step, DisconnectStep::Nothing);
    assert!(record.is_none());
    let second = c.get_info(300);
    assert!(matches!(first.status, ConnectionStatus::Disconnected));
    assert!(matches!(second.status, ConnectionStatus::Disconnected));
    assert!(second.server.is_none());
    assert_eq!(first.connected_at, second.connected_at);
    assert_eq!(first.bytes_sent, second.bytes_sent);
}

#[test]
fn disconnecting_ignores_further_disconnects() {
    let mut c = VpnConnection::new(ProtocolConfig::default());
    c.connect(server("a"), up("10.8.0.9"), 100).unwrap();
    assert_eq!(c.begin_disconnect(200).0, DisconnectStep::Teardown);
    let (step, record) = c.begin_disconnect(201);
    assert_eq!(step, DisconnectStep::Nothing);
    assert!(record.is_none());
    assert!(matches!(c.get_info(201).status, ConnectionStatus::Disconnecting));
}

#[test]
fn cancel_in_flight_connect() {
    let mut c = VpnConnection::new(ProtocolConfig::default());
    assert_eq!(c.begin_connect(server("a")), ConnectStep::Started);
    let (step, record) = c.begin_disconnect(5);
    assert_eq!(step, DisconnectStep::Teardown);
    assert!(record.is_none());
    assert!(matches!(c.get_info(5).status, ConnectionStatus::Disconnecting));
    assert_eq!(c.complete_connect(up("10.8.0.9"), 6), HandshakeReply::Ignored);
    assert!(matches!(c.get_info(6).status, ConnectionStatus::Disconnecting));
    assert!(!c.is_connected());
    c.complete_disconnect();
    assert!(matches!(c.get_info(7).status, ConnectionStatus::Disconnected));
    assert_eq!(c.complete_connect(up("10.8.0.9"), 8), HandshakeReply::Ignored);
    assert!(matches!(c.get_info(8).status, ConnectionStatus::Disconnected));
    check_table(&c, 8);
}

#[test]
fn teardown_report_is_ignored_outside_disconnecting() {
    let mut c = VpnConnection::new(ProtocolConfig::default());
    c.complete_disconnect();
    assert!(matches!(c.get_info(1).status, ConnectionStatus::Disconnected));
    c.connect(server("a"), up("10.8.0.9"), 100).unwrap();
    c.complete_disconnect();
    assert!(c.is_connected());
    assert_eq!(c.get_info(100).connected_at, Some(100));
}

#[test]
fn reconnect_needs_a_connected_session() {
    let mut c = VpnConnection::new(ProtocolConfig::default());
    let (record, result) = c.reconnect(up("10.8.0.1"), 1);
    assert!(record.is_none());
    match result {
        Err(VpnError::ConnectionFailed(m)) => assert_eq!(m, "No server to reconnect to"),
        other => panic!("unexpected: {:?}", other),
    }
    assert!(matches!(c.get_info(1).status, ConnectionStatus::Disconnected));
    c.begin_connect(server("a"));
    assert_eq!(c.begin_reconnect(2).0, ReconnectStep::Busy);
    match c.reconnect(up("10.8.0.1"), 2).1 {
        Err(VpnError::ConnectionFailed(m)) => assert_eq!(m, "Session is busy"),
        other => panic!("unexpected: {:?}", other),
    }
    assert!(matches!(c.get_info(2).status, ConnectionStatus::Connecting));
    c.complete_connect(down("x"), 3);
    assert_eq!(c.begin_reconnect(4).0, ReconnectStep::NoServer);
    assert!(matches!(c.get_info(4).status, ConnectionStatus::Error(_)));
}

#[test]
fn reconnect_ends_one_session_and_starts_another() {
    let mut c = VpnConnection::new(ProtocolConfig::default());
    c.connect(server("a"), up("10.8.0.1"), 100).unwrap();
    c.update_stats(sample(11, 22));
    let (step, record) = c.begin_reconnect(160);
    assert_eq!(step, ReconnectStep::Started);
    let r = record.unwrap();
    assert_eq!(r.duration, 60);
    assert_eq!(r.bytes_sent, 11);
    assert_eq!(r.bytes_received, 22);
    let info = c.get_info(161);
    assert!(matches!(info.status, ConnectionStatus::Reconnecting));
    assert_eq!(info.server.unwrap().id, "a");
    assert_eq!(info.connected_at, Some(100));
    assert_eq!(info.duration, 0);
    assert_eq!(c.get_stats().total_upload, 0);
    check_table(&c, 161);
    assert_eq!(c.complete_connect(up("10.8.0.2"), 170), HandshakeReply::Connected);
    let info = c.get_info(175);
    assert_eq!(info.connected_at, Some(170));
    assert_eq!(info.ip_address, Some("10.8.0.2".to_string()));
    assert_eq!(info.duration, 5);
    check_table(&c, 175);
}

#[test]
fn commanded_reconnect_tries_once() {
    let mut c = VpnConnection::new(ProtocolConfig::default());
    c.connect(server("a"), up("10.8.0.1"), 100).unwrap();
    let (record, result) = c.reconnect(down("no route"), 200);
    assert_eq!(record.unwrap().duration, 100);
    match result {
        Err(VpnError::ConnectionFailed(m)) => assert_eq!(m, "no route"),
        other => panic!("unexpected: {:?}", other),
    }
    match c.get_info(201).status {
        ConnectionStatus::Error(m) => assert_eq!(m, "no route"),
        other => panic!("unexpected: {:?}", other),
    }
    check_table(&c, 201);
}

#[test]
fn reconnect_on_fault_then_success() {
    let policy = ReconnectPolicy { reconnect_on_disconnect: true, reconnect_attempts: 2 };
    let mut c = VpnConnection::with_policy(ProtocolConfig::default(), policy);
    c.connect(server("a"), up("10.8.0.1"), 100).unwrap();
    c.update_stats(sample(5, 6));
    let record = c.fault(&VpnError::NetworkError("link down".to_string()), 130).unwrap();
    assert_eq!(record.duration, 30);
    assert_eq!(record.bytes_sent, 5);
    assert_eq!(record.disconnection_reason, Some("Network error: link down".to_string()));
    assert!(matches!(c.get_info(130).status, ConnectionStatus::Reconnecting));
    check_table(&c, 130);
    assert_eq!(c.complete_connect(down("again"), 131), HandshakeReply::Retry);
    assert!(matches!(c.get_info(131).status, ConnectionStatus::Reconnecting));
    check_table(&c, 131);
    assert_eq!(c.complete_connect(up("10.8.0.5"), 132), HandshakeReply::Connected);
    assert!(c.is_connected());
    assert_eq!(c.get_info(132).connected_at, Some(132));
    check_table(&c, 132);
}

#[test]
fn reconnect_on_fault_gives_up_after_attempts() {
    let policy = ReconnectPolicy { reconnect_on_disconnect: true, reconnect_attempts: 2 };
    let mut c = VpnConnection::with_policy(ProtocolConfig::default(), policy);
    c.connect(server("a"), up("10.8.0.1"), 100).unwrap();
    assert!(c.fault(&VpnError::ConnectionFailed("reset".to_string()), 130).is_some());
    assert!(matches!(c.get_info(130).status, ConnectionStatus::Reconnecting));
    assert_eq!(c.complete_connect(HandshakeOutcome::TimedOut, 131), HandshakeReply::Retry);
    assert!(matches!(c.get_info(131).status, ConnectionStatus::Reconnecting));
    assert_eq!(c.complete_connect(down("still down"), 132), HandshakeReply::Failed);
    match c.get_info(133).status {
        ConnectionStatus::Error(m) => assert_eq!(m, "still down"),
        other => panic!("unexpected: {:?}", other),
    }
    assert!(c.get_info(133).connected_at.is_none());
    check_table(&c, 133);
    assert!(c.disconnect(134).unwrap().is_none());
    assert!(matches!(c.get_info(134).status, ConnectionStatus::Disconnected));
}

#[test]
fn fault_without_retry_goes_to_error() {
    let mut c = VpnConnection::new(ProtocolConfig::default());
    c.connect(server("a"), up("10.8.0.1"), 100).unwrap();
    let r = c.fault(&VpnError::AuthenticationFailed("bad key".to_string()), 110).unwrap();
    assert_eq!(r.disconnection_reason, Some("Authentication failed: bad key".to_string()));
    match c.get_info(111).status {
        ConnectionStatus::Error(m) => assert_eq!(m, "Authentication failed: bad key"),
        other => panic!("unexpected: {:?}", other),
    }
    check_table(&c, 111);
    assert!(c.fault(&VpnError::NetworkError("x".to_string()), 112).is_none());
    match c.get_info(113).status {
        ConnectionStatus::Error(m) => assert_eq!(m, "Authentication failed: bad key"),
        other => panic!("unexpected: {:?}", other),
    }

    let off = ReconnectPolicy { reconnect_on_disconnect: false, reconnect_attempts: 3 };
    let mut c = VpnConnection::with_policy(ProtocolConfig::default(), off);
    c.connect(server("a"), up("10.8.0.1"), 100).unwrap();
    c.fault(&VpnError::NetworkError("x".to_string()), 110);
    assert!(matches!(c.get_info(110).status, ConnectionStatus::Error(_)));

    let none = ReconnectPolicy { reconnect_on_disconnect: true, reconnect_attempts: 0 };
    let mut c = VpnConnection::new(ProtocolConfig::default());
    c.set_policy(none);
    c.connect(server("a"), up("10.8.0.1"), 100).unwrap();
    c.fault(&VpnError::NetworkError("x".to_string()), 110);
    assert!(matches!(c.get_info(110).status, ConnectionStatus::Error(_)));
    check_table(&c, 110);
}

#[test]
fn fault_outside_connected_goes_to_error_without_record() {
    let mut c = VpnConnection::new(ProtocolConfig::default());
    assert!(c.fault(&VpnError::NetworkError("x".to_string()), 1).is_none());
    assert!(matches!(c.get_info(1).status, ConnectionStatus::Error(_)));
    assert!(c.get_info(1).server.is_none());
    check_table(&c, 1);
    let mut c = VpnConnection::new(ProtocolConfig::default());
    c.begin_connect(server("a"));
    assert!(c.fault(&VpnError::EncryptionError("x".to_string()), 1).is_none());
    assert!(matches!(c.get_info(1).status, ConnectionStatus::Error(_)));
    check_table(&c, 1);
    let mut c = VpnConnection::new(ProtocolConfig::default());
    c.connect(server("a"), up("10.8.0.1"), 100).unwrap();
    c.begin_reconnect(101);
    assert!(c.fault(&VpnError::NetworkError("x".to_string()), 102).is_none());
    assert!(matches!(c.get_info(102).status, ConnectionStatus::Error(_)));
    check_table(&c, 102);
}

#[test]
fn stats_grow_only_while_connected() {
    let mut c = VpnConnection::new(ProtocolConfig::default());
    c.update_stats(sample(5, 5));
    assert_eq!(c.get_stats().total_upload, 0);
    assert_eq!(c.get_stats().latency, 0);
    c.begin_connect(server("a"));
    c.update_stats(sample(5, 5));
    assert_eq!(c.get_stats().total_upload, 0);
    c.complete_connect(up("10.8.0.1"), 1);
    c.update_stats(sample(5, 50));
    let first = c.get_stats();
    c.update_stats(sample(0, 7));
    let second = c.get_stats();
    assert!(second.total_upload >= first.total_upload);
    assert!(second.total_download >= first.total_download);
    assert_eq!(second.total_upload, 5);
    assert_eq!(second.total_download, 57);
    assert_eq!(second.current_speed_up, 7);
    assert_eq!(second.current_speed_down, 8);
    assert_eq!(second.latency, 21);
    assert_eq!(second.packet_loss, 3);
    assert_eq!(c.get_info(2).bytes_sent, 5);
    assert_eq!(c.get_info(2).bytes_received, 57);
    c.disconnect(3).unwrap();
    assert_eq!(c.get_stats().total_upload, 0);
    assert_eq!(c.get_stats().current_speed_up, 0);
}

#[test]
fn counters_refuse_to_run_over() {
    let mut c = VpnConnection::new(ProtocolConfig::default());
    assert!(c.can_take(&sample(u64::MAX, u64::MAX)));
    c.connect(server("a"), up("10.8.0.1"), 1).unwrap();
    assert!(c.can_take(&sample(u64::MAX, u64::MAX)));
    c.update_stats(sample(1, 0));
    assert!(!c.can_take(&sample(u64::MAX, 0)));
    assert!(c.can_take(&sample(u64::MAX - 1, u64::MAX)));
    c.update_stats(sample(0, 1));
    assert!(!c.can_take(&sample(0, u64::MAX)));
}

#[test]
fn protocol_settings_can_be_changed() {
    let mut c = VpnConnection::new(ProtocolConfig::default());
    c.set_protocol_config(ProtocolConfig::new(VpnProtocol::IKEv2).with_tcp(true));
    assert_eq!(c.get_protocol_config().protocol, VpnProtocol::IKEv2);
    assert_eq!(c.get_protocol_config().port, 500);
    assert!(c.get_protocol_config().use_tcp);
}

#[test]
fn tunnel_addresses() {
    assert_eq!(tunnel_address(0, 0), "10.8.0.0");
    assert_eq!(tunnel_address(3, 4), "10.8.3.4");
    assert_eq!(tunnel_address(255, 109), "10.8.255.109");
    assert_eq!(vpn_mobile::connection::RECONNECT_BACKOFF_MS, 500);
}
