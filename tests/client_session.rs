use session_protocol::client::{
    is_auth_response_header, ClientReadEvent, ClientSession, HandshakeOutcome, Ping,
};
use session_protocol::codec::create_auth_response_package;
use session_protocol::transport::ReadOutcome;

fn active_session(now: u64) -> ClientSession {
    let mut session = ClientSession::new(now);
    session.authenticated = true;
    session.connected = true;
    session
}

fn response_payload(token: &str) -> [u8; 32] {
    let packet = create_auth_response_package(token.to_string());
    let mut payload = [0u8; 32];
    payload.copy_from_slice(&packet[2..34]);
    payload
}

#[test]
fn ping_records_first_echo_only() {
    let mut ping = Ping::new(100);
    assert_eq!(ping.get_duration(), None);
    ping.receive(150);
    assert_eq!(ping.received_at, Some(150));
    assert_eq!(ping.get_duration(), Some(50));
    ping.receive(400);
    assert_eq!(ping.get_duration(), Some(50));
}

#[test]
fn ping_duration_never_negative() {
    let mut ping = Ping::new(100);
    ping.receive(90);
    assert_eq!(ping.get_duration(), Some(0));
}

#[test]
fn new_session_is_idle() {
    let session = ClientSession::new(3);
    assert!(!session.authenticated);
    assert!(!session.connected);
    assert!(!session.retrying);
    assert!(session.token.is_none());
    assert!(session.message_buffer.is_empty());
    assert_eq!(session.ping, Ping::new(3));
    assert!(!session.is_active());
    assert!(session.should_stop());
}

#[test]
fn heartbeat_needs_active_session() {
    let mut session = ClientSession::new(0);
    session.connected = true;
    session.heartbeat(10);
    assert!(session.message_buffer.is_empty());
    assert_eq!(session.ping, Ping::new(0));
}

#[test]
fn heartbeat_keeps_single_ping_in_flight() {
    let mut session = active_session(0);
    session.heartbeat(10);
    session.heartbeat(20);
    assert_eq!(session.message_buffer, vec![vec![1u8, 3u8], vec![1u8, 3u8]]);
    assert_eq!(session.ping, Ping::new(0));
}

#[test]
fn heartbeat_after_echo_starts_fresh_record() {
    let mut session = active_session(0);
    session.ping.receive(5);
    session.heartbeat(30);
    assert_eq!(session.ping, Ping::new(30));
    assert_eq!(session.message_buffer.len(), 1);
}

#[test]
fn writer_drains_queue_in_order() {
    let mut session = active_session(0);
    session.message_buffer.push(vec![1, 2]);
    session.message_buffer.push(vec![3]);
    let out = session.take_outbound();
    assert_eq!(out, vec![vec![1u8, 2u8], vec![3u8]]);
    assert!(session.message_buffer.is_empty());
    assert!(session.take_outbound().is_empty());
}

#[test]
fn writer_waits_while_inactive() {
    let mut session = ClientSession::new(0);
    session.message_buffer.push(vec![9]);
    assert!(session.take_outbound().is_empty());
    assert_eq!(session.message_buffer, vec![vec![9u8]]);
}

#[test]
fn reader_idle_while_inactive() {
    let mut session = ClientSession::new(0);
    assert_eq!(session.on_read(ReadOutcome::Bytes(2, [1, 3]), 5), ClientReadEvent::Idle);
    assert_eq!(session.ping.received_at, None);
}

#[test]
fn reader_drops_short_read() {
    let mut session = active_session(0);
    assert_eq!(session.on_read(ReadOutcome::Bytes(1, [1, 0]), 5), ClientReadEvent::ShortRead(1));
    assert_eq!(session.ping.received_at, None);
    assert!(session.connected);
}

#[test]
fn reader_records_pong_latency() {
    let mut session = active_session(100);
    assert_eq!(session.on_read(ReadOutcome::Bytes(2, [1, 3]), 142), ClientReadEvent::Pong(42));
    assert_eq!(session.ping.received_at, Some(142));
}

#[test]
fn reader_reports_disconnect_and_unexpected() {
    let mut session = active_session(0);
    assert_eq!(session.on_read(ReadOutcome::Bytes(2, [1, 4]), 1), ClientReadEvent::Disconnect);
    assert_eq!(
        session.on_read(ReadOutcome::Bytes(2, [1, 2]), 1),
        ClientReadEvent::Unexpected(session_protocol::codec::DataType::AuthResponse)
    );
    assert_eq!(
        session.on_read(ReadOutcome::Bytes(2, [1, 9]), 1),
        ClientReadEvent::Unexpected(session_protocol::codec::DataType::Unknown)
    );
    assert!(session.connected);
}

#[test]
fn reader_ignores_transient_errors() {
    let mut session = active_session(0);
    assert_eq!(session.on_read(ReadOutcome::Failed, 1), ClientReadEvent::Ignored);
    assert!(session.connected);
    assert!(!session.retrying);
}

#[test]
fn reader_marks_reset_once() {
    let mut session = active_session(0);
    assert_eq!(session.on_read(ReadOutcome::Reset, 1), ClientReadEvent::ConnectionLost);
    assert!(!session.connected);
    assert!(session.retrying);
    assert!(!session.should_stop());
    assert_eq!(session.on_read(ReadOutcome::Reset, 2), ClientReadEvent::Idle);
    assert!(session.retrying);
}

#[test]
fn reader_treats_closed_connection_as_lost() {
    let mut session = active_session(0);
    assert_eq!(session.on_read(ReadOutcome::Bytes(0, [0, 0]), 1), ClientReadEvent::ConnectionLost);
    assert!(!session.connected);
    assert!(session.retrying);
}

#[test]
fn reconnect_resumes_loops() {
    let mut session = active_session(0);
    session.message_buffer.push(vec![1, 3]);
    session.on_read(ReadOutcome::Reset, 1);
    session.on_reconnected();
    assert!(session.connected);
    assert!(!session.retrying);
    assert!(session.authenticated);
    assert!(session.is_active());
    assert!(!session.should_stop());
    assert_eq!(session.take_outbound(), vec![vec![1u8, 3u8]]);
}

#[test]
fn handshake_header_check() {
    assert!(is_auth_response_header(ReadOutcome::Bytes(2, [1, 2])));
    assert!(!is_auth_response_header(ReadOutcome::Bytes(2, [2, 2])));
    assert!(!is_auth_response_header(ReadOutcome::Bytes(2, [1, 3])));
    assert!(!is_auth_response_header(ReadOutcome::Bytes(1, [1, 2])));
    assert!(!is_auth_response_header(ReadOutcome::Reset));
    assert!(!is_auth_response_header(ReadOutcome::Failed));
}

#[test]
fn handshake_accepts_token() {
    let mut session = ClientSession::new(0);
    let outcome = session.on_auth_response(32, &response_payload("abc"));
    assert_eq!(outcome, HandshakeOutcome::Accepted);
    assert!(session.authenticated);
    assert!(session.connected);
    assert_eq!(session.token, Some("abc".to_string()));
}

#[test]
fn handshake_refused_by_sentinel() {
    let mut session = ClientSession::new(0);
    let outcome = session.on_auth_response(32, &response_payload("0"));
    assert_eq!(outcome, HandshakeOutcome::Refused);
    assert!(!session.authenticated);
    assert!(session.token.is_none());
}

#[test]
fn handshake_incomplete_payload() {
    let mut session = ClientSession::new(0);
    let outcome = session.on_auth_response(20, &response_payload("abc"));
    assert_eq!(outcome, HandshakeOutcome::Incomplete(20));
    assert!(!session.authenticated);
}
