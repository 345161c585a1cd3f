use session_protocol::client::{is_auth_response_header, ClientReadEvent, ClientSession, HandshakeOutcome};
use session_protocol::codec::{create_auth_request_package, unpack_auth_response_package, DataType};
use session_protocol::server::{
    authenticate_client, drain_events, generate_session_token, Event, EventType, ServerAction,
    ServerSession,
};
use session_protocol::transport::ReadOutcome;

const TOKEN_ALPHABET: &str =
    "ABCDEFGHIJKLMNOPQRSTUVWXYZabcdefghijklmnopqrstuvwxyz0123456789!@#$%^&*()_-+=<>?";

fn writes(events: Vec<Event>) -> Vec<(u64, Vec<u8>)> {
    events
        .into_iter()
        .map(|e| match e.event_type {
            EventType::Write(target, bytes) => (target, bytes),
        })
        .collect()
}

fn request_payload(username: &str, password: &str) -> [u8; 52] {
    let packet = create_auth_request_package(username.to_string(), password.to_string());
    let mut payload = [0u8; 52];
    payload.copy_from_slice(&packet[2..54]);
    payload
}

#[test]
fn session_tokens_use_the_alphabet() {
    let token = generate_session_token(32);
    assert_eq!(token.chars().count(), 32);
    assert_eq!(token.len(), 32);
    assert!(token.chars().all(|c| TOKEN_ALPHABET.contains(c)));
    assert_eq!(generate_session_token(0), "");
    assert_eq!(generate_session_token(5).len(), 5);
}

#[test]
fn authenticate_client_issues_token() {
    let token = authenticate_client("alice".to_string(), "secret".to_string());
    assert_eq!(token.len(), 32);
    assert_ne!(token, "0");
}

#[test]
fn new_server_session() {
    let session = ServerSession::new(7, "127.0.0.1:5000".to_string());
    assert_eq!(session.id, 7);
    assert_eq!(session.address, "127.0.0.1:5000");
    assert!(session.connected);
    assert!(!session.authenticated);
    assert!(session.token.is_none());
}

#[test]
fn short_header_is_dropped_without_change() {
    let mut session = ServerSession::new(1, "127.0.0.1:1".to_string());
    let mut events: Vec<Event> = Vec::new();
    let action = session.on_header(&mut events, ReadOutcome::Bytes(1, [1, 0]));
    assert_eq!(action, ServerAction::Dropped(1));
    assert!(events.is_empty());
    assert!(session.connected);
    assert!(!session.authenticated);
    assert!(session.token.is_none());
}

#[test]
fn ping_before_authentication_is_ignored() {
    let mut session = ServerSession::new(1, "127.0.0.1:1".to_string());
    let mut events: Vec<Event> = Vec::new();
    let action = session.on_header(&mut events, ReadOutcome::Bytes(2, [1, 3]));
    assert_eq!(action, ServerAction::Ignored(DataType::Ping));
    assert!(events.is_empty());
}

#[test]
fn ping_after_authentication_is_echoed() {
    let mut session = ServerSession::new(4, "127.0.0.1:1".to_string());
    session.authenticated = true;
    let mut events: Vec<Event> = Vec::new();
    let action = session.on_header(&mut events, ReadOutcome::Bytes(2, [1, 3]));
    assert_eq!(action, ServerAction::PingQueued);
    assert_eq!(writes(drain_events(&mut events)), vec![(4u64, vec![1u8, 3u8])]);
    assert!(events.is_empty());
}

#[test]
fn header_actions() {
    let mut session = ServerSession::new(1, "127.0.0.1:1".to_string());
    let mut events: Vec<Event> = Vec::new();
    assert_eq!(session.on_header(&mut events, ReadOutcome::Bytes(2, [1, 1])), ServerAction::AwaitAuthPayload);
    assert_eq!(
        session.on_header(&mut events, ReadOutcome::Bytes(2, [2, 1])),
        ServerAction::Ignored(DataType::AuthRequest)
    );
    assert_eq!(
        session.on_header(&mut events, ReadOutcome::Bytes(2, [1, 4])),
        ServerAction::Ignored(DataType::Disconnect)
    );
    assert_eq!(session.on_header(&mut events, ReadOutcome::Failed), ServerAction::Transient);
    assert!(session.connected);
    assert!(events.is_empty());
}

#[test]
fn closed_connection_ends_session() {
    let mut session = ServerSession::new(1, "127.0.0.1:1".to_string());
    let mut events: Vec<Event> = Vec::new();
    assert_eq!(session.on_header(&mut events, ReadOutcome::Bytes(0, [0, 0])), ServerAction::Closed);
    assert!(!session.connected);
}

#[test]
fn reset_connection_ends_session() {
    let mut session = ServerSession::new(1, "127.0.0.1:1".to_string());
    let mut events: Vec<Event> = Vec::new();
    assert_eq!(session.on_header(&mut events, ReadOutcome::Reset), ServerAction::ConnectionLost);
    assert!(!session.connected);
}

#[test]
fn short_auth_payload_is_dropped() {
    let mut session = ServerSession::new(1, "127.0.0.1:1".to_string());
    let mut events: Vec<Event> = Vec::new();
    let action = session.on_auth_payload(&mut events, 30, &request_payload("a", "b"));
    assert_eq!(action, ServerAction::Dropped(30));
    assert!(events.is_empty());
    assert!(!session.authenticated);
}

#[test]
fn unreadable_auth_payload_is_refused() {
    let mut session = ServerSession::new(2, "127.0.0.1:1".to_string());
    let mut events: Vec<Event> = Vec::new();
    let mut payload = [0u8; 52];
    payload[10] = 0xFF;
    let action = session.on_auth_payload(&mut events, 52, &payload);
    assert_eq!(action, ServerAction::Refused);
    assert!(!session.authenticated);
    let sent = writes(drain_events(&mut events));
    assert_eq!(sent.len(), 1);
    assert_eq!(sent[0].0, 2);
    assert_eq!(sent[0].1.len(), 34);
    assert_eq!(&sent[0].1[0..2], &[1u8, 2u8]);
    let mut body = [0u8; 32];
    body.copy_from_slice(&sent[0].1[2..34]);
    assert_eq!(unpack_auth_response_package(&body), "0");
}

#[test]
fn accept_queues_token() {
    let mut session = ServerSession::new(3, "127.0.0.1:1".to_string());
    let mut events: Vec<Event> = Vec::new();
    session.accept(&mut events, "tok".to_string());
    assert!(session.authenticated);
    assert_eq!(session.token, Some("tok".to_string()));
    let sent = writes(drain_events(&mut events));
    let mut expected = vec![1u8, 2u8];
    expected.extend(std::iter::repeat(0u8).take(29));
    expected.extend_from_slice(b"tok");
    assert_eq!(sent, vec![(3u64, expected)]);
}

#[test]
fn event_queue_is_fifo() {
    let mut events: Vec<Event> = Vec::new();
    events.push(Event::new(EventType::Write(1, vec![1])));
    events.push(Event::new(EventType::Write(2, vec![2])));
    events.push(Event::new(EventType::Write(1, vec![3])));
    let drained = writes(drain_events(&mut events));
    assert_eq!(drained, vec![(1u64, vec![1u8]), (2u64, vec![2u8]), (1u64, vec![3u8])]);
    assert!(events.is_empty());
    assert!(drain_events(&mut events).is_empty());
}

#[test]
fn handshake_then_ping_end_to_end() {
    // The client asks to authenticate.
    let request = create_auth_request_package("alice".to_string(), "secret".to_string());
    let mut server = ServerSession::new(9, "127.0.0.1:4000".to_string());
    let mut events: Vec<Event> = Vec::new();
    let header = ReadOutcome::Bytes(2, [request[0], request[1]]);
    assert_eq!(server.on_header(&mut events, header), ServerAction::AwaitAuthPayload);
    let mut payload = [0u8; 52];
    payload.copy_from_slice(&request[2..54]);
    assert_eq!(server.on_auth_payload(&mut events, 52, &payload), ServerAction::Authenticated);
    assert!(server.authenticated);

    // One dispatcher tick delivers the response.
    let sent = writes(drain_events(&mut events));
    assert_eq!(sent.len(), 1);
    assert_eq!(sent[0].0, 9);
    let response = &sent[0].1;
    let mut client = ClientSession::new(1_000);
    assert!(is_auth_response_header(ReadOutcome::Bytes(2, [response[0], response[1]])));
    let mut body = [0u8; 32];
    body.copy_from_slice(&response[2..34]);
    assert_eq!(client.on_auth_response(32, &body), HandshakeOutcome::Accepted);
    let token = client.token.clone().unwrap();
    assert_ne!(token, "0");
    assert_eq!(token.len(), 32);
    assert_eq!(Some(token), server.token);

    // A heartbeat goes out, the server echoes it within one tick.
    client.heartbeat(1_000);
    let outbound = client.take_outbound();
    assert_eq!(outbound, vec![vec![1u8, 3u8]]);
    let ping = ReadOutcome::Bytes(2, [outbound[0][0], outbound[0][1]]);
    assert_eq!(server.on_header(&mut events, ping), ServerAction::PingQueued);
    let echoed = writes(drain_events(&mut events));
    assert_eq!(echoed, vec![(9u64, vec![1u8, 3u8])]);
    let echo = ReadOutcome::Bytes(2, [echoed[0].1[0], echoed[0].1[1]]);
    assert_eq!(client.on_read(echo, 1_250), ClientReadEvent::Pong(250));
}
