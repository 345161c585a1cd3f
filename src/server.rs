//! The server side of a connection, and the queue of writes that one
//! dispatcher performs for all connections.

use rand::Rng;
use vstd::prelude::*;
use vstd::slice::slice_to_vec;
use vstd::utf8::{encode_utf8, is_ascii_chars, is_ascii_chars_encode_utf8};
use crate::codec::{
    auth_response_bytes, create_auth_response_package, create_empty_package, data_type_of,
    field_text, get_package_type, header_bytes, lemma_sentinel_encoding,
    unpack_auth_request_package, DataType, AUTH_REQUEST_SIZE, AUTH_REQUEST_VERSION,
    GAME_PACKET_VERSION,
};
use crate::transport::ReadOutcome;

verus! {

/// Length of the session tokens the server issues.
pub const TOKEN_LENGTH: usize = 32;

/// Number of characters in the token alphabet.
pub const TOKEN_CHARSET_SIZE: usize = 79;

/// The bytes a session token is drawn from: letters, digits and some
/// punctuation.
pub open spec fn token_charset() -> Seq<u8> {
    seq![
        65u8, 66u8, 67u8, 68u8, 69u8, 70u8, 71u8, 72u8, 73u8, 74u8, 75u8, 76u8, 77u8, 78u8,
        79u8, 80u8, 81u8, 82u8, 83u8, 84u8, 85u8, 86u8, 87u8, 88u8, 89u8, 90u8, 97u8, 98u8,
        99u8, 100u8, 101u8, 102u8, 103u8, 104u8, 105u8, 106u8, 107u8, 108u8, 109u8, 110u8,
        111u8, 112u8, 113u8, 114u8, 115u8, 116u8, 117u8, 118u8, 119u8, 120u8, 121u8, 122u8,
        48u8, 49u8, 50u8, 51u8, 52u8, 53u8, 54u8, 55u8, 56u8, 57u8, 33u8, 64u8, 35u8, 36u8,
        37u8, 94u8, 38u8, 42u8, 40u8, 41u8, 95u8, 45u8, 43u8, 61u8, 60u8, 62u8, 63u8,
    ]
}

/// Whether `c` is one of the characters a session token is drawn from.
pub open spec fn is_token_char(c: char) -> bool {
    exists|j: int| 0 <= j < token_charset().len() && c == (#[trigger] token_charset()[j]) as char
}

/// Relies on `rand::Rng::gen_range` on `rand::rngs::OsRng`: a number drawn
/// from `0..bound`. The call panics on an empty range, which `requires`
/// rules out; it also panics when the operating system cannot supply
/// random bytes.
#[verifier::external_body]
fn random_below(bound: usize) -> (r: usize)
    requires
        bound > 0,
    ensures
        r < bound,
{
    rand::rngs::OsRng.gen_range(0..bound)
}

/// Relies on `String::push`: the character is appended at the end.
#[verifier::external_body]
fn push_char(s: &mut String, c: char)
    ensures
        final(s)@ == old(s)@.push(c),
{
    s.push(c)
}

/// The `i`-th character of the token alphabet.
fn token_char(i: usize) -> (c: char)
    requires
        i < token_charset().len(),
    ensures
        c == token_charset()[i as int] as char,
{
    let table: [u8; TOKEN_CHARSET_SIZE] = [
        65, 66, 67, 68, 69, 70, 71, 72, 73, 74, 75, 76, 77, 78, 79, 80, 81, 82, 83, 84, 85,
        86, 87, 88, 89, 90, 97, 98, 99, 100, 101, 102, 103, 104, 105, 106, 107, 108, 109,
        110, 111, 112, 113, 114, 115, 116, 117, 118, 119, 120, 121, 122, 48, 49, 50, 51, 52,
        53, 54, 55, 56, 57, 33, 64, 35, 36, 37, 94, 38, 42, 40, 41, 95, 45, 43, 61, 60, 62,
        63,
    ];
    assert(table@ =~= token_charset());
    table[i] as char
}

/// A random session token of `length` characters, each drawn from the
/// token alphabet.
pub fn generate_session_token(length: usize) -> (r: String)
    ensures
        r@.len() == length,
        forall|i: int| 0 <= i < r@.len() ==> is_token_char(#[trigger] r@[i]),
        encode_utf8(r@).len() == length,
{
    let mut token = String::new();
    let mut n: usize = 0;
    while n < length
        invariant
            n <= length,
            token@.len() == n,
            forall|i: int| 0 <= i < token@.len() ==> is_token_char(#[trigger] token@[i]),
        decreases length - n,
    {
        let idx = random_below(TOKEN_CHARSET_SIZE);
        let c = token_char(idx);
        assert(is_token_char(c)) by {
            assert(c == token_charset()[idx as int] as char);
        }
        push_char(&mut token, c);
        n = n + 1;
    }
    proof {
        assert forall|i: int| 0 <= i < token@.len() implies '\0' <= #[trigger] token@[i]
            <= '\u{7f}' by {
            assert(is_token_char(token@[i]));
            let j = choose|j: int|
                0 <= j < token_charset().len() && token@[i] == (#[trigger] token_charset()[j])
                    as char;
            assert(token_charset()[j] < 128);
        }
        assert(is_ascii_chars(token@));
        is_ascii_chars_encode_utf8(token@);
    }
    token
}

/// Checks the credentials of a client and issues its session token.
/// Every well-formed request is accepted: no credential store is consulted.
pub fn authenticate_client(username: String, password: String) -> (r: String)
    ensures
        r@.len() == TOKEN_LENGTH,
        forall|i: int| 0 <= i < r@.len() ==> is_token_char(#[trigger] r@[i]),
        encode_utf8(r@).len() == TOKEN_LENGTH,
{
    generate_session_token(TOKEN_LENGTH)
}


/// What the dispatcher is to do with an event.
pub enum EventType {
    /// Write these bytes to the connection with this id.
    Write(u64, Vec<u8>),
}

/// A pending outbound write, queued by a connection's reader and performed
/// once by the dispatcher.
pub struct Event {
    pub event_type: EventType,
}

impl Event {
    pub fn new(event_type: EventType) -> (r: Event)
        ensures
            r.event_type == event_type,
    {
        Event { event_type }
    }

    /// The target connection and the bytes of this event.
    pub open spec fn write_view(&self) -> (u64, Seq<u8>) {
        match self.event_type {
            EventType::Write(target, bytes) => (target, bytes@),
        }
    }
}

/// The writes a queue holds, oldest first.
pub open spec fn queued_writes(events: Seq<Event>) -> Seq<(u64, Seq<u8>)> {
    Seq::new(events.len(), |i: int| events[i].write_view())
}

/// The packet the server echoes to a ping.
pub open spec fn ping_packet() -> Seq<u8> {
    header_bytes(GAME_PACKET_VERSION, DataType::Ping)
}

/// The response that refuses a client: the sentinel token `"0"`.
pub open spec fn refusal_packet() -> Seq<u8> {
    auth_response_bytes(seq![48u8])
}

/// What a connection's reader loop does after one read.
#[derive(Debug, Clone, Copy, PartialEq, Eq, Structural)]
pub enum ServerAction {
    /// The client closed the connection: the reader ends.
    Closed,
    /// The connection was reset: the reader ends.
    ConnectionLost,
    /// A read returned this many bytes instead of a whole header or
    /// payload; the packet is dropped and nothing changes.
    Dropped(usize),
    /// A passing read error; nothing changes.
    Transient,
    /// The header starts an authentication request: read its payload next.
    AwaitAuthPayload,
    /// A ping from an authenticated client: its echo is queued.
    PingQueued,
    /// The client is authenticated and its token queued to it.
    Authenticated,
    /// The request could not be read: the refusal is queued to the client.
    Refused,
    /// A packet that is not handled here, or a ping before authentication;
    /// nothing changes.
    Ignored(DataType),
}

/// The server side of one connection.
pub struct ServerSession {
    pub token: Option<String>,
    pub id: u64,
    pub address: String,
    pub connected: bool,
    pub authenticated: bool,
}

/// Whether two sessions agree in every field.
pub open spec fn same_server_session(a: &ServerSession, b: &ServerSession) -> bool {
    &&& a.token == b.token
    &&& a.id == b.id
    &&& a.address == b.address
    &&& a.connected == b.connected
    &&& a.authenticated == b.authenticated
}

impl ServerSession {
    /// A session on a newly accepted connection with the given id.
    pub fn new(id: u64, address: String) -> (r: ServerSession)
        ensures
            r.token is None,
            r.id == id,
            r.address == address,
            r.connected,
            !r.authenticated,
    {
        ServerSession { token: None, id, address, connected: true, authenticated: false }
    }

    /// Marks the client authenticated with `token` and queues the response
    /// that carries the token to it.
    pub fn accept(&mut self, events: &mut Vec<Event>, token: String)
        ensures
            final(self).authenticated,
            final(self).token == Some(token),
            final(self).id == old(self).id,
            final(self).address == old(self).address,
            final(self).connected == old(self).connected,
            queued_writes(final(events)@) == queued_writes(old(events)@).push(
                (old(self).id, auth_response_bytes(encode_utf8(token@))),
            ),
    {
        let packet = create_auth_response_package(token.clone());
        let bytes: Vec<u8> = slice_to_vec(packet.as_slice());
        events.push(Event::new(EventType::Write(self.id, bytes)));
        assert(queued_writes(events@) =~= queued_writes(old(events)@).push(
            (old(self).id, auth_response_bytes(encode_utf8(token@))),
        ));
        self.authenticated = true;
        self.token = Some(token);
    }

    /// Queues the refusal (the sentinel token `"0"`) to the client; the
    /// session itself does not change.
    pub fn refuse(&self, events: &mut Vec<Event>)
        ensures
            queued_writes(final(events)@) == queued_writes(old(events)@).push(
                (self.id, refusal_packet()),
            ),
    {
        let sentinel = String::from_str("0");
        proof {
            reveal_strlit("0");
            lemma_sentinel_encoding();
        }
        assert(sentinel@ =~= seq!['0']);
        let packet = create_auth_response_package(sentinel);
        let bytes: Vec<u8> = slice_to_vec(packet.as_slice());
        events.push(Event::new(EventType::Write(self.id, bytes)));
        assert(queued_writes(events@) =~= queued_writes(old(events)@).push(
            (self.id, refusal_packet()),
        ));
    }

    /// The reader loop's answer to one read of a header. A closed or reset
    /// connection marks the session disconnected; a short read or a
    /// passing error changes nothing. A ping is answered only once the
    /// client is authenticated: its echo is queued to the client.
    pub fn on_header(&mut self, events: &mut Vec<Event>, read: ReadOutcome) -> (r: ServerAction)
        ensures
            r == ServerAction::PingQueued ==> old(self).authenticated,
            r == ServerAction::PingQueued ==> queued_writes(final(events)@) == queued_writes(
                old(events)@,
            ).push((old(self).id, ping_packet())),
            r != ServerAction::PingQueued ==> final(events)@ == old(events)@,
            r == ServerAction::Closed || r == ServerAction::ConnectionLost ==> {
                &&& !final(self).connected
                &&& final(self).token == old(self).token
                &&& final(self).id == old(self).id
                &&& final(self).address == old(self).address
                &&& final(self).authenticated == old(self).authenticated
            },
            r != ServerAction::Closed && r != ServerAction::ConnectionLost ==> same_server_session(
                final(self),
                old(self),
            ),
            r == server_header_action(old(self).authenticated, read),
    {
        match read {
            ReadOutcome::Bytes(n, header) => {
                if n == 0 {
                    self.connected = false;
                    return ServerAction::Closed;
                }
                if n != 2 {
                    return ServerAction::Dropped(n);
                }
                let (version, _encoding, package_type) = get_package_type(header);
                match package_type {
                    DataType::AuthRequest => {
                        if version == AUTH_REQUEST_VERSION {
                            ServerAction::AwaitAuthPayload
                        } else {
                            ServerAction::Ignored(DataType::AuthRequest)
                        }
                    },
                    DataType::Ping => {
                        if self.authenticated {
                            let packet = create_empty_package(DataType::Ping);
                            let bytes: Vec<u8> = slice_to_vec(packet.as_slice());
                            events.push(Event::new(EventType::Write(self.id, bytes)));
                            assert(queued_writes(events@) =~= queued_writes(old(events)@).push(
                                (old(self).id, ping_packet()),
                            ));
                            ServerAction::PingQueued
                        } else {
                            ServerAction::Ignored(DataType::Ping)
                        }
                    },
                    other => ServerAction::Ignored(other),
                }
            },
            ReadOutcome::Reset => {
                self.connected = false;
                ServerAction::ConnectionLost
            },
            ReadOutcome::Failed => ServerAction::Transient,
        }
    }

    /// The answer to the payload of an authentication request, of which
    /// `count` bytes were read. A whole payload that reads as a username
    /// and a password authenticates the client with a fresh token, queued
    /// to it; one that does not is refused.
    pub fn on_auth_payload(
        &mut self,
        events: &mut Vec<Event>,
        count: usize,
        payload: &[u8; AUTH_REQUEST_SIZE],
    ) -> (r: ServerAction)
        ensures
            count != AUTH_REQUEST_SIZE ==> {
                &&& r == ServerAction::Dropped(count)
                &&& final(events)@ == old(events)@
                &&& same_server_session(final(self), old(self))
            },
            count == AUTH_REQUEST_SIZE && !request_readable(payload@) ==> {
                &&& r == ServerAction::Refused
                &&& same_server_session(final(self), old(self))
                &&& queued_writes(final(events)@) == queued_writes(old(events)@).push(
                    (old(self).id, refusal_packet()),
                )
            },
            count == AUTH_REQUEST_SIZE && request_readable(payload@) ==> {
                &&& r == ServerAction::Authenticated
                &&& final(self).authenticated
                &&& final(self).id == old(self).id
                &&& final(self).address == old(self).address
                &&& final(self).connected == old(self).connected
                &&& final(self).token matches Some(t) && {
                    &&& t@.len() == TOKEN_LENGTH
                    &&& forall|i: int| 0 <= i < t@.len() ==> is_token_char(#[trigger] t@[i])
                    &&& queued_writes(final(events)@) == queued_writes(old(events)@).push(
                        (old(self).id, auth_response_bytes(encode_utf8(t@))),
                    )
                }
            },
    {
        if count != AUTH_REQUEST_SIZE {
            return ServerAction::Dropped(count);
        }
        match unpack_auth_request_package(payload) {
            Ok((username, password)) => {
                let token = authenticate_client(username, password);
                self.accept(events, token);
                ServerAction::Authenticated
            },
            Err(_) => {
                self.refuse(events);
                ServerAction::Refused
            },
        }
    }
}

/// Whether an authentication request payload reads as a username and a
/// password.
pub open spec fn request_readable(payload: Seq<u8>) -> bool {
    field_text(payload.subrange(0, 20)) is Some && field_text(payload.subrange(20, 52)) is Some
}

/// What the server's reader does with a header read, on a session that is
/// `authenticated` or not.
pub open spec fn server_header_action(authenticated: bool, read: ReadOutcome) -> ServerAction {
    match read {
        ReadOutcome::Bytes(n, h) => if n == 0 {
            ServerAction::Closed
        } else if n != 2 {
            ServerAction::Dropped(n)
        } else if data_type_of(h[1] & 0x3F) == DataType::AuthRequest {
            if h[0] == AUTH_REQUEST_VERSION {
                ServerAction::AwaitAuthPayload
            } else {
                ServerAction::Ignored(DataType::AuthRequest)
            }
        } else if data_type_of(h[1] & 0x3F) == DataType::Ping {
            if authenticated {
                ServerAction::PingQueued
            } else {
                ServerAction::Ignored(DataType::Ping)
            }
        } else {
            ServerAction::Ignored(data_type_of(h[1] & 0x3F))
        },
        ReadOutcome::Reset => ServerAction::ConnectionLost,
        ReadOutcome::Failed => ServerAction::Transient,
    }
}

/// No ping from a client that is not authenticated reaches the echo path,
/// whatever was read.
pub proof fn lemma_ping_needs_authentication(read: ReadOutcome)
    ensures
        server_header_action(false, read) != ServerAction::PingQueued,
{
}

/// The dispatcher's tick: takes every queued event, oldest first, and
/// leaves the queue empty.
pub fn drain_events(events: &mut Vec<Event>) -> (r: Vec<Event>)
    ensures
        r@ == old(events)@,
        final(events)@.len() == 0,
{
    let mut taken: Vec<Event> = Vec::new();
    std::mem::swap(&mut taken, events);
    taken
}

} // verus!
