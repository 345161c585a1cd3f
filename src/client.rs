//! The client's session: authentication state, connectivity, the queue of
//! outbound packets and the single in-flight ping. Each loop of the client
//! (reader, writer, heartbeat, reconnect supervisor) is a method here that
//! turns one observation into the next state.

use vstd::prelude::*;
use vstd::utf8::{encode_utf8, encode_utf8_decode_utf8};
use crate::codec::{
    create_empty_package, get_package_type, header_bytes, lemma_sentinel_encoding, response_token,
    unpack_auth_response_package, data_type_of, DataType, AUTH_RESPONSE_SIZE,
    AUTH_RESPONSE_VERSION, GAME_PACKET_VERSION,
};
use crate::transport::ReadOutcome;

verus! {

/// A heartbeat: when it was sent and, once its echo came back, when that
/// was. Times are in one monotonic unit chosen by the host program.
#[derive(Debug, Clone, Copy, PartialEq, Eq, Structural)]
pub struct Ping {
    pub sent_at: u64,
    pub received_at: Option<u64>,
}

/// Time elapsed from `from` to `to`, zero when `to` is earlier.
pub open spec fn elapsed(from: u64, to: u64) -> u64 {
    if to >= from {
        (to - from) as u64
    } else {
        0
    }
}

impl Ping {
    pub fn new(sent_at: u64) -> (r: Ping)
        ensures
            r == (Ping { sent_at, received_at: None }),
    {
        Ping { sent_at, received_at: None }
    }

    /// Records the echo at time `now`; only the first echo counts.
    pub fn receive(&mut self, now: u64)
        ensures
            *final(self) == ping_received(*old(self), now),
    {
        if self.received_at.is_none() {
            self.received_at = Some(now);
        }
    }

    /// The round-trip time, once the echo has come back.
    pub fn get_duration(&self) -> (r: Option<u64>)
        ensures
            r == match self.received_at {
                Some(t) => Some(elapsed(self.sent_at, t)),
                None => None::<u64>,
            },
    {
        if let Some(received_at) = self.received_at {
            if received_at >= self.sent_at {
                Some(received_at - self.sent_at)
            } else {
                Some(0)
            }
        } else {
            None
        }
    }
}

/// The ping record after an echo arrives at `now`: the first echo sets the
/// time it came back, later ones change nothing.
pub open spec fn ping_received(ping: Ping, now: u64) -> Ping {
    if ping.received_at is None {
        Ping { sent_at: ping.sent_at, received_at: Some(now) }
    } else {
        ping
    }
}

/// The ping record after a heartbeat tick at `now` on a session that is
/// `active`: a fresh record when the last one was answered, else the same.
pub open spec fn ping_after_heartbeat(active: bool, ping: Ping, now: u64) -> Ping {
    if active && ping.received_at is Some {
        Ping { sent_at: now, received_at: None }
    } else {
        ping
    }
}


/// What the reader loop learned from one read.
#[derive(Debug, Clone, Copy, PartialEq, Eq, Structural)]
pub enum ClientReadEvent {
    /// The session is not connected and authenticated: nothing was read.
    Idle,
    /// A read returned this many bytes instead of a whole header; the
    /// packet is dropped.
    ShortRead(usize),
    /// The server echoed the ping; the round-trip time so far.
    Pong(u64),
    /// The server announced a disconnect.
    Disconnect,
    /// A packet of a type that the client does not expect.
    Unexpected(DataType),
    /// The connection was reset: the session now waits for a reconnect.
    ConnectionLost,
    /// A passing error, or a reset that is already being handled.
    Ignored,
}

/// How one attempt to read the server's authentication response ended.
#[derive(Debug, Clone, Copy, PartialEq, Eq, Structural)]
pub enum HandshakeOutcome {
    /// The response payload came short by this many bytes read; try again.
    Incomplete(usize),
    /// The server refused the credentials (it sent the sentinel `"0"`).
    Refused,
    /// The server sent a token: the session is authenticated.
    Accepted,
}

/// The client side of a connection.
pub struct ClientSession {
    pub authenticated: bool,
    pub connected: bool,
    /// True while the connection is lost and a reconnect is under way.
    pub retrying: bool,
    /// The token the server issued, once authenticated.
    pub token: Option<String>,
    /// Packets waiting for the writer loop, oldest first.
    pub message_buffer: Vec<Vec<u8>>,
    /// The one heartbeat that may be in flight.
    pub ping: Ping,
}

/// The packet that the heartbeat queues.
pub open spec fn ping_packet() -> Seq<u8> {
    header_bytes(GAME_PACKET_VERSION, DataType::Ping)
}


/// Whether two sessions agree in every field.
pub open spec fn same_session(a: &ClientSession, b: &ClientSession) -> bool {
    &&& a.authenticated == b.authenticated
    &&& a.connected == b.connected
    &&& a.retrying == b.retrying
    &&& a.token == b.token
    &&& a.message_buffer@ == b.message_buffer@
    &&& a.ping == b.ping
}

/// Whether a header read announces an authentication response of the
/// version this client speaks.
pub open spec fn announces_auth_response(read: ReadOutcome) -> bool {
    match read {
        ReadOutcome::Bytes(n, h) => n == 2 && h[0] == AUTH_RESPONSE_VERSION && data_type_of(
            h[1] & 0x3F,
        ) == DataType::AuthResponse,
        _ => false,
    }
}

/// Whether a read shows that the connection is over: reset by the peer,
/// or closed (a read of no bytes).
pub open spec fn ends_connection(read: ReadOutcome) -> bool {
    match read {
        ReadOutcome::Bytes(n, _) => n == 0,
        ReadOutcome::Reset => true,
        ReadOutcome::Failed => false,
    }
}

/// During the handshake: whether the header just read starts the
/// authentication response, so that its payload is to be read next.
pub fn is_auth_response_header(read: ReadOutcome) -> (r: bool)
    ensures
        r == announces_auth_response(read),
{
    match read {
        ReadOutcome::Bytes(n, header) => {
            if n != 2 {
                return false;
            }
            let (version, _encoding, package_type) = get_package_type(header);
            version == AUTH_RESPONSE_VERSION && package_type == DataType::AuthResponse
        },
        _ => false,
    }
}

impl ClientSession {
    /// A session on a fresh connection, before authentication; its ping
    /// record starts at `now`.
    pub fn new(now: u64) -> (r: ClientSession)
        ensures
            !r.authenticated,
            !r.connected,
            !r.retrying,
            r.token is None,
            r.message_buffer@.len() == 0,
            r.ping == (Ping { sent_at: now, received_at: None }),
    {
        ClientSession {
            authenticated: false,
            connected: false,
            retrying: false,
            token: None,
            message_buffer: Vec::new(),
            ping: Ping::new(now),
        }
    }

    /// Whether the loops do their work: connected and authenticated.
    pub open spec fn active(&self) -> bool {
        self.connected && self.authenticated
    }

    pub fn is_active(&self) -> (r: bool)
        ensures
            r == self.active(),
    {
        self.connected && self.authenticated
    }

    /// Whether the loops should end: the connection is gone and no
    /// reconnect is under way.
    pub fn should_stop(&self) -> (r: bool)
        ensures
            r == (!self.connected && !self.retrying),
    {
        !self.connected && !self.retrying
    }

    /// One tick of the heartbeat loop: on an active session, queue a ping
    /// and, when the last one was answered, start a fresh record at `now`.
    /// An unanswered ping keeps its record, so at most one is in flight.
    pub fn heartbeat(&mut self, now: u64)
        ensures
            final(self).ping == ping_after_heartbeat(old(self).active(), old(self).ping, now),
            old(self).active() ==> final(self).message_buffer.deep_view()
                == old(self).message_buffer.deep_view().push(ping_packet()),
            !old(self).active() ==> final(self).message_buffer@ == old(self).message_buffer@,
            final(self).authenticated == old(self).authenticated,
            final(self).connected == old(self).connected,
            final(self).retrying == old(self).retrying,
            final(self).token == old(self).token,
    {
        if self.connected && self.authenticated {
            let packet = create_empty_package(DataType::Ping);
            let message: Vec<u8> = vec![packet[0], packet[1]];
            assert(message@ =~= ping_packet());
            assert(message.deep_view() =~= ping_packet());
            self.message_buffer.push(message);
            assert(self.message_buffer@ == old(self).message_buffer@.push(message));
            assert(self.message_buffer.deep_view()
                =~= old(self).message_buffer.deep_view().push(ping_packet()));
            if self.ping.received_at.is_some() {
                self.ping = Ping::new(now);
            }
        }
    }

    /// One tick of the writer loop: on an active session, hand over every
    /// queued packet, oldest first, and empty the queue.
    pub fn take_outbound(&mut self) -> (r: Vec<Vec<u8>>)
        ensures
            old(self).active() ==> r@ == old(self).message_buffer@,
            old(self).active() ==> final(self).message_buffer@.len() == 0,
            !old(self).active() ==> r@.len() == 0,
            !old(self).active() ==> final(self).message_buffer@ == old(self).message_buffer@,
            final(self).authenticated == old(self).authenticated,
            final(self).connected == old(self).connected,
            final(self).retrying == old(self).retrying,
            final(self).token == old(self).token,
            final(self).ping == old(self).ping,
    {
        let mut out: Vec<Vec<u8>> = Vec::new();
        if self.connected && self.authenticated {
            std::mem::swap(&mut out, &mut self.message_buffer);
        }
        out
    }

    /// The reader loop's answer to one read of a header. Nothing is read
    /// on a session that is not active. A short read drops the packet; an
    /// echoed ping records its arrival; a reset or a closed connection marks
    /// the session lost and retrying, once.
    pub fn on_read(&mut self, read: ReadOutcome, now: u64) -> (r: ClientReadEvent)
        ensures
            !old(self).active() ==> r == ClientReadEvent::Idle && same_session(
                final(self),
                old(self),
            ),
            old(self).active() && ends_connection(read) ==> if old(self).retrying {
                r == ClientReadEvent::Ignored && same_session(final(self), old(self))
            } else {
                &&& r == ClientReadEvent::ConnectionLost
                &&& !final(self).connected
                &&& final(self).retrying
                &&& final(self).authenticated == old(self).authenticated
                &&& final(self).token == old(self).token
                &&& final(self).message_buffer@ == old(self).message_buffer@
                &&& final(self).ping == old(self).ping
            },
            old(self).active() && !ends_connection(read) ==> match read {
                ReadOutcome::Bytes(n, h) => if n != 2 {
                    r == ClientReadEvent::ShortRead(n) && same_session(final(self), old(self))
                } else if data_type_of(h[1] & 0x3F) == DataType::Ping {
                    &&& final(self).ping == ping_received(old(self).ping, now)
                    &&& r == ClientReadEvent::Pong(
                        elapsed(final(self).ping.sent_at, final(self).ping.received_at->0),
                    )
                    &&& final(self).authenticated == old(self).authenticated
                    &&& final(self).connected == old(self).connected
                    &&& final(self).retrying == old(self).retrying
                    &&& final(self).token == old(self).token
                    &&& final(self).message_buffer@ == old(self).message_buffer@
                } else if data_type_of(h[1] & 0x3F) == DataType::Disconnect {
                    r == ClientReadEvent::Disconnect && same_session(final(self), old(self))
                } else {
                    r == ClientReadEvent::Unexpected(data_type_of(h[1] & 0x3F)) && same_session(
                        final(self),
                        old(self),
                    )
                },
                _ => r == ClientReadEvent::Ignored && same_session(final(self), old(self)),
            },
    {
        if !(self.connected && self.authenticated) {
            return ClientReadEvent::Idle;
        }
        if let ReadOutcome::Bytes(0, _) = read {
            return self.connection_lost();
        }
        match read {
            ReadOutcome::Bytes(n, header) => {
                if n != 2 {
                    return ClientReadEvent::ShortRead(n);
                }
                let (_version, _encoding, package_type) = get_package_type(header);
                match package_type {
                    DataType::Ping => {
                        self.ping.receive(now);
                        match self.ping.get_duration() {
                            Some(latency) => ClientReadEvent::Pong(latency),
                            None => ClientReadEvent::Pong(0),
                        }
                    },
                    DataType::Disconnect => ClientReadEvent::Disconnect,
                    other => ClientReadEvent::Unexpected(other),
                }
            },
            ReadOutcome::Reset => self.connection_lost(),
            ReadOutcome::Failed => ClientReadEvent::Ignored,
        }
    }

    /// The connection ended: mark the session lost and retrying, unless a
    /// reconnect is already under way.
    fn connection_lost(&mut self) -> (r: ClientReadEvent)
        ensures
            old(self).retrying ==> r == ClientReadEvent::Ignored && same_session(
                final(self),
                old(self),
            ),
            !old(self).retrying ==> {
                &&& r == ClientReadEvent::ConnectionLost
                &&& !final(self).connected
                &&& final(self).retrying
                &&& final(self).authenticated == old(self).authenticated
                &&& final(self).token == old(self).token
                &&& final(self).message_buffer@ == old(self).message_buffer@
                &&& final(self).ping == old(self).ping
            },
    {
        if self.retrying {
            ClientReadEvent::Ignored
        } else {
            self.connected = false;
            self.retrying = true;
            ClientReadEvent::ConnectionLost
        }
    }

    /// The handshake's answer to the payload of an authentication
    /// response, of which `count` bytes were read. A whole payload with a
    /// token other than the sentinel `"0"` authenticates and connects the
    /// session and keeps the token.
    pub fn on_auth_response(
        &mut self,
        count: usize,
        payload: &[u8; AUTH_RESPONSE_SIZE],
    ) -> (r: HandshakeOutcome)
        ensures
            count != AUTH_RESPONSE_SIZE ==> {
                &&& r == HandshakeOutcome::Incomplete(count)
                &&& same_session(final(self), old(self))
            },
            count == AUTH_RESPONSE_SIZE && response_token(payload@) == seq!['0'] ==> {
                &&& r == HandshakeOutcome::Refused
                &&& same_session(final(self), old(self))
            },
            count == AUTH_RESPONSE_SIZE && response_token(payload@) != seq!['0'] ==> {
                &&& r == HandshakeOutcome::Accepted
                &&& final(self).authenticated
                &&& final(self).connected
                &&& final(self).token matches Some(t) && t@ == response_token(payload@)
                &&& final(self).retrying == old(self).retrying
                &&& final(self).message_buffer@ == old(self).message_buffer@
                &&& final(self).ping == old(self).ping
            },
    {
        if count != AUTH_RESPONSE_SIZE {
            return HandshakeOutcome::Incomplete(count);
        }
        let token = unpack_auth_response_package(payload);
        let bytes = token.as_str().as_bytes();
        let is_sentinel = bytes.len() == 1 && bytes[0] == 48;
        proof {
            lemma_sentinel_encoding();
            encode_utf8_decode_utf8(token@);
            encode_utf8_decode_utf8(seq!['0']);
            if encode_utf8(token@) =~= seq![48u8] {
                assert(token@ == seq!['0']);
            }
            if token@ == seq!['0'] {
                assert(bytes@ =~= seq![48u8]);
            }
        }
        if is_sentinel {
            HandshakeOutcome::Refused
        } else {
            self.authenticated = true;
            self.connected = true;
            self.token = Some(token);
            HandshakeOutcome::Accepted
        }
    }

    /// The reconnect supervisor got a new connection: the session is
    /// connected again and no longer retrying. Authentication, token, queue
    /// and ping record carry over, so the loops resume where they were.
    pub fn on_reconnected(&mut self)
        ensures
            same_session(final(self), &reconnected(*old(self))),
    {
        self.connected = true;
        self.retrying = false;
    }
}


/// The session after the reconnect supervisor got a new connection.
pub open spec fn reconnected(s: ClientSession) -> ClientSession {
    ClientSession { connected: true, retrying: false, ..s }
}

/// Whether the loops end on a session.
pub open spec fn stopped(s: ClientSession) -> bool {
    !s.connected && !s.retrying
}

/// A session that lost its connection and is retrying comes out of a
/// successful reconnect connected and no longer retrying; its loops keep
/// running, and do their work again exactly when it was authenticated, with
/// the same queue and ping record.
pub proof fn lemma_reconnect_resumes(s: ClientSession)
    requires
        !s.connected,
        s.retrying,
    ensures
        reconnected(s).connected,
        !reconnected(s).retrying,
        !stopped(s),
        !stopped(reconnected(s)),
        reconnected(s).active() == s.authenticated,
        reconnected(s).message_buffer == s.message_buffer,
        reconnected(s).ping == s.ping,
        reconnected(s).token == s.token,
{
}

/// Heartbeats that come before the echo of the ping in flight leave its
/// record as it is: a second record is never started beside it.
pub proof fn lemma_single_ping_in_flight(
    ping: Ping,
    first_active: bool,
    first_now: u64,
    second_active: bool,
    second_now: u64,
)
    requires
        ping.received_at is None,
    ensures
        ping_after_heartbeat(first_active, ping, first_now) == ping,
        ping_after_heartbeat(
            second_active,
            ping_after_heartbeat(first_active, ping, first_now),
            second_now,
        ) == ping,
{
}

} // verus!
