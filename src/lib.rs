//! A session-oriented binary protocol: the packet codec, the client and
//! server session state machines, and the server's outbound event queue.
//! Sockets, timers and threads live with the host program; this library
//! decides what each read, tick or reconnect does to a session.

pub mod codec;
pub mod transport;
pub mod client;
pub mod server;
