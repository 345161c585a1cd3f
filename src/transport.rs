//! What a read from a connection came to, as the host program hands it to
//! the session state machines.

use vstd::prelude::*;
use crate::codec::PACKET_INFO_SIZE;

verus! {

/// The result of one read of a packet header from a connection.
#[derive(Debug, Clone, Copy)]
pub enum ReadOutcome {
    /// The read returned the given number of bytes, placed at the start of
    /// the header buffer.
    Bytes(usize, [u8; PACKET_INFO_SIZE]),
    /// The peer reset the connection.
    Reset,
    /// Any other error (would block, interrupted, ...): passing, the next
    /// read may succeed.
    Failed,
}

} // verus!
