//! Streaming standard input from one device to another's standard output.
//! The endpoint and the byte copying are the caller's part; what the two
//! sides agree on over signalling is the handshake.

use vstd::prelude::*;

verus! {

/// Copy buffer for one read of the piped stream.
pub const PIPE_BUFFER: usize = 16 * 1024;
/// How long the sender waits for the receiver, in seconds.
pub const PIPE_ACCEPT_TIMEOUT_SECS: u64 = 120;
/// How long the receiver waits to connect, in seconds.
pub const PIPE_CONNECT_TIMEOUT_SECS: u64 = 30;

/// Shared over signalling so that the receiver can connect.
#[derive(Debug)]
pub struct PipeHandshake {
    /// The sender's endpoint address, serialised.
    pub endpoint_addr: String,
}

impl PipeHandshake {
    /// The handshake for a sender reachable at `endpoint_addr`.
    pub fn new(endpoint_addr: String) -> (h: PipeHandshake)
        ensures
            h.endpoint_addr == endpoint_addr,
    {
        PipeHandshake { endpoint_addr }
    }
}

} // verus!
