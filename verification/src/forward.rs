//! Port forwarding: the handshake an exposer shares with a connector, the
//! checks both ends make on it, the length-prefixed frames it travels in,
//! and the count of tunnelled streams. The QUIC endpoint, the sockets and
//! the JSON encoding are the caller's part.

use vstd::prelude::*;
use crate::digest::{checksum_hex, checksum_spec};
use crate::safety::{ascii_checksum_fingerprint, fingerprint_text, session_fingerprint as fingerprint_of_checksum};
use crate::text::str_eq;
use crate::time::Timestamp;

verus! {

/// Most streams a connector may open at once.
pub const MAX_STREAMS: u32 = 50;
/// How long either end waits for the other to connect, in seconds.
pub const CONNECT_TIMEOUT_SECS: u64 = 120;
/// Largest UDP datagram carried.
pub const UDP_MAX_DATAGRAM: usize = 65535;
/// Copy buffer for one direction of a TCP tunnel.
pub const IO_COPY_BUFFER: usize = 256 * 1024;

/// What a forward carries.
#[derive(Clone, Copy, Debug, PartialEq, Eq, Structural)]
pub enum ForwardProtocol {
    Tcp,
    Udp,
    Both,
}

impl ForwardProtocol {
    /// The protocol an exposer offers: TCP, or TCP and UDP when `udp` is set.
    pub fn for_exposer(udp: bool) -> (p: ForwardProtocol)
        ensures
            p == (if udp { ForwardProtocol::Both } else { ForwardProtocol::Tcp }),
    {
        if udp {
            ForwardProtocol::Both
        } else {
            ForwardProtocol::Tcp
        }
    }

    /// The name shown to users: `TCP`, `UDP` or `TCP+UDP`.
    pub fn display_text(&self) -> (s: &'static str)
        ensures
            s@ == (match *self {
                ForwardProtocol::Tcp => "TCP"@,
                ForwardProtocol::Udp => "UDP"@,
                ForwardProtocol::Both => "TCP+UDP"@,
            }),
    {
        match self {
            ForwardProtocol::Tcp => "TCP",
            ForwardProtocol::Udp => "UDP",
            ForwardProtocol::Both => "TCP+UDP",
        }
    }

    /// Whether TCP connections are tunnelled.
    pub fn carries_tcp(&self) -> (b: bool)
        ensures
            b == (*self == ForwardProtocol::Tcp || *self == ForwardProtocol::Both),
    {
        match self {
            ForwardProtocol::Udp => false,
            _ => true,
        }
    }

    /// Whether UDP datagrams are tunnelled.
    pub fn carries_udp(&self) -> (b: bool)
        ensures
            b == (*self == ForwardProtocol::Udp || *self == ForwardProtocol::Both),
    {
        match self {
            ForwardProtocol::Tcp => false,
            _ => true,
        }
    }
}

/// What the exposer sends the connector, over signalling and again in band.
#[derive(Debug)]
pub struct ForwardHandshake {
    pub allowed_port: u16,
    pub protocol: ForwardProtocol,
    pub max_streams: u32,
    /// User-verifiable fingerprint of the exposer's endpoint identity.
    pub session_fingerprint: String,
    pub token_type: String,
    /// The exposer's endpoint address, serialised, for the connector to dial.
    pub endpoint_addr: String,
}

/// The fingerprint of an endpoint identity, given as its display text.
pub open spec fn endpoint_fingerprint(id_text: Seq<char>) -> Seq<char> {
    fingerprint_text(checksum_spec(vstd::utf8::encode_utf8(id_text)))
}

/// Short verbal fingerprint of an endpoint: the SHA-256 of its identity's
/// text, in hexadecimal, cut as `xxxx-xxxx-xxxx`.
pub fn session_fingerprint(id_text: &str) -> (f: String)
    ensures
        f@ == endpoint_fingerprint(id_text@),
        f@.len() == 14,
{
    let bytes = id_text.as_bytes();
    let hex = checksum_hex(bytes);
    assert(hex@.take(12).len() == 12);
    assert forall|i: int| 0 <= i < 12 implies (hex@.take(12)[i] as u32) < 128 by {
        assert(hex@.take(12)[i] == hex@[i]);
    }
    proof {
        reveal_strlit("-");
        ascii_checksum_fingerprint(hex@);
    }
    assert(fingerprint_text(hex@).len() == 14);
    fingerprint_of_checksum(hex.as_str())
}

impl ForwardHandshake {
    /// The handshake an exposer of `port` shares.
    pub fn for_exposer(port: u16, protocol: ForwardProtocol, endpoint_id_text: &str, token_type: &str, endpoint_addr: String) -> (h: ForwardHandshake)
        ensures
            h.allowed_port == port,
            h.protocol == protocol,
            h.max_streams == MAX_STREAMS,
            h.session_fingerprint@ == endpoint_fingerprint(endpoint_id_text@),
            h.token_type@ == token_type@,
            h.endpoint_addr == endpoint_addr,
    {
        ForwardHandshake {
            allowed_port: port,
            protocol,
            max_streams: MAX_STREAMS,
            session_fingerprint: session_fingerprint(endpoint_id_text),
            token_type: token_type.to_owned(),
            endpoint_addr,
        }
    }
}

/// Why a forward was refused.
#[derive(Clone, Copy, Debug, PartialEq, Eq, Structural)]
pub enum ForwardError {
    /// The other end named another port.
    PortMismatch { expected: u16, got: u16 },
    /// The in-band handshake carries another fingerprint than the one
    /// received over signalling.
    FingerprintMismatch,
}

/// The exposer's check of the connector's acknowledgement.
pub fn check_ack(handshake: &ForwardHandshake, acked_port: u16) -> (r: Result<(), ForwardError>)
    ensures
        acked_port == handshake.allowed_port ==> r is Ok,
        acked_port != handshake.allowed_port ==> r == Err::<(), ForwardError>(
            ForwardError::PortMismatch { expected: handshake.allowed_port, got: acked_port },
        ),
{
    if acked_port != handshake.allowed_port {
        Err(ForwardError::PortMismatch { expected: handshake.allowed_port, got: acked_port })
    } else {
        Ok(())
    }
}

/// The connector's check of the handshake received in band against the
/// one received over signalling. On success it tells whether the endpoint
/// addresses differ (which is only worth a warning).
pub fn check_received(expected: &ForwardHandshake, received: &ForwardHandshake) -> (r: Result<bool, ForwardError>)
    ensures
        received.allowed_port != expected.allowed_port ==> r == Err::<bool, ForwardError>(
            ForwardError::PortMismatch { expected: expected.allowed_port, got: received.allowed_port },
        ),
        received.allowed_port == expected.allowed_port && received.session_fingerprint@ != expected.session_fingerprint@
            ==> r == Err::<bool, ForwardError>(ForwardError::FingerprintMismatch),
        received.allowed_port == expected.allowed_port && received.session_fingerprint@ == expected.session_fingerprint@
            ==> r == Ok::<bool, ForwardError>(received.endpoint_addr@ != expected.endpoint_addr@),
{
    if received.allowed_port != expected.allowed_port {
        return Err(ForwardError::PortMismatch { expected: expected.allowed_port, got: received.allowed_port });
    }
    if !str_eq(received.session_fingerprint.as_str(), expected.session_fingerprint.as_str()) {
        return Err(ForwardError::FingerprintMismatch);
    }
    Ok(!str_eq(received.endpoint_addr.as_str(), expected.endpoint_addr.as_str()))
}

/// The four big-endian bytes of `n`.
pub open spec fn be32(n: u32) -> Seq<u8> {
    seq![(n >> 24u32) as u8, ((n >> 16u32) & 0xffu32) as u8, ((n >> 8u32) & 0xffu32) as u8, (n & 0xffu32) as u8]
}

/// The number that four big-endian bytes stand for.
pub open spec fn from_be32(b: Seq<u8>) -> int {
    b[0] * 0x100_0000 + b[1] * 0x1_0000 + b[2] * 0x100 + b[3]
}

/// A message framed for the in-band handshake: its length (cut to 32
/// bits) as four big-endian bytes, then the message.
pub fn frame(payload: &[u8]) -> (out: Vec<u8>)
    ensures
        out@ == be32(payload@.len() as u32) + payload@,
{
    let n: u32 = #[verifier::truncate] (payload.len() as u32);
    let mut out: Vec<u8> = Vec::new();
    out.push((n >> 24u32) as u8);
    out.push(((n >> 16u32) & 0xffu32) as u8);
    out.push(((n >> 8u32) & 0xffu32) as u8);
    out.push((n & 0xffu32) as u8);
    let mut i: usize = 0;
    while i < payload.len()
        invariant
            i <= payload@.len(),
            out@ == be32(n) + payload@.take(i as int),
        decreases payload@.len() - i,
    {
        out.push(payload[i]);
        i = i + 1;
        assert(out@ =~= be32(n) + payload@.take(i as int));
    }
    assert(payload@.take(payload@.len() as int) == payload@);
    out
}

/// The message length announced by a frame header.
pub fn frame_length(header: [u8; 4]) -> (n: u32)
    ensures
        n == from_be32(header@),
{
    let a: u32 = header[0] as u32;
    let b: u32 = header[1] as u32;
    let c: u32 = header[2] as u32;
    let d: u32 = header[3] as u32;
    a * 0x100_0000 + b * 0x1_0000 + c * 0x100 + d
}

/// A frame's header announces the length of the message it carries, for
/// every message shorter than 2^32 bytes.
pub proof fn frame_header_gives_length(n: u32)
    ensures
        from_be32(be32(n)) == n,
{
    let b0 = (n >> 24u32) as u8;
    let b1 = ((n >> 16u32) & 0xffu32) as u8;
    let b2 = ((n >> 8u32) & 0xffu32) as u8;
    let b3 = (n & 0xffu32) as u8;
    assert(b0 as u32 * 0x100_0000u32 + b1 as u32 * 0x1_0000u32 + b2 as u32 * 0x100u32 + b3 as u32 == n
        && (b0 as u32) < 256 && (b1 as u32) < 256 && (b2 as u32) < 256 && (b3 as u32) < 256) by (bit_vector)
        requires
            b0 == (n >> 24u32) as u8,
            b1 == ((n >> 16u32) & 0xffu32) as u8,
            b2 == ((n >> 8u32) & 0xffu32) as u8,
            b3 == (n & 0xffu32) as u8,
    ;
    assert(be32(n) =~= seq![b0, b1, b2, b3]);
}

/// The number of tunnelled streams open at once, at most `MAX_STREAMS`.
pub struct StreamCount {
    pub active: u32,
}

impl StreamCount {
    pub fn new() -> (c: StreamCount)
        ensures
            c.active == 0,
    {
        StreamCount { active: 0 }
    }

    /// A stream asks to open: refused (`None`, count unchanged) when
    /// `MAX_STREAMS` are already open; otherwise counted, and the new count
    /// returned. Starting from zero the count never exceeds `MAX_STREAMS`.
    pub fn opened(&mut self) -> (n: Option<u32>)
        ensures
            old(self).active >= MAX_STREAMS ==> n is None && final(self).active == old(self).active,
            old(self).active < MAX_STREAMS ==> n == Some((old(self).active + 1) as u32) && final(self).active
                == old(self).active + 1,
    {
        if self.active >= MAX_STREAMS {
            None
        } else {
            self.active = self.active + 1;
            Some(self.active)
        }
    }

    /// A stream closed; returns the new count.
    pub fn closed(&mut self) -> (n: u32)
        requires
            old(self).active > 0,
        ensures
            n == old(self).active - 1,
            final(self).active == n,
    {
        self.active = self.active - 1;
        self.active
    }
}

/// One entry of the forward audit log.
#[derive(Debug)]
pub struct ForwardAuditEntry {
    pub timestamp: Timestamp,
    pub role: String,
    pub port: u16,
    pub protocol: String,
    pub token_type: String,
    pub fingerprint: String,
    pub streams_opened: u32,
    pub bytes_forwarded: u64,
    pub ended_at: Timestamp,
}

} // verus!
