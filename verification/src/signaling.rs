//! The signalling protocol: message kinds, what a client does with each
//! message it receives while it waits for something, the endpoint and key
//! payloads, and the encrypted relay. The WebSocket and the JSON encoding
//! are the caller's part.

use vstd::prelude::*;
use crate::base64::{base64_decode, base64_encode, decode_spec, encode_spec};
use crate::crypto::{opens_to, SessionCipher};
use crate::punch::SessionCounters;
use crate::text::{decimal, push_all, push_decimal};

verus! {

/// Kinds of signalling message.
#[derive(Clone, Copy, Debug, PartialEq, Eq, Structural)]
pub enum MsgType {
    Register,
    Waiting,
    Matched,
    Endpoint,
    Relay,
    Handshake,
    Error,
    /// Key exchange.
    PublicKey,
    /// File transfer metadata.
    Transfer,
    /// Port forward handshake.
    Forward,
    /// Shell session handshake.
    Shell,
}

/// The WebSocket address of a signalling server.
pub fn ws_url(server: &str) -> (url: String)
    ensures
        url@ == server@ + "/ws"@,
{
    let mut url = String::new();
    push_all(&mut url, server);
    push_all(&mut url, "/ws");
    assert(url@ =~= server@ + "/ws"@);
    url
}

/// What a client waiting for its peer does with a message.
#[derive(Debug)]
pub enum PeerWait {
    /// The server paired us with the peer.
    Matched,
    /// Keep waiting.
    KeepWaiting,
    /// The server reported an error, for this reason.
    Failed(String),
}

/// The reason given when the server's error names none.
pub open spec fn unknown_error() -> Seq<char> {
    "Unknown error"@
}

/// Reads one message while waiting for the peer; `reason` is the error
/// payload's `reason` text, when there is one.
pub fn wait_for_peer_step(msg_type: MsgType, reason: Option<&str>) -> (w: PeerWait)
    ensures
        msg_type == MsgType::Matched ==> w is Matched,
        msg_type == MsgType::Error ==> (w matches PeerWait::Failed(r) && r@ == (match reason {
            Some(x) => x@,
            None => unknown_error(),
        })),
        msg_type != MsgType::Matched && msg_type != MsgType::Error ==> w is KeepWaiting,
{
    match msg_type {
        MsgType::Matched => PeerWait::Matched,
        MsgType::Error => match reason {
            Some(r) => PeerWait::Failed(r.to_owned()),
            None => PeerWait::Failed("Unknown error".to_owned()),
        },
        _ => PeerWait::KeepWaiting,
    }
}

/// The error text for a server error.
pub fn server_error_text(reason: &str) -> (s: String)
    ensures
        s@ == "Server error: "@ + reason@,
{
    let mut s = String::new();
    push_all(&mut s, "Server error: ");
    push_all(&mut s, reason);
    assert(s@ =~= "Server error: "@ + reason@);
    s
}

/// Whether a message is the one a `wait_for_*` loop waits for: the right
/// kind, with a payload. Every other message is skipped.
pub fn awaited(expected: MsgType, got: MsgType, has_payload: bool) -> (b: bool)
    ensures
        b == (got == expected && has_payload),
{
    got == expected && has_payload
}

/// What arrived on the WebSocket.
#[derive(Clone, Copy, Debug, PartialEq, Eq, Structural)]
pub enum Frame {
    Text,
    Ping,
    Close,
    Failure,
    End,
    /// Pong, binary or raw frames.
    Other,
}

/// Why receiving stopped.
#[derive(Clone, Copy, Debug, PartialEq, Eq, Structural)]
pub enum RecvError {
    ServerClosed,
    WebSocket,
    ConnectionLost,
}

/// What the receiver does with a frame.
#[derive(Clone, Copy, Debug, PartialEq, Eq, Structural)]
pub enum RecvStep {
    /// Parse the text as a message.
    Parse,
    /// Read the next frame.
    Skip,
    /// Stop with this error.
    Fail(RecvError),
}

/// Decides what to do with a frame.
pub fn recv_step(frame: Frame) -> (s: RecvStep)
    ensures
        s == (match frame {
            Frame::Text => RecvStep::Parse,
            Frame::Close => RecvStep::Fail(RecvError::ServerClosed),
            Frame::Failure => RecvStep::Fail(RecvError::WebSocket),
            Frame::End => RecvStep::Fail(RecvError::ConnectionLost),
            _ => RecvStep::Skip,
        }),
{
    match frame {
        Frame::Text => RecvStep::Parse,
        Frame::Close => RecvStep::Fail(RecvError::ServerClosed),
        Frame::Failure => RecvStep::Fail(RecvError::WebSocket),
        Frame::End => RecvStep::Fail(RecvError::ConnectionLost),
        _ => RecvStep::Skip,
    }
}

/// Why a peer's endpoint payload was refused.
#[derive(Clone, Copy, Debug, PartialEq, Eq, Structural)]
pub enum EndpointError {
    MissingIp,
    MissingPort,
}

/// The `ip:port` text of a peer's endpoint payload; the port is cut to 16
/// bits.
pub fn peer_endpoint_text(ip: Option<&str>, port: Option<u64>) -> (r: Result<String, EndpointError>)
    ensures
        ip is None ==> r == Err::<String, EndpointError>(EndpointError::MissingIp),
        ip is Some && port is None ==> r == Err::<String, EndpointError>(EndpointError::MissingPort),
        ip matches Some(i) ==> (port matches Some(p) ==> (r matches Ok(s) && s@ == i@ + ":"@ + decimal(
            (p as u16) as nat,
        ))),
{
    match ip {
        None => Err(EndpointError::MissingIp),
        Some(i) => match port {
            None => Err(EndpointError::MissingPort),
            Some(p) => {
                let p16: u16 = #[verifier::truncate] (p as u16);
                let mut s = String::new();
                push_all(&mut s, i);
                push_all(&mut s, ":");
                let ghost before = s@;
                push_decimal(&mut s, p16 as u64);
                assert(s@ =~= i@ + ":"@ + decimal(p16 as nat));
                Ok(s)
            },
        },
    }
}

/// The text our public key travels as.
pub fn encode_public_key(key: &[u8; 32]) -> (s: String)
    ensures
        s@ == encode_spec(key@),
{
    base64_encode(key)
}

/// Why a peer's key payload was refused.
#[derive(Clone, Copy, Debug, PartialEq, Eq, Structural)]
pub enum KeyError {
    MissingKey,
}

/// The peer's public key from its payload's `key` text. A key that does
/// not decode to 32 bytes is not accepted.
pub fn peer_public_key(key: Option<&str>) -> (r: Result<[u8; 32], KeyError>)
    requires
        key matches Some(k) ==> decode_spec(k@).len() == 32,
    ensures
        key is None ==> r == Err::<[u8; 32], KeyError>(KeyError::MissingKey),
        key matches Some(k) ==> (r matches Ok(a) && a@ == decode_spec(k@)),
{
    match key {
        None => Err(KeyError::MissingKey),
        Some(k) => {
            let bytes = base64_decode(k);
            let mut arr: [u8; 32] = [0u8; 32];
            let mut i: usize = 0;
            while i < 32
                invariant
                    i <= 32,
                    bytes@.len() == 32,
                    forall|j: int| 0 <= j < i ==> arr@[j] == bytes@[j],
                decreases 32 - i,
            {
                arr[i] = bytes[i];
                i = i + 1;
            }
            assert(arr@ =~= bytes@);
            Ok(arr)
        },
    }
}

/// What the relay loop saw.
#[derive(Debug)]
pub enum RelayEvent {
    /// A relay message, with its `data` text if it has one.
    Data(Option<String>),
    /// The server reported an error: the peer is gone.
    PeerError,
    /// Receiving failed.
    ConnectionError,
    /// The user pressed Ctrl+C.
    Interrupted,
    /// Any other message.
    Other,
}

/// What the relay loop does next.
#[derive(Clone, Copy, Debug, PartialEq, Eq, Structural)]
pub enum RelayOutcome {
    /// Decrypted this many bytes; keep going.
    Received(usize),
    /// A message that did not decrypt; keep going.
    Undecryptable,
    /// Nothing to do; keep going.
    Ignored,
    PeerDisconnected,
    ConnectionLost,
    Interrupted,
}

/// The outcome of a relay event under the session key, and what it adds
/// to the bytes received.
pub open spec fn relay_data_outcome(key: Seq<u8>, data: Seq<char>, o: RelayOutcome) -> bool {
    let d = decode_spec(data);
    if exists|p: Seq<u8>| opens_to(key, d, p) {
        exists|p: Seq<u8>| opens_to(key, d, p) && o == RelayOutcome::Received(p.len() as usize)
    } else {
        o == RelayOutcome::Undecryptable
    }
}

/// One turn of the encrypted relay loop.
pub fn relay_step(cipher: &SessionCipher, counters: &mut SessionCounters, event: &RelayEvent) -> (o: RelayOutcome)
    requires
        event matches RelayEvent::Data(Some(d)) ==> old(counters).bytes_received + decode_spec(d@).len() <= u64::MAX,
    ensures
        final(counters).bytes_sent == old(counters).bytes_sent,
        match *event {
            RelayEvent::Data(Some(d)) => relay_data_outcome(cipher.key@, d@, o) && final(counters).bytes_received
                == old(counters).bytes_received + (match o {
                RelayOutcome::Received(n) => n as int,
                _ => 0,
            }),
            RelayEvent::Data(None) => o == RelayOutcome::Ignored && *final(counters) == *old(counters),
            RelayEvent::Other => o == RelayOutcome::Ignored && *final(counters) == *old(counters),
            RelayEvent::PeerError => o == RelayOutcome::PeerDisconnected && *final(counters) == *old(counters),
            RelayEvent::ConnectionError => o == RelayOutcome::ConnectionLost && *final(counters) == *old(counters),
            RelayEvent::Interrupted => o == RelayOutcome::Interrupted && *final(counters) == *old(counters),
        },
{
    match event {
        RelayEvent::Data(Some(d)) => {
            let encrypted = base64_decode(d.as_str());
            match cipher.decrypt(encrypted.as_slice()) {
                Ok(plain) => {
                    let n: usize = plain.len();
                    counters.record_received(n);
                    assert(opens_to(cipher.key@, decode_spec(d@), plain@));
                    RelayOutcome::Received(n)
                },
                Err(_) => {
                    assert(!exists|p: Seq<u8>| opens_to(cipher.key@, decode_spec(d@), p));
                    RelayOutcome::Undecryptable
                },
            }
        },
        RelayEvent::Data(None) => RelayOutcome::Ignored,
        RelayEvent::Other => RelayOutcome::Ignored,
        RelayEvent::PeerError => RelayOutcome::PeerDisconnected,
        RelayEvent::ConnectionError => RelayOutcome::ConnectionLost,
        RelayEvent::Interrupted => RelayOutcome::Interrupted,
    }
}

} // verus!
