//! Connecting two peers: discover the public endpoint, exchange endpoints,
//! punch a hole through both NATs, and fall back to the encrypted relay
//! whenever a step fails; then the line-based session over the direct link.
//! Sockets, timers and the terminal are the caller's part: it performs the
//! action each step returns and reports what happened.

use vstd::prelude::*;
use crate::text::{decode_utf8_strict, is_blank, is_white_space, trim_end, trim_end_seq, trim_seq, trim_start_seq};

verus! {

/// How long the whole punching phase may take, in seconds.
pub const HOLE_PUNCH_TIMEOUT_SECS: u64 = 5;
/// Probes sent before giving up.
pub const HOLE_PUNCH_ATTEMPTS: u32 = 10;
/// Pause after each probe, in milliseconds.
pub const PUNCH_SEND_GAP_MS: u64 = 200;
/// How long to wait for the peer's probe after each pause, in milliseconds.
pub const PUNCH_REPLY_WAIT_MS: u64 = 100;
/// Receive buffer of a direct session.
pub const SESSION_BUFFER: usize = 65536;

/// The probe both peers send: the bytes of `PUNCH`.
pub open spec fn punch_probe_spec() -> Seq<u8> {
    seq![80u8, 85u8, 78u8, 67u8, 72u8]
}

/// The probe datagram.
pub fn punch_probe() -> (p: [u8; 5])
    ensures
        p@ == punch_probe_spec(),
{
    let p: [u8; 5] = [80u8, 85u8, 78u8, 67u8, 72u8];
    assert(p@ =~= punch_probe_spec());
    p
}

/// Whether a datagram read into `buf` is the peer's probe: it came from
/// the peer's address and the buffer starts with `PUNCH`.
pub fn is_punch_reply(from_peer: bool, buf: &[u8; 16]) -> (b: bool)
    ensures
        b == (from_peer && buf@.take(5) == punch_probe_spec()),
{
    let matches = buf[0] == 80u8 && buf[1] == 85u8 && buf[2] == 78u8 && buf[3] == 67u8 && buf[4] == 72u8;
    proof {
        if matches {
            assert(buf@.take(5) =~= punch_probe_spec());
        } else {
            assert(buf@.take(5) != punch_probe_spec() || !matches) by {
                if buf@.take(5) == punch_probe_spec() {
                    assert(buf@.take(5)[0] == buf@[0]);
                    assert(buf@.take(5)[1] == buf@[1]);
                    assert(buf@.take(5)[2] == buf@[2]);
                    assert(buf@.take(5)[3] == buf@[3]);
                    assert(buf@.take(5)[4] == buf@[4]);
                }
            }
        }
    }
    from_peer && matches
}

/// What follows one probe.
#[derive(Clone, Copy, Debug, PartialEq, Eq, Structural)]
pub enum PunchProgress {
    /// The peer's probe arrived: the hole is open.
    Punched,
    /// Send the probe again; this is the attempt number (counted from 0).
    Retry { next_attempt: u32 },
    /// All attempts are spent: fall back to the relay.
    GiveUp,
}

/// The outcome of probe number `attempt` (counted from 0).
pub open spec fn attempt_outcome(attempt: u32, replied: bool) -> PunchProgress {
    if replied {
        PunchProgress::Punched
    } else if attempt + 1 < HOLE_PUNCH_ATTEMPTS {
        PunchProgress::Retry { next_attempt: (attempt + 1) as u32 }
    } else {
        PunchProgress::GiveUp
    }
}

/// Decides what follows probe number `attempt`.
pub fn after_attempt(attempt: u32, replied: bool) -> (p: PunchProgress)
    requires
        attempt < HOLE_PUNCH_ATTEMPTS,
    ensures
        p == attempt_outcome(attempt, replied),
{
    if replied {
        PunchProgress::Punched
    } else if attempt + 1 < HOLE_PUNCH_ATTEMPTS {
        PunchProgress::Retry { next_attempt: attempt + 1 }
    } else {
        PunchProgress::GiveUp
    }
}

/// The outcome after `k` probes that all went unanswered, starting from the
/// first.
pub open spec fn silent_run(k: nat) -> PunchProgress
    decreases k,
{
    if k == 0 {
        PunchProgress::Retry { next_attempt: 0 }
    } else {
        match silent_run((k - 1) as nat) {
            PunchProgress::Retry { next_attempt } => if next_attempt < HOLE_PUNCH_ATTEMPTS {
                attempt_outcome(next_attempt, false)
            } else {
                PunchProgress::GiveUp
            },
            other => other,
        }
    }
}

/// Punching never probes forever: while no probe is answered it retries
/// with the next attempt number, and it gives up after exactly
/// `HOLE_PUNCH_ATTEMPTS` probes.
pub proof fn punching_gives_up_after_all_attempts(k: nat)
    ensures
        k < HOLE_PUNCH_ATTEMPTS ==> silent_run(k) == (PunchProgress::Retry { next_attempt: k as u32 }),
        k == HOLE_PUNCH_ATTEMPTS ==> silent_run(k) == PunchProgress::GiveUp,
    decreases k,
{
    if k > 0 {
        punching_gives_up_after_all_attempts((k - 1) as nat);
    }
}

/// Which side of the connection this device is.
#[derive(Clone, Copy, Debug, PartialEq, Eq, Structural)]
pub enum Role {
    /// Generated the code and waits.
    Host,
    /// Connects with the code.
    Peer,
}

impl Role {
    /// The role as reported to the dashboard.
    pub fn label(&self) -> (s: &'static str)
        ensures
            s@ == (match *self {
                Role::Host => "host"@,
                Role::Peer => "peer"@,
            }),
    {
        match self {
            Role::Host => "host",
            Role::Peer => "peer",
        }
    }
}

/// Where a connection attempt stands.
#[derive(Clone, Copy, Debug, PartialEq, Eq, Structural)]
pub enum PunchPhase {
    /// Asking STUN servers for this device's public endpoint.
    Discovering,
    /// Our endpoint is sent; waiting for the peer's.
    AwaitingPeerEndpoint,
    /// Probing the peer's endpoint.
    Punching,
    /// Connected directly.
    Direct,
    /// Connected through the encrypted relay.
    Relay,
}

/// What the caller observed.
#[derive(Clone, Copy, Debug, PartialEq, Eq, Structural)]
pub enum PunchEvent {
    EndpointDiscovered,
    DiscoveryFailed,
    PeerEndpointReceived,
    Punched,
    PunchFailed,
}

/// What the caller does next.
#[derive(Clone, Copy, Debug, PartialEq, Eq, Structural)]
pub enum PunchAction {
    /// Send our endpoint over signalling and wait for the peer's.
    SendEndpointAndAwaitPeer,
    /// Probe the peer's endpoint.
    AttemptPunch,
    /// Tell the server the handshake is done and run the direct session.
    NotifyAndRunDirect,
    /// Tell the peer we go through the relay, then run the relay session.
    SignalFallbackAndRelay,
    /// Run the relay session.
    RunRelay,
}

/// The next phase and action for an event, or `None` when the event does
/// not belong to the phase.
pub open spec fn step_spec(phase: PunchPhase, event: PunchEvent) -> Option<(PunchPhase, PunchAction)> {
    match (phase, event) {
        (PunchPhase::Discovering, PunchEvent::EndpointDiscovered) =>
            Some((PunchPhase::AwaitingPeerEndpoint, PunchAction::SendEndpointAndAwaitPeer)),
        (PunchPhase::Discovering, PunchEvent::DiscoveryFailed) =>
            Some((PunchPhase::Relay, PunchAction::SignalFallbackAndRelay)),
        (PunchPhase::AwaitingPeerEndpoint, PunchEvent::PeerEndpointReceived) =>
            Some((PunchPhase::Punching, PunchAction::AttemptPunch)),
        (PunchPhase::Punching, PunchEvent::Punched) =>
            Some((PunchPhase::Direct, PunchAction::NotifyAndRunDirect)),
        (PunchPhase::Punching, PunchEvent::PunchFailed) =>
            Some((PunchPhase::Relay, PunchAction::RunRelay)),
        _ => None,
    }
}

/// How many steps at most remain from a phase.
pub open spec fn phase_rank(phase: PunchPhase) -> nat {
    match phase {
        PunchPhase::Discovering => 3,
        PunchPhase::AwaitingPeerEndpoint => 2,
        PunchPhase::Punching => 1,
        PunchPhase::Direct => 0,
        PunchPhase::Relay => 0,
    }
}

/// Drives a connection attempt, as host or as peer.
#[derive(Debug)]
pub struct PunchEngine;

impl PunchEngine {
    pub fn new() -> (e: PunchEngine) {
        PunchEngine
    }

    /// The phase every attempt starts in.
    pub fn start(&self) -> (p: PunchPhase)
        ensures
            p == PunchPhase::Discovering,
    {
        PunchPhase::Discovering
    }

    /// The next phase and action after `event` in `phase`.
    pub fn step(&self, phase: PunchPhase, event: PunchEvent) -> (r: Option<(PunchPhase, PunchAction)>)
        ensures
            r == step_spec(phase, event),
    {
        match (phase, event) {
            (PunchPhase::Discovering, PunchEvent::EndpointDiscovered) =>
                Some((PunchPhase::AwaitingPeerEndpoint, PunchAction::SendEndpointAndAwaitPeer)),
            (PunchPhase::Discovering, PunchEvent::DiscoveryFailed) =>
                Some((PunchPhase::Relay, PunchAction::SignalFallbackAndRelay)),
            (PunchPhase::AwaitingPeerEndpoint, PunchEvent::PeerEndpointReceived) =>
                Some((PunchPhase::Punching, PunchAction::AttemptPunch)),
            (PunchPhase::Punching, PunchEvent::Punched) =>
                Some((PunchPhase::Direct, PunchAction::NotifyAndRunDirect)),
            (PunchPhase::Punching, PunchEvent::PunchFailed) =>
                Some((PunchPhase::Relay, PunchAction::RunRelay)),
            _ => None,
        }
    }
}

/// A direct connection is made only by a successful punch; every failure,
/// of discovery or of punching, ends on the relay; the peer is told about
/// the fallback exactly when discovery failed; and an attempt reaches
/// direct or relay within three steps, after which no event moves it.
pub proof fn connection_falls_back_to_relay(phase: PunchPhase, event: PunchEvent)
    ensures
        step_spec(phase, event) matches Some((next, _)) && next == PunchPhase::Direct
            ==> phase == PunchPhase::Punching && event == PunchEvent::Punched,
        (event == PunchEvent::DiscoveryFailed || event == PunchEvent::PunchFailed)
            ==> (step_spec(phase, event) matches Some((next, _)) ==> next == PunchPhase::Relay),
        (step_spec(phase, event) matches Some((_, a)) && a == PunchAction::SignalFallbackAndRelay)
            <==> (phase == PunchPhase::Discovering && event == PunchEvent::DiscoveryFailed),
        step_spec(phase, event) matches Some((next, _)) ==> phase_rank(next) < phase_rank(phase),
        phase == PunchPhase::Direct || phase == PunchPhase::Relay ==> step_spec(phase, event) is None,
{
}

/// Bytes exchanged over a session.
#[derive(Clone, Copy, Debug, PartialEq, Eq, Structural)]
pub struct SessionCounters {
    pub bytes_sent: u64,
    pub bytes_received: u64,
}

impl SessionCounters {
    pub fn new() -> (c: SessionCounters)
        ensures
            c.bytes_sent == 0,
            c.bytes_received == 0,
    {
        SessionCounters { bytes_sent: 0, bytes_received: 0 }
    }

    /// `n` bytes arrived.
    pub fn record_received(&mut self, n: usize)
        requires
            old(self).bytes_received + n <= u64::MAX,
        ensures
            final(self).bytes_received == old(self).bytes_received + n,
            final(self).bytes_sent == old(self).bytes_sent,
    {
        self.bytes_received = self.bytes_received + n as u64;
    }

    /// `n` bytes went out.
    pub fn record_sent(&mut self, n: usize)
        requires
            old(self).bytes_sent + n <= u64::MAX,
        ensures
            final(self).bytes_sent == old(self).bytes_sent + n,
            final(self).bytes_received == old(self).bytes_received,
    {
        self.bytes_sent = self.bytes_sent + n as u64;
    }
}

/// How a datagram from the peer is shown.
#[derive(Debug)]
pub enum Incoming {
    /// Text: show it, without its trailing white space.
    Show(String),
    /// Text that is empty or all white space: nothing to show.
    Blank,
    /// Not UTF-8.
    Binary,
}

/// Reads a datagram from the peer.
pub fn incoming(bytes: &[u8]) -> (r: Incoming)
    ensures
        !vstd::utf8::valid_utf8(bytes@) ==> r is Binary,
        vstd::utf8::valid_utf8(bytes@) && trim_seq(vstd::utf8::decode_utf8(bytes@)).len() == 0 ==> r is Blank,
        vstd::utf8::valid_utf8(bytes@) && trim_seq(vstd::utf8::decode_utf8(bytes@)).len() > 0
            ==> (r matches Incoming::Show(s) && s@ == trim_end_seq(vstd::utf8::decode_utf8(bytes@))),
{
    match decode_utf8_strict(bytes) {
        Some(text) => {
            if is_blank(text.as_str()) {
                Incoming::Blank
            } else {
                Incoming::Show(trim_end(text.as_str()))
            }
        },
        None => Incoming::Binary,
    }
}

/// The datagram sent for a typed line: the line without trailing white
/// space, then a newline; nothing for a blank line.
pub fn outgoing_payload(line: &str) -> (r: Option<String>)
    ensures
        trim_end_seq(line@).len() == 0 ==> r is None,
        trim_end_seq(line@).len() > 0 ==> (r matches Some(p) && p@ == trim_end_seq(line@).push('\n')),
{
    let mut t = trim_end(line);
    if is_blank(t.as_str()) {
        proof {
            lemma_trim_end_blank(line@);
        }
        None
    } else {
        proof {
            lemma_trim_end_blank(line@);
        }
        t.push('\n');
        Some(t)
    }
}

proof fn lemma_trim_end_last(s: Seq<char>)
    ensures
        trim_end_seq(s).len() == 0 || !is_white_space(trim_end_seq(s).last()),
    decreases s.len(),
{
    if s.len() > 0 && is_white_space(s.last()) {
        lemma_trim_end_last(s.drop_last());
    }
}

proof fn lemma_trim_start_nonblank(t: Seq<char>)
    requires
        t.len() > 0,
        !is_white_space(t.last()),
    ensures
        trim_start_seq(t).len() > 0,
    decreases t.len(),
{
    if is_white_space(t[0]) {
        assert(t.len() > 1);
        assert(t.drop_first().last() == t.last());
        lemma_trim_start_nonblank(t.drop_first());
    }
}

/// A string with trailing white space removed is empty exactly when the
/// string is blank.
proof fn lemma_trim_end_blank(s: Seq<char>)
    ensures
        (trim_seq(trim_end_seq(s)).len() == 0) == (trim_end_seq(s).len() == 0),
{
    let t = trim_end_seq(s);
    lemma_trim_end_last(s);
    if t.len() > 0 {
        assert(trim_end_seq(t) == t);
        lemma_trim_start_nonblank(t);
    } else {
        assert(trim_end_seq(t) == t);
    }
}

} // verus!
