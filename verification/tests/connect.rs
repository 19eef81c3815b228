use punch::active_state::{
    deregister_forward, deregister_shell, register_forward, register_shell, shell_command_event,
    update_forward_streams, ActiveForward, ActiveShell, ActiveState,
};
use punch::config::{default_server, server_url, set_server, ServerSetting};
use punch::logger::{ConnectionType, SessionLog};
use punch::punch::{
    after_attempt, incoming, is_punch_reply, outgoing_payload, punch_probe, Incoming, PunchAction, PunchEngine,
    PunchEvent, PunchPhase, PunchProgress, Role, SessionCounters, HOLE_PUNCH_ATTEMPTS,
};
use punch::stun::StunClient;
use punch::time::{seconds_between, Timestamp};

#[test]
fn direct_path_after_a_punch() {
    let e = PunchEngine::new();
    let p = e.start();
    assert_eq!(p, PunchPhase::Discovering);
    let (p, a) = e.step(p, PunchEvent::EndpointDiscovered).unwrap();
    assert_eq!((p, a), (PunchPhase::AwaitingPeerEndpoint, PunchAction::SendEndpointAndAwaitPeer));
    let (p, a) = e.step(p, PunchEvent::PeerEndpointReceived).unwrap();
    assert_eq!((p, a), (PunchPhase::Punching, PunchAction::AttemptPunch));
    let (p, a) = e.step(p, PunchEvent::Punched).unwrap();
    assert_eq!((p, a), (PunchPhase::Direct, PunchAction::NotifyAndRunDirect));
    assert_eq!(e.step(p, PunchEvent::PunchFailed), None);
}

#[test]
fn connection_falls_back_to_relay() {
    let e = PunchEngine::new();
    assert_eq!(
        e.step(PunchPhase::Discovering, PunchEvent::DiscoveryFailed),
        Some((PunchPhase::Relay, PunchAction::SignalFallbackAndRelay))
    );
    assert_eq!(e.step(PunchPhase::Punching, PunchEvent::PunchFailed), Some((PunchPhase::Relay, PunchAction::RunRelay)));
    assert_eq!(e.step(PunchPhase::Discovering, PunchEvent::Punched), None);
    assert_eq!(e.step(PunchPhase::Relay, PunchEvent::EndpointDiscovered), None);
}

#[test]
fn punching_gives_up_after_all_attempts() {
    let mut attempt = 0u32;
    let mut probes = 0;
    loop {
        probes += 1;
        match after_attempt(attempt, false) {
            PunchProgress::Retry { next_attempt } => {
                assert_eq!(next_attempt, attempt + 1);
                attempt = next_attempt;
            }
            PunchProgress::GiveUp => break,
            PunchProgress::Punched => panic!("no reply was seen"),
        }
    }
    assert_eq!(probes, HOLE_PUNCH_ATTEMPTS);
    assert_eq!(after_attempt(3, true), PunchProgress::Punched);
}

#[test]
fn punch_replies() {
    let probe = punch_probe();
    assert_eq!(&probe, b"PUNCH");
    let mut buf = [0u8; 16];
    buf[..5].copy_from_slice(b"PUNCH");
    assert!(is_punch_reply(true, &buf));
    assert!(!is_punch_reply(false, &buf));
    buf[4] = b'X';
    assert!(!is_punch_reply(true, &buf));
    assert!(!is_punch_reply(true, &[0u8; 16]));
}

#[test]
fn direct_session_lines() {
    assert_eq!(outgoing_payload("hello  "), Some("hello\n".to_string()));
    assert_eq!(outgoing_payload("  hi\n"), Some("  hi\n".to_string()));
    assert_eq!(outgoing_payload("   \n"), None);
    assert_eq!(outgoing_payload(""), None);
    match incoming(b"hi there  \n") {
        Incoming::Show(t) => assert_eq!(t, "hi there"),
        other => panic!("{:?}", other),
    }
    assert!(matches!(incoming(b" \t\n"), Incoming::Blank));
    assert!(matches!(incoming(&[0xff, 0xfe]), Incoming::Binary));
}

#[test]
fn session_counters() {
    let mut c = SessionCounters::new();
    c.record_received(10);
    c.record_sent(6);
    c.record_received(5);
    assert_eq!(c, SessionCounters { bytes_sent: 6, bytes_received: 15 });
}

#[test]
fn labels() {
    assert_eq!(Role::Host.label(), "host");
    assert_eq!(Role::Peer.label(), "peer");
    assert_eq!(ConnectionType::Direct.dashboard_label(), "Direct");
    assert_eq!(ConnectionType::Relay.dashboard_label(), "Relay");
    let _ = StunClient::default();
}

#[test]
fn server_setting_reads_last_set() {
    let mut s = ServerSetting::new();
    assert_eq!(server_url(&s), "wss://129.159.21.6.nip.io");
    assert_eq!(default_server(), "wss://129.159.21.6.nip.io");
    set_server(&mut s, "wss://one.example");
    set_server(&mut s, "wss://two.example");
    assert_eq!(server_url(&s), "wss://two.example");
}

fn forward(id: &str, port: u16) -> ActiveForward {
    ActiveForward {
        id: id.to_string(),
        port,
        protocol: "TCP".to_string(),
        token_type: "T-No".to_string(),
        fingerprint: "f".to_string(),
        started_at: "t".to_string(),
        stream_count: 0,
    }
}

fn shell(id: &str) -> ActiveShell {
    ActiveShell {
        id: id.to_string(),
        peer_node_id: "p".to_string(),
        token_type: "T-No".to_string(),
        fingerprint: "f".to_string(),
        started_at: "t".to_string(),
        cmd_count: 0,
    }
}

#[test]
fn forward_register_then_deregister() {
    let mut s = ActiveState::default();
    register_forward(&mut s, forward("a", 80));
    register_forward(&mut s, forward("b", 81));
    register_forward(&mut s, forward("a", 82));
    assert_eq!(s.forwards.len(), 2);
    assert_eq!(s.forwards[0].id, "b");
    assert_eq!(s.forwards[1].port, 82);
    update_forward_streams(&mut s, "a", 3);
    assert_eq!(s.forwards[1].stream_count, 3);
    update_forward_streams(&mut s, "zzz", 9);
    deregister_forward(&mut s, "a");
    assert_eq!(s.forwards.len(), 1);
    assert_eq!(s.forwards[0].id, "b");
    deregister_forward(&mut s, "b");
    assert!(s.forwards.is_empty());
    assert!(s.shells.is_empty());
}

#[test]
fn shell_register_then_deregister() {
    let mut s = ActiveState::default();
    register_shell(&mut s, shell("x"));
    shell_command_event(&mut s, "x");
    shell_command_event(&mut s, "x");
    shell_command_event(&mut s, "nope");
    assert_eq!(s.shells[0].cmd_count, 2);
    deregister_shell(&mut s, "x");
    assert!(s.shells.is_empty());
}

#[test]
fn durations_round_toward_zero() {
    let a = Timestamp { secs: 10, nanos: 500_000_000 };
    let b = Timestamp { secs: 12, nanos: 0 };
    assert_eq!(seconds_between(a, b), 1);
    assert_eq!(seconds_between(b, a), -1);
    assert_eq!(seconds_between(a, a), 0);
    let log = SessionLog {
        session_id: "s".to_string(),
        token_code: "1234".to_string(),
        connection_type: ConnectionType::Relay,
        started_at: Timestamp { secs: 100, nanos: 0 },
        ended_at: Timestamp { secs: 190, nanos: 999_999_999 },
        bytes_sent: 0,
        bytes_received: 0,
    };
    assert_eq!(log.duration_seconds(), 90);
}
