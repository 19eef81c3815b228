use punch::base64::{base64_decode, base64_encode};
use punch::crypto::SessionKeypair;
use punch::forward::{
    check_ack, check_received, frame, frame_length, session_fingerprint as endpoint_fingerprint, ForwardError,
    ForwardHandshake, ForwardProtocol, StreamCount, MAX_STREAMS,
};
use punch::pipe::PipeHandshake;
use punch::punch::SessionCounters;
use punch::signaling::{
    awaited, encode_public_key, peer_endpoint_text, peer_public_key, recv_step, relay_step, server_error_text,
    wait_for_peer_step, ws_url, EndpointError, Frame, KeyError, MsgType, PeerWait, RecvError, RecvStep, RelayEvent,
    RelayOutcome,
};
use punch::stun::{after_query, binding_request, new_binding_request, stun_server, DiscoveryStep, MappedAddress, STUN_SERVER_COUNT, ScanResultOrError, StunClient, StunError};

#[test]
fn base64_known_values() {
    assert_eq!(base64_encode(b""), "");
    assert_eq!(base64_encode(b"f"), "Zg==");
    assert_eq!(base64_encode(b"fo"), "Zm8=");
    assert_eq!(base64_encode(b"foo"), "Zm9v");
    assert_eq!(base64_encode(b"hello"), "aGVsbG8=");
    assert_eq!(base64_encode(&[0xff, 0xfe, 0xfd]), "//79");
    assert_eq!(base64_decode("aGVsbG8="), b"hello".to_vec());
    assert_eq!(base64_decode("Zg"), b"f".to_vec());
    assert_eq!(base64_decode("Z"), Vec::<u8>::new());
}

#[test]
fn base64_roundtrip() {
    for n in 0..70usize {
        let data: Vec<u8> = (0..n).map(|i| (i * 37 + 11) as u8).collect();
        assert_eq!(base64_decode(&base64_encode(&data)), data);
    }
}

#[test]
fn stun_request_layout() {
    let id = [1u8, 2, 3, 4, 5, 6, 7, 8, 9, 10, 11, 12];
    let req = binding_request(id);
    assert_eq!(&req[..8], &[0x00, 0x01, 0x00, 0x00, 0x21, 0x12, 0xA4, 0x42]);
    assert_eq!(&req[8..], &id);
    let a = new_binding_request();
    let b = new_binding_request();
    assert_eq!(&a[..8], &[0x00, 0x01, 0x00, 0x00, 0x21, 0x12, 0xA4, 0x42]);
    assert_ne!(&a[8..], &b[8..]);
}

const MAGIC: [u8; 4] = [0x21, 0x12, 0xA4, 0x42];

fn response(attrs: &[u8]) -> Vec<u8> {
    let mut r = vec![0x01, 0x01, 0x00, attrs.len() as u8, 0x21, 0x12, 0xA4, 0x42];
    r.extend_from_slice(&[0u8; 12]);
    r.extend_from_slice(attrs);
    r
}

#[test]
fn stun_xor_mapped_address() {
    // 203.0.113.5:54321 masked with the magic cookie.
    let attr = [0x00, 0x20, 0x00, 0x08, 0x00, 0x01, 0xF5, 0x23, 0xEA, 0x12, 0xD5, 0x47];
    let r = StunClient::new().parse_response(&response(&attr), &MAGIC);
    assert_eq!(r, Ok(MappedAddress { ip: [203, 0, 113, 5], port: 54321 }));
}

#[test]
fn stun_mapped_address_after_unknown_attribute() {
    let attrs = [
        0x80, 0x22, 0x00, 0x03, b'a', b'b', b'c', 0x00, // software, padded to 4
        0x00, 0x01, 0x00, 0x08, 0x00, 0x01, 0x1F, 0x90, 192, 168, 1, 20,
    ];
    let r = StunClient::new().parse_response(&response(&attrs), &MAGIC);
    assert_eq!(r, Ok(MappedAddress { ip: [192, 168, 1, 20], port: 8080 }));
}

#[test]
fn stun_errors() {
    let c = StunClient::new();
    assert_eq!(c.parse_response(&[0x01, 0x01, 0, 0], &MAGIC), Err(StunError::TooShort));
    let mut not_response = response(&[]);
    not_response[1] = 0x11;
    assert_eq!(c.parse_response(&not_response, &MAGIC), Err(StunError::NotBindingResponse));
    assert_eq!(c.parse_response(&response(&[]), &MAGIC), Err(StunError::NoMappedAddress));
    // An XOR-MAPPED-ADDRESS that is too short is skipped.
    let short = [0x00, 0x20, 0x00, 0x04, 0x00, 0x01, 0xF5, 0x23];
    assert_eq!(c.parse_response(&response(&short), &MAGIC), Err(StunError::NoMappedAddress));
}

#[test]
fn signalling_decisions() {
    assert_eq!(ws_url("wss://example.org"), "wss://example.org/ws");
    assert!(matches!(wait_for_peer_step(MsgType::Matched, None), PeerWait::Matched));
    assert!(matches!(wait_for_peer_step(MsgType::Waiting, None), PeerWait::KeepWaiting));
    assert!(matches!(wait_for_peer_step(MsgType::Endpoint, Some("x")), PeerWait::KeepWaiting));
    match wait_for_peer_step(MsgType::Error, Some("code taken")) {
        PeerWait::Failed(r) => assert_eq!(r, "code taken"),
        other => panic!("{:?}", other),
    }
    match wait_for_peer_step(MsgType::Error, None) {
        PeerWait::Failed(r) => assert_eq!(r, "Unknown error"),
        other => panic!("{:?}", other),
    }
    assert_eq!(server_error_text("full"), "Server error: full");
    assert!(awaited(MsgType::Transfer, MsgType::Transfer, true));
    assert!(!awaited(MsgType::Transfer, MsgType::Transfer, false));
    assert!(!awaited(MsgType::Transfer, MsgType::Shell, true));
}

#[test]
fn websocket_frames() {
    assert_eq!(recv_step(Frame::Text), RecvStep::Parse);
    assert_eq!(recv_step(Frame::Ping), RecvStep::Skip);
    assert_eq!(recv_step(Frame::Other), RecvStep::Skip);
    assert_eq!(recv_step(Frame::Close), RecvStep::Fail(RecvError::ServerClosed));
    assert_eq!(recv_step(Frame::Failure), RecvStep::Fail(RecvError::WebSocket));
    assert_eq!(recv_step(Frame::End), RecvStep::Fail(RecvError::ConnectionLost));
}

#[test]
fn peer_endpoints() {
    assert_eq!(peer_endpoint_text(Some("1.2.3.4"), Some(5000)), Ok("1.2.3.4:5000".to_string()));
    assert_eq!(peer_endpoint_text(Some("1.2.3.4"), Some(70000)), Ok("1.2.3.4:4464".to_string()));
    assert_eq!(peer_endpoint_text(Some("0.0.0.0"), Some(0)), Ok("0.0.0.0:0".to_string()));
    assert_eq!(peer_endpoint_text(None, Some(1)), Err(EndpointError::MissingIp));
    assert_eq!(peer_endpoint_text(Some("1.2.3.4"), None), Err(EndpointError::MissingPort));
}

#[test]
fn public_keys_travel_as_base64() {
    let key = [9u8; 32];
    let text = encode_public_key(&key);
    assert_eq!(text, base64_encode(&key));
    assert_eq!(peer_public_key(Some(&text)), Ok(key));
    assert_eq!(peer_public_key(None), Err(KeyError::MissingKey));
}

#[test]
fn relay_counts_decrypted_bytes() {
    let a = SessionKeypair::generate();
    let b = SessionKeypair::generate();
    let (pa, pb) = (a.public_bytes(), b.public_bytes());
    let (ca, cb) = (a.derive_shared_secret(pb), b.derive_shared_secret(pa));
    let mut counters = SessionCounters::new();
    let data = base64_encode(&ca.encrypt(b"hello").unwrap());
    assert_eq!(relay_step(&cb, &mut counters, &RelayEvent::Data(Some(data))), RelayOutcome::Received(5));
    assert_eq!(counters.bytes_received, 5);
    assert_eq!(
        relay_step(&cb, &mut counters, &RelayEvent::Data(Some("AAAAAAAAAAAAAAAAAAAAAAAAAAAAAAAA".to_string()))),
        RelayOutcome::Undecryptable
    );
    assert_eq!(relay_step(&cb, &mut counters, &RelayEvent::Data(None)), RelayOutcome::Ignored);
    assert_eq!(relay_step(&cb, &mut counters, &RelayEvent::Other), RelayOutcome::Ignored);
    assert_eq!(relay_step(&cb, &mut counters, &RelayEvent::PeerError), RelayOutcome::PeerDisconnected);
    assert_eq!(relay_step(&cb, &mut counters, &RelayEvent::ConnectionError), RelayOutcome::ConnectionLost);
    assert_eq!(relay_step(&cb, &mut counters, &RelayEvent::Interrupted), RelayOutcome::Interrupted);
    assert_eq!(counters.bytes_received, 5);
    assert_eq!(counters.bytes_sent, 0);
}

#[test]
fn forward_protocols() {
    assert_eq!(ForwardProtocol::for_exposer(false), ForwardProtocol::Tcp);
    assert_eq!(ForwardProtocol::for_exposer(true), ForwardProtocol::Both);
    assert_eq!(ForwardProtocol::Tcp.display_text(), "TCP");
    assert_eq!(ForwardProtocol::Udp.display_text(), "UDP");
    assert_eq!(ForwardProtocol::Both.display_text(), "TCP+UDP");
    assert!(ForwardProtocol::Tcp.carries_tcp() && !ForwardProtocol::Tcp.carries_udp());
    assert!(!ForwardProtocol::Udp.carries_tcp() && ForwardProtocol::Udp.carries_udp());
    assert!(ForwardProtocol::Both.carries_tcp() && ForwardProtocol::Both.carries_udp());
}

#[test]
fn endpoint_fingerprints() {
    assert_eq!(endpoint_fingerprint("abc"), "ba78-16bf-8f01");
    let h = ForwardHandshake::for_exposer(8096, ForwardProtocol::Tcp, "abc", "T-No", "{}".to_string());
    assert_eq!(h.session_fingerprint, "ba78-16bf-8f01");
    assert_eq!(h.max_streams, MAX_STREAMS);
    assert_eq!(h.allowed_port, 8096);
    assert_eq!(h.token_type, "T-No");
}

#[test]
fn handshake_checks() {
    let expected = ForwardHandshake::for_exposer(8096, ForwardProtocol::Tcp, "abc", "T-No", "A".to_string());
    assert_eq!(check_ack(&expected, 8096), Ok(()));
    assert_eq!(check_ack(&expected, 22), Err(ForwardError::PortMismatch { expected: 8096, got: 22 }));
    let same = ForwardHandshake::for_exposer(8096, ForwardProtocol::Tcp, "abc", "T-No", "A".to_string());
    assert_eq!(check_received(&expected, &same), Ok(false));
    let moved = ForwardHandshake::for_exposer(8096, ForwardProtocol::Tcp, "abc", "T-No", "B".to_string());
    assert_eq!(check_received(&expected, &moved), Ok(true));
    let other_port = ForwardHandshake::for_exposer(9000, ForwardProtocol::Tcp, "xyz", "T-No", "A".to_string());
    assert_eq!(check_received(&expected, &other_port), Err(ForwardError::PortMismatch { expected: 8096, got: 9000 }));
    let impostor = ForwardHandshake::for_exposer(8096, ForwardProtocol::Tcp, "xyz", "T-No", "A".to_string());
    assert_eq!(check_received(&expected, &impostor), Err(ForwardError::FingerprintMismatch));
}

#[test]
fn frames_carry_their_length() {
    assert_eq!(frame(b"abc"), vec![0, 0, 0, 3, b'a', b'b', b'c']);
    assert_eq!(frame(b""), vec![0, 0, 0, 0]);
    let big = vec![7u8; 70_000];
    let f = frame(&big);
    assert_eq!(&f[..4], &[0x00, 0x01, 0x11, 0x70]);
    assert_eq!(frame_length([f[0], f[1], f[2], f[3]]), 70_000);
    assert_eq!(frame_length([0xff, 0xff, 0xff, 0xff]), u32::MAX);
    assert_eq!(f.len(), 70_004);
}

#[test]
fn stream_counting() {
    let mut c = StreamCount::new();
    assert_eq!(c.opened(), Some(1));
    assert_eq!(c.opened(), Some(2));
    assert_eq!(c.closed(), 1);
    assert_eq!(c.active, 1);
    for k in 2..=MAX_STREAMS {
        assert_eq!(c.opened(), Some(k));
    }
    assert_eq!(c.opened(), None);
    assert_eq!(c.active, MAX_STREAMS);
    assert_eq!(c.closed(), MAX_STREAMS - 1);
    assert_eq!(c.opened(), Some(MAX_STREAMS));
}

#[test]
fn pipe_handshake_keeps_the_address() {
    assert_eq!(PipeHandshake::new("addr".to_string()).endpoint_addr, "addr");
}

#[test]
fn stun_truncated_attribute_header_is_told_apart() {
    let mut r = vec![0x01, 0x01, 0x00, 0x08, 0x21, 0x12, 0xA4, 0x42];
    r.extend_from_slice(&[0u8; 12]);
    r.extend_from_slice(&[0x00, 0x20]);
    assert!(matches!(StunClient::new().check_response(&r, &MAGIC), ScanResultOrError::Overrun));
    let ok = response(&[0x00, 0x01, 0x00, 0x08, 0x00, 0x01, 0x00, 0x50, 10, 0, 0, 1]);
    assert!(matches!(
        StunClient::new().check_response(&ok, &MAGIC),
        ScanResultOrError::Address(MappedAddress { ip: [10, 0, 0, 1], port: 80 })
    ));
    assert!(matches!(
        StunClient::new().check_response(&[1, 2], &MAGIC),
        ScanResultOrError::Error(StunError::TooShort)
    ));
}

#[test]
fn stun_prefers_xor_mapped_address() {
    let attrs = [
        0x00, 0x01, 0x00, 0x08, 0x00, 0x01, 0x00, 0x01, 1, 1, 1, 1, // MAPPED 1.1.1.1:1
        0x00, 0x20, 0x00, 0x08, 0x00, 0x01, 0x21, 0x10, 0x23, 0x10, 0xA6, 0x40, // XOR 2.2.2.2:2
    ];
    let r = StunClient::new().parse_response(&response(&attrs), &MAGIC);
    assert_eq!(r, Ok(MappedAddress { ip: [2, 2, 2, 2], port: 2 }));
    // Without an XOR-MAPPED-ADDRESS the first MAPPED-ADDRESS is used, even
    // when a later attribute header is cut off.
    let mut cut = response(&attrs[..12]);
    cut[3] = 20;
    cut.extend_from_slice(&[0x00, 0x20]);
    assert!(matches!(
        StunClient::new().check_response(&cut, &MAGIC),
        ScanResultOrError::Address(MappedAddress { ip: [1, 1, 1, 1], port: 1 })
    ));
}

#[test]
fn discovery_asks_servers_in_order() {
    assert_eq!(STUN_SERVER_COUNT, 3);
    assert_eq!(stun_server(0), "stun.l.google.com:19302");
    assert_eq!(stun_server(1), "stun1.l.google.com:19302");
    assert_eq!(stun_server(2), "stun.cloudflare.com:3478");
    assert_eq!(after_query(0, true), DiscoveryStep::UseAddress);
    assert_eq!(after_query(0, false), DiscoveryStep::TryServer(1));
    assert_eq!(after_query(1, false), DiscoveryStep::TryServer(2));
    assert_eq!(after_query(2, false), DiscoveryStep::GiveUp);
}
