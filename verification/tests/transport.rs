use clipsync::pairing::{Cipher, WireMessage};
use clipsync::transport::{
    finish_handshake, hello_frame, read_hello, read_step, ConnectDecision, ConnectEvent,
    ConnectLoop, ConnectPhase, FirstFrame, ReadAction, ReadEvent, Side, TransportEvent,
    TransportManager, WS_SIZE_LIMIT,
};

fn manager(id: &str) -> TransportManager<u32> {
    TransportManager::new(id.to_string())
}

#[test]
fn exactly_one_side_dials() {
    let mut low = manager("aaaa-client");
    let mut high = manager("zzzz-server");
    assert_eq!(low.connect_to_peer("zzzz-server"), ConnectDecision::StartLoop);
    assert_eq!(high.connect_to_peer("aaaa-client"), ConnectDecision::AwaitInbound);
    assert_eq!(low.connect_to_peer("aaaa-client"), ConnectDecision::AwaitInbound);
    assert_eq!(low.connect_to_peer("aaaa-client2"), ConnectDecision::StartLoop);
    assert_eq!(manager("b").connect_to_peer("a\u{0}"), ConnectDecision::AwaitInbound);
    assert_eq!(manager("z").connect_to_peer("ä"), ConnectDecision::StartLoop);
}

#[test]
fn one_connect_loop_is_enough() {
    let mut low = manager("a");
    assert_eq!(low.connect_to_peer("b"), ConnectDecision::StartLoop);
    assert_eq!(low.connect_to_peer("b"), ConnectDecision::AlreadyRunning);
    assert_eq!(low.connect_to_peer("c"), ConnectDecision::StartLoop);
}

#[test]
fn without_a_code_nothing_is_accepted() {
    let mut transport = manager("a");
    assert_eq!(transport.instance_id(), "a");
    assert!(transport.current_cipher().is_none());
    assert_eq!(
        transport.gate_incoming().err().unwrap(),
        "not paired (no cipher); rejecting"
    );
    transport.set_pairing_code("123456");
    let cipher = transport.gate_incoming().ok().unwrap();
    let frame = Cipher::from_pairing_code("123456").encrypt(b"x").unwrap();
    assert_eq!(cipher.decrypt(&frame).unwrap(), b"x");
    assert_eq!(transport.current_cipher().unwrap().decrypt(&frame).unwrap(), b"x");
}

#[test]
fn a_new_code_resets_even_if_it_is_the_same() {
    let mut transport = manager("a");
    assert_eq!(transport.generation(), 0);
    transport.set_pairing_code("123456");
    assert_eq!(transport.generation(), 1);
    transport.set_pairing_code("123456");
    assert_eq!(transport.generation(), 2);
}

#[test]
fn live_connections_are_listed() {
    let mut transport = manager("a");
    assert!(transport.connected_peer_ids().is_empty());
    let (token, event) = transport.register("b", 10, "10.0.0.2", 4711);
    assert_eq!(token, 0);
    match event.clone() {
        TransportEvent::Connected { peer_id, ip, port } => {
            assert_eq!((peer_id.as_str(), ip.as_str(), port), ("b", "10.0.0.2", 4711));
        }
        _ => panic!("a connection came up"),
    }
    assert_eq!(transport.register("c", 20, "10.0.0.3", 4711).0, 1);
    let mut ids = transport.connected_peer_ids();
    ids.sort();
    assert_eq!(ids, vec!["b".to_string(), "c".to_string()]);
    assert_eq!(transport.get_peer("b").unwrap().sender, 10);
    assert_eq!(transport.get_peer("b").unwrap().peer_id, "b");
    let copy = transport.get_peer("b").unwrap().clone();
    assert_eq!((copy.peer_id.as_str(), copy.sender, copy.token), ("b", 10, 0));
    assert!(transport.get_peer("d").is_none());
    match transport.teardown("b", token) {
        Some(TransportEvent::Disconnected { peer_id }) => assert_eq!(peer_id, "b"),
        _ => panic!("a connection went down"),
    }
    assert_eq!(transport.connected_peer_ids(), vec!["c".to_string()]);
    assert!(transport.teardown("b", token).is_none());
}

#[test]
fn a_dying_connection_spares_a_newer_one() {
    let mut transport = manager("a");
    let (old_token, _) = transport.register("b", 10, "10.0.0.2", 4711);
    let (new_token, _) = transport.register("b", 20, "10.0.0.2", 4712);
    assert_ne!(old_token, new_token);
    assert!(transport.teardown("b", old_token).is_none());
    assert_eq!(transport.get_peer("b").unwrap().sender, 20);
    assert!(transport.teardown("b", new_token).is_some());
    assert!(transport.get_peer("b").is_none());
}

#[test]
fn a_hello_carries_the_id() {
    let cipher = Cipher::from_pairing_code("123456");
    let frame = hello_frame("aaaa-client", &cipher).unwrap();
    assert_eq!(read_hello(&frame, &cipher).unwrap(), "aaaa-client");
    let message = WireMessage::from_encrypted(&frame, &cipher).unwrap();
    assert_eq!(message.msg_type, "hello");
    assert_eq!(message.payload, b"aaaa-client");
}

#[test]
fn a_hello_can_fail_in_four_ways() {
    let cipher = Cipher::from_pairing_code("123456");
    let other = Cipher::from_pairing_code("654321");
    let frame = hello_frame("aaaa-client", &other).unwrap();
    assert_eq!(
        read_hello(&frame, &cipher).unwrap_err(),
        "hello decrypt error (wrong pairing code?): Decryption error: aead::Error"
    );
    let ping = WireMessage::new("ping", vec![]).to_encrypted(&cipher).unwrap();
    assert_eq!(read_hello(&ping, &cipher).unwrap_err(), "expected 'hello', got 'ping'");
    let garbled = WireMessage::new("hello", vec![b'a', 0xff]).to_encrypted(&cipher).unwrap();
    assert_eq!(
        read_hello(&garbled, &cipher).unwrap_err(),
        "invalid peer id: invalid utf-8 sequence of 1 bytes from index 1"
    );
    let nothing = FirstFrame::Other("None".to_string());
    assert_eq!(
        finish_handshake(Side::Server, &nothing, &cipher).unwrap_err(),
        "no hello received: None"
    );
    assert_eq!(
        finish_handshake(Side::Client, &nothing, &cipher).unwrap_err(),
        "no hello response: None"
    );
    let good = FirstFrame::Binary(hello_frame("b", &cipher).unwrap());
    assert_eq!(finish_handshake(Side::Client, &good, &cipher).unwrap(), "b");
}

#[test]
fn frames_are_delivered_reported_or_ignored() {
    let cipher = Cipher::from_pairing_code("123456");
    let frame = WireMessage::new("clipboard", vec![1, 2]).to_encrypted(&cipher).unwrap();
    match read_step(&ReadEvent::Binary(frame), &cipher) {
        ReadAction::Deliver(message) => {
            assert_eq!(message.msg_type, "clipboard");
            assert_eq!(message.payload, vec![1, 2]);
        }
        _ => panic!("the message is to be delivered"),
    }
    match read_step(&ReadEvent::Binary(vec![0; 5]), &cipher) {
        ReadAction::Report(text) => assert_eq!(text, "Wire data too short for decryption"),
        _ => panic!("the frame is to be reported"),
    }
    assert!(matches!(read_step(&ReadEvent::Other, &cipher), ReadAction::Ignore));
    assert!(matches!(read_step(&ReadEvent::Reset, &cipher), ReadAction::Stop));
    assert!(matches!(read_step(&ReadEvent::Close, &cipher), ReadAction::Stop));
    assert!(matches!(read_step(&ReadEvent::End, &cipher), ReadAction::Stop));
    assert!(matches!(read_step(&ReadEvent::Failed, &cipher), ReadAction::Stop));
}

#[test]
fn waits_double_up_to_a_minute() {
    let mut state = ConnectLoop::start();
    let mut waits: Vec<u64> = Vec::new();
    for _ in 0..9 {
        assert_eq!(state.phase, ConnectPhase::CheckKey);
        state.step(ConnectEvent::KeyFound);
        assert_eq!(state.phase, ConnectPhase::Dial);
        state.step(ConnectEvent::Failed);
        assert_eq!(state.phase, ConnectPhase::Pause);
        waits.push(state.backoff);
        state.step(ConnectEvent::Elapsed);
    }
    assert_eq!(waits, vec![1, 2, 4, 8, 16, 32, 60, 60, 60]);
    state.step(ConnectEvent::KeyFound);
    state.step(ConnectEvent::Connected);
    assert_eq!(state, ConnectLoop { phase: ConnectPhase::Run, backoff: 1 });
    state.step(ConnectEvent::Ended);
    assert_eq!(state, ConnectLoop { phase: ConnectPhase::Pause, backoff: 1 });
    state.step(ConnectEvent::Elapsed);
    assert_eq!(state.backoff, 2);
}

#[test]
fn a_reset_ends_a_wait_and_starts_over() {
    let mut state = ConnectLoop { phase: ConnectPhase::Pause, backoff: 32 };
    state.step(ConnectEvent::Reset);
    assert_eq!(state, ConnectLoop { phase: ConnectPhase::CheckKey, backoff: 1 });
}

#[test]
fn a_loop_waits_for_a_key() {
    let mut state = ConnectLoop::start();
    state.step(ConnectEvent::KeyMissing);
    assert_eq!(state.phase, ConnectPhase::AwaitKey);
    state.step(ConnectEvent::Connected);
    assert_eq!(state.phase, ConnectPhase::AwaitKey);
    state.step(ConnectEvent::Elapsed);
    assert_eq!(state.phase, ConnectPhase::CheckKey);
    state.step(ConnectEvent::KeyMissing);
    state.step(ConnectEvent::Reset);
    assert_eq!(state, ConnectLoop::start());
}

#[test]
fn the_websocket_limit_is_128_mib() {
    assert_eq!(WS_SIZE_LIMIT, 128 * 1024 * 1024);
}
