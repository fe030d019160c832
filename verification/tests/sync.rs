use clipsync::clipboard::ClipboardContent;
use clipsync::config::AppConfig;
use clipsync::discovery::DiscoveredPeer;
use clipsync::guard::{SyncGuard, GUARD_WINDOW};
use clipsync::pairing::WireMessage;
use clipsync::sync::{
    short_id, IgnoredKind, IncomingOutcome, LocalDecision, LocalOutcome, PeerNotice, SyncEngine, WriteReport,
};
use clipsync::transport::TransportEvent;

const LIMIT: u64 = 1024 * 1024;

fn content(hash: &str) -> ClipboardContent {
    ClipboardContent {
        content_type: "text".to_string(),
        text: Some("hello".to_string()),
        image_data: None,
        content_hash: hash.to_string(),
    }
}

fn message(hash: &str) -> WireMessage {
    WireMessage::new("clipboard", content(hash).to_payload().unwrap())
}

fn apply(engine: &mut SyncEngine, hash: &str, now: u128) {
    match engine.handle_incoming_message_at(&message(hash), false, LIMIT, now) {
        IncomingOutcome::Apply(content) => {
            assert_eq!(content.content_hash, hash);
            assert_eq!(content.text.as_deref(), Some("hello"));
        }
        _ => panic!("the content is to be applied"),
    }
}

#[test]
fn a_guard_remembers_for_two_seconds() {
    let mut guard = SyncGuard::new();
    assert_eq!(GUARD_WINDOW, 2_000_000_000);
    guard.mark_applied_at(&["h".to_string(), String::new()], 100);
    assert!(guard.is_applied_at("h", 100));
    assert!(guard.is_applied_at("h", 100 + GUARD_WINDOW - 1));
    assert!(!guard.is_applied_at("", 100));
    assert!(!guard.is_applied_at("h", 100 + GUARD_WINDOW));
    assert!(!guard.is_applied_at("h", 100));
    guard.mark_sent_at("s", 100);
    assert!(guard.was_recently_sent_at("s", 100));
    assert!(!guard.is_applied_at("s", 100));
    guard.purge_at(100 + GUARD_WINDOW);
    assert!(!guard.was_recently_sent_at("s", 100));
}

#[test]
fn a_guard_reads_its_clock() {
    let mut guard = SyncGuard::new();
    let before = guard.now();
    guard.mark_applied(&["a".to_string()]);
    guard.mark_sent("b");
    assert!(guard.is_applied("a"));
    assert!(guard.was_recently_sent("b"));
    guard.clear_applied("a");
    assert!(!guard.is_applied("a"));
    guard.purge();
    assert!(guard.was_recently_sent("b"));
    assert!(guard.now() >= before);
}

#[test]
fn a_local_change_is_broadcast_once() {
    let mut engine = SyncEngine::new();
    match engine.handle_local_change_at(&content("h"), false, 10) {
        LocalOutcome::Broadcast(message) => {
            assert_eq!(message.msg_type, "clipboard");
            let back = ClipboardContent::from_payload(&message.payload).unwrap();
            assert_eq!(back.content_hash, "h");
        }
        _ => panic!("the change is to be broadcast"),
    }
    assert!(matches!(
        engine.handle_local_change_at(&content("h"), false, 20),
        LocalOutcome::Duplicate
    ));
    assert!(matches!(
        engine.handle_local_change_at(&content("other"), false, 20),
        LocalOutcome::Broadcast(_)
    ));
    assert!(matches!(
        engine.handle_local_change_at(&content("h"), false, 10 + GUARD_WINDOW),
        LocalOutcome::Broadcast(_)
    ));
}

#[test]
fn applied_content_is_not_echoed() {
    let mut engine = SyncEngine::new();
    apply(&mut engine, "h", 10);
    engine.finish_write_at("h", &WriteReport::Written(Some("landed".to_string())), 20);
    assert!(matches!(
        engine.handle_local_change_at(&content("h"), false, 30),
        LocalOutcome::Echo
    ));
    assert!(matches!(
        engine.handle_local_change_at(&content("landed"), false, 30),
        LocalOutcome::Echo
    ));
    assert!(matches!(
        engine.handle_incoming_message_at(&message("h"), false, LIMIT, 30),
        IncomingOutcome::AlreadyApplied
    ));
    assert!(matches!(
        engine.handle_local_change_at(&content("h"), false, 10 + GUARD_WINDOW),
        LocalOutcome::Broadcast(_)
    ));
    assert!(matches!(
        engine.handle_local_change_at(&content("landed"), false, 19 + GUARD_WINDOW),
        LocalOutcome::Echo
    ));
}

#[test]
fn content_that_was_not_written_is_not_guarded() {
    let mut engine = SyncEngine::new();
    apply(&mut engine, "h", 10);
    engine.finish_write_at("h", &WriteReport::Failed, 20);
    apply(&mut engine, "h", 30);
    engine.finish_write_at("h", &WriteReport::Written(None), 40);
    engine.finish_write_at("h", &WriteReport::Written(Some("h".to_string())), 40);
    assert!(matches!(
        engine.handle_incoming_message_at(&message("h"), false, LIMIT, 50),
        IncomingOutcome::AlreadyApplied
    ));
}

#[test]
fn nothing_happens_while_paused() {
    let mut engine = SyncEngine::new();
    assert!(matches!(
        engine.handle_local_change_at(&content("h"), true, 10),
        LocalOutcome::Paused
    ));
    assert!(matches!(
        engine.handle_incoming_message_at(&message("h"), true, LIMIT, 10),
        IncomingOutcome::Paused
    ));
    assert!(matches!(
        engine.handle_local_change_at(&content("h"), false, 10),
        LocalOutcome::Broadcast(_)
    ));
}

#[test]
fn messages_that_are_no_clipboard_are_ignored() {
    let mut engine = SyncEngine::new();
    let mut kind = |name: &str| {
        match engine.handle_incoming_message_at(&WireMessage::new(name, vec![]), true, LIMIT, 1) {
            IncomingOutcome::Ignored(kind) => kind,
            _ => panic!("the message is to be ignored"),
        }
    };
    assert_eq!(kind("hello"), IgnoredKind::Hello);
    assert_eq!(kind("ping"), IgnoredKind::Ping);
    assert_eq!(kind("Clipboard"), IgnoredKind::Unknown);
}

#[test]
fn a_message_must_be_readable_and_within_the_limit() {
    let mut engine = SyncEngine::new();
    let garbled = WireMessage::new("clipboard", vec![0xc0]);
    assert!(matches!(
        engine.handle_incoming_message_at(&garbled, false, LIMIT, 1),
        IncomingOutcome::Malformed(_)
    ));
    assert!(matches!(
        engine.handle_incoming_message_at(&message("h"), false, 4, 1),
        IncomingOutcome::TooLarge(5)
    ));
    assert!(matches!(
        engine.handle_incoming_message_at(&message("h"), false, 5, 1),
        IncomingOutcome::Apply(_)
    ));
}

#[test]
fn the_engine_reads_its_clock() {
    let mut engine = SyncEngine::new();
    let before = engine.now();
    assert!(matches!(
        engine.handle_incoming_message(&message("h"), false, LIMIT),
        IncomingOutcome::Apply(_)
    ));
    engine.finish_write("h", &WriteReport::Written(Some("landed".to_string())));
    assert!(matches!(engine.handle_local_change(&content("h"), false), LocalOutcome::Echo));
    assert!(matches!(engine.handle_local_change(&content("landed"), false), LocalOutcome::Echo));
    assert!(matches!(engine.handle_local_change(&content("x"), false), LocalOutcome::Broadcast(_)));
    assert!(matches!(engine.handle_local_change(&content("x"), false), LocalOutcome::Duplicate));
    assert!(engine.now() >= before);
}

#[test]
fn a_short_id_has_eight_characters() {
    assert_eq!(short_id("0123456789"), "01234567");
    assert_eq!(short_id("0123"), "0123");
    assert_eq!(short_id("ääääääääää"), "ääääääää");
}

fn connected(id: &str) -> TransportEvent {
    TransportEvent::Connected { peer_id: id.to_string(), ip: "10.0.0.2".to_string(), port: 50000 }
}

#[test]
fn a_connected_peer_is_listed() {
    let mut engine = SyncEngine::new();
    let mut config = AppConfig::default();
    let outcome = engine.handle_transport_event_at(&connected("aabbccdd-1122"), &mut config, 77);
    assert!(outcome.save);
    assert_eq!(outcome.connected, 1);
    assert!(!outcome.paused);
    match outcome.notice {
        PeerNotice::Joined { id, name } => {
            assert_eq!((id.as_str(), name.as_str()), ("aabbccdd-1122", "aabbccdd"));
        }
        _ => panic!("a peer joined"),
    }
    let entry = &config.paired_peers[0];
    assert_eq!(entry.id, "aabbccdd-1122");
    assert_eq!(entry.name, "aabbccdd");
    assert_eq!(entry.address, "10.0.0.2");
    assert_eq!(entry.port, 50000);
    assert_eq!(entry.last_seen, 77);
    let again = engine.handle_transport_event_at(&connected("aabbccdd-1122"), &mut config, 77);
    assert!(!again.save);
    let again = engine.handle_transport_event_at(&connected("aabbccdd-1122"), &mut config, 78);
    assert!(again.save);
    assert_eq!(again.connected, 1);
    assert_eq!(config.paired_peers.len(), 1);
    assert_eq!(config.paired_peers[0].last_seen, 78);
}

#[test]
fn a_discovered_peer_is_listed_under_its_name_and_port() {
    let mut engine = SyncEngine::new();
    let mut config = AppConfig::default();
    config.sync_paused = true;
    engine.handle_discovered(&DiscoveredPeer {
        id: "aabbccdd-1122".to_string(),
        name: "desk".to_string(),
        ip: "10.0.0.9".to_string(),
        port: 4711,
    });
    let outcome = engine.handle_transport_event(&connected("aabbccdd-1122"), &mut config);
    assert!(outcome.paused);
    assert_eq!(config.paired_peers[0].name, "desk");
    assert_eq!(config.paired_peers[0].port, 4711);
    assert_eq!(config.paired_peers[0].address, "10.0.0.2");
    assert!(config.paired_peers[0].last_seen > 1_577_836_800);
}

#[test]
fn a_disconnected_peer_stays_listed() {
    let mut engine = SyncEngine::new();
    let mut config = AppConfig::default();
    engine.handle_transport_event_at(&connected("a"), &mut config, 1);
    engine.handle_transport_event_at(&connected("b"), &mut config, 1);
    let left = TransportEvent::Disconnected { peer_id: "a".to_string() };
    let outcome = engine.handle_transport_event_at(&left, &mut config, 2);
    assert_eq!(outcome.connected, 1);
    assert!(!outcome.save);
    assert!(matches!(outcome.notice, PeerNotice::Left { .. }));
    assert_eq!(config.paired_peers.len(), 2);
    assert_eq!(engine.handle_transport_event_at(&left, &mut config, 3).connected, 1);
}

#[test]
fn unserialized_content_is_not_remembered_as_sent() {
    let mut engine = SyncEngine::new();
    assert_eq!(engine.decide_local_change_at("h", false, 10), LocalDecision::Send);
    match engine.finish_local_change_at("h", Err("no memory".to_string()), 10) {
        LocalOutcome::Unserializable(text) => assert_eq!(text, "no memory"),
        _ => panic!("there is nothing to send"),
    }
    assert_eq!(engine.decide_local_change_at("h", false, 11), LocalDecision::Send);
    match engine.finish_local_change_at("h", Ok(vec![7]), 11) {
        LocalOutcome::Broadcast(message) => assert_eq!(message.payload, vec![7]),
        _ => panic!("the message is to be sent"),
    }
    assert_eq!(engine.decide_local_change_at("h", false, 12), LocalDecision::Duplicate);
    assert_eq!(engine.decide_local_change_at("h", true, 12), LocalDecision::Paused);
}
