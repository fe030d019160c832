use clipsync::config::{
    now_unix, parse_priority, settle_config, upsert_peer, AppConfig, ClipboardPriority, ConfigFile,
    ConfigUpdate, FrontendConfig, PeerInfo,
};
use clipsync::clock::unix_seconds;
use clipsync::notice::paired_notice;

fn peer(id: &str, name: &str, port: u16, last_seen: u64) -> PeerInfo {
    PeerInfo {
        name: name.to_string(),
        id: id.to_string(),
        address: "10.0.0.1".to_string(),
        port,
        last_seen,
    }
}

fn no_update() -> ConfigUpdate {
    ConfigUpdate {
        payload_limit_mb: None,
        debounce_ms: None,
        clipboard_priority: None,
        sync_paused: None,
    }
}

#[test]
fn default_config_values() {
    let cfg = AppConfig::default();
    assert_eq!(cfg.payload_limit_mb, 25);
    assert_eq!(cfg.debounce_ms, 200);
    assert!(!cfg.instance_id.is_empty());
}

#[test]
fn a_first_start_is_unpaired_and_running() {
    let cfg = AppConfig::default();
    assert_eq!(cfg.clipboard_priority, ClipboardPriority::ImageFirst);
    assert!(!cfg.sync_paused);
    assert!(cfg.paired_peers.is_empty());
    assert!(cfg.pairing_code.is_none());
    assert_eq!(cfg.payload_limit_bytes(), 26_214_400);
}

#[test]
fn an_instance_id_is_a_random_uuid() {
    let a = AppConfig::default().instance_id;
    let b = AppConfig::default().instance_id;
    assert_ne!(a, b);
    assert_eq!(a.len(), 36);
    for (i, c) in a.chars().enumerate() {
        match i {
            8 | 13 | 18 | 23 => assert_eq!(c, '-'),
            14 => assert_eq!(c, '4'),
            19 => assert!("89ab".contains(c)),
            _ => assert!(c.is_ascii_digit() || ('a'..='f').contains(&c)),
        }
    }
}

#[test]
fn settings_of_a_file_are_kept() {
    let mut cfg = AppConfig::default();
    cfg.debounce_ms = 5;
    let id = cfg.instance_id.clone();
    let loaded = settle_config(ConfigFile::Parsed(cfg));
    assert!(!loaded.save);
    assert_eq!(loaded.config.debounce_ms, 5);
    assert_eq!(loaded.config.instance_id, id);
}

#[test]
fn an_empty_instance_id_is_made_up() {
    let mut cfg = AppConfig::default();
    cfg.instance_id = String::new();
    cfg.payload_limit_mb = 3;
    let loaded = settle_config(ConfigFile::Parsed(cfg));
    assert!(!loaded.save);
    assert_eq!(loaded.config.instance_id.len(), 36);
    assert_eq!(loaded.config.payload_limit_mb, 3);
}

#[test]
fn fresh_settings_are_saved_where_there_is_a_place() {
    assert!(settle_config(ConfigFile::Missing).save);
    assert!(settle_config(ConfigFile::Unparsable).save);
    let loaded = settle_config(ConfigFile::NoDirectory);
    assert!(!loaded.save);
    assert_eq!(loaded.config.payload_limit_mb, 25);
}

#[test]
fn a_new_peer_is_listed_at_the_end() {
    let mut cfg = AppConfig::default();
    assert!(upsert_peer(&mut cfg, peer("a", "one", 1, 10)));
    assert!(upsert_peer(&mut cfg, peer("b", "two", 2, 20)));
    assert_eq!(cfg.paired_peers.len(), 2);
    assert_eq!(cfg.paired_peers[1].id, "b");
}

#[test]
fn a_listed_peer_is_updated_in_place() {
    let mut cfg = AppConfig::default();
    upsert_peer(&mut cfg, peer("a", "one", 1, 10));
    upsert_peer(&mut cfg, peer("b", "two", 2, 20));
    assert!(!upsert_peer(&mut cfg, peer("a", "one", 1, 10)));
    assert!(upsert_peer(&mut cfg, peer("a", "one", 1, 30)));
    assert_eq!(cfg.paired_peers[0].last_seen, 30);
    assert!(upsert_peer(&mut cfg, peer("a", "other", 1, 40)));
    assert!(upsert_peer(&mut cfg, peer("a", "other", 9, 50)));
    let mut moved = peer("a", "other", 9, 60);
    moved.address = "10.0.0.2".to_string();
    assert!(upsert_peer(&mut cfg, moved.clone()));
    assert!(!upsert_peer(&mut cfg, moved));
    assert_eq!(cfg.paired_peers.len(), 2);
    assert_eq!(cfg.paired_peers[0].name, "other");
    assert_eq!(cfg.paired_peers[0].address, "10.0.0.2");
    assert_eq!(cfg.paired_peers[1].name, "two");
}

#[test]
fn the_time_is_after_2020() {
    assert!(now_unix() > 1_577_836_800);
    assert_eq!(unix_seconds(Some(12)), 12);
    assert_eq!(unix_seconds(None), 0);
}

#[test]
fn an_update_changes_what_it_names() {
    let mut cfg = AppConfig::default();
    let mut update = no_update();
    update.payload_limit_mb = Some(50);
    update.clipboard_priority = Some("text_only".to_string());
    update.sync_paused = Some(true);
    assert!(cfg.apply_update(&update).is_ok());
    assert_eq!(cfg.payload_limit_mb, 50);
    assert_eq!(cfg.debounce_ms, 200);
    assert_eq!(cfg.clipboard_priority, ClipboardPriority::TextOnly);
    assert!(cfg.sync_paused);
    assert!(cfg.apply_update(&no_update()).is_ok());
    assert_eq!(cfg.payload_limit_mb, 50);
}

#[test]
fn an_update_stops_at_an_unknown_priority() {
    let mut cfg = AppConfig::default();
    let mut update = no_update();
    update.debounce_ms = Some(1);
    update.clipboard_priority = Some("imagefirst".to_string());
    update.sync_paused = Some(true);
    assert_eq!(
        cfg.apply_update(&update).unwrap_err(),
        "Unknown clipboard priority: imagefirst"
    );
    assert_eq!(cfg.debounce_ms, 1);
    assert_eq!(cfg.clipboard_priority, ClipboardPriority::ImageFirst);
    assert!(!cfg.sync_paused);
}

#[test]
fn priorities_have_their_names() {
    assert_eq!(parse_priority("image_first"), Some(ClipboardPriority::ImageFirst));
    assert_eq!(parse_priority("text_first"), Some(ClipboardPriority::TextFirst));
    assert_eq!(parse_priority("text_only"), Some(ClipboardPriority::TextOnly));
    assert_eq!(parse_priority("image_only"), Some(ClipboardPriority::ImageOnly));
    assert_eq!(parse_priority("Image_First"), None);
}

#[test]
fn pausing_toggles() {
    let mut cfg = AppConfig::default();
    assert!(cfg.toggle_pause());
    assert!(cfg.sync_paused);
    assert!(!cfg.toggle_pause());
    assert!(!cfg.sync_paused);
}

#[test]
fn only_a_valid_code_is_kept() {
    let mut cfg = AppConfig::default();
    assert_eq!(
        cfg.pair_with_code("12345").unwrap_err(),
        "Invalid pairing code: must be 6 digits."
    );
    assert!(cfg.pairing_code.is_none());
    assert!(cfg.pair_with_code("012345").is_ok());
    assert_eq!(cfg.pairing_code.as_deref(), Some("012345"));
    let code = cfg.generate_code();
    assert_eq!(cfg.pairing_code, Some(code));
}

#[test]
fn an_accepted_code_is_announced() {
    let notice = paired_notice("012345");
    assert_eq!(notice.title, "Pairing");
    assert_eq!(notice.body, "Code 012345 accepted. Connecting to peers with the same code…");
}

#[test]
fn the_window_sees_the_settings() {
    let mut cfg = AppConfig::default();
    let shown = FrontendConfig::from(&cfg);
    assert_eq!(shown.clipboard_priority, "imagefirst");
    assert_eq!(shown.pairing_code, "");
    assert_eq!(shown.payload_limit_mb, 25);
    assert_eq!(shown.debounce_ms, 200);
    assert_eq!(shown.instance_id, cfg.instance_id);
    cfg.pairing_code = Some("123456".to_string());
    cfg.sync_paused = true;
    cfg.clipboard_priority = ClipboardPriority::TextFirst;
    let shown = FrontendConfig::from(&cfg);
    assert_eq!(shown.clipboard_priority, "textfirst");
    assert_eq!(shown.pairing_code, "123456");
    assert!(shown.sync_paused);
    cfg.clipboard_priority = ClipboardPriority::TextOnly;
    assert_eq!(FrontendConfig::from(&cfg).clipboard_priority, "textonly");
    cfg.clipboard_priority = ClipboardPriority::ImageOnly;
    assert_eq!(FrontendConfig::from(&cfg).clipboard_priority, "imageonly");
}

#[test]
fn the_window_sees_who_is_connected() {
    let mut cfg = AppConfig::default();
    upsert_peer(&mut cfg, peer("a", "one", 1, 10));
    upsert_peer(&mut cfg, peer("b", "two", 2, 20));
    let shown = cfg.frontend_peers(&["b".to_string(), "c".to_string()]);
    assert_eq!(shown.len(), 2);
    assert_eq!((shown[0].name.as_str(), shown[0].connected), ("one", false));
    assert_eq!((shown[1].id.as_str(), shown[1].connected), ("b", true));
    assert!(shown[1].clone().connected);
    let copy = cfg.clone();
    assert_eq!(copy.paired_peers.len(), 2);
    assert_eq!(copy.paired_peers[1].name, "two");
    assert_eq!(copy.instance_id, cfg.instance_id);
    assert_eq!(FrontendConfig::from(&copy).clone().instance_id, cfg.instance_id);
    let status = cfg.status(1);
    assert_eq!(status.instance_id, cfg.instance_id);
    assert!(!status.sync_paused);
    assert_eq!(status.paired_peers_count, 2);
    assert_eq!(status.connected_peers, 1);
}
