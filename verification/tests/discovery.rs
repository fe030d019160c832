use clipsync::discovery::{
    id_tag, make_advert, pick_lan_address, resolve_peer, service_label, service_type, PeerDirectory, ServiceRecord,
};

fn record(id: Option<&str>, name: Option<&str>, v4: &[&str], v6: &[&str]) -> ServiceRecord {
    ServiceRecord {
        id: id.map(|s| s.to_string()),
        name: name.map(|s| s.to_string()),
        port: 4711,
        addresses_v4: v4.iter().map(|s| s.to_string()).collect(),
        addresses_v6: v6.iter().map(|s| s.to_string()).collect(),
    }
}

#[test]
fn the_tag_of_an_id_is_its_first_eight_bytes() {
    assert_eq!(id_tag("0123456789").as_deref(), Some("01234567"));
    assert_eq!(id_tag("01234567").as_deref(), Some("01234567"));
    assert_eq!(id_tag("0123456"), None);
    assert_eq!(id_tag(""), None);
    assert_eq!(id_tag("ääääää").as_deref(), Some("ääää"));
    assert_eq!(id_tag("0123456ä"), None);
}

#[test]
fn an_advert_is_named_by_host_and_tag() {
    assert_eq!(service_type(), "_clipsync._tcp.local.");
    let advert = make_advert("aabbccdd-eeff", "desk", "10.0.0.2", 4711);
    assert_eq!(advert.instance_name, "desk_aabbccdd");
    assert_eq!(advert.id, "aabbccdd-eeff");
    assert_eq!(advert.name, "desk");
    assert_eq!(advert.address, "10.0.0.2");
    assert_eq!(advert.port, 4711);
}

#[test]
fn no_address_of_every_interface_is_advertised() {
    let some = ["", "0.0.0.0", "127.0.0.1", "127.0.1.1", "192.168.1.7", "10.0.0.2"].map(str::to_string);
    assert_eq!(pick_lan_address(&some).as_deref(), Some("192.168.1.7"));
    assert_eq!(pick_lan_address(&some[..4]), None);
    assert_eq!(pick_lan_address(&[]), None);
    let near = ["1.2.3.4", "127"].map(str::to_string);
    assert_eq!(pick_lan_address(&near).as_deref(), Some("1.2.3.4"));
    assert_eq!(pick_lan_address(&near[1..]).as_deref(), Some("127"));
}

#[test]
fn a_resolved_service_is_a_peer() {
    let found = resolve_peer(
        &record(Some("peer-id-1"), Some("desk"), &["10.0.0.2", "10.0.0.3"], &["fe80::1"]),
        "our-id",
    )
    .unwrap();
    assert_eq!(found.id, "peer-id-1");
    assert_eq!(found.name, "desk");
    assert_eq!(found.ip, "10.0.0.2");
    assert_eq!(found.port, 4711);
}

#[test]
fn an_unnamed_peer_is_unknown_and_may_have_ipv6_only() {
    let found = resolve_peer(&record(Some("peer-id-1"), None, &[], &["fe80::1"]), "our-id").unwrap();
    assert_eq!(found.name, "unknown");
    assert_eq!(found.ip, "fe80::1");
    assert_eq!(found.clone().ip, "fe80::1");
}

#[test]
fn some_services_are_no_peers() {
    assert!(resolve_peer(&record(None, Some("desk"), &["10.0.0.2"], &[]), "our-id").is_none());
    assert!(resolve_peer(&record(Some("our-id"), None, &["10.0.0.2"], &[]), "our-id").is_none());
    assert!(resolve_peer(&record(Some("peer-id-1"), None, &[], &[]), "our-id").is_none());
}

#[test]
fn an_advert_is_found_by_others_only() {
    let advert = make_advert("aabbccdd-eeff", "desk", "10.0.0.2", 4711);
    let seen = record(Some(&advert.id), Some(&advert.name), &[advert.address.as_str()], &[]);
    let found = resolve_peer(&seen, "11223344-5566").unwrap();
    assert_eq!((found.id.as_str(), found.ip.as_str()), ("aabbccdd-eeff", "10.0.0.2"));
    assert!(resolve_peer(&seen, "aabbccdd-eeff").is_none());
}

#[test]
fn a_label_is_a_full_name_without_its_type() {
    assert_eq!(service_label("desk_aabbccdd._clipsync._tcp.local."), "desk_aabbccdd");
    assert_eq!(service_label("desk_aabbccdd"), "desk_aabbccdd");
    assert_eq!(service_label("_clipsync._tcp.local."), "_clipsync._tcp.local.");
    assert_eq!(service_label("._clipsync._tcp.local."), "");
}

#[test]
fn a_directory_forgets_who_left() {
    let mut directory = PeerDirectory::new();
    let first = record(Some("aabbccdd-1"), Some("desk"), &["10.0.0.2"], &[]);
    let second = record(Some("11223344-2"), Some("lap"), &["10.0.0.3"], &[]);
    assert!(directory.on_resolved(&first, "our-id-00").is_some());
    assert!(directory.on_resolved(&second, "our-id-00").is_some());
    assert!(directory.on_resolved(&record(None, None, &[], &[]), "our-id-00").is_none());
    assert!(directory.is_tagged());
    assert_eq!(directory.on_removed("desk_99999999").len(), 0);
    let left = directory.on_removed("desk_aabbccdd");
    assert_eq!(left.len(), 1);
    assert_eq!(left[0].name, "desk");
    assert_eq!(directory.on_removed("desk_aabbccdd").len(), 0);
    assert_eq!(directory.on_removed("lap_11223344").len(), 1);
}

#[test]
fn a_directory_knows_whether_its_ids_have_tags() {
    let mut directory = PeerDirectory::new();
    assert!(directory.is_tagged());
    directory.on_resolved(&record(Some("short"), None, &["10.0.0.2"], &[]), "our-id-00");
    assert!(!directory.is_tagged());
}
