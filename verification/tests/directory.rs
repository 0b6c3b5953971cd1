use lan_chat::peer::{
    Endpoint, IpAddress, ManagedPeer, PeerEventKind, PeerInfo, PeerManager, PeerMetadata,
};

fn metadata(name: &str) -> PeerMetadata {
    let ip = IpAddress::V4(0xC0A8_0105);
    PeerMetadata {
        mdns_addr: Endpoint::new(ip, 8080),
        ws_addr: Endpoint::new(ip, 6767),
        name: name.to_string(),
        instance: "alice@host [abcdef]".to_string(),
        version: "1.0".to_string(),
        platform: "linux".to_string(),
    }
}

fn sighting(id: &str, name: &str) -> PeerInfo {
    PeerInfo::new(id, metadata(name))
}

fn is_v4_uuid(id: u128) -> bool {
    (id >> 76) & 0xf == 4 && (id >> 62) & 0x3 == 2
}

#[test]
fn first_sighting_joins() {
    let mut directory = PeerManager::new();
    let event = directory.upsert_peer("discovery", sighting("p1", "alice"), 1_000);
    let event = event.expect("a first sighting is reported");
    assert_eq!(event.kind(), PeerEventKind::Joined);
    assert_eq!(event.source(), "discovery");
    assert_eq!(event.peer(), &sighting("p1", "alice"));
    assert!(is_v4_uuid(event.event_id()));
    assert_eq!(directory.len(), 1);
    let record = directory.get_peer("p1").expect("the peer is known");
    assert_eq!(record.info, sighting("p1", "alice"));
    assert_eq!(record.last_seen, 1_000);
    assert!(record.is_connected);
    assert_eq!(record.connection_count, 1);
}

#[test]
fn repeated_sighting_is_silent() {
    let mut directory = PeerManager::new();
    assert!(directory.upsert_peer("discovery", sighting("p1", "alice"), 1_000).is_some());
    let second = directory.upsert_peer("discovery", sighting("p1", "alice"), 2_500);
    assert!(second.is_none());
    let record = directory.get_peer("p1").unwrap();
    assert_eq!(record.last_seen, 2_500);
    assert!(record.is_connected);
    assert_eq!(record.connection_count, 1);
    assert_eq!(directory.len(), 1);
}

#[test]
fn changed_metadata_is_an_update() {
    let mut directory = PeerManager::new();
    directory.upsert_peer("discovery", sighting("p1", "alice"), 1_000);
    let event = directory
        .upsert_peer("discovery", sighting("p1", "alice2"), 2_000)
        .expect("a change of metadata is reported");
    assert_eq!(event.kind(), PeerEventKind::Updated);
    assert_eq!(event.peer(), &sighting("p1", "alice2"));
    let record = directory.get_peer("p1").unwrap();
    assert_eq!(record.info, sighting("p1", "alice2"));
    assert_eq!(record.last_seen, 2_000);
    assert_eq!(record.connection_count, 1);
}

#[test]
fn every_field_of_the_metadata_counts() {
    let base = metadata("alice");
    let mut changed: Vec<PeerMetadata> = Vec::new();
    let mut m = base.clone();
    m.mdns_addr = Endpoint::new(IpAddress::V4(0xC0A8_0105), 8081);
    changed.push(m);
    let mut m = base.clone();
    m.ws_addr = Endpoint::new(IpAddress::V4(0xC0A8_0106), 6767);
    changed.push(m);
    let mut m = base.clone();
    m.instance = "alice@other [abcdef]".to_string();
    changed.push(m);
    let mut m = base.clone();
    m.version = "1.1".to_string();
    changed.push(m);
    let mut m = base.clone();
    m.platform = "macos".to_string();
    changed.push(m);
    for other in changed {
        let mut directory = PeerManager::new();
        directory.upsert_peer("discovery", PeerInfo::new("p1", base.clone()), 1);
        let event = directory.upsert_peer("discovery", PeerInfo::new("p1", other), 2);
        assert_eq!(event.expect("an update").kind(), PeerEventKind::Updated);
    }
}

#[test]
fn marking_disconnected_reports_a_departure_once() {
    let mut directory = PeerManager::new();
    directory.upsert_peer("discovery", sighting("p1", "alice"), 1_000);
    let event = directory.mark_disconnected("manual", "p1").expect("a departure");
    assert_eq!(event.kind(), PeerEventKind::Left);
    assert_eq!(event.source(), "manual");
    assert_eq!(event.peer(), &PeerInfo::without_metadata("p1"));
    let record = directory.get_peer("p1").unwrap();
    assert!(!record.is_connected);
    assert_eq!(record.last_seen, 1_000);
    assert_eq!(record.info, sighting("p1", "alice"));
    assert!(directory.mark_disconnected("manual", "p1").is_none());
    assert_eq!(directory.len(), 1);
}

#[test]
fn marking_an_unknown_peer_changes_nothing() {
    let mut directory = PeerManager::new();
    directory.upsert_peer("discovery", sighting("p1", "alice"), 1_000);
    assert!(directory.mark_disconnected("manual", "nobody").is_none());
    assert_eq!(directory.len(), 1);
    assert!(directory.get_peer("p1").unwrap().is_connected);
}

#[test]
fn return_after_leaving_is_a_reconnection() {
    let mut directory = PeerManager::new();
    directory.upsert_peer("discovery", sighting("p1", "alice"), 1_000);
    directory.mark_disconnected("liveness", "p1");
    let event = directory
        .upsert_peer("discovery", sighting("p1", "alice"), 50_000)
        .expect("a return is reported");
    assert_eq!(event.kind(), PeerEventKind::Reconnected);
    assert_eq!(event.peer(), &sighting("p1", "alice"));
    let record = directory.get_peer("p1").unwrap();
    assert!(record.is_connected);
    assert_eq!(record.last_seen, 50_000);
    assert_eq!(record.connection_count, 2);
    assert!(directory.upsert_peer("discovery", sighting("p1", "alice"), 51_000).is_none());
    assert_eq!(directory.get_peer("p1").unwrap().connection_count, 2);
    assert_eq!(directory.len(), 1);
}

#[test]
fn return_with_new_metadata_is_still_a_reconnection() {
    let mut directory = PeerManager::new();
    directory.upsert_peer("discovery", sighting("p1", "alice"), 1_000);
    directory.mark_disconnected("liveness", "p1");
    let event = directory.upsert_peer("discovery", sighting("p1", "alice2"), 2_000).unwrap();
    assert_eq!(event.kind(), PeerEventKind::Reconnected);
    assert_eq!(directory.get_peer_info("p1"), Some(sighting("p1", "alice2")));
}

#[test]
fn last_seen_never_moves_back() {
    let mut directory = PeerManager::new();
    directory.upsert_peer("discovery", sighting("p1", "alice"), 5_000);
    assert!(directory.upsert_peer("discovery", sighting("p1", "alice"), 3_000).is_none());
    assert_eq!(directory.get_peer("p1").unwrap().last_seen, 5_000);
    directory.upsert_peer("discovery", sighting("p1", "alice3"), 4_000);
    assert_eq!(directory.get_peer("p1").unwrap().last_seen, 5_000);
}

#[test]
fn peers_are_listed_in_the_order_of_first_sighting() {
    let mut directory = PeerManager::new();
    directory.upsert_peer("discovery", sighting("p2", "bob"), 1);
    directory.upsert_peer("discovery", sighting("p1", "alice"), 2);
    directory.upsert_peer("discovery", sighting("p3", "carol"), 3);
    directory.upsert_peer("discovery", sighting("p2", "bobby"), 4);
    directory.mark_disconnected("manual", "p1");
    let all = directory.get_all_peers();
    assert_eq!(
        all,
        vec![sighting("p2", "bobby"), sighting("p1", "alice"), sighting("p3", "carol")]
    );
    assert_eq!(directory.get_peer_info("p3"), Some(sighting("p3", "carol")));
    assert_eq!(directory.get_peer_info("p4"), None);
    assert!(directory.get_peer("p4").is_none());
    assert_eq!(PeerManager::new().get_all_peers(), Vec::<PeerInfo>::new());
}

#[test]
fn manual_update_of_metadata() {
    let mut directory = PeerManager::new();
    directory.upsert_peer("discovery", sighting("p1", "alice"), 1_000);
    assert!(directory.update_peer_metadata("manual", "p1", metadata("alice")).is_none());
    assert!(directory.update_peer_metadata("manual", "p9", metadata("zed")).is_none());
    assert_eq!(directory.len(), 1);
    let event = directory
        .update_peer_metadata("manual", "p1", metadata("alicia"))
        .expect("new metadata is reported");
    assert_eq!(event.kind(), PeerEventKind::Updated);
    assert_eq!(event.source(), "manual");
    assert_eq!(event.peer(), &sighting("p1", "alicia"));
    let record = directory.get_peer("p1").unwrap();
    assert_eq!(record.info, sighting("p1", "alicia"));
    assert_eq!(record.last_seen, 1_000);
    assert!(record.is_connected);
}

#[test]
fn manual_update_does_not_reconnect() {
    let mut directory = PeerManager::new();
    directory.upsert_peer("discovery", sighting("p1", "alice"), 1_000);
    directory.mark_disconnected("manual", "p1");
    assert!(directory.update_peer_metadata("manual", "p1", metadata("alicia")).is_some());
    let record = directory.get_peer("p1").unwrap();
    assert!(!record.is_connected);
    assert_eq!(record.connection_count, 1);
}

#[test]
fn stale_peers_are_the_connected_ones_past_the_threshold() {
    let mut directory = PeerManager::new();
    directory.upsert_peer("discovery", sighting("old", "a"), 1_000);
    directory.upsert_peer("discovery", sighting("edge", "b"), 10_000);
    directory.upsert_peer("discovery", sighting("gone", "c"), 2_000);
    directory.upsert_peer("discovery", sighting("new", "d"), 39_000);
    directory.upsert_peer("discovery", sighting("older", "e"), 0);
    directory.mark_disconnected("manual", "gone");
    assert_eq!(
        directory.check_stale_peers(40_000, 30_000),
        vec!["old".to_string(), "older".to_string()]
    );
    assert_eq!(
        directory.check_stale_peers(40_001, 30_000),
        vec!["old".to_string(), "edge".to_string(), "older".to_string()]
    );
    assert_eq!(directory.check_stale_peers(500, 30_000), Vec::<String>::new());
    assert_eq!(directory.check_stale_peers(u64::MAX, u64::MAX), Vec::<String>::new());
    assert_eq!(directory.len(), 5);
}

#[test]
fn a_record_counts_connections_up_to_the_limit() {
    let mut record = ManagedPeer::new(sighting("p1", "alice"), 10);
    assert_eq!(record.connection_count, 1);
    assert!(!record.update(sighting("p1", "alice"), 20));
    assert_eq!(record.connection_count, 1);
    assert_eq!(record.last_seen, 20);
    record.is_connected = false;
    assert!(record.update(sighting("p1", "alice2"), 15));
    assert_eq!(record.connection_count, 2);
    assert_eq!(record.last_seen, 20);
    assert!(record.is_connected);
    record.is_connected = false;
    record.connection_count = u32::MAX;
    assert!(!record.update(sighting("p1", "alice2"), 30));
    assert_eq!(record.connection_count, u32::MAX);
    assert!(record.update(PeerInfo::without_metadata("p1"), 30));
}

#[test]
fn peer_info_tells_metadata_apart() {
    let with = sighting("p1", "alice");
    let other = sighting("p2", "alice");
    let renamed = sighting("p1", "bob");
    let bare = PeerInfo::without_metadata("p1");
    assert!(!with.is_metadata_different_from(&other));
    assert!(with.is_metadata_different_from(&renamed));
    assert!(with.is_metadata_different_from(&bare));
    assert!(bare.is_metadata_different_from(&with));
    assert!(!bare.is_metadata_different_from(&PeerInfo::without_metadata("p2")));
    assert!(metadata("alice").is_different(&metadata("bob")));
    assert!(!metadata("alice").is_different(&metadata("alice")));
    assert_ne!(with, other);
    assert_ne!(with, bare);
    assert_eq!(with, sighting("p1", "alice"));
}

#[test]
fn peer_info_to_and_from_its_parts() {
    let meta = metadata("alice");
    let info = PeerInfo::from_parts("abc123", &meta);
    assert_eq!(info, PeerInfo::new("abc123", metadata("alice")));
    let (id, back) = info.into_parts();
    assert_eq!(id, "abc123");
    assert_eq!(back, meta);
    assert_eq!(Endpoint::new(IpAddress::V6(1), 80).with_port(81), Endpoint::new(IpAddress::V6(1), 81));
}
