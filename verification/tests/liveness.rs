use lan_chat::config::{HEALTH_CHECK_PERIOD_MS, SOURCE_LIVENESS, STALE_THRESHOLD_MS};
use lan_chat::peer::{
    run_health_check, Endpoint, IpAddress, LivenessMonitor, PeerEventKind, PeerInfo,
    PeerManager, PeerMetadata,
};

fn peer(id: &str) -> PeerInfo {
    let ip = IpAddress::V4(0x0A00_0002);
    PeerInfo::new(
        id,
        PeerMetadata {
            mdns_addr: Endpoint::new(ip, 8080),
            ws_addr: Endpoint::new(ip, 6767),
            name: id.to_string(),
            instance: "x@host [abcdef]".to_string(),
            version: "1.0".to_string(),
            platform: "linux".to_string(),
        },
    )
}

#[test]
fn standard_monitor_scans_every_ten_seconds_with_thirty_to_spare() {
    let monitor = LivenessMonitor::standard();
    assert_eq!(monitor.period(), 10_000);
    assert_eq!(monitor.threshold(), 30_000);
    assert_eq!(HEALTH_CHECK_PERIOD_MS, 10_000);
    assert_eq!(STALE_THRESHOLD_MS, 30_000);
}

#[test]
fn monitor_settings_must_leave_more_than_one_period() {
    assert!(LivenessMonitor::new(0, 30_000).is_none());
    assert!(LivenessMonitor::new(10_000, 10_000).is_none());
    assert!(LivenessMonitor::new(10_000, 5_000).is_none());
    let monitor = LivenessMonitor::new(2_000, 2_001).expect("valid settings");
    assert_eq!(monitor.period(), 2_000);
    assert_eq!(monitor.threshold(), 2_001);
}

#[test]
fn a_scan_expires_exactly_the_stale_peers() {
    let mut directory = PeerManager::new();
    directory.upsert_peer("discovery", peer("a"), 0);
    directory.upsert_peer("discovery", peer("b"), 20_000);
    directory.upsert_peer("discovery", peer("c"), 5_000);
    directory.upsert_peer("discovery", peer("d"), 9_999);
    directory.mark_disconnected("manual", "c");
    let monitor = LivenessMonitor::standard();
    let events = monitor.tick(&mut directory, 40_000);
    assert_eq!(events.len(), 2);
    assert_eq!(events[0].kind(), PeerEventKind::Left);
    assert_eq!(events[0].peer(), &PeerInfo::without_metadata("a"));
    assert_eq!(events[0].source(), SOURCE_LIVENESS);
    assert_eq!(events[0].source(), "liveness");
    assert_eq!(events[1].kind(), PeerEventKind::Left);
    assert_eq!(events[1].peer(), &PeerInfo::without_metadata("d"));
    assert!(!directory.get_peer("a").unwrap().is_connected);
    assert!(directory.get_peer("b").unwrap().is_connected);
    assert!(!directory.get_peer("c").unwrap().is_connected);
    assert!(!directory.get_peer("d").unwrap().is_connected);
    assert_eq!(directory.get_peer("a").unwrap().last_seen, 0);
    assert_eq!(directory.len(), 4);
}

#[test]
fn a_departure_is_reported_by_one_scan_only() {
    let mut directory = PeerManager::new();
    directory.upsert_peer("discovery", peer("a"), 0);
    let monitor = LivenessMonitor::standard();
    assert_eq!(monitor.tick(&mut directory, 30_000).len(), 0);
    assert_eq!(monitor.tick(&mut directory, 30_001).len(), 1);
    assert_eq!(monitor.tick(&mut directory, 40_000).len(), 0);
    assert_eq!(monitor.tick(&mut directory, 400_000).len(), 0);
    directory.upsert_peer("discovery", peer("a"), 400_000);
    assert_eq!(monitor.tick(&mut directory, 430_000).len(), 0);
    assert_eq!(monitor.tick(&mut directory, 430_001).len(), 1);
}

#[test]
fn a_round_with_its_own_threshold() {
    let mut directory = PeerManager::new();
    directory.upsert_peer("discovery", peer("a"), 100);
    directory.upsert_peer("discovery", peer("b"), 200);
    assert!(run_health_check(&mut directory, 50, 10).is_empty());
    let events = run_health_check(&mut directory, 211, 10);
    assert_eq!(events.len(), 2);
    assert_eq!(events[0].peer(), &PeerInfo::without_metadata("a"));
    assert_eq!(events[1].peer(), &PeerInfo::without_metadata("b"));
    assert!(run_health_check(&mut PeerManager::new(), 1_000, 0).is_empty());
}
