use lan_chat::networking::{extract_peer_info, handle_response, RecordKind};
use lan_chat::peer::{
    Endpoint, IpAddress, LivenessMonitor, PeerEventKind, PeerInfo, PeerManager, PeerMetadata,
    PeerNotifier,
};

fn response(peer_name: &str) -> Vec<RecordKind> {
    vec![
        RecordKind::PTR("alice._lan-chat._tcp.local".to_string()),
        RecordKind::TXT(vec![
            "peer_id=p1".to_string(),
            format!("peer_name={peer_name}"),
            "instance=alice@host [abcdef]".to_string(),
            "platform=linux".to_string(),
            "version=1.0".to_string(),
        ]),
        RecordKind::SRV { priority: 0, weight: 0, port: 8080, target: "host.local".to_string() },
        RecordKind::A(0xC0A8_0107),
    ]
}

fn expected(peer_name: &str) -> PeerInfo {
    let ip = IpAddress::V4(0xC0A8_0107);
    PeerInfo::new(
        "p1",
        PeerMetadata {
            mdns_addr: Endpoint::new(ip, 8080),
            ws_addr: Endpoint::new(ip, 6767),
            name: peer_name.to_string(),
            instance: "alice@host [abcdef]".to_string(),
            version: "1.0".to_string(),
            platform: "linux".to_string(),
        },
    )
}

#[test]
fn a_peer_joins_changes_leaves_and_returns() {
    let mut directory = PeerManager::new();
    let mut bus = PeerNotifier::new();
    let listener = bus.subscribe().expect("a handle");
    let monitor = LivenessMonitor::standard();
    let second: u64 = 1_000;

    assert_eq!(extract_peer_info(&response("alice"), "me"), Some(expected("alice")));

    let joined = handle_response(&mut directory, &response("alice"), "me", 0).expect("joined");
    assert_eq!(joined.kind(), PeerEventKind::Joined);
    assert_eq!(joined.peer(), &expected("alice"));
    assert_eq!(joined.source(), "discovery");
    bus.emit_event(joined);

    assert!(handle_response(&mut directory, &response("alice"), "me", second).is_none());

    let updated =
        handle_response(&mut directory, &response("alice2"), "me", 2 * second).expect("updated");
    assert_eq!(updated.kind(), PeerEventKind::Updated);
    assert_eq!(updated.peer(), &expected("alice2"));
    bus.emit_event(updated);

    let mut now = 2 * second;
    let mut left = Vec::new();
    let mut ticks = 0;
    while left.is_empty() {
        now += monitor.period();
        ticks += 1;
        left = monitor.tick(&mut directory, now);
        assert!(ticks <= 4);
    }
    assert_eq!(ticks, 4);
    assert_eq!(now, 42 * second);
    assert_eq!(left.len(), 1);
    assert_eq!(left[0].kind(), PeerEventKind::Left);
    assert_eq!(left[0].peer(), &PeerInfo::without_metadata("p1"));
    for event in left {
        bus.emit_event(event);
    }
    assert!(monitor.tick(&mut directory, now + monitor.period()).is_empty());

    let back = handle_response(&mut directory, &response("alice2"), "me", 60 * second)
        .expect("reconnected");
    assert_eq!(back.kind(), PeerEventKind::Reconnected);
    assert_eq!(back.peer(), &expected("alice2"));
    bus.emit_event(back);

    let kinds: Vec<PeerEventKind> =
        std::iter::from_fn(|| bus.next_event(listener)).map(|e| e.kind()).collect();
    assert_eq!(
        kinds,
        vec![
            PeerEventKind::Joined,
            PeerEventKind::Updated,
            PeerEventKind::Left,
            PeerEventKind::Reconnected
        ]
    );
    assert!(bus.take_advertisement());
    assert!(!bus.take_advertisement());
    assert_eq!(directory.len(), 1);
    assert_eq!(directory.get_peer("p1").unwrap().connection_count, 2);
}
