use lan_chat::peer::{PeerEvent, PeerEventKind, PeerInfo, PeerNotifier};

fn is_v4_uuid(id: u128) -> bool {
    (id >> 76) & 0xf == 4 && (id >> 62) & 0x3 == 2
}

#[test]
fn events_are_stamped() {
    let joined = PeerEvent::new_joined("discovery", PeerInfo::without_metadata("p1"));
    let updated = PeerEvent::new_updated("manual", PeerInfo::without_metadata("p2"));
    let left = PeerEvent::new_left("liveness", "p3".to_string());
    let back = PeerEvent::new_reconnected("discovery", PeerInfo::without_metadata("p4"));
    assert_eq!(joined.kind(), PeerEventKind::Joined);
    assert_eq!(updated.kind(), PeerEventKind::Updated);
    assert_eq!(left.kind(), PeerEventKind::Left);
    assert_eq!(back.kind(), PeerEventKind::Reconnected);
    assert_eq!(joined.source(), "discovery");
    assert_eq!(updated.source(), "manual");
    assert_eq!(left.source(), "liveness");
    assert_eq!(left.peer(), &PeerInfo::without_metadata("p3"));
    assert_eq!(back.peer(), &PeerInfo::without_metadata("p4"));
    for event in [&joined, &updated, &left, &back] {
        assert!(is_v4_uuid(event.event_id()));
        assert!(event.timestamp() > 1_600_000_000_000);
        assert!(event.timestamp() < 32_503_680_000_000);
    }
    assert_ne!(joined.event_id(), updated.event_id());
    let copy = joined.clone();
    assert_eq!(copy.event_id(), joined.event_id());
    assert_eq!(copy.timestamp(), joined.timestamp());
    assert_eq!(copy.kind(), joined.kind());
    assert_eq!(copy.peer(), joined.peer());
}

#[test]
fn every_subscriber_gets_every_event_in_order() {
    let mut bus = PeerNotifier::new();
    let a = bus.subscribe().unwrap();
    let b = bus.subscribe().unwrap();
    assert_eq!((a, b), (0, 1));
    let first = PeerEvent::new_updated("manual", PeerInfo::without_metadata("p1"));
    let second = PeerEvent::new_left("manual", "p2".to_string());
    let (id1, id2) = (first.event_id(), second.event_id());
    bus.emit_event(first);
    bus.emit_event(second);
    let late = bus.subscribe().unwrap();
    assert_eq!(late, 2);
    let third = PeerEvent::new_reconnected("manual", PeerInfo::without_metadata("p3"));
    let id3 = third.event_id();
    bus.emit_event(third);
    for handle in [b, a] {
        assert_eq!(bus.next_event(handle).unwrap().event_id(), id1);
        assert_eq!(bus.next_event(handle).unwrap().event_id(), id2);
        assert_eq!(bus.next_event(handle).unwrap().event_id(), id3);
        assert!(bus.next_event(handle).is_none());
    }
    assert_eq!(bus.next_event(late).unwrap().event_id(), id3);
    assert!(bus.next_event(late).is_none());
    assert!(bus.next_event(99).is_none());
}

#[test]
fn a_subscriber_that_is_gone_holds_up_nobody() {
    let mut bus = PeerNotifier::new();
    let a = bus.subscribe().unwrap();
    let b = bus.subscribe().unwrap();
    bus.emit_event(PeerEvent::new_left("manual", "p1".to_string()));
    assert!(bus.unsubscribe(a));
    assert!(!bus.unsubscribe(a));
    bus.emit_event(PeerEvent::new_left("manual", "p2".to_string()));
    assert!(bus.next_event(a).is_none());
    assert_eq!(bus.next_event(b).unwrap().peer(), &PeerInfo::without_metadata("p1"));
    assert_eq!(bus.next_event(b).unwrap().peer(), &PeerInfo::without_metadata("p2"));
    let c = bus.subscribe().unwrap();
    assert_eq!(c, 2);
    PeerNotifier::new().emit_event(PeerEvent::new_left("manual", "p3".to_string()));
}

#[test]
fn only_a_peer_that_joins_asks_for_an_announcement() {
    let mut bus = PeerNotifier::new();
    assert!(!bus.take_advertisement());
    bus.emit_event(PeerEvent::new_updated("manual", PeerInfo::without_metadata("p1")));
    bus.emit_event(PeerEvent::new_left("manual", "p1".to_string()));
    bus.emit_event(PeerEvent::new_reconnected("manual", PeerInfo::without_metadata("p1")));
    assert!(!bus.take_advertisement());
    bus.emit_event(PeerEvent::new_joined("discovery", PeerInfo::without_metadata("p2")));
    bus.emit_event(PeerEvent::new_joined("discovery", PeerInfo::without_metadata("p3")));
    assert!(bus.take_advertisement());
    assert!(bus.take_advertisement());
    assert!(!bus.take_advertisement());
    bus.advertise();
    assert!(bus.take_advertisement());
    assert!(!bus.take_advertisement());
}
