use lan_chat::networking::{
    advertisement_for, extract_peer_info, handle_response, RecordKind,
};
use lan_chat::peer::{
    Endpoint, IpAddress, PeerEventKind, PeerIdentity, PeerInfo, PeerManager, PeerMetadata,
};

fn txt(entries: &[&str]) -> RecordKind {
    RecordKind::TXT(entries.iter().map(|s| s.to_string()).collect())
}

fn full_txt() -> RecordKind {
    txt(&[
        "peer_id=p1",
        "peer_name=alice",
        "instance=alice@host [abcdef]",
        "platform=linux",
        "version=1.0",
    ])
}

fn srv(port: u16) -> RecordKind {
    RecordKind::SRV { priority: 0, weight: 0, port, target: "host.local".to_string() }
}

fn alice(ip: IpAddress, port: u16) -> PeerInfo {
    PeerInfo::new(
        "p1",
        PeerMetadata {
            mdns_addr: Endpoint::new(ip, port),
            ws_addr: Endpoint::new(ip, 6767),
            name: "alice".to_string(),
            instance: "alice@host [abcdef]".to_string(),
            version: "1.0".to_string(),
            platform: "linux".to_string(),
        },
    )
}

#[test]
fn a_full_response_sights_a_peer() {
    let records = vec![full_txt(), RecordKind::A(0xC0A8_0105), srv(8080)];
    assert_eq!(
        extract_peer_info(&records, "me"),
        Some(alice(IpAddress::V4(0xC0A8_0105), 8080))
    );
}

#[test]
fn an_ipv6_address_serves_as_well() {
    let records = vec![srv(9000), RecordKind::AAAA(0xFE80 << 112 | 1), full_txt()];
    assert_eq!(
        extract_peer_info(&records, "me"),
        Some(alice(IpAddress::V6(0xFE80 << 112 | 1), 9000))
    );
}

#[test]
fn the_first_record_of_each_kind_counts() {
    let records = vec![
        RecordKind::CNAME("x".to_string()),
        RecordKind::AAAA(7),
        full_txt(),
        srv(1111),
        RecordKind::A(9),
        srv(2222),
        txt(&["peer_id=other"]),
        RecordKind::Unimplemented(vec![1, 2, 3]),
    ];
    assert_eq!(extract_peer_info(&records, "me"), Some(alice(IpAddress::V6(7), 1111)));
}

#[test]
fn a_first_record_of_attributes_that_is_incomplete_sights_nobody() {
    let records =
        vec![txt(&["peer_id=other"]), full_txt(), RecordKind::A(0xC0A8_0105), srv(8080)];
    assert_eq!(extract_peer_info(&records, "me"), None);
}

#[test]
fn a_missing_attribute_invalidates_the_sighting() {
    let all = [
        "peer_id=p1",
        "peer_name=alice",
        "instance=alice@host [abcdef]",
        "platform=linux",
        "version=1.0",
    ];
    for missing in 0..all.len() {
        let entries: Vec<&str> =
            all.iter().enumerate().filter(|(i, _)| *i != missing).map(|(_, e)| *e).collect();
        let records = vec![txt(&entries), RecordKind::A(0xC0A8_0105), srv(8080)];
        assert_eq!(extract_peer_info(&records, "me"), None);
    }
}

#[test]
fn a_response_without_address_or_service_sights_nobody() {
    assert_eq!(extract_peer_info(&[full_txt(), srv(8080)], "me"), None);
    assert_eq!(extract_peer_info(&[full_txt(), RecordKind::A(1)], "me"), None);
    assert_eq!(extract_peer_info(&[RecordKind::A(1), srv(8080)], "me"), None);
    assert_eq!(extract_peer_info(&[], "me"), None);
    assert_eq!(
        extract_peer_info(
            &[
                RecordKind::PTR("p".to_string()),
                RecordKind::NS("n".to_string()),
                RecordKind::MX { preference: 1, exchange: "m".to_string() }
            ],
            "me"
        ),
        None
    );
}

#[test]
fn a_sighting_of_oneself_is_passed_over() {
    let records = vec![full_txt(), RecordKind::A(0xC0A8_0105), srv(8080)];
    assert_eq!(extract_peer_info(&records, "p1"), None);
    let mut directory = PeerManager::new();
    assert!(handle_response(&mut directory, &records, "p1", 10).is_none());
    assert_eq!(directory.len(), 0);
}

#[test]
fn a_later_duplicate_attribute_wins() {
    let records = vec![
        txt(&[
            "peer_id=p0",
            "peer_name=alice",
            "instance=alice@host [abcdef]",
            "platform=linux",
            "version=1.0",
            "peer_id=p1",
        ]),
        RecordKind::A(5),
        srv(8080),
    ];
    assert_eq!(extract_peer_info(&records, "me"), Some(alice(IpAddress::V4(5), 8080)));
    assert_eq!(extract_peer_info(&records, "p1"), None);
    assert_eq!(extract_peer_info(&records, "p0"), Some(alice(IpAddress::V4(5), 8080)));
}

#[test]
fn responses_feed_the_directory() {
    let mut directory = PeerManager::new();
    let records = vec![full_txt(), RecordKind::A(0xC0A8_0105), srv(8080)];
    let event = handle_response(&mut directory, &records, "me", 100).expect("joined");
    assert_eq!(event.kind(), PeerEventKind::Joined);
    assert_eq!(event.source(), "discovery");
    assert!(handle_response(&mut directory, &records, "me", 200).is_none());
    assert!(handle_response(&mut directory, &[RecordKind::A(1)], "me", 300).is_none());
    let record = directory.get_peer("p1").unwrap();
    assert_eq!(record.last_seen, 200);
    assert_eq!(directory.len(), 1);
}

#[test]
fn the_announcement_follows_the_identity() {
    let identity = PeerIdentity::restore("0123456789".to_string(), "alice".to_string())
        .expect("an identifier with a short form");
    let advertisement = advertisement_for(&identity);
    assert_eq!(advertisement.service_type, "_lan-chat._tcp");
    assert_eq!(advertisement.port, 8080);
    assert_eq!(advertisement.instance_name, identity.instance_name());
    assert_eq!(advertisement.txt.len(), 5);
    assert_eq!(advertisement.txt[0], "peer_id=0123456789");
    assert_eq!(advertisement.txt[1], "peer_name=alice");
    assert_eq!(advertisement.txt[2], format!("instance={}", identity.instance_name()));
    assert!(advertisement.txt[3].starts_with("platform="));
    assert_eq!(advertisement.txt[4], "version=0.1.0");
}
