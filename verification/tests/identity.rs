use lan_chat::peer::{PeerIdentity, Transport};

#[test]
fn a_new_identity_hangs_together() {
    let identity = PeerIdentity::default();
    let id = identity.peer_id();
    let name = identity.peer_name();
    let instance = identity.instance_name();
    assert_eq!(id.len(), 36);
    assert!(instance.starts_with(&format!("{name}@")));
    assert!(instance.ends_with(&format!(" [{}]", &id[..6])));
    assert_ne!(PeerIdentity::default().peer_id(), id);
}

#[test]
fn a_stored_identity_is_restored() {
    let identity = PeerIdentity::restore("abcdef-1".to_string(), "alice".to_string()).unwrap();
    assert_eq!(identity.peer_id(), "abcdef-1");
    assert_eq!(identity.peer_name(), "alice");
    assert!(identity.instance_name().starts_with("alice@"));
    assert!(identity.instance_name().ends_with(" [abcdef]"));
    assert!(PeerIdentity::restore("abc".to_string(), "alice".to_string()).is_none());
    let copy = identity.clone();
    assert_eq!(copy.peer_id(), identity.peer_id());
    assert_eq!(copy.instance_name(), identity.instance_name());
}

#[test]
fn loading_keeps_what_was_stored_and_makes_up_the_rest() {
    let (kept, fresh) =
        PeerIdentity::load_or_generate(Some(("abcdef-1".to_string(), "alice".to_string())));
    assert!(!fresh);
    assert_eq!(kept.peer_id(), "abcdef-1");
    assert_eq!(kept.peer_name(), "alice");
    let (made, fresh) = PeerIdentity::load_or_generate(None);
    assert!(fresh);
    assert_eq!(made.peer_id().len(), 36);
}

#[test]
fn renaming_makes_the_instance_name_anew() {
    let mut identity =
        PeerIdentity::restore("abcdef-1".to_string(), "alice".to_string()).unwrap();
    let before = identity.instance_name();
    assert!(!identity.update_peer_name("alice"));
    assert_eq!(identity.instance_name(), before);
    assert!(identity.update_peer_name("bob"));
    assert_eq!(identity.peer_name(), "bob");
    assert_eq!(identity.peer_id(), "abcdef-1");
    assert_eq!(identity.instance_name(), before.replacen("alice", "bob", 1));
    assert!(!identity.update_peer_name("bob"));
}

#[test]
fn the_transports() {
    assert_ne!(Transport::Quic, Transport::Websocket);
    assert_ne!(Transport::Websocket, Transport::WebRTC);
    assert_eq!(Transport::WebRTC, Transport::WebRTC);
}
