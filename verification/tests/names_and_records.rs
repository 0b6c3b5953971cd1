use lan_chat::config::{
    PROTOCOL_VERSION, SERVICE_PORT, SERVICE_TYPE, TXT_KEY_INSTANCE, TXT_KEY_PEER_ID,
    TXT_KEY_PEER_NAME, TXT_KEY_PLATFORM, TXT_KEY_VERSION, WS_PORT,
};
use lan_chat::text::str_eq;
use lan_chat::utils::{
    build_txt_records, build_txt_records_for, generate_instance_name, generate_peer_id,
    generate_peer_name, instance_name_on, parse_txt_record, short_id_of, split_key_value,
};

fn strings(items: &[&str]) -> Vec<String> {
    items.iter().map(|s| s.to_string()).collect()
}

#[test]
fn shared_names_and_numbers() {
    assert_eq!(SERVICE_TYPE, "_lan-chat._tcp");
    assert_eq!(SERVICE_PORT, 8080);
    assert_eq!(WS_PORT, 6767);
    assert_eq!(TXT_KEY_PEER_ID, "peer_id");
    assert_eq!(TXT_KEY_PEER_NAME, "peer_name");
    assert_eq!(TXT_KEY_INSTANCE, "instance");
    assert_eq!(TXT_KEY_PLATFORM, "platform");
    assert_eq!(TXT_KEY_VERSION, "version");
    assert_ne!(SERVICE_PORT, WS_PORT);
}

#[test]
fn strings_are_compared_by_their_characters() {
    assert!(str_eq("", ""));
    assert!(str_eq("peer", "peer"));
    assert!(str_eq("grüße", "grüße"));
    assert!(!str_eq("peer", "peeR"));
    assert!(!str_eq("peer", "peers"));
    assert!(!str_eq("peers", "peer"));
    assert!(!str_eq("é", "e"));
    assert!(!str_eq("", "a"));
}

#[test]
fn an_entry_splits_at_its_first_equals_sign() {
    assert_eq!(split_key_value("key=value"), Some(("key".to_string(), "value".to_string())));
    assert_eq!(split_key_value("a=b=c"), Some(("a".to_string(), "b=c".to_string())));
    assert_eq!(split_key_value("=value"), Some(("".to_string(), "value".to_string())));
    assert_eq!(split_key_value("key="), Some(("key".to_string(), "".to_string())));
    assert_eq!(split_key_value("="), Some(("".to_string(), "".to_string())));
    assert_eq!(split_key_value("novalue"), None);
    assert_eq!(split_key_value(""), None);
    assert_eq!(
        split_key_value("näme=wért=x"),
        Some(("näme".to_string(), "wért=x".to_string()))
    );
}

#[test]
fn attribute_entries_become_a_map() {
    let map = parse_txt_record(&strings(&["peer_id=p1", "peer_name=alice", "flag", "k=a=b"]));
    assert_eq!(map.len(), 3);
    assert_eq!(map.get("peer_id"), Some(&"p1".to_string()));
    assert_eq!(map.get("peer_name"), Some(&"alice".to_string()));
    assert_eq!(map.get("k"), Some(&"a=b".to_string()));
    assert_eq!(map.get("flag"), None);
    assert!(!map.contains_key("missing"));
    assert!(parse_txt_record(&[]).is_empty());
}

#[test]
fn a_later_entry_wins_over_an_earlier_one() {
    let map = parse_txt_record(&strings(&["k=first", "other=x", "k=second"]));
    assert_eq!(map.len(), 2);
    assert_eq!(map.get("k"), Some(&"second".to_string()));
    assert_eq!(map.get("other"), Some(&"x".to_string()));
}

#[test]
fn the_entries_that_announce_a_peer() {
    let txt = build_txt_records_for("p1", "alice", "alice@host [abcdef]", "Linux");
    assert_eq!(
        txt,
        strings(&[
            "peer_id=p1",
            "peer_name=alice",
            "instance=alice@host [abcdef]",
            "platform=Linux",
            "version=0.1.0",
        ])
    );
    assert_eq!(PROTOCOL_VERSION, "0.1.0");
}

#[test]
fn announced_entries_read_back() {
    let txt = build_txt_records("0123456789", "alice=bob", "alice@host [012345]");
    assert_eq!(txt.len(), 5);
    assert_eq!(txt[0], "peer_id=0123456789");
    assert_eq!(txt[1], "peer_name=alice=bob");
    assert_eq!(txt[2], "instance=alice@host [012345]");
    assert!(txt[3].starts_with("platform="));
    assert!(txt[3].len() > "platform=".len());
    assert_eq!(txt[4], "version=0.1.0");
    let map = parse_txt_record(&txt);
    assert_eq!(map.len(), 5);
    assert_eq!(map.get("peer_id"), Some(&"0123456789".to_string()));
    assert_eq!(map.get("peer_name"), Some(&"alice=bob".to_string()));
    assert_eq!(map.get("instance"), Some(&"alice@host [012345]".to_string()));
    assert_eq!(map.get("version"), Some(&"0.1.0".to_string()));
}

#[test]
fn the_short_id_is_the_first_six_bytes() {
    assert_eq!(short_id_of("abcdef"), Some("abcdef".to_string()));
    assert_eq!(short_id_of("abcdefgh"), Some("abcdef".to_string()));
    assert_eq!(
        short_id_of("3f2a9c1e-0000-4000-8000-000000000000"),
        Some("3f2a9c".to_string())
    );
    assert_eq!(short_id_of("abcde"), None);
    assert_eq!(short_id_of(""), None);
    assert_eq!(short_id_of("éé12345"), Some("éé12".to_string()));
    assert_eq!(short_id_of("ééé"), Some("ééé".to_string()));
    assert_eq!(short_id_of("abcdeé"), None);
    assert_eq!(short_id_of("€€rest"), Some("€€".to_string()));
    assert_eq!(short_id_of("ab😀cd"), Some("ab😀".to_string()));
    assert_eq!(short_id_of("abc😀d"), None);
    assert_eq!(short_id_of("éé1"), None);
}

#[test]
fn the_short_id_is_what_slicing_at_six_bytes_gives() {
    let samples = [
        "", "a", "abcdef", "abcdefg", "é", "éé", "ééé", "éééé", "€€", "€€€", "a€bc", "a€bcd",
        "😀ab", "😀abc", "ab😀", "abcde😀", "12345é", "1234é6", "日本語", "日本", "x日本y",
        "3f2a9c1e-0000-4000-8000-000000000000",
    ];
    for sample in samples {
        let expected = if sample.len() >= 6 && sample.is_char_boundary(6) {
            Some(sample[..6].to_string())
        } else {
            None
        };
        assert_eq!(short_id_of(sample), expected);
    }
}

#[test]
fn the_instance_name_is_made_of_name_host_and_short_id() {
    assert_eq!(
        instance_name_on("alice", "host", "abcdef-123"),
        Some("alice@host [abcdef]".to_string())
    );
    assert_eq!(instance_name_on("", "", "123456"), Some("@ [123456]".to_string()));
    assert_eq!(instance_name_on("alice", "host", "abc"), None);
    let here = generate_instance_name("alice", "abcdef-123");
    assert!(here.starts_with("alice@"));
    assert!(here.ends_with(" [abcdef]"));
    assert!(here.len() > "alice@ [abcdef]".len());
}

#[test]
fn a_fresh_peer_id_is_a_hyphenated_random_uuid() {
    let id = generate_peer_id();
    let chars: Vec<char> = id.chars().collect();
    assert_eq!(chars.len(), 36);
    for (i, c) in chars.iter().enumerate() {
        if i == 8 || i == 13 || i == 18 || i == 23 {
            assert_eq!(*c, '-');
        } else {
            assert!(c.is_ascii_digit() || ('a'..='f').contains(c));
        }
    }
    assert_eq!(chars[14], '4');
    assert!(matches!(chars[19], '8' | '9' | 'a' | 'b'));
    assert_ne!(id, generate_peer_id());
    assert_eq!(short_id_of(&id), Some(id[..6].to_string()));
}

#[test]
fn the_peer_name_is_the_same_at_every_call() {
    assert_eq!(generate_peer_name(), generate_peer_name());
}
