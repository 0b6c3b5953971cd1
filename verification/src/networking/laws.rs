//! What one peer announces, another reads.

use super::utils::{complete, first_ip, first_port, first_txt, sighting, RecordKind};
use crate::config::{
    PROTOCOL_VERSION, TXT_KEY_INSTANCE, TXT_KEY_PEER_ID, TXT_KEY_PEER_NAME, TXT_KEY_PLATFORM,
    TXT_KEY_VERSION, WS_PORT,
};
use crate::peer::address::{Endpoint, IpAddress};
use crate::peer::info::PeerInfoView;
use crate::peer::metadata::PeerMetadataView;
use crate::utils::{split_entry, splits_at, txt_entry, txt_map, txt_records};
use vstd::prelude::*;

verus! {

/// An entry made of a key without `=` and a value splits into that key and
/// that value, whatever the value holds.
pub proof fn law_entry_splits_into_its_parts(key: Seq<char>, value: Seq<char>)
    requires
        !key.contains('='),
    ensures
        split_entry(txt_entry(key, value)) == Some((key, value)),
{
    let entry = txt_entry(key, value);
    let at = key.len() as int;
    assert(entry[at] == '=');
    assert forall|j: int| 0 <= j < at implies entry[j] != '=' by {
        assert(entry[j] == key[j]);
        assert(key.contains(key[j]));
    }
    assert(splits_at(entry, at));
    let chosen = choose|i: int| splits_at(entry, i);
    assert(chosen == at);
    assert(entry.take(at) =~= key);
    assert(entry.skip(at + 1) =~= value);
}

/// None of the five keys holds a `=`, and no two of them are the same.
proof fn lemma_keys()
    ensures
        !TXT_KEY_PEER_ID@.contains('='),
        !TXT_KEY_PEER_NAME@.contains('='),
        !TXT_KEY_INSTANCE@.contains('='),
        !TXT_KEY_PLATFORM@.contains('='),
        !TXT_KEY_VERSION@.contains('='),
        TXT_KEY_PEER_ID@ != TXT_KEY_PEER_NAME@,
        TXT_KEY_PEER_ID@ != TXT_KEY_INSTANCE@,
        TXT_KEY_PEER_ID@ != TXT_KEY_PLATFORM@,
        TXT_KEY_PEER_ID@ != TXT_KEY_VERSION@,
        TXT_KEY_PEER_NAME@ != TXT_KEY_INSTANCE@,
        TXT_KEY_PEER_NAME@ != TXT_KEY_PLATFORM@,
        TXT_KEY_PEER_NAME@ != TXT_KEY_VERSION@,
        TXT_KEY_INSTANCE@ != TXT_KEY_PLATFORM@,
        TXT_KEY_INSTANCE@ != TXT_KEY_VERSION@,
        TXT_KEY_PLATFORM@ != TXT_KEY_VERSION@,
{
    reveal_strlit("peer_id");
    reveal_strlit("peer_name");
    reveal_strlit("instance");
    reveal_strlit("platform");
    reveal_strlit("version");
    assert(TXT_KEY_PEER_ID@.len() == 7);
    assert(TXT_KEY_PEER_NAME@.len() == 9);
    assert(TXT_KEY_INSTANCE@.len() == 8);
    assert(TXT_KEY_PLATFORM@.len() == 8);
    assert(TXT_KEY_VERSION@.len() == 7);
    assert(TXT_KEY_PEER_ID@[0] == 'p' && TXT_KEY_VERSION@[0] == 'v');
    assert(TXT_KEY_INSTANCE@[0] == 'i' && TXT_KEY_PLATFORM@[0] == 'p');
}

/// The entries that announce a peer read back as the five attributes with
/// the values that were announced, also where a value holds a `=`.
pub proof fn law_announced_attributes_read_back(
    peer_id: Seq<char>,
    peer_name: Seq<char>,
    instance_name: Seq<char>,
    platform: Seq<char>,
)
    ensures
        txt_map(txt_records(peer_id, peer_name, instance_name, platform)) == map![
            TXT_KEY_PEER_ID@ => peer_id,
            TXT_KEY_PEER_NAME@ => peer_name,
            TXT_KEY_INSTANCE@ => instance_name,
            TXT_KEY_PLATFORM@ => platform,
            TXT_KEY_VERSION@ => PROTOCOL_VERSION@,
        ],
        complete(txt_map(txt_records(peer_id, peer_name, instance_name, platform))),
{
    lemma_keys();
    let e1 = txt_entry(TXT_KEY_PEER_ID@, peer_id);
    let e2 = txt_entry(TXT_KEY_PEER_NAME@, peer_name);
    let e3 = txt_entry(TXT_KEY_INSTANCE@, instance_name);
    let e4 = txt_entry(TXT_KEY_PLATFORM@, platform);
    let e5 = txt_entry(TXT_KEY_VERSION@, PROTOCOL_VERSION@);
    law_entry_splits_into_its_parts(TXT_KEY_PEER_ID@, peer_id);
    law_entry_splits_into_its_parts(TXT_KEY_PEER_NAME@, peer_name);
    law_entry_splits_into_its_parts(TXT_KEY_INSTANCE@, instance_name);
    law_entry_splits_into_its_parts(TXT_KEY_PLATFORM@, platform);
    law_entry_splits_into_its_parts(TXT_KEY_VERSION@, PROTOCOL_VERSION@);
    let t5 = txt_records(peer_id, peer_name, instance_name, platform);
    let t4 = seq![e1, e2, e3, e4];
    let t3 = seq![e1, e2, e3];
    let t2 = seq![e1, e2];
    let t1 = seq![e1];
    let t0 = Seq::<Seq<char>>::empty();
    assert(t5 =~= seq![e1, e2, e3, e4, e5]);
    assert(t5.drop_last() =~= t4 && t5.last() == e5);
    assert(t4.drop_last() =~= t3 && t4.last() == e4);
    assert(t3.drop_last() =~= t2 && t3.last() == e3);
    assert(t2.drop_last() =~= t1 && t2.last() == e2);
    assert(t1.drop_last() =~= t0 && t1.last() == e1);
    assert(txt_map(t0) == Map::<Seq<char>, Seq<char>>::empty());
    assert(txt_map(t1) == txt_map(t0).insert(TXT_KEY_PEER_ID@, peer_id));
    assert(txt_map(t2) == txt_map(t1).insert(TXT_KEY_PEER_NAME@, peer_name));
    assert(txt_map(t3) == txt_map(t2).insert(TXT_KEY_INSTANCE@, instance_name));
    assert(txt_map(t4) == txt_map(t3).insert(TXT_KEY_PLATFORM@, platform));
    assert(txt_map(t5) == txt_map(t4).insert(TXT_KEY_VERSION@, PROTOCOL_VERSION@));
    assert(txt_map(t5) =~= map![
        TXT_KEY_PEER_ID@ => peer_id,
        TXT_KEY_PEER_NAME@ => peer_name,
        TXT_KEY_INSTANCE@ => instance_name,
        TXT_KEY_PLATFORM@ => platform,
        TXT_KEY_VERSION@ => PROTOCOL_VERSION@,
    ]);
}

/// A response that carries a peer's announcement, an address and a service
/// port sights that peer as it announced itself, unless the peer is the
/// reader itself.
pub proof fn law_announced_peer_is_sighted(
    records: Seq<RecordKind>,
    peer_id: Seq<char>,
    peer_name: Seq<char>,
    instance_name: Seq<char>,
    platform: Seq<char>,
    ip: IpAddress,
    port: u16,
    our_id: Seq<char>,
)
    requires
        first_txt(records) == Some(txt_records(peer_id, peer_name, instance_name, platform)),
        first_ip(records) == Some(ip),
        first_port(records) == Some(port),
    ensures
        sighting(records, our_id) == if peer_id == our_id {
            None
        } else {
            Some(
                PeerInfoView {
                    id: peer_id,
                    metadata: Some(
                        PeerMetadataView {
                            mdns_addr: Endpoint { ip, port },
                            ws_addr: Endpoint { ip, port: WS_PORT },
                            name: peer_name,
                            instance: instance_name,
                            version: PROTOCOL_VERSION@,
                            platform,
                        },
                    ),
                },
            )
        },
{
    lemma_keys();
    law_announced_attributes_read_back(peer_id, peer_name, instance_name, platform);
    let attrs = txt_map(txt_records(peer_id, peer_name, instance_name, platform));
    assert(attrs[TXT_KEY_PEER_ID@] == peer_id);
    assert(attrs[TXT_KEY_PEER_NAME@] == peer_name);
    assert(attrs[TXT_KEY_INSTANCE@] == instance_name);
    assert(attrs[TXT_KEY_PLATFORM@] == platform);
    assert(attrs[TXT_KEY_VERSION@] == PROTOCOL_VERSION@);
}

} // verus!
