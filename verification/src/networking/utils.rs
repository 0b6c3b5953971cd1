//! Reading a peer out of the records of one discovery response.

use crate::config::{
    TXT_KEY_INSTANCE, TXT_KEY_PEER_ID, TXT_KEY_PEER_NAME, TXT_KEY_PLATFORM, TXT_KEY_VERSION,
    WS_PORT,
};
use crate::peer::address::{Endpoint, IpAddress};
use crate::peer::info::{PeerInfo, PeerInfoView};
use crate::peer::metadata::{PeerMetadata, PeerMetadataView};
use crate::text::{str_eq, texts};
use crate::utils::{attributes, parse_txt_record, txt_map};
use vstd::prelude::*;

verus! {

/// One record of a discovery response, with its addresses as the big-endian
/// integers of their octets.
#[derive(Debug, PartialEq, Eq)]
pub enum RecordKind {
    A(u32),
    AAAA(u128),
    CNAME(String),
    MX { preference: u16, exchange: String },
    NS(String),
    SRV { priority: u16, weight: u16, port: u16, target: String },
    TXT(Vec<String>),
    PTR(String),
    Unimplemented(Vec<u8>),
}

/// The entries of the first record of attributes, if there is one.
pub open spec fn first_txt(records: Seq<RecordKind>) -> Option<Seq<Seq<char>>>
    decreases records.len(),
{
    if records.len() == 0 {
        None
    } else {
        match records[0] {
            RecordKind::TXT(txt) => Some(texts(txt@)),
            _ => first_txt(records.drop_first()),
        }
    }
}

/// The address of the first address record, if there is one.
pub open spec fn first_ip(records: Seq<RecordKind>) -> Option<IpAddress>
    decreases records.len(),
{
    if records.len() == 0 {
        None
    } else {
        match records[0] {
            RecordKind::A(ip) => Some(IpAddress::V4(ip)),
            RecordKind::AAAA(ip) => Some(IpAddress::V6(ip)),
            _ => first_ip(records.drop_first()),
        }
    }
}

/// The port of the first service record, if there is one.
pub open spec fn first_port(records: Seq<RecordKind>) -> Option<u16>
    decreases records.len(),
{
    if records.len() == 0 {
        None
    } else {
        match records[0] {
            RecordKind::SRV { port, .. } => Some(port),
            _ => first_port(records.drop_first()),
        }
    }
}

/// Whether the attributes name a peer in full: none of the five keys is
/// missing.
pub open spec fn complete(attrs: Map<Seq<char>, Seq<char>>) -> bool {
    &&& attrs.contains_key(TXT_KEY_PEER_ID@)
    &&& attrs.contains_key(TXT_KEY_PEER_NAME@)
    &&& attrs.contains_key(TXT_KEY_INSTANCE@)
    &&& attrs.contains_key(TXT_KEY_PLATFORM@)
    &&& attrs.contains_key(TXT_KEY_VERSION@)
}

/// The peer that attributes, an address and a discovery port describe. It
/// takes messages at the same address, on the messaging port.
pub open spec fn described_peer(attrs: Map<Seq<char>, Seq<char>>, ip: IpAddress, port: u16)
    -> PeerInfoView {
    PeerInfoView {
        id: attrs[TXT_KEY_PEER_ID@],
        metadata: Some(
            PeerMetadataView {
                mdns_addr: Endpoint { ip, port },
                ws_addr: Endpoint { ip, port: WS_PORT },
                name: attrs[TXT_KEY_PEER_NAME@],
                instance: attrs[TXT_KEY_INSTANCE@],
                version: attrs[TXT_KEY_VERSION@],
                platform: attrs[TXT_KEY_PLATFORM@],
            },
        ),
    }
}

/// The peer that the records of a response sight, if they sight one.
///
/// They do where the first record of attributes names a peer in full, that
/// peer is not the one called `our_id`, and there are an address record and a
/// service record. The first of each kind counts.
pub open spec fn sighting(records: Seq<RecordKind>, our_id: Seq<char>) -> Option<PeerInfoView> {
    match (first_txt(records), first_ip(records), first_port(records)) {
        (Some(txt), Some(ip), Some(port)) => if complete(txt_map(txt)) && txt_map(
            txt,
        )[TXT_KEY_PEER_ID@] != our_id {
            Some(described_peer(txt_map(txt), ip, port))
        } else {
            None
        },
        _ => None,
    }
}

fn find_txt(records: &[RecordKind]) -> (found: Option<&Vec<String>>)
    ensures
        match found {
            Some(txt) => first_txt(records@) == Some(texts(txt@)),
            None => first_txt(records@) is None,
        },
{
    let mut i: usize = 0;
    proof {
        assert(records@.skip(0) =~= records@);
    }
    while i < records.len()
        invariant
            i <= records@.len(),
            first_txt(records@) == first_txt(records@.skip(i as int)),
        decreases records@.len() - i,
    {
        proof {
            assert(records@.skip(i as int).drop_first() =~= records@.skip(i + 1));
        }
        match &records[i] {
            RecordKind::TXT(txt) => {
                return Some(txt);
            },
            _ => {},
        }
        i += 1;
    }
    None
}

fn find_ip(records: &[RecordKind]) -> (found: Option<IpAddress>)
    ensures
        found == first_ip(records@),
{
    let mut i: usize = 0;
    proof {
        assert(records@.skip(0) =~= records@);
    }
    while i < records.len()
        invariant
            i <= records@.len(),
            first_ip(records@) == first_ip(records@.skip(i as int)),
        decreases records@.len() - i,
    {
        proof {
            assert(records@.skip(i as int).drop_first() =~= records@.skip(i + 1));
        }
        match &records[i] {
            RecordKind::A(ip) => {
                return Some(IpAddress::V4(*ip));
            },
            RecordKind::AAAA(ip) => {
                return Some(IpAddress::V6(*ip));
            },
            _ => {},
        }
        i += 1;
    }
    None
}

fn find_port(records: &[RecordKind]) -> (found: Option<u16>)
    ensures
        found == first_port(records@),
{
    let mut i: usize = 0;
    proof {
        assert(records@.skip(0) =~= records@);
    }
    while i < records.len()
        invariant
            i <= records@.len(),
            first_port(records@) == first_port(records@.skip(i as int)),
        decreases records@.len() - i,
    {
        proof {
            assert(records@.skip(i as int).drop_first() =~= records@.skip(i + 1));
        }
        match &records[i] {
            RecordKind::SRV { port, .. } => {
                return Some(*port);
            },
            _ => {},
        }
        i += 1;
    }
    None
}

/// Reads the sighted peer out of the records of one discovery response.
///
/// A response that lacks one of the five attributes, an address or a service
/// port sights nobody, and neither does a sighting of the peer called
/// `our_id`, which is this peer itself.
pub fn extract_peer_info(records: &[RecordKind], our_id: &str) -> (peer: Option<PeerInfo>)
    ensures
        match peer {
            Some(info) => sighting(records@, our_id@) == Some(info@),
            None => sighting(records@, our_id@) is None,
        },
{
    let txt = match find_txt(records) {
        Some(txt) => txt,
        None => {
            return None;
        },
    };
    let parsed = parse_txt_record(txt.as_slice());
    let ghost attrs = attributes(parsed@);

    let peer_id = match parsed.get(TXT_KEY_PEER_ID) {
        Some(value) => value.clone(),
        None => {
            return None;
        },
    };
    assert(peer_id@ == attrs[TXT_KEY_PEER_ID@]);
    if str_eq(peer_id.as_str(), our_id) {
        return None;
    }
    let peer_name = match parsed.get(TXT_KEY_PEER_NAME) {
        Some(value) => value.clone(),
        None => {
            return None;
        },
    };
    let instance = match parsed.get(TXT_KEY_INSTANCE) {
        Some(value) => value.clone(),
        None => {
            return None;
        },
    };
    let platform = match parsed.get(TXT_KEY_PLATFORM) {
        Some(value) => value.clone(),
        None => {
            return None;
        },
    };
    let version = match parsed.get(TXT_KEY_VERSION) {
        Some(value) => value.clone(),
        None => {
            return None;
        },
    };
    let ip = match find_ip(records) {
        Some(ip) => ip,
        None => {
            return None;
        },
    };
    let port = match find_port(records) {
        Some(port) => port,
        None => {
            return None;
        },
    };
    let mdns_addr = Endpoint::new(ip, port);
    let ws_addr = Endpoint::new(ip, WS_PORT);
    Some(
        PeerInfo {
            id: peer_id,
            metadata: Some(
                PeerMetadata { mdns_addr, ws_addr, name: peer_name, instance, platform, version },
            ),
        },
    )
}

} // verus!
