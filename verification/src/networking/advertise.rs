//! What this peer announces of itself.

use crate::config::{SERVICE_PORT, SERVICE_TYPE};
use crate::peer::identity::PeerIdentity;
use crate::text::texts;
use crate::utils::{build_txt_records, txt_records};
use vstd::prelude::*;

verus! {

/// One announcement of a service: what is handed to the responder that
/// answers discovery queries.
#[derive(Debug)]
pub struct ServiceAdvertisement {
    pub service_type: String,
    pub instance_name: String,
    pub port: u16,
    pub txt: Vec<String>,
}

/// The announcement of the peer with the given identity: the chat service on
/// the discovery port, under the peer's instance name, with the attributes
/// that name the peer.
///
/// It is made anew for every announcement, so that it follows a change of
/// the peer's name.
pub fn advertisement_for(identity: &PeerIdentity) -> (advertisement: ServiceAdvertisement)
    ensures
        advertisement.service_type@ == SERVICE_TYPE@,
        advertisement.instance_name@ == identity@.instance_name,
        advertisement.port == SERVICE_PORT,
        exists|platform: Seq<char>|
            texts(advertisement.txt@) == txt_records(
                identity@.peer_id,
                identity@.peer_name,
                identity@.instance_name,
                platform,
            ),
{
    let peer_id = identity.peer_id();
    let peer_name = identity.peer_name();
    let instance_name = identity.instance_name();
    let txt = build_txt_records(peer_id.as_str(), peer_name.as_str(), instance_name.as_str());
    ServiceAdvertisement {
        service_type: SERVICE_TYPE.to_owned(),
        instance_name,
        port: SERVICE_PORT,
        txt,
    }
}

} // verus!
