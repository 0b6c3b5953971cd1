//! Feeding the sightings of other peers into the directory.

use super::utils::{extract_peer_info, sighting, RecordKind};
use crate::config::SOURCE_DISCOVERY;
use crate::peer::events::{reports, PeerEvent};
use crate::peer::manager::{upsert_kind, upserted, PeerManager};
use crate::text::str_eq;
use vstd::prelude::*;

verus! {

/// Takes in one discovery response at `now`.
///
/// Where the response sights a peer other than the one called `our_id`, the
/// sighting goes to the directory, and what the directory reports of it is
/// the result. Any other response is passed over: the directory stays as it
/// is and nothing is reported.
pub fn handle_response(
    manager: &mut PeerManager,
    records: &[RecordKind],
    our_id: &str,
    now: u64,
) -> (event: Option<PeerEvent>)
    requires
        old(manager).wf(),
    ensures
        final(manager).wf(),
        match sighting(records@, our_id@) {
            Some(info) => {
                &&& final(manager)@ == upserted(old(manager)@, info, now)
                &&& match event {
                    Some(e) => upsert_kind(old(manager)@, info) == Some(e@.kind) && reports(
                        e@,
                        e@.kind,
                        SOURCE_DISCOVERY@,
                        info,
                    ),
                    None => upsert_kind(old(manager)@, info) is None,
                }
            },
            None => final(manager)@ == old(manager)@ && event is None,
        },
{
    match extract_peer_info(records, our_id) {
        Some(peer_info) => {
            if !str_eq(peer_info.id.as_str(), our_id) {
                manager.upsert_peer(SOURCE_DISCOVERY, peer_info, now)
            } else {
                None
            }
        },
        None => None,
    }
}

} // verus!
