//! The addressing and version information that a peer announces.

use super::address::Endpoint;
use vstd::prelude::*;
use vstd::std_specs::cmp::PartialEqSpecImpl;

verus! {

/// Snapshot of one peer's addressing and version information.
///
/// A value type: two snapshots are the same exactly when every field is; a
/// change to any field is a change of the whole.
#[derive(Debug)]
pub struct PeerMetadata {
    pub mdns_addr: Endpoint,
    pub ws_addr: Endpoint,
    pub name: String,
    pub instance: String,
    pub version: String,
    pub platform: String,
}

/// What a `PeerMetadata` holds, as mathematical values.
pub struct PeerMetadataView {
    pub mdns_addr: Endpoint,
    pub ws_addr: Endpoint,
    pub name: Seq<char>,
    pub instance: Seq<char>,
    pub version: Seq<char>,
    pub platform: Seq<char>,
}

impl View for PeerMetadata {
    type V = PeerMetadataView;

    open spec fn view(&self) -> PeerMetadataView {
        PeerMetadataView {
            mdns_addr: self.mdns_addr,
            ws_addr: self.ws_addr,
            name: self.name@,
            instance: self.instance@,
            version: self.version@,
            platform: self.platform@,
        }
    }
}

impl Clone for PeerMetadata {
    fn clone(&self) -> (copy: Self)
        ensures
            copy@ == self@,
    {
        PeerMetadata {
            mdns_addr: self.mdns_addr,
            ws_addr: self.ws_addr,
            name: self.name.clone(),
            instance: self.instance.clone(),
            version: self.version.clone(),
            platform: self.platform.clone(),
        }
    }
}

impl PartialEq for PeerMetadata {
    fn eq(&self, other: &Self) -> (same: bool) {
        self.mdns_addr == other.mdns_addr && self.ws_addr == other.ws_addr && self.name
            == other.name && self.instance == other.instance && self.version == other.version
            && self.platform == other.platform
    }
}

impl PartialEqSpecImpl for PeerMetadata {
    open spec fn obeys_eq_spec() -> bool {
        true
    }

    open spec fn eq_spec(&self, other: &Self) -> bool {
        self@ == other@
    }
}

impl Eq for PeerMetadata {

}

impl PeerMetadata {
    /// Whether any field of `self` differs from the same field of `other`.
    pub fn is_different(&self, other: &Self) -> (different: bool)
        ensures
            different == (self@ != other@),
    {
        self.mdns_addr != other.mdns_addr || self.ws_addr != other.ws_addr || self.name
            != other.name || self.instance != other.instance || self.version != other.version
            || self.platform != other.platform
    }
}

} // verus!
