//! Between a peer and the pair of its identifier and metadata, as a map from
//! identifiers to metadata holds them.

use super::info::{PeerInfo, PeerInfoView};
use super::metadata::PeerMetadata;
use vstd::prelude::*;

verus! {

impl PeerInfo {
    /// The peer with the given identifier and a copy of the given metadata.
    pub fn from_parts(id: &str, metadata: &PeerMetadata) -> (info: Self)
        ensures
            info@ == (PeerInfoView { id: id@, metadata: Some(metadata@) }),
    {
        PeerInfo { id: id.to_owned(), metadata: Some(metadata.clone()) }
    }

    /// The identifier and the metadata of a peer that has metadata.
    pub fn into_parts(self) -> (parts: (String, PeerMetadata))
        requires
            self.metadata is Some,
        ensures
            parts.0@ == self@.id,
            Some(parts.1@) == self@.metadata,
    {
        match self.metadata {
            Some(metadata) => (self.id, metadata),
            None => {
                assert(false);
                (self.id, unreached())
            },
        }
    }
}

} // verus!
