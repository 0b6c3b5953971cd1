//! A peer as the directory reports it: its identifier and, where known, its
//! metadata.

use super::metadata::{PeerMetadata, PeerMetadataView};
use vstd::prelude::*;
use vstd::std_specs::cmp::PartialEqSpecImpl;

verus! {

/// A peer's identifier together with the metadata last seen for it.
///
/// The metadata is absent where only the identifier is known, as for a peer
/// that has left.
#[derive(Debug)]
pub struct PeerInfo {
    pub id: String,
    pub metadata: Option<PeerMetadata>,
}

/// What a `PeerInfo` holds, as mathematical values.
pub struct PeerInfoView {
    pub id: Seq<char>,
    pub metadata: Option<PeerMetadataView>,
}

impl View for PeerInfo {
    type V = PeerInfoView;

    open spec fn view(&self) -> PeerInfoView {
        PeerInfoView {
            id: self.id@,
            metadata: match self.metadata {
                Some(m) => Some(m@),
                None => None,
            },
        }
    }
}

impl Clone for PeerInfo {
    fn clone(&self) -> (copy: Self)
        ensures
            copy@ == self@,
    {
        PeerInfo {
            id: self.id.clone(),
            metadata: match &self.metadata {
                Some(m) => Some(m.clone()),
                None => None,
            },
        }
    }
}

impl PartialEq for PeerInfo {
    fn eq(&self, other: &Self) -> (same: bool) {
        self.id == other.id && !self.is_metadata_different_from(other)
    }
}

impl PartialEqSpecImpl for PeerInfo {
    open spec fn obeys_eq_spec() -> bool {
        true
    }

    open spec fn eq_spec(&self, other: &Self) -> bool {
        self@ == other@
    }
}

impl Eq for PeerInfo {

}

impl PeerInfo {
    /// A peer with known metadata.
    pub fn new(id: &str, metadata: PeerMetadata) -> (info: Self)
        ensures
            info@ == (PeerInfoView { id: id@, metadata: Some(metadata@) }),
    {
        PeerInfo { id: id.to_owned(), metadata: Some(metadata) }
    }

    /// A peer of which only the identifier is known.
    pub fn without_metadata(id: &str) -> (info: Self)
        ensures
            info@ == (PeerInfoView { id: id@, metadata: None }),
    {
        PeerInfo { id: id.to_owned(), metadata: None }
    }

    /// Whether the two peers' metadata differ: in any field where both have
    /// metadata, or by one having metadata and the other none.
    pub fn is_metadata_different_from(&self, other: &Self) -> (different: bool)
        ensures
            different == (self@.metadata != other@.metadata),
    {
        match (&self.metadata, &other.metadata) {
            (Some(a), Some(b)) => a.is_different(b),
            (None, None) => false,
            _ => true,
        }
    }
}

} // verus!
