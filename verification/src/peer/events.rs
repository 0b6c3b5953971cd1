//! The changes of the peer directory that subscribers are told of.

use super::info::{PeerInfo, PeerInfoView};
use crate::sys::{is_random_uuid, random_uuid, utc_now_millis};
use vstd::prelude::*;

verus! {

/// The kinds of change that the directory reports.
#[derive(Clone, Copy, Debug, PartialEq, Eq, Structural)]
pub enum PeerEventKind {
    /// A peer was seen for the first time.
    Joined,
    /// A connected peer's metadata changed.
    Updated,
    /// A peer stopped being connected.
    Left,
    /// A peer that had left was seen again.
    Reconnected,
}

/// One change of the peer directory.
///
/// Every event carries a random identifier, the wall-clock time at which it
/// was made (milliseconds since the Unix epoch), the name of the component
/// that caused the change, and the peer concerned. `Left` carries the peer's
/// identifier only, without metadata.
#[derive(Debug)]
pub enum PeerEvent {
    Joined { id: u128, timestamp: i64, source: String, peer: PeerInfo },
    Updated { id: u128, timestamp: i64, source: String, peer: PeerInfo },
    Left { id: u128, timestamp: i64, source: String, peer: PeerInfo },
    Reconnected { id: u128, timestamp: i64, source: String, peer: PeerInfo },
}

/// What a `PeerEvent` holds, as mathematical values.
pub struct PeerEventView {
    pub kind: PeerEventKind,
    pub id: u128,
    pub timestamp: i64,
    pub source: Seq<char>,
    pub peer: PeerInfoView,
}

impl View for PeerEvent {
    type V = PeerEventView;

    open spec fn view(&self) -> PeerEventView {
        match *self {
            PeerEvent::Joined { id, timestamp, source, peer } => PeerEventView {
                kind: PeerEventKind::Joined,
                id,
                timestamp,
                source: source@,
                peer: peer@,
            },
            PeerEvent::Updated { id, timestamp, source, peer } => PeerEventView {
                kind: PeerEventKind::Updated,
                id,
                timestamp,
                source: source@,
                peer: peer@,
            },
            PeerEvent::Left { id, timestamp, source, peer } => PeerEventView {
                kind: PeerEventKind::Left,
                id,
                timestamp,
                source: source@,
                peer: peer@,
            },
            PeerEvent::Reconnected { id, timestamp, source, peer } => PeerEventView {
                kind: PeerEventKind::Reconnected,
                id,
                timestamp,
                source: source@,
                peer: peer@,
            },
        }
    }
}

/// Whether `event` is of the given kind, was caused by `source` and concerns
/// `peer`. Its identifier is some random UUID, and its timestamp is left
/// open.
pub open spec fn reports(
    event: PeerEventView,
    kind: PeerEventKind,
    source: Seq<char>,
    peer: PeerInfoView,
) -> bool {
    &&& event.kind == kind
    &&& event.source == source
    &&& event.peer == peer
    &&& is_random_uuid(event.id)
}

impl Clone for PeerEvent {
    fn clone(&self) -> (copy: Self)
        ensures
            copy@ == self@,
    {
        match self {
            PeerEvent::Joined { id, timestamp, source, peer } => PeerEvent::Joined {
                id: *id,
                timestamp: *timestamp,
                source: source.clone(),
                peer: peer.clone(),
            },
            PeerEvent::Updated { id, timestamp, source, peer } => PeerEvent::Updated {
                id: *id,
                timestamp: *timestamp,
                source: source.clone(),
                peer: peer.clone(),
            },
            PeerEvent::Left { id, timestamp, source, peer } => PeerEvent::Left {
                id: *id,
                timestamp: *timestamp,
                source: source.clone(),
                peer: peer.clone(),
            },
            PeerEvent::Reconnected { id, timestamp, source, peer } => PeerEvent::Reconnected {
                id: *id,
                timestamp: *timestamp,
                source: source.clone(),
                peer: peer.clone(),
            },
        }
    }
}

impl PeerEvent {
    /// A first sighting of `peer`, stamped with a fresh identifier and the
    /// current time.
    pub fn new_joined(source: &str, peer: PeerInfo) -> (event: Self)
        ensures
            reports(event@, PeerEventKind::Joined, source@, peer@),
    {
        PeerEvent::Joined {
            id: random_uuid(),
            timestamp: utc_now_millis(),
            source: source.to_owned(),
            peer,
        }
    }

    /// A change of `peer`'s metadata, stamped with a fresh identifier and the
    /// current time.
    pub fn new_updated(source: &str, peer: PeerInfo) -> (event: Self)
        ensures
            reports(event@, PeerEventKind::Updated, source@, peer@),
    {
        PeerEvent::Updated {
            id: random_uuid(),
            timestamp: utc_now_millis(),
            source: source.to_owned(),
            peer,
        }
    }

    /// The departure of the peer called `id`, stamped with a fresh identifier
    /// and the current time. The event carries no metadata.
    pub fn new_left(source: &str, id: String) -> (event: Self)
        ensures
            reports(
                event@,
                PeerEventKind::Left,
                source@,
                PeerInfoView { id: id@, metadata: None },
            ),
    {
        PeerEvent::Left {
            id: random_uuid(),
            timestamp: utc_now_millis(),
            source: source.to_owned(),
            peer: PeerInfo { id, metadata: None },
        }
    }

    /// The return of `peer` after it had left, stamped with a fresh
    /// identifier and the current time.
    pub fn new_reconnected(source: &str, peer: PeerInfo) -> (event: Self)
        ensures
            reports(event@, PeerEventKind::Reconnected, source@, peer@),
    {
        PeerEvent::Reconnected {
            id: random_uuid(),
            timestamp: utc_now_millis(),
            source: source.to_owned(),
            peer,
        }
    }

    /// The kind of change that the event reports.
    pub fn kind(&self) -> (kind: PeerEventKind)
        ensures
            kind == self@.kind,
    {
        match self {
            PeerEvent::Joined { .. } => PeerEventKind::Joined,
            PeerEvent::Updated { .. } => PeerEventKind::Updated,
            PeerEvent::Left { .. } => PeerEventKind::Left,
            PeerEvent::Reconnected { .. } => PeerEventKind::Reconnected,
        }
    }

    /// The peer that the event concerns.
    pub fn peer(&self) -> (peer: &PeerInfo)
        ensures
            peer@ == self@.peer,
    {
        match self {
            PeerEvent::Joined { peer, .. } => peer,
            PeerEvent::Updated { peer, .. } => peer,
            PeerEvent::Left { peer, .. } => peer,
            PeerEvent::Reconnected { peer, .. } => peer,
        }
    }

    /// The name of the component that caused the change.
    pub fn source(&self) -> (source: &String)
        ensures
            source@ == self@.source,
    {
        match self {
            PeerEvent::Joined { source, .. } => source,
            PeerEvent::Updated { source, .. } => source,
            PeerEvent::Left { source, .. } => source,
            PeerEvent::Reconnected { source, .. } => source,
        }
    }

    /// The event's own identifier.
    pub fn event_id(&self) -> (id: u128)
        ensures
            id == self@.id,
    {
        match self {
            PeerEvent::Joined { id, .. } => *id,
            PeerEvent::Updated { id, .. } => *id,
            PeerEvent::Left { id, .. } => *id,
            PeerEvent::Reconnected { id, .. } => *id,
        }
    }

    /// When the event was made, in milliseconds since the Unix epoch.
    pub fn timestamp(&self) -> (timestamp: i64)
        ensures
            timestamp == self@.timestamp,
    {
        match self {
            PeerEvent::Joined { timestamp, .. } => *timestamp,
            PeerEvent::Updated { timestamp, .. } => *timestamp,
            PeerEvent::Left { timestamp, .. } => *timestamp,
            PeerEvent::Reconnected { timestamp, .. } => *timestamp,
        }
    }
}

} // verus!
