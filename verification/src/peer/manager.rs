//! The peer directory: who is on the network, and what is known of each.
//!
//! The directory keeps one record per peer identifier, in the order in which
//! the peers were first seen. A record is never removed: a peer that leaves
//! is kept and marked as disconnected, so that its return can be told from a
//! first sighting. Time is a count of milliseconds on a clock of the caller's
//! choice, handed in with each call.

use super::events::{reports, PeerEvent, PeerEventKind};
use super::info::{PeerInfo, PeerInfoView};
use super::metadata::{PeerMetadata, PeerMetadataView};
use crate::text::{str_eq, texts};
use vstd::prelude::*;

verus! {

/// What the directory holds for one peer.
#[derive(Debug)]
pub struct ManagedPeer {
    pub info: PeerInfo,
    /// When the peer was last sighted.
    pub last_seen: u64,
    pub is_connected: bool,
    /// How often the peer has connected: once when it joined, and once more
    /// for each return after it had left. The count stops at `u32::MAX`.
    pub connection_count: u32,
}

/// What a `ManagedPeer` holds, as mathematical values.
pub struct ManagedPeerView {
    pub info: PeerInfoView,
    pub last_seen: u64,
    pub is_connected: bool,
    pub connection_count: u32,
}

impl View for ManagedPeer {
    type V = ManagedPeerView;

    open spec fn view(&self) -> ManagedPeerView {
        ManagedPeerView {
            info: self.info@,
            last_seen: self.last_seen,
            is_connected: self.is_connected,
            connection_count: self.connection_count,
        }
    }
}

impl Clone for ManagedPeer {
    fn clone(&self) -> (copy: Self)
        ensures
            copy@ == self@,
    {
        ManagedPeer {
            info: self.info.clone(),
            last_seen: self.last_seen,
            is_connected: self.is_connected,
            connection_count: self.connection_count,
        }
    }
}

/// The record of a peer sighted for the first time at `now`.
pub open spec fn first_sighting(info: PeerInfoView, now: u64) -> ManagedPeerView {
    ManagedPeerView { info, last_seen: now, is_connected: true, connection_count: 1 }
}

/// The later of two times.
pub open spec fn later(a: u64, b: u64) -> u64 {
    if a >= b {
        a
    } else {
        b
    }
}

/// `count` and one more, stopping at `u32::MAX`.
pub open spec fn one_more(count: u32) -> u32 {
    if count < u32::MAX {
        (count + 1) as u32
    } else {
        count
    }
}

/// The record `peer` after a sighting at `now` that reported `info`: the
/// reported information replaces the old, the time of the last sighting
/// never moves back, the peer is connected, and a return after leaving is
/// counted.
pub open spec fn refreshed(peer: ManagedPeerView, info: PeerInfoView, now: u64) -> ManagedPeerView {
    ManagedPeerView {
        info,
        last_seen: later(peer.last_seen, now),
        is_connected: true,
        connection_count: if peer.is_connected {
            peer.connection_count
        } else {
            one_more(peer.connection_count)
        },
    }
}

/// The record `peer` once it has left.
pub open spec fn departed(peer: ManagedPeerView) -> ManagedPeerView {
    ManagedPeerView { is_connected: false, ..peer }
}

/// Whether no two records are of the same peer.
pub open spec fn distinct_ids(peers: Seq<ManagedPeerView>) -> bool {
    forall|i: int, j: int| 0 <= i < j < peers.len() ==> peers[i].info.id != peers[j].info.id
}

/// Whether some record is of the peer called `id`.
pub open spec fn knows(peers: Seq<ManagedPeerView>, id: Seq<char>) -> bool {
    exists|i: int| 0 <= i < peers.len() && peers[i].info.id == id
}

/// Where the record of the peer called `id` stands, if there is one.
pub open spec fn position_of(peers: Seq<ManagedPeerView>, id: Seq<char>) -> Option<int> {
    if knows(peers, id) {
        Some(choose|i: int| 0 <= i < peers.len() && peers[i].info.id == id)
    } else {
        None
    }
}

/// The record of the peer called `id`, if there is one.
pub open spec fn lookup(peers: Seq<ManagedPeerView>, id: Seq<char>) -> Option<ManagedPeerView> {
    match position_of(peers, id) {
        Some(i) => Some(peers[i]),
        None => None,
    }
}

/// The directory after a sighting at `now` that reported `info`.
pub open spec fn upserted(peers: Seq<ManagedPeerView>, info: PeerInfoView, now: u64) -> Seq<
    ManagedPeerView,
> {
    match position_of(peers, info.id) {
        Some(i) => peers.update(i, refreshed(peers[i], info, now)),
        None => peers.push(first_sighting(info, now)),
    }
}

/// The kind of event that a sighting reporting `info` gives rise to, if any:
/// `Joined` for a peer not yet known, `Reconnected` for one that had left,
/// `Updated` for a connected one whose metadata differs, and none for a
/// connected one whose metadata is the same.
pub open spec fn upsert_kind(peers: Seq<ManagedPeerView>, info: PeerInfoView) -> Option<
    PeerEventKind,
> {
    match lookup(peers, info.id) {
        None => Some(PeerEventKind::Joined),
        Some(peer) => if !peer.is_connected {
            Some(PeerEventKind::Reconnected)
        } else if peer.info.metadata != info.metadata {
            Some(PeerEventKind::Updated)
        } else {
            None
        },
    }
}

/// Whether the peer called `id` is known and connected.
pub open spec fn is_present(peers: Seq<ManagedPeerView>, id: Seq<char>) -> bool {
    match lookup(peers, id) {
        Some(peer) => peer.is_connected,
        None => false,
    }
}

/// The directory after the peer called `id` has been marked as disconnected:
/// changed only where that peer is known and connected.
pub open spec fn marked_disconnected(peers: Seq<ManagedPeerView>, id: Seq<char>) -> Seq<
    ManagedPeerView,
> {
    match position_of(peers, id) {
        Some(i) => if peers[i].is_connected {
            peers.update(i, departed(peers[i]))
        } else {
            peers
        },
        None => peers,
    }
}

/// Whether new metadata for the peer called `id` changes its record: the peer
/// is known and what it has differs from `metadata`.
pub open spec fn metadata_changes(
    peers: Seq<ManagedPeerView>,
    id: Seq<char>,
    metadata: PeerMetadataView,
) -> bool {
    match lookup(peers, id) {
        Some(peer) => peer.info.metadata != Some(metadata),
        None => false,
    }
}

/// The directory after the metadata of the peer called `id` has been set to
/// `metadata`. Neither the time of its last sighting nor whether it is
/// connected changes.
pub open spec fn with_metadata(
    peers: Seq<ManagedPeerView>,
    id: Seq<char>,
    metadata: PeerMetadataView,
) -> Seq<ManagedPeerView> {
    match position_of(peers, id) {
        Some(i) => if peers[i].info.metadata != Some(metadata) {
            peers.update(
                i,
                ManagedPeerView { info: PeerInfoView { id, metadata: Some(metadata) }, ..peers[i] },
            )
        } else {
            peers
        },
        None => peers,
    }
}

/// Whether `peer` is connected and was last sighted more than `threshold`
/// before `now`.
pub open spec fn is_stale(peer: ManagedPeerView, now: u64, threshold: u64) -> bool {
    peer.is_connected && now - peer.last_seen > threshold
}

/// The identifiers of the stale peers, in the order of the directory.
pub open spec fn stale_ids(peers: Seq<ManagedPeerView>, now: u64, threshold: u64) -> Seq<
    Seq<char>,
> {
    peers.filter(|p: ManagedPeerView| is_stale(p, now, threshold)).map_values(
        |p: ManagedPeerView| p.info.id,
    )
}

/// The record at place `k` is the only one of its peer.
pub proof fn lemma_position_of(peers: Seq<ManagedPeerView>, k: int)
    requires
        distinct_ids(peers),
        0 <= k < peers.len(),
    ensures
        position_of(peers, peers[k].info.id) == Some(k),
        lookup(peers, peers[k].info.id) == Some(peers[k]),
{
    let id = peers[k].info.id;
    assert(knows(peers, id));
    let i = choose|i: int| 0 <= i < peers.len() && peers[i].info.id == id;
    if i < k {
        assert(peers[i].info.id != peers[k].info.id);
    } else if k < i {
        assert(peers[k].info.id != peers[i].info.id);
    }
}

impl ManagedPeer {
    /// The record of a peer sighted for the first time at `now`.
    pub fn new(info: PeerInfo, now: u64) -> (peer: Self)
        ensures
            peer@ == first_sighting(info@, now),
    {
        ManagedPeer { info, last_seen: now, is_connected: true, connection_count: 1 }
    }

    /// Takes in a sighting of this peer at `now` that reported `new_info`,
    /// and says whether the metadata changed by it.
    pub fn update(&mut self, new_info: PeerInfo, now: u64) -> (metadata_changed: bool)
        ensures
            final(self)@ == refreshed(old(self)@, new_info@, now),
            metadata_changed == (old(self)@.info.metadata != new_info@.metadata),
    {
        let metadata_changed = self.info.is_metadata_different_from(&new_info);
        self.info = new_info;
        if now > self.last_seen {
            self.last_seen = now;
        }
        if !self.is_connected {
            self.is_connected = true;
            if self.connection_count < u32::MAX {
                self.connection_count += 1;
            }
        }
        metadata_changed
    }
}

/// The peer directory.
pub struct PeerManager {
    peers: Vec<ManagedPeer>,
}

impl View for PeerManager {
    type V = Seq<ManagedPeerView>;

    /// The records, in the order in which their peers were first seen.
    closed spec fn view(&self) -> Seq<ManagedPeerView> {
        self.peers@.map_values(|p: ManagedPeer| p@)
    }
}

impl PeerManager {
    /// Whether the directory is well formed: it holds at most one record per
    /// peer.
    pub open spec fn wf(&self) -> bool {
        distinct_ids(self@)
    }

    /// An empty directory.
    pub fn new() -> (manager: Self)
        ensures
            manager.wf(),
            manager@ == Seq::<ManagedPeerView>::empty(),
    {
        let manager = PeerManager { peers: Vec::new() };
        assert(manager@ =~= Seq::<ManagedPeerView>::empty());
        manager
    }

    /// The number of peers ever seen.
    pub fn len(&self) -> (n: usize)
        ensures
            n == self@.len(),
    {
        self.peers.len()
    }

    fn find(&self, id: &str) -> (found: Option<usize>)
        requires
            self.wf(),
        ensures
            match found {
                Some(i) => i < self@.len() && self@[i as int].info.id == id@ && position_of(
                    self@,
                    id@,
                ) == Some(i as int),
                None => !knows(self@, id@) && position_of(self@, id@) is None,
            },
    {
        let mut i: usize = 0;
        while i < self.peers.len()
            invariant
                self.wf(),
                i <= self.peers@.len(),
                forall|k: int| 0 <= k < i ==> self@[k].info.id != id@,
            decreases self.peers@.len() - i,
        {
            if str_eq(self.peers[i].info.id.as_str(), id) {
                proof {
                    lemma_position_of(self@, i as int);
                }
                return Some(i);
            }
            i += 1;
        }
        None
    }

    /// Takes in a sighting of a peer at `now` and reports what it changed.
    ///
    /// A peer not yet known is recorded as connected, sighted once: `Joined`.
    /// A peer that had left is connected again with what the sighting
    /// reports: `Reconnected`. A connected peer whose metadata differs takes
    /// the new metadata: `Updated`. A connected peer whose metadata is the
    /// same only has the time of its last sighting refreshed, and no event is
    /// made. The result is the event to publish, if any; the directory has
    /// changed in a way worth telling exactly when there is one.
    pub fn upsert_peer(&mut self, source: &str, peer_info: PeerInfo, now: u64) -> (event: Option<
        PeerEvent,
    >)
        requires
            old(self).wf(),
        ensures
            final(self).wf(),
            final(self)@ == upserted(old(self)@, peer_info@, now),
            is_present(final(self)@, peer_info@.id),
            match event {
                Some(e) => upsert_kind(old(self)@, peer_info@) == Some(e@.kind) && reports(
                    e@,
                    e@.kind,
                    source@,
                    peer_info@,
                ),
                None => upsert_kind(old(self)@, peer_info@) is None,
            },
    {
        match self.find(peer_info.id.as_str()) {
            Some(i) => {
                let ghost before = self@;
                let ghost held = self.peers@;
                let was_connected = self.peers[i].is_connected;
                let metadata_changed = self.peers[i].update(peer_info.clone(), now);
                proof {
                    assert forall|k: int| 0 <= k < held.len() && k != i implies #[trigger] self@[k]
                        == before[k] by {
                        assert(self.peers@[k] == held[k]);
                    }
                    assert(self@ =~= before.update(
                        i as int,
                        refreshed(before[i as int], peer_info@, now),
                    ));
                    assert forall|a: int, b: int| 0 <= a < b < self@.len() implies self@[a].info.id
                        != self@[b].info.id by {
                        assert(self@[a].info.id == before[a].info.id);
                        assert(self@[b].info.id == before[b].info.id);
                    }
                    lemma_position_of(self@, i as int);
                }
                if !was_connected {
                    Some(PeerEvent::new_reconnected(source, peer_info))
                } else if metadata_changed {
                    Some(PeerEvent::new_updated(source, peer_info))
                } else {
                    None
                }
            },
            None => {
                let ghost before = self@;
                self.peers.push(ManagedPeer::new(peer_info.clone(), now));
                proof {
                    assert(self@ =~= before.push(first_sighting(peer_info@, now)));
                    assert forall|a: int, b: int| 0 <= a < b < self@.len() implies self@[a].info.id
                        != self@[b].info.id by {
                        if b == before.len() {
                            assert(self@[a] == before[a]);
                        }
                    }
                    lemma_position_of(self@, before.len() as int);
                }
                Some(PeerEvent::new_joined(source, peer_info))
            },
        }
    }
}

impl PeerManager {
    /// Marks the peer called `peer_id` as disconnected and reports its
    /// departure.
    ///
    /// Nothing changes and no event is made where the peer is unknown or is
    /// disconnected already: one departure is reported once.
    pub fn mark_disconnected(&mut self, source: &str, peer_id: &str) -> (event: Option<PeerEvent>)
        requires
            old(self).wf(),
        ensures
            final(self).wf(),
            final(self)@ == marked_disconnected(old(self)@, peer_id@),
            event is Some <==> is_present(old(self)@, peer_id@),
            event matches Some(e) ==> reports(
                e@,
                PeerEventKind::Left,
                source@,
                PeerInfoView { id: peer_id@, metadata: None },
            ),
    {
        match self.find(peer_id) {
            Some(i) => {
                if self.peers[i].is_connected {
                    let ghost before = self@;
                    let ghost held = self.peers@;
                    self.peers[i].is_connected = false;
                    proof {
                        assert forall|k: int| 0 <= k < held.len() && k != i implies #[trigger] self@[k]
                            == before[k] by {
                            assert(self.peers@[k] == held[k]);
                        }
                        assert(self@ =~= before.update(i as int, departed(before[i as int])));
                    }
                    Some(PeerEvent::new_left(source, peer_id.to_owned()))
                } else {
                    None
                }
            },
            None => None,
        }
    }

    /// What the directory reports of the peer called `peer_id`: a copy of
    /// its identifier and metadata, or nothing where the peer is unknown.
    pub fn get_peer_info(&self, peer_id: &str) -> (info: Option<PeerInfo>)
        requires
            self.wf(),
        ensures
            match lookup(self@, peer_id@) {
                Some(peer) => info matches Some(found) && found@ == peer.info,
                None => info is None,
            },
    {
        match self.find(peer_id) {
            Some(i) => Some(self.peers[i].info.clone()),
            None => None,
        }
    }

    /// A copy of the whole record of the peer called `peer_id`, or nothing
    /// where the peer is unknown.
    pub fn get_peer(&self, peer_id: &str) -> (record: Option<ManagedPeer>)
        requires
            self.wf(),
        ensures
            match lookup(self@, peer_id@) {
                Some(peer) => record matches Some(found) && found@ == peer,
                None => record is None,
            },
    {
        match self.find(peer_id) {
            Some(i) => Some(self.peers[i].clone()),
            None => None,
        }
    }

    /// What the directory reports of every peer, connected or not, in the
    /// order in which the peers were first seen.
    pub fn get_all_peers(&self) -> (all: Vec<PeerInfo>)
        ensures
            all@.len() == self@.len(),
            forall|i: int| 0 <= i < all@.len() ==> (#[trigger] all@[i])@ == self@[i].info,
    {
        let mut all: Vec<PeerInfo> = Vec::new();
        let mut i: usize = 0;
        while i < self.peers.len()
            invariant
                i <= self.peers@.len(),
                all@.len() == i,
                forall|k: int| 0 <= k < i ==> (#[trigger] all@[k])@ == self@[k].info,
            decreases self.peers@.len() - i,
        {
            all.push(self.peers[i].info.clone());
            i += 1;
        }
        all
    }

    /// Sets the metadata of the peer called `peer_id` and reports the change.
    ///
    /// Nothing changes and no event is made where the peer is unknown or has
    /// that very metadata already.
    pub fn update_peer_metadata(
        &mut self,
        source: &str,
        peer_id: &str,
        new_metadata: PeerMetadata,
    ) -> (event: Option<PeerEvent>)
        requires
            old(self).wf(),
        ensures
            final(self).wf(),
            final(self)@ == with_metadata(old(self)@, peer_id@, new_metadata@),
            event is Some <==> metadata_changes(old(self)@, peer_id@, new_metadata@),
            event matches Some(e) ==> reports(
                e@,
                PeerEventKind::Updated,
                source@,
                PeerInfoView { id: peer_id@, metadata: Some(new_metadata@) },
            ),
    {
        match self.find(peer_id) {
            Some(i) => {
                let new_info = PeerInfo::new(peer_id, new_metadata);
                if self.peers[i].info.is_metadata_different_from(&new_info) {
                    let ghost before = self@;
                    let ghost held = self.peers@;
                    self.peers[i].info = new_info.clone();
                    proof {
                        assert forall|k: int| 0 <= k < held.len() && k != i implies #[trigger] self@[k]
                            == before[k] by {
                            assert(self.peers@[k] == held[k]);
                        }
                        assert(self@ =~= before.update(
                            i as int,
                            ManagedPeerView { info: new_info@, ..before[i as int] },
                        ));
                    }
                    Some(PeerEvent::new_updated(source, new_info))
                } else {
                    None
                }
            },
            None => None,
        }
    }

    /// The identifiers of the connected peers that were last sighted more
    /// than `threshold` before `now`, in the order of the directory.
    pub fn check_stale_peers(&self, now: u64, threshold: u64) -> (stale: Vec<String>)
        ensures
            texts(stale@) == stale_ids(self@, now, threshold),
    {
        let mut stale: Vec<String> = Vec::new();
        let mut i: usize = 0;
        proof {
            assert(self@.take(0) =~= Seq::<ManagedPeerView>::empty());
            assert(texts(stale@) =~= stale_ids(self@.take(0), now, threshold));
        }
        while i < self.peers.len()
            invariant
                i <= self.peers@.len(),
                texts(stale@) == stale_ids(self@.take(i as int), now, threshold),
            decreases self.peers@.len() - i,
        {
            let peer = &self.peers[i];
            let ghost seen = self@.take(i as int);
            let ghost found = stale@;
            proof {
                lemma_stale_ids_push(seen, self@[i as int], now, threshold);
                assert(self@.take(i + 1) =~= seen.push(self@[i as int]));
            }
            if peer.is_connected && now > peer.last_seen && now - peer.last_seen > threshold {
                stale.push(peer.info.id.clone());
                proof {
                    assert(texts(stale@) =~= texts(found).push(peer.info.id@));
                }
            }
            i += 1;
        }
        proof {
            assert(self@.take(i as int) =~= self@);
        }
        stale
    }
}

/// What one more record adds to the stale identifiers.
pub proof fn lemma_stale_ids_push(
    peers: Seq<ManagedPeerView>,
    peer: ManagedPeerView,
    now: u64,
    threshold: u64,
)
    ensures
        stale_ids(peers.push(peer), now, threshold) == if is_stale(peer, now, threshold) {
            stale_ids(peers, now, threshold).push(peer.info.id)
        } else {
            stale_ids(peers, now, threshold)
        },
{
    let pred = |p: ManagedPeerView| is_stale(p, now, threshold);
    let all = peers.push(peer);
    reveal(Seq::filter);
    assert(all.drop_last() =~= peers);
    assert(all.last() == peer);
    if is_stale(peer, now, threshold) {
        assert(all.filter(pred) == peers.filter(pred).push(peer));
        assert(stale_ids(all, now, threshold) =~= stale_ids(peers, now, threshold).push(
            peer.info.id,
        ));
    } else {
        assert(all.filter(pred) == peers.filter(pred));
    }
}

} // verus!
