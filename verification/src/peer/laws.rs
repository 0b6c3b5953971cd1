//! What holds of the peer directory whatever is done with it.
//!
//! Each law is stated over the directory's model, a sequence of records with
//! distinct identifiers, and over the functions by which the directory's own
//! operations are specified.

use super::events::PeerEventKind;
use super::health::expired;
use super::info::PeerInfoView;
use super::manager::{
    distinct_ids, is_present, is_stale, knows, later, lemma_position_of, lemma_stale_ids_push,
    lookup, marked_disconnected, metadata_changes, position_of, refreshed, first_sighting, stale_ids, upsert_kind,
    upserted, with_metadata, ManagedPeerView,
};
use super::metadata::PeerMetadataView;
use vstd::prelude::*;

verus! {

/// A peer of which no record speaks is not found.
pub proof fn law_unknown_peer(peers: Seq<ManagedPeerView>, id: Seq<char>)
    requires
        forall|i: int| 0 <= i < peers.len() ==> (#[trigger] peers[i]).info.id != id,
    ensures
        !knows(peers, id),
        lookup(peers, id) is None,
{
}

/// A sighting changes the record of the sighted peer and of no other: that
/// peer's record is the refreshed one, or a first one where the peer was
/// unknown; every other peer is found as before; and the directory still has
/// one record per peer.
pub proof fn law_upsert_touches_one_peer(
    peers: Seq<ManagedPeerView>,
    info: PeerInfoView,
    now: u64,
    other: Seq<char>,
)
    requires
        distinct_ids(peers),
    ensures
        distinct_ids(upserted(peers, info, now)),
        lookup(upserted(peers, info, now), info.id) == Some(
            match lookup(peers, info.id) {
                Some(peer) => refreshed(peer, info, now),
                None => first_sighting(info, now),
            },
        ),
        other != info.id ==> lookup(upserted(peers, info, now), other) == lookup(peers, other),
{
    let after = upserted(peers, info, now);
    match position_of(peers, info.id) {
        Some(i) => {
            assert(after.len() == peers.len());
            assert forall|a: int, b: int| 0 <= a < b < after.len() implies after[a].info.id
                != after[b].info.id by {
                assert(after[a].info.id == peers[a].info.id);
                assert(after[b].info.id == peers[b].info.id);
            }
            lemma_position_of(after, i);
            if other != info.id {
                if knows(peers, other) {
                    let k = position_of(peers, other)->0;
                    lemma_position_of(peers, k);
                    assert(after[k] == peers[k]);
                    lemma_position_of(after, k);
                } else {
                    assert forall|j: int| 0 <= j < after.len() implies (#[trigger] after[j]).info.id
                        != other by {
                        assert(after[j].info.id == peers[j].info.id);
                    }
                }
            }
        },
        None => {
            assert(!knows(peers, info.id));
            assert forall|a: int, b: int| 0 <= a < b < after.len() implies after[a].info.id
                != after[b].info.id by {
                if b == peers.len() {
                    assert(after[a] == peers[a]);
                }
            }
            lemma_position_of(after, peers.len() as int);
            if other != info.id {
                if knows(peers, other) {
                    let k = position_of(peers, other)->0;
                    lemma_position_of(peers, k);
                    assert(after[k] == peers[k]);
                    lemma_position_of(after, k);
                } else {
                    assert forall|j: int| 0 <= j < after.len() implies (#[trigger] after[j]).info.id
                        != other by {
                        if j < peers.len() {
                            assert(after[j] == peers[j]);
                        }
                    }
                }
            }
        },
    }
}

/// A sighting that repeats what was reported last is silent: after any
/// sighting of a peer, a second one with the same metadata gives rise to no
/// event, and changes nothing of the directory but the time at which that
/// peer was last seen.
pub proof fn law_repeated_sighting_is_silent(
    peers: Seq<ManagedPeerView>,
    info: PeerInfoView,
    first: u64,
    second: u64,
)
    requires
        distinct_ids(peers),
    ensures
        upsert_kind(upserted(peers, info, first), info) is None,
        upserted(upserted(peers, info, first), info, second).len() == upserted(
            peers,
            info,
            first,
        ).len(),
        forall|i: int|
            #![trigger upserted(upserted(peers, info, first), info, second)[i]]
            0 <= i < upserted(peers, info, first).len() ==> upserted(
                upserted(peers, info, first),
                info,
                second,
            )[i] == if upserted(peers, info, first)[i].info.id == info.id {
                ManagedPeerView {
                    last_seen: later(upserted(peers, info, first)[i].last_seen, second),
                    ..upserted(peers, info, first)[i]
                }
            } else {
                upserted(peers, info, first)[i]
            },
{
    let once = upserted(peers, info, first);
    law_upsert_touches_one_peer(peers, info, first, info.id);
    let at = position_of(once, info.id)->0;
    lemma_position_of(once, at);
    assert forall|i: int| 0 <= i < once.len() && once[i].info.id == info.id implies i == at by {
        lemma_position_of(once, i);
    }
}

/// A peer that left and is sighted again is reported as reconnected, not as
/// joined, and is reported so once: the sighting that follows finds it
/// connected, and gives rise to an update or to nothing.
pub proof fn law_return_is_reported_once(
    peers: Seq<ManagedPeerView>,
    info: PeerInfoView,
    now: u64,
    next: PeerInfoView,
)
    requires
        distinct_ids(peers),
        knows(peers, info.id),
        next.id == info.id,
    ensures
        !is_present(marked_disconnected(peers, info.id), info.id),
        upsert_kind(marked_disconnected(peers, info.id), info) == Some(
            PeerEventKind::Reconnected,
        ),
        upsert_kind(upserted(marked_disconnected(peers, info.id), info, now), next) == if next.metadata
            == info.metadata {
            None
        } else {
            Some(PeerEventKind::Updated)
        },
{
    let at = position_of(peers, info.id)->0;
    lemma_position_of(peers, at);
    let gone = marked_disconnected(peers, info.id);
    law_departure_touches_one_peer(peers, info.id, info.id);
    law_upsert_touches_one_peer(gone, info, now, info.id);
}

/// Marking a peer as disconnected changes the record of that peer and of no
/// other, and only whether it is connected.
pub proof fn law_departure_touches_one_peer(
    peers: Seq<ManagedPeerView>,
    id: Seq<char>,
    other: Seq<char>,
)
    requires
        distinct_ids(peers),
    ensures
        distinct_ids(marked_disconnected(peers, id)),
        lookup(marked_disconnected(peers, id), id) == match lookup(peers, id) {
            Some(peer) => Some(ManagedPeerView { is_connected: false, ..peer }),
            None => None,
        },
        other != id ==> lookup(marked_disconnected(peers, id), other) == lookup(peers, other),
{
    let after = marked_disconnected(peers, id);
    assert(after.len() == peers.len());
    assert forall|j: int| 0 <= j < after.len() implies (#[trigger] after[j]).info.id
        == peers[j].info.id by {}
    lemma_same_ids(peers, after, id);
    lemma_same_ids(peers, after, other);
    if knows(peers, other) {
        let k = position_of(peers, other)->0;
        lemma_position_of(peers, k);
        lemma_position_of(after, k);
    }
    if knows(peers, id) {
        let k = position_of(peers, id)->0;
        lemma_position_of(peers, k);
        lemma_position_of(after, k);
    }
}

/// Two directories whose records are of the same peers, place by place, know
/// the same peers at the same places.
proof fn lemma_same_ids(a: Seq<ManagedPeerView>, b: Seq<ManagedPeerView>, id: Seq<char>)
    requires
        distinct_ids(a),
        a.len() == b.len(),
        forall|j: int| 0 <= j < a.len() ==> (#[trigger] b[j]).info.id == a[j].info.id,
    ensures
        distinct_ids(b),
        knows(b, id) == knows(a, id),
        position_of(b, id) == position_of(a, id),
{
    assert forall|i: int, j: int| 0 <= i < j < b.len() implies b[i].info.id != b[j].info.id by {
        assert(b[i].info.id == a[i].info.id);
        assert(b[j].info.id == a[j].info.id);
    }
    if knows(a, id) {
        let k = position_of(a, id)->0;
        assert(b[k].info.id == id);
        lemma_position_of(a, k);
        lemma_position_of(b, k);
    } else {
        assert forall|j: int| 0 <= j < b.len() implies (#[trigger] b[j]).info.id != id by {
            assert(b[j].info.id == a[j].info.id);
        }
    }
}

/// What is not reported has not happened: an operation that makes no event
/// leaves the directory as it was, but for a sighting, which may move the
/// time at which the sighted peer was last seen.
pub proof fn law_no_event_no_change(
    peers: Seq<ManagedPeerView>,
    info: PeerInfoView,
    metadata: PeerMetadataView,
    now: u64,
    threshold: u64,
)
    requires
        distinct_ids(peers),
    ensures
        upsert_kind(peers, info) is None ==> upserted(peers, info, now) == peers.update(
            position_of(peers, info.id)->0,
            ManagedPeerView {
                last_seen: later(lookup(peers, info.id)->0.last_seen, now),
                ..lookup(peers, info.id)->0
            },
        ),
        !is_present(peers, info.id) ==> marked_disconnected(peers, info.id) == peers,
        !metadata_changes(peers, info.id, metadata) ==> with_metadata(peers, info.id, metadata)
            == peers,
        stale_ids(peers, now, threshold).len() == 0 ==> expired(peers, now, threshold) == peers,
{
    if upsert_kind(peers, info) is None {
        let i = position_of(peers, info.id)->0;
        lemma_position_of(peers, i);
        assert(refreshed(peers[i], info, now) == ManagedPeerView {
            last_seen: later(peers[i].last_seen, now),
            ..peers[i]
        });
    }
    if stale_ids(peers, now, threshold).len() == 0 {
        assert forall|i: int| 0 <= i < peers.len() implies !is_stale(
            #[trigger] peers[i],
            now,
            threshold,
        ) by {
            law_stale_ids_are_the_stale_peers(peers, now, threshold, peers[i].info.id);
            if is_stale(peers[i], now, threshold) {
                assert(stale_ids(peers, now, threshold).contains(peers[i].info.id));
            }
        }
        assert(expired(peers, now, threshold) =~= peers);
    }
}

/// The time at which a peer was last seen never moves back, whatever is done
/// with the directory, and no operation moves a record to another place.
pub proof fn law_last_seen_never_moves_back(
    peers: Seq<ManagedPeerView>,
    info: PeerInfoView,
    metadata: PeerMetadataView,
    now: u64,
    threshold: u64,
    i: int,
)
    requires
        distinct_ids(peers),
        0 <= i < peers.len(),
    ensures
        upserted(peers, info, now)[i].info.id == peers[i].info.id,
        upserted(peers, info, now)[i].last_seen >= peers[i].last_seen,
        marked_disconnected(peers, info.id)[i].info.id == peers[i].info.id,
        marked_disconnected(peers, info.id)[i].last_seen == peers[i].last_seen,
        with_metadata(peers, info.id, metadata)[i].info.id == peers[i].info.id,
        with_metadata(peers, info.id, metadata)[i].last_seen == peers[i].last_seen,
        expired(peers, now, threshold)[i].info.id == peers[i].info.id,
        expired(peers, now, threshold)[i].last_seen == peers[i].last_seen,
{
    if knows(peers, info.id) {
        let k = position_of(peers, info.id)->0;
        lemma_position_of(peers, k);
    }
}

/// Only a sighting connects a peer: a peer that is connected after it was
/// marked as disconnected, after its metadata was set, or after a scan of the
/// liveness monitor was connected before.
pub proof fn law_only_a_sighting_connects(
    peers: Seq<ManagedPeerView>,
    id: Seq<char>,
    metadata: PeerMetadataView,
    now: u64,
    threshold: u64,
    i: int,
)
    requires
        0 <= i < peers.len(),
    ensures
        marked_disconnected(peers, id).len() == peers.len(),
        marked_disconnected(peers, id)[i].is_connected ==> peers[i].is_connected,
        with_metadata(peers, id, metadata).len() == peers.len(),
        with_metadata(peers, id, metadata)[i].is_connected == peers[i].is_connected,
        expired(peers, now, threshold).len() == peers.len(),
        expired(peers, now, threshold)[i].is_connected ==> peers[i].is_connected,
{
}

/// The stale identifiers are those of the stale peers.
pub proof fn law_stale_ids_are_the_stale_peers(
    peers: Seq<ManagedPeerView>,
    now: u64,
    threshold: u64,
    id: Seq<char>,
)
    ensures
        stale_ids(peers, now, threshold).contains(id) <==> exists|i: int|
            0 <= i < peers.len() && (#[trigger] peers[i]).info.id == id && is_stale(
                peers[i],
                now,
                threshold,
            ),
    decreases peers.len(),
{
    if peers.len() == 0 {
        reveal(Seq::filter);
        assert(stale_ids(peers, now, threshold) =~= Seq::<Seq<char>>::empty());
    } else {
        let init = peers.drop_last();
        let last = peers.last();
        assert(peers =~= init.push(last));
        lemma_stale_ids_push(init, last, now, threshold);
        law_stale_ids_are_the_stale_peers(init, now, threshold, id);
        let ids = stale_ids(peers, now, threshold);
        let before = stale_ids(init, now, threshold);
        if ids.contains(id) {
            let k = choose|k: int| 0 <= k < ids.len() && ids[k] == id;
            if k < before.len() {
                assert(before[k] == id);
                assert(before.contains(id));
                let i = choose|i: int|
                    0 <= i < init.len() && (#[trigger] init[i]).info.id == id && is_stale(
                        init[i],
                        now,
                        threshold,
                    );
                assert(peers[i] == init[i]);
            } else {
                assert(peers[peers.len() - 1] == last);
            }
        }
        if exists|i: int|
            0 <= i < peers.len() && (#[trigger] peers[i]).info.id == id && is_stale(
                peers[i],
                now,
                threshold,
            ) {
            let i = choose|i: int|
                0 <= i < peers.len() && (#[trigger] peers[i]).info.id == id && is_stale(
                    peers[i],
                    now,
                    threshold,
                );
            if i < init.len() {
                assert(init[i] == peers[i]);
                assert(before.contains(id));
                let k = choose|k: int| 0 <= k < before.len() && before[k] == id;
                assert(ids[k] == id);
            } else {
                assert(ids[ids.len() - 1] == id);
            }
        }
    }
}

/// A scan reports the departure of a peer once: no identifier is among the
/// stale ones twice.
pub proof fn law_one_event_per_departure(peers: Seq<ManagedPeerView>, now: u64, threshold: u64)
    requires
        distinct_ids(peers),
    ensures
        stale_ids(peers, now, threshold).no_duplicates(),
    decreases peers.len(),
{
    if peers.len() == 0 {
        reveal(Seq::filter);
        assert(stale_ids(peers, now, threshold) =~= Seq::<Seq<char>>::empty());
    } else {
        let init = peers.drop_last();
        let last = peers.last();
        assert(peers =~= init.push(last));
        lemma_stale_ids_push(init, last, now, threshold);
        law_one_event_per_departure(init, now, threshold);
        law_stale_ids_are_the_stale_peers(init, now, threshold, last.info.id);
        let before = stale_ids(init, now, threshold);
        if before.contains(last.info.id) {
            let i = choose|i: int|
                0 <= i < init.len() && (#[trigger] init[i]).info.id == last.info.id && is_stale(
                    init[i],
                    now,
                    threshold,
                );
            assert(peers[i] == init[i]);
            assert(peers[peers.len() - 1] == last);
            assert(false);
        }
    }
}

/// A peer that a scan found stale is not found stale again by any later scan
/// unless it was sighted in between: its departure is not reported twice.
pub proof fn law_departed_peer_is_not_stale(
    peers: Seq<ManagedPeerView>,
    now: u64,
    threshold: u64,
    later_now: u64,
    later_threshold: u64,
    id: Seq<char>,
)
    requires
        distinct_ids(peers),
        stale_ids(peers, now, threshold).contains(id),
    ensures
        !stale_ids(expired(peers, now, threshold), later_now, later_threshold).contains(id),
        !is_present(expired(peers, now, threshold), id),
{
    let after = expired(peers, now, threshold);
    law_stale_ids_are_the_stale_peers(peers, now, threshold, id);
    law_stale_ids_are_the_stale_peers(after, later_now, later_threshold, id);
    let i = choose|i: int|
        0 <= i < peers.len() && (#[trigger] peers[i]).info.id == id && is_stale(
            peers[i],
            now,
            threshold,
        );
    assert forall|j: int| 0 <= j < after.len() implies (#[trigger] after[j]).info.id
        == peers[j].info.id by {}
    lemma_same_ids(peers, after, id);
    lemma_position_of(peers, i);
    lemma_position_of(after, i);
    assert(!after[i].is_connected);
    if stale_ids(after, later_now, later_threshold).contains(id) {
        let j = choose|j: int|
            0 <= j < after.len() && (#[trigger] after[j]).info.id == id && is_stale(
                after[j],
                later_now,
                later_threshold,
            );
        lemma_position_of(after, j);
        assert(false);
    }
}

} // verus!
