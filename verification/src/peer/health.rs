//! The liveness monitor: peers that stop being sighted are taken to have
//! left.
//!
//! The monitor keeps nothing but its two settings. Whoever owns the timer
//! calls `tick` once per period; a scan that could not be made is simply made
//! at the next tick.

use super::events::{reports, PeerEvent, PeerEventKind};
use super::info::PeerInfoView;
use super::manager::{
    departed, distinct_ids, is_stale, lemma_position_of, lemma_stale_ids_push, stale_ids,
    ManagedPeerView, PeerManager,
};
use crate::config::{HEALTH_CHECK_PERIOD_MS, SOURCE_LIVENESS, STALE_THRESHOLD_MS};
use crate::text::texts;
use vstd::prelude::*;

verus! {

/// The directory after a scan at `now`: every stale peer has left, and
/// nothing else has changed.
pub open spec fn expired(peers: Seq<ManagedPeerView>, now: u64, threshold: u64) -> Seq<
    ManagedPeerView,
> {
    peers.map_values(
        |p: ManagedPeerView|
            if is_stale(p, now, threshold) {
                departed(p)
            } else {
                p
            },
    )
}

/// Where there is a stale peer there is a first one: none before it is
/// stale, its identifier heads the stale identifiers, and the rest of them
/// are those of the peers after it.
proof fn lemma_first_stale(peers: Seq<ManagedPeerView>, now: u64, threshold: u64) -> (j: int)
    requires
        stale_ids(peers, now, threshold).len() > 0,
    ensures
        0 <= j < peers.len(),
        is_stale(peers[j], now, threshold),
        forall|i: int| 0 <= i < j ==> !is_stale(#[trigger] peers[i], now, threshold),
        stale_ids(peers, now, threshold)[0] == peers[j].info.id,
        stale_ids(peers.skip(j + 1), now, threshold) == stale_ids(peers, now, threshold).skip(1),
    decreases peers.len(),
{
    if peers.len() == 0 {
        reveal(Seq::filter);
        assert(false);
        0
    } else {
        let init = peers.drop_last();
        let last = peers.last();
        assert(peers =~= init.push(last));
        lemma_stale_ids_push(init, last, now, threshold);
        if stale_ids(init, now, threshold).len() > 0 {
            let j = lemma_first_stale(init, now, threshold);
            assert(peers.skip(j + 1) =~= init.skip(j + 1).push(last));
            lemma_stale_ids_push(init.skip(j + 1), last, now, threshold);
            if is_stale(last, now, threshold) {
                assert(stale_ids(peers, now, threshold).skip(1) =~= stale_ids(
                    init,
                    now,
                    threshold,
                ).skip(1).push(last.info.id));
            }
            j
        } else {
            lemma_none_stale(init, now, threshold);
            let j = peers.len() - 1;
            assert(peers.skip(j + 1) =~= Seq::<ManagedPeerView>::empty());
            lemma_stale_ids_empty(now, threshold);
            assert(stale_ids(peers, now, threshold).skip(1) =~= Seq::<Seq<char>>::empty());
            j
        }
    }
}

/// No peer is stale in an empty directory.
proof fn lemma_stale_ids_empty(now: u64, threshold: u64)
    ensures
        stale_ids(Seq::<ManagedPeerView>::empty(), now, threshold) == Seq::<Seq<char>>::empty(),
{
    reveal(Seq::filter);
    assert(stale_ids(Seq::<ManagedPeerView>::empty(), now, threshold) =~= Seq::<
        Seq<char>,
    >::empty());
}

/// Where there are no stale identifiers no peer is stale.
proof fn lemma_none_stale(peers: Seq<ManagedPeerView>, now: u64, threshold: u64)
    requires
        stale_ids(peers, now, threshold).len() == 0,
    ensures
        forall|i: int| 0 <= i < peers.len() ==> !is_stale(#[trigger] peers[i], now, threshold),
    decreases peers.len(),
{
    if peers.len() > 0 {
        let init = peers.drop_last();
        let last = peers.last();
        assert(peers =~= init.push(last));
        lemma_stale_ids_push(init, last, now, threshold);
        lemma_none_stale(init, now, threshold);
        assert forall|i: int| 0 <= i < peers.len() implies !is_stale(
            #[trigger] peers[i],
            now,
            threshold,
        ) by {
            if i < init.len() {
                assert(peers[i] == init[i]);
            }
        }
    }
}

/// The settings of the liveness monitor.
#[derive(Clone, Copy, Debug, PartialEq, Eq, Structural)]
pub struct LivenessMonitor {
    period: u64,
    threshold: u64,
}

impl LivenessMonitor {
    /// Whether the settings make sense: the monitor scans at all, and a peer
    /// is given more than one period to be sighted again.
    pub open spec fn valid(period: u64, threshold: u64) -> bool {
        0 < period < threshold
    }

    /// The time between two scans, in milliseconds.
    pub closed spec fn spec_period(&self) -> u64 {
        self.period
    }

    /// The time without a sighting after which a peer counts as gone, in
    /// milliseconds.
    pub closed spec fn spec_threshold(&self) -> u64 {
        self.threshold
    }

    /// A monitor with the given settings, where they make sense.
    pub fn new(period: u64, threshold: u64) -> (monitor: Option<Self>)
        ensures
            monitor is Some <==> Self::valid(period, threshold),
            monitor matches Some(m) ==> m.spec_period() == period && m.spec_threshold()
                == threshold,
    {
        if 0 < period && period < threshold {
            Some(LivenessMonitor { period, threshold })
        } else {
            None
        }
    }

    /// The usual monitor: a scan every ten seconds, and thirty seconds
    /// without a sighting before a peer counts as gone.
    pub fn standard() -> (monitor: Self)
        ensures
            monitor.spec_period() == HEALTH_CHECK_PERIOD_MS,
            monitor.spec_threshold() == STALE_THRESHOLD_MS,
    {
        LivenessMonitor { period: HEALTH_CHECK_PERIOD_MS, threshold: STALE_THRESHOLD_MS }
    }

    #[verifier::when_used_as_spec(spec_period)]
    pub fn period(&self) -> (period: u64)
        ensures
            period == self.spec_period(),
    {
        self.period
    }

    #[verifier::when_used_as_spec(spec_threshold)]
    pub fn threshold(&self) -> (threshold: u64)
        ensures
            threshold == self.spec_threshold(),
    {
        self.threshold
    }

    /// One scan of the directory at `now`.
    ///
    /// Every connected peer last sighted more than the threshold ago is
    /// marked as disconnected, and one `Left` event is made for each, in the
    /// order of the directory. Nothing else changes.
    pub fn tick(&self, manager: &mut PeerManager, now: u64) -> (events: Vec<PeerEvent>)
        requires
            old(manager).wf(),
        ensures
            final(manager).wf(),
            final(manager)@ == expired(old(manager)@, now, self.spec_threshold()),
            events@.len() == stale_ids(old(manager)@, now, self.spec_threshold()).len(),
            forall|k: int|
                0 <= k < events@.len() ==> reports(
                    (#[trigger] events@[k])@,
                    PeerEventKind::Left,
                    SOURCE_LIVENESS@,
                    PeerInfoView {
                        id: stale_ids(old(manager)@, now, self.spec_threshold())[k],
                        metadata: None,
                    },
                ),
    {
        run_health_check(manager, now, self.threshold)
    }
}

/// One round of the health check at `now`: asks the directory for its stale
/// peers and marks each of them as disconnected.
pub fn run_health_check(manager: &mut PeerManager, now: u64, threshold: u64) -> (events:
    Vec<PeerEvent>)
    requires
        old(manager).wf(),
    ensures
        final(manager).wf(),
        final(manager)@ == expired(old(manager)@, now, threshold),
        events@.len() == stale_ids(old(manager)@, now, threshold).len(),
        forall|k: int|
            0 <= k < events@.len() ==> reports(
                (#[trigger] events@[k])@,
                PeerEventKind::Left,
                SOURCE_LIVENESS@,
                PeerInfoView { id: stale_ids(old(manager)@, now, threshold)[k], metadata: None },
            ),
{
    let ghost before = manager@;
    let ghost ids = stale_ids(before, now, threshold);
    let stale = manager.check_stale_peers(now, threshold);
    let mut events: Vec<PeerEvent> = Vec::new();
    let mut k: usize = 0;
    let ghost mut m: int = 0;
    proof {
        assert(before.skip(0) =~= before);
        assert(ids.skip(0) =~= ids);
    }
    while k < stale.len()
        invariant
            distinct_ids(before),
            ids == stale_ids(before, now, threshold),
            texts(stale@) == ids,
            k <= stale@.len(),
            0 <= m <= before.len(),
            stale_ids(before.skip(m), now, threshold) == ids.skip(k as int),
            manager@.len() == before.len(),
            forall|i: int|
                0 <= i < before.len() ==> #[trigger] manager@[i] == if i < m && is_stale(
                    before[i],
                    now,
                    threshold,
                ) {
                    departed(before[i])
                } else {
                    before[i]
                },
            events@.len() == k,
            forall|e: int|
                0 <= e < k ==> reports(
                    (#[trigger] events@[e])@,
                    PeerEventKind::Left,
                    SOURCE_LIVENESS@,
                    PeerInfoView { id: ids[e], metadata: None },
                ),
        decreases stale@.len() - k,
    {
        let ghost rest = before.skip(m);
        let ghost current = manager@;
        proof {
            assert(ids.skip(k as int).len() > 0);
            let j = lemma_first_stale(rest, now, threshold);
            let at = m + j;
            assert(rest[j] == before[at]);
            assert(ids.skip(k as int)[0] == ids[k as int]);
            assert(texts(stale@)[k as int] == stale@[k as int]@);
            assert forall|a: int, b: int| 0 <= a < b < current.len() implies current[a].info.id
                != current[b].info.id by {
                assert(current[a].info.id == before[a].info.id);
                assert(current[b].info.id == before[b].info.id);
            }
            assert(current[at] == before[at]);
            lemma_position_of(current, at);
            assert forall|i: int| m <= i < at implies !is_stale(before[i], now, threshold) by {
                assert(rest[i - m] == before[i]);
            }
            assert(rest.skip(j + 1) =~= before.skip(at + 1));
            assert(ids.skip(k as int).skip(1) =~= ids.skip(k + 1));
            m = at + 1;
        }
        let event = manager.mark_disconnected(SOURCE_LIVENESS, stale[k].as_str());
        match event {
            Some(e) => {
                events.push(e);
            },
            None => {
                assert(false);
            },
        }
        k += 1;
    }
    proof {
        assert(ids.skip(k as int) =~= Seq::<Seq<char>>::empty());
        lemma_none_stale(before.skip(m), now, threshold);
        assert forall|i: int| 0 <= i < before.len() implies manager@[i] == expired(
            before,
            now,
            threshold,
        )[i] by {
            if i >= m {
                assert(before.skip(m)[i - m] == before[i]);
            }
        }
        assert(manager@ =~= expired(before, now, threshold));
    }
    events
}

} // verus!
