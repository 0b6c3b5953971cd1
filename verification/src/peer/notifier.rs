//! The event bus: every change of the directory goes to every subscriber,
//! and a peer that joins makes this peer announce itself again.
//!
//! Publishing never waits and never fails. Each subscriber has a queue of its
//! own, without a bound, from which it takes the events in the order in which
//! they were published; a subscriber that is slow or gone holds up neither
//! the publisher nor the others.

use super::events::{PeerEvent, PeerEventKind, PeerEventView};
use std::collections::VecDeque;
use vstd::prelude::*;

verus! {

struct Subscriber {
    id: u64,
    queue: VecDeque<PeerEvent>,
}

/// One subscriber: its handle, and the events published to it that it has
/// not taken yet, oldest first.
pub struct SubscriberView {
    pub id: u64,
    pub queue: Seq<PeerEventView>,
}

impl View for Subscriber {
    type V = SubscriberView;

    closed spec fn view(&self) -> SubscriberView {
        SubscriberView { id: self.id, queue: self.queue@.map_values(|e: PeerEvent| e@) }
    }
}

/// The event bus.
pub struct PeerNotifier {
    subscribers: Vec<Subscriber>,
    next_id: u64,
    advertisements: u64,
}

/// What a `PeerNotifier` holds, as mathematical values.
pub struct PeerNotifierView {
    /// The subscribers, in the order in which they subscribed.
    pub subscribers: Seq<SubscriberView>,
    /// The handle that the next subscriber gets.
    pub next_id: u64,
    /// How many requests to announce this peer again wait to be taken.
    pub advertisements: u64,
}

impl View for PeerNotifier {
    type V = PeerNotifierView;

    closed spec fn view(&self) -> PeerNotifierView {
        PeerNotifierView {
            subscribers: self.subscribers@.map_values(|s: Subscriber| s@),
            next_id: self.next_id,
            advertisements: self.advertisements,
        }
    }
}

/// Whether no two subscribers have the same handle, and no handle that is
/// still to be given out is in use.
pub open spec fn handles_in_order(bus: PeerNotifierView) -> bool {
    &&& forall|i: int, j: int|
        0 <= i < j < bus.subscribers.len() ==> bus.subscribers[i].id != bus.subscribers[j].id
    &&& forall|i: int| 0 <= i < bus.subscribers.len() ==> (#[trigger] bus.subscribers[i]).id < bus.next_id
}

/// Whether some subscriber has the handle `id`.
pub open spec fn subscribed(subscribers: Seq<SubscriberView>, id: u64) -> bool {
    exists|i: int| 0 <= i < subscribers.len() && subscribers[i].id == id
}

/// Where the subscriber with the handle `id` stands, if there is one.
pub open spec fn subscriber_at(subscribers: Seq<SubscriberView>, id: u64) -> Option<int> {
    if subscribed(subscribers, id) {
        Some(choose|i: int| 0 <= i < subscribers.len() && subscribers[i].id == id)
    } else {
        None
    }
}

/// The subscribers after `event` has been published: it stands last in the
/// queue of each.
pub open spec fn published(subscribers: Seq<SubscriberView>, event: PeerEventView) -> Seq<
    SubscriberView,
> {
    subscribers.map_values(|s: SubscriberView| SubscriberView { queue: s.queue.push(event), ..s })
}

/// `count` and one more, stopping at `u64::MAX`.
pub open spec fn one_more_request(count: u64) -> u64 {
    if count < u64::MAX {
        (count + 1) as u64
    } else {
        count
    }
}

/// Whether an event makes this peer announce itself again: only the joining
/// of a new peer does, since that peer may not have heard of this one yet.
pub open spec fn asks_for_advertisement(kind: PeerEventKind) -> bool {
    kind == PeerEventKind::Joined
}

/// The subscriber at place `k` is the only one with its handle.
pub proof fn lemma_subscriber_at(bus: PeerNotifierView, k: int)
    requires
        handles_in_order(bus),
        0 <= k < bus.subscribers.len(),
    ensures
        subscriber_at(bus.subscribers, bus.subscribers[k].id) == Some(k),
{
    let id = bus.subscribers[k].id;
    assert(subscribed(bus.subscribers, id));
    let i = choose|i: int| 0 <= i < bus.subscribers.len() && bus.subscribers[i].id == id;
    if i < k {
        assert(bus.subscribers[i].id != bus.subscribers[k].id);
    } else if k < i {
        assert(bus.subscribers[k].id != bus.subscribers[i].id);
    }
}

/// Events reach a subscriber in the order in which they were published.
pub proof fn law_events_arrive_in_publish_order(
    subscribers: Seq<SubscriberView>,
    first: PeerEventView,
    second: PeerEventView,
    i: int,
)
    requires
        0 <= i < subscribers.len(),
    ensures
        published(published(subscribers, first), second).len() == subscribers.len(),
        published(published(subscribers, first), second)[i].id == subscribers[i].id,
        published(published(subscribers, first), second)[i].queue == subscribers[i].queue.push(
            first,
        ).push(second),
{
}

impl PeerNotifier {
    /// Whether the bus is well formed.
    pub open spec fn wf(&self) -> bool {
        handles_in_order(self@)
    }

    /// A bus without subscribers, on which nothing has been asked for.
    pub fn new() -> (bus: Self)
        ensures
            bus.wf(),
            bus@ == (PeerNotifierView {
                subscribers: Seq::<SubscriberView>::empty(),
                next_id: 0,
                advertisements: 0,
            }),
    {
        let bus = PeerNotifier { subscribers: Vec::new(), next_id: 0, advertisements: 0 };
        assert(bus@.subscribers =~= Seq::<SubscriberView>::empty());
        bus
    }

    fn find(&self, id: u64) -> (found: Option<usize>)
        requires
            self.wf(),
        ensures
            match found {
                Some(i) => i < self@.subscribers.len() && self@.subscribers[i as int].id == id
                    && subscriber_at(self@.subscribers, id) == Some(i as int),
                None => subscriber_at(self@.subscribers, id) is None,
            },
    {
        let mut i: usize = 0;
        while i < self.subscribers.len()
            invariant
                self.wf(),
                i <= self.subscribers@.len(),
                forall|k: int| 0 <= k < i ==> self@.subscribers[k].id != id,
            decreases self.subscribers@.len() - i,
        {
            if self.subscribers[i].id == id {
                proof {
                    lemma_subscriber_at(self@, i as int);
                }
                return Some(i);
            }
            i += 1;
        }
        None
    }

    /// Adds a subscriber and gives back its handle. The subscriber's queue
    /// starts empty: it is told of what is published from now on.
    ///
    /// The handles are given out in order and never twice; nothing is added
    /// once they have run out.
    pub fn subscribe(&mut self) -> (handle: Option<u64>)
        requires
            old(self).wf(),
        ensures
            final(self).wf(),
            match handle {
                Some(id) => {
                    &&& id == old(self)@.next_id
                    &&& id < u64::MAX
                    &&& final(self)@ == (PeerNotifierView {
                        subscribers: old(self)@.subscribers.push(
                            SubscriberView { id, queue: Seq::empty() },
                        ),
                        next_id: (id + 1) as u64,
                        ..old(self)@
                    })
                },
                None => old(self)@.next_id == u64::MAX && final(self)@ == old(self)@,
            },
    {
        if self.next_id == u64::MAX {
            return None;
        }
        let id = self.next_id;
        let ghost before = self@;
        let subscriber = Subscriber { id, queue: VecDeque::new() };
        assert(subscriber@.queue =~= Seq::<PeerEventView>::empty());
        self.subscribers.push(subscriber);
        self.next_id = id + 1;
        assert(self@.subscribers =~= before.subscribers.push(
            SubscriberView { id, queue: Seq::empty() },
        ));
        Some(id)
    }

    /// Removes the subscriber with the given handle, and says whether there
    /// was one. What it had not taken is dropped; the other subscribers keep
    /// what they have.
    pub fn unsubscribe(&mut self, handle: u64) -> (removed: bool)
        requires
            old(self).wf(),
        ensures
            final(self).wf(),
            match subscriber_at(old(self)@.subscribers, handle) {
                Some(i) => removed && final(self)@ == (PeerNotifierView {
                    subscribers: old(self)@.subscribers.remove(i),
                    ..old(self)@
                }),
                None => !removed && final(self)@ == old(self)@,
            },
    {
        match self.find(handle) {
            Some(i) => {
                let ghost before = self@;
                let _ = self.subscribers.remove(i);
                assert(self@.subscribers =~= before.subscribers.remove(i as int));
                true
            },
            None => false,
        }
    }

    /// Asks for this peer to be announced again.
    pub fn advertise(&mut self)
        ensures
            final(self)@ == (PeerNotifierView {
                advertisements: one_more_request(old(self)@.advertisements),
                ..old(self)@
            }),
    {
        if self.advertisements < u64::MAX {
            self.advertisements += 1;
        }
    }

    /// Takes one request to announce this peer again, and says whether there
    /// was one to take.
    pub fn take_advertisement(&mut self) -> (taken: bool)
        ensures
            taken == (old(self)@.advertisements > 0),
            final(self)@ == (PeerNotifierView {
                advertisements: if taken {
                    (old(self)@.advertisements - 1) as u64
                } else {
                    old(self)@.advertisements
                },
                ..old(self)@
            }),
    {
        if self.advertisements > 0 {
            self.advertisements -= 1;
            true
        } else {
            false
        }
    }

    /// Publishes `event`: it is put last into the queue of every subscriber,
    /// and where it tells of a peer that joined, this peer is asked to
    /// announce itself again.
    pub fn emit_event(&mut self, event: PeerEvent)
        requires
            old(self).wf(),
        ensures
            final(self).wf(),
            final(self)@ == (PeerNotifierView {
                subscribers: published(old(self)@.subscribers, event@),
                advertisements: if asks_for_advertisement(event@.kind) {
                    one_more_request(old(self)@.advertisements)
                } else {
                    old(self)@.advertisements
                },
                ..old(self)@
            }),
    {
        let ghost before = self@;
        let mut i: usize = 0;
        while i < self.subscribers.len()
            invariant
                i <= self.subscribers@.len(),
                self@.subscribers.len() == before.subscribers.len(),
                self@.next_id == before.next_id,
                self@.advertisements == before.advertisements,
                forall|k: int|
                    0 <= k < i ==> #[trigger] self@.subscribers[k] == published(
                        before.subscribers,
                        event@,
                    )[k],
                forall|k: int|
                    i <= k < before.subscribers.len() ==> #[trigger] self@.subscribers[k]
                        == before.subscribers[k],
            decreases self.subscribers@.len() - i,
        {
            let ghost current = self.subscribers@;
            let ghost shown = self@.subscribers;
            let ghost queue = self.subscribers@[i as int].queue@;
            assert(shown[i as int] == before.subscribers[i as int]);
            assert(shown[i as int].queue == queue.map_values(|e: PeerEvent| e@));
            self.subscribers[i].queue.push_back(event.clone());
            proof {
                assert(self.subscribers@.len() == current.len());
                assert(self.subscribers@[i as int].id == current[i as int].id);
                assert(self.subscribers@[i as int].queue@.map_values(|e: PeerEvent| e@)
                    =~= queue.map_values(|e: PeerEvent| e@).push(event@));
                assert(self@.subscribers[i as int] == published(before.subscribers, event@)[i as int]);
                assert forall|k: int| 0 <= k < current.len() && k != i implies #[trigger] self@.subscribers[k]
                    == shown[k] by {
                    assert(self.subscribers@[k] == current[k]);
                }
            }
            i += 1;
        }
        assert(self@.subscribers =~= published(before.subscribers, event@));
        match event.kind() {
            PeerEventKind::Joined => {
                self.advertise();
            },
            _ => {},
        }
    }

    /// Takes the oldest event that waits for the subscriber with the given
    /// handle. There is none where nothing waits for it, or nobody has that
    /// handle.
    pub fn next_event(&mut self, handle: u64) -> (event: Option<PeerEvent>)
        requires
            old(self).wf(),
        ensures
            final(self).wf(),
            match subscriber_at(old(self)@.subscribers, handle) {
                Some(i) => if old(self)@.subscribers[i].queue.len() > 0 {
                    &&& event matches Some(e) && e@ == old(self)@.subscribers[i].queue[0]
                    &&& final(self)@ == (PeerNotifierView {
                        subscribers: old(self)@.subscribers.update(
                            i,
                            SubscriberView {
                                queue: old(self)@.subscribers[i].queue.drop_first(),
                                ..old(self)@.subscribers[i]
                            },
                        ),
                        ..old(self)@
                    })
                } else {
                    event is None && final(self)@ == old(self)@
                },
                None => event is None && final(self)@ == old(self)@,
            },
    {
        match self.find(handle) {
            Some(i) => {
                let ghost before = self@;
                let ghost queue = self.subscribers@[i as int].queue@;
                let event = self.subscribers[i].queue.pop_front();
                proof {
                    if queue.len() > 0 {
                        assert(self.subscribers@[i as int].queue@.map_values(|e: PeerEvent| e@)
                            =~= queue.map_values(|e: PeerEvent| e@).drop_first());
                        assert(self@.subscribers =~= before.subscribers.update(
                            i as int,
                            SubscriberView {
                                queue: before.subscribers[i as int].queue.drop_first(),
                                ..before.subscribers[i as int]
                            },
                        ));
                    } else {
                        assert(self.subscribers@[i as int].queue@ == queue);
                        assert(self@.subscribers =~= before.subscribers);
                    }
                }
                event
            },
            None => None,
        }
    }
}

} // verus!
