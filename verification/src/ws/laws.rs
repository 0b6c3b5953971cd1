//! What holds of the connection multiplexer whatever is done with it.

use super::helpers::{ensure_decision, start_decision, ServerStart};
use super::manager::{
    accepts, connection_at, dequeued, distinct_addrs, enqueued, lemma_connection_at,
    next_message, registered, with_connection, without_connection, ConnectionView,
    WsManagerView,
};
use crate::peer::address::Endpoint;
use vstd::prelude::*;

verus! {

/// A message for an address without a connection is queued nowhere: the
/// multiplexer is as it was.
pub proof fn law_unsent_message_is_not_queued(
    connections: Seq<ConnectionView>,
    addr: Seq<char>,
    message: Seq<char>,
)
    requires
        !registered(connections, addr),
    ensures
        !accepts(connections, addr),
        enqueued(connections, addr, message) == connections,
{
}

/// Sending keeps the registry as it is: the same addresses at the same
/// places, each still once, and the queue of every other address untouched.
pub proof fn law_sending_touches_one_queue(
    connections: Seq<ConnectionView>,
    addr: Seq<char>,
    message: Seq<char>,
    other: int,
)
    requires
        distinct_addrs(connections),
        0 <= other < connections.len(),
    ensures
        distinct_addrs(enqueued(connections, addr, message)),
        enqueued(connections, addr, message).len() == connections.len(),
        enqueued(connections, addr, message)[other].addr == connections[other].addr,
        connections[other].addr != addr ==> enqueued(connections, addr, message)[other]
            == connections[other],
{
    let after = enqueued(connections, addr, message);
    assert(after.len() == connections.len());
    assert forall|i: int, j: int| 0 <= i < j < after.len() implies after[i].addr
        != after[j].addr by {
        assert(after[i].addr == connections[i].addr);
        assert(after[j].addr == connections[j].addr);
    }
    if registered(connections, addr) {
        let i = connection_at(connections, addr)->0;
        lemma_connection_at(connections, i);
    }
}

/// What is sent first leaves first: two messages sent to one address stand
/// in its queue in the order of the sending, behind what waited before, and
/// the writer takes them in that order.
pub proof fn law_messages_leave_in_order(
    connections: Seq<ConnectionView>,
    addr: Seq<char>,
    first: Seq<char>,
    second: Seq<char>,
)
    requires
        distinct_addrs(connections),
        accepts(connections, addr),
    ensures
        ({
            let i = connection_at(connections, addr)->0;
            let after = enqueued(enqueued(connections, addr, first), addr, second);
            &&& connection_at(after, addr) == Some(i)
            &&& after[i].outbound == connections[i].outbound.push(first).push(second)
            &&& connections[i].outbound.len() == 0 ==> {
                &&& next_message(after, addr) == Some(first)
                &&& next_message(dequeued(after, addr), addr) == Some(second)
                &&& next_message(dequeued(dequeued(after, addr), addr), addr) is None
            }
        }),
{
    let i = connection_at(connections, addr)->0;
    lemma_connection_at(connections, i);
    let once = enqueued(connections, addr, first);
    law_sending_touches_one_queue(connections, addr, first, i);
    lemma_connection_at(once, i);
    let after = enqueued(once, addr, second);
    law_sending_touches_one_queue(once, addr, second, i);
    lemma_connection_at(after, i);
    if connections[i].outbound.len() == 0 {
        let taken = dequeued(after, addr);
        assert(taken.len() == after.len());
        assert forall|a: int, b: int| 0 <= a < b < taken.len() implies taken[a].addr
            != taken[b].addr by {
            assert(taken[a].addr == after[a].addr);
            assert(taken[b].addr == after[b].addr);
        }
        lemma_connection_at(taken, i);
        assert(taken[i].outbound =~= seq![second]);
        let emptied = dequeued(taken, addr);
        assert forall|a: int, b: int| 0 <= a < b < emptied.len() implies emptied[a].addr
            != emptied[b].addr by {
            assert(emptied[a].addr == taken[a].addr);
            assert(emptied[b].addr == taken[b].addr);
        }
        lemma_connection_at(emptied, i);
        assert(emptied[i].outbound =~= Seq::<Seq<char>>::empty());
    }
}

/// An address has one connection: setting one up to an address that has one
/// replaces it and adds none, and after a disconnection the address has none.
pub proof fn law_one_connection_per_address(connections: Seq<ConnectionView>, addr: Seq<char>)
    requires
        distinct_addrs(connections),
    ensures
        distinct_addrs(with_connection(connections, addr)),
        registered(with_connection(connections, addr), addr),
        with_connection(connections, addr).len() == if registered(connections, addr) {
            connections.len()
        } else {
            connections.len() + 1
        },
        distinct_addrs(without_connection(connections, addr)),
        !registered(without_connection(connections, addr), addr),
{
    let with = with_connection(connections, addr);
    let without = without_connection(connections, addr);
    match connection_at(connections, addr) {
        Some(i) => {
            lemma_connection_at(connections, i);
            assert forall|a: int, b: int| 0 <= a < b < with.len() implies with[a].addr
                != with[b].addr by {
                assert(with[a].addr == connections[a].addr);
                assert(with[b].addr == connections[b].addr);
            }
            assert(with[i].addr == addr);
            assert forall|a: int, b: int| 0 <= a < b < without.len() implies without[a].addr
                != without[b].addr by {
                let x = if a < i {
                    a
                } else {
                    a + 1
                };
                let y = if b < i {
                    b
                } else {
                    b + 1
                };
                assert(without[a] == connections[x]);
                assert(without[b] == connections[y]);
            }
            assert forall|k: int| 0 <= k < without.len() implies without[k].addr != addr by {
                let x = if k < i {
                    k
                } else {
                    k + 1
                };
                assert(without[k] == connections[x]);
                if x < i {
                    assert(connections[x].addr != connections[i].addr);
                } else {
                    assert(connections[i].addr != connections[x].addr);
                }
            }
        },
        None => {
            assert forall|a: int, b: int| 0 <= a < b < with.len() implies with[a].addr
                != with[b].addr by {
                if b == connections.len() {
                    assert(with[a] == connections[a]);
                }
            }
            assert(with[connections.len() as int].addr == addr);
        },
    }
}

/// There is one listener: once a listener is recorded as running on an
/// address, a request for a listener on that address succeeds and binds
/// nothing, and a request for one on any other address is refused with the
/// address that is served.
pub proof fn law_one_listener(state: WsManagerView, bound: Endpoint, asked: Endpoint)
    requires
        state.server_running,
        state.server_address == Some(bound),
    ensures
        start_decision(state, bound) == Ok::<ServerStart, Endpoint>(ServerStart::AlreadyRunning),
        ensure_decision(state, bound) == Ok::<ServerStart, Endpoint>(ServerStart::AlreadyRunning),
        asked != bound ==> start_decision(state, asked) == Err::<ServerStart, Endpoint>(bound),
        asked != bound ==> ensure_decision(state, asked) == Err::<ServerStart, Endpoint>(bound),
{
}

/// A listener is bound only where none runs: a request finds nothing in its
/// way exactly when it is answered with the step to bind.
pub proof fn law_bind_only_when_idle(state: WsManagerView, addr: Endpoint)
    ensures
        !state.server_running ==> start_decision(state, addr) == Ok::<ServerStart, Endpoint>(
            ServerStart::Bind(addr),
        ),
        !state.server_running ==> ensure_decision(state, addr) == Ok::<ServerStart, Endpoint>(
            ServerStart::Bind(addr),
        ),
        ensure_decision(state, addr) == Ok::<ServerStart, Endpoint>(ServerStart::Bind(addr))
            ==> !state.server_running,
{
}

} // verus!
