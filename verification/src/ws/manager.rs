//! The registry of connections and their outbound queues.
//!
//! The multiplexer keeps one connection per remote address. A connection
//! that is set up to an address that has one already takes its place: the old
//! one's queue is dropped with it. Each connection has an outbound queue
//! without a bound; one writer per connection takes the messages from it,
//! oldest first, so that what was sent first leaves first. Queues of
//! different addresses know nothing of each other.
//!
//! The multiplexer decides and keeps the books; the sockets are its owner's
//! business. For what happens on a socket the owner calls in here, and what
//! it gets back is the event to publish.

use super::event::{tells, WsEvent, WsEventContent};
use crate::peer::address::Endpoint;
use crate::text::str_eq;
use std::collections::VecDeque;
use vstd::prelude::*;
use vstd::string::*;

verus! {

/// A frame as it comes in from a socket. Only text is passed on.
#[derive(Debug)]
pub enum Frame {
    Text(String),
    Binary(Vec<u8>),
    Ping(Vec<u8>),
    Pong(Vec<u8>),
    Close,
    Raw,
}

/// Why the multiplexer did not do what was asked of it.
#[derive(Debug)]
pub enum WsError {
    /// No connection is registered for the address.
    NotConnected { addr: String },
    /// The connection's writer has stopped, so nothing more can be sent.
    ConnectionClosed { addr: String },
    /// A listener is running on another address.
    BindConflict { current: Endpoint, requested: Endpoint },
    /// The connection could not be set up.
    ConnectFailed { addr: String, reason: String },
}

struct Connection {
    addr: String,
    outbound: VecDeque<String>,
    writable: bool,
}

/// One registered connection: the remote address, the messages that wait to
/// be written, oldest first, and whether its writer still takes messages.
pub struct ConnectionView {
    pub addr: Seq<char>,
    pub outbound: Seq<Seq<char>>,
    pub writable: bool,
}

impl View for Connection {
    type V = ConnectionView;

    closed spec fn view(&self) -> ConnectionView {
        ConnectionView {
            addr: self.addr@,
            outbound: self.outbound@.map_values(|m: String| m@),
            writable: self.writable,
        }
    }
}

/// The connection multiplexer.
pub struct WsManager {
    connections: Vec<Connection>,
    server_running: bool,
    server_address: Option<Endpoint>,
}

/// What a `WsManager` holds, as mathematical values.
pub struct WsManagerView {
    /// The registered connections, in the order in which their addresses
    /// were first registered.
    pub connections: Seq<ConnectionView>,
    pub server_running: bool,
    pub server_address: Option<Endpoint>,
}

impl View for WsManager {
    type V = WsManagerView;

    closed spec fn view(&self) -> WsManagerView {
        WsManagerView {
            connections: self.connections@.map_values(|c: Connection| c@),
            server_running: self.server_running,
            server_address: self.server_address,
        }
    }
}

/// Whether no two connections are to the same address.
pub open spec fn distinct_addrs(connections: Seq<ConnectionView>) -> bool {
    forall|i: int, j: int|
        0 <= i < j < connections.len() ==> connections[i].addr != connections[j].addr
}

/// Whether a connection is registered for `addr`.
pub open spec fn registered(connections: Seq<ConnectionView>, addr: Seq<char>) -> bool {
    exists|i: int| 0 <= i < connections.len() && connections[i].addr == addr
}

/// Where the connection to `addr` stands, if one is registered.
pub open spec fn connection_at(connections: Seq<ConnectionView>, addr: Seq<char>) -> Option<int> {
    if registered(connections, addr) {
        Some(choose|i: int| 0 <= i < connections.len() && connections[i].addr == addr)
    } else {
        None
    }
}

/// A connection to `addr` that has just been set up.
pub open spec fn fresh_connection(addr: Seq<char>) -> ConnectionView {
    ConnectionView { addr, outbound: Seq::empty(), writable: true }
}

/// The connections after one to `addr` has been set up: it takes the place
/// of the one that was registered for `addr`, or stands last.
pub open spec fn with_connection(connections: Seq<ConnectionView>, addr: Seq<char>) -> Seq<
    ConnectionView,
> {
    match connection_at(connections, addr) {
        Some(i) => connections.update(i, fresh_connection(addr)),
        None => connections.push(fresh_connection(addr)),
    }
}

/// The connections without the one to `addr`.
pub open spec fn without_connection(connections: Seq<ConnectionView>, addr: Seq<char>) -> Seq<
    ConnectionView,
> {
    match connection_at(connections, addr) {
        Some(i) => connections.remove(i),
        None => connections,
    }
}

/// Whether a message for `addr` is taken: a connection is registered for it
/// and its writer still takes messages.
pub open spec fn accepts(connections: Seq<ConnectionView>, addr: Seq<char>) -> bool {
    match connection_at(connections, addr) {
        Some(i) => connections[i].writable,
        None => false,
    }
}

/// The connections after `message` has been sent to `addr`: where it is
/// taken it stands last in that connection's queue, and nothing else has
/// changed.
pub open spec fn enqueued(
    connections: Seq<ConnectionView>,
    addr: Seq<char>,
    message: Seq<char>,
) -> Seq<ConnectionView> {
    match connection_at(connections, addr) {
        Some(i) => if connections[i].writable {
            connections.update(
                i,
                ConnectionView {
                    outbound: connections[i].outbound.push(message),
                    ..connections[i]
                },
            )
        } else {
            connections
        },
        None => connections,
    }
}

/// The message that the writer of the connection to `addr` takes next: the
/// oldest one that waits.
pub open spec fn next_message(connections: Seq<ConnectionView>, addr: Seq<char>) -> Option<
    Seq<char>,
> {
    match connection_at(connections, addr) {
        Some(i) => if connections[i].writable && connections[i].outbound.len() > 0 {
            Some(connections[i].outbound[0])
        } else {
            None
        },
        None => None,
    }
}

/// The connections after the writer of the connection to `addr` has taken
/// its next message.
pub open spec fn dequeued(connections: Seq<ConnectionView>, addr: Seq<char>) -> Seq<
    ConnectionView,
> {
    match connection_at(connections, addr) {
        Some(i) => if connections[i].writable && connections[i].outbound.len() > 0 {
            connections.update(
                i,
                ConnectionView {
                    outbound: connections[i].outbound.drop_first(),
                    ..connections[i]
                },
            )
        } else {
            connections
        },
        None => connections,
    }
}

/// The connections after the writer of the connection to `addr` has
/// stopped: what waited is dropped, and nothing more is taken.
pub open spec fn closed_for_writing(connections: Seq<ConnectionView>, addr: Seq<char>) -> Seq<
    ConnectionView,
> {
    match connection_at(connections, addr) {
        Some(i) => connections.update(
            i,
            ConnectionView { outbound: Seq::empty(), writable: false, ..connections[i] },
        ),
        None => connections,
    }
}

/// The text `ws://` before an address: where a client connects to.
pub open spec fn url_of(addr: Seq<char>) -> Seq<char> {
    seq!['w', 's', ':', '/', '/'] + addr
}

/// The connection at place `k` is the only one to its address.
pub proof fn lemma_connection_at(connections: Seq<ConnectionView>, k: int)
    requires
        distinct_addrs(connections),
        0 <= k < connections.len(),
    ensures
        connection_at(connections, connections[k].addr) == Some(k),
{
    let addr = connections[k].addr;
    assert(registered(connections, addr));
    let i = choose|i: int| 0 <= i < connections.len() && connections[i].addr == addr;
    if i < k {
        assert(connections[i].addr != connections[k].addr);
    } else if k < i {
        assert(connections[k].addr != connections[i].addr);
    }
}

impl WsManager {
    /// Whether the multiplexer is well formed: it holds at most one
    /// connection per address.
    pub open spec fn wf(&self) -> bool {
        distinct_addrs(self@.connections)
    }

    /// A multiplexer without connections and without a listener.
    pub fn new() -> (manager: Self)
        ensures
            manager.wf(),
            manager@ == (WsManagerView {
                connections: Seq::<ConnectionView>::empty(),
                server_running: false,
                server_address: None,
            }),
    {
        let manager = WsManager {
            connections: Vec::new(),
            server_running: false,
            server_address: None,
        };
        assert(manager@.connections =~= Seq::<ConnectionView>::empty());
        manager
    }

    /// Whether a listener is running.
    pub fn is_server_running(&self) -> (running: bool)
        ensures
            running == self@.server_running,
    {
        self.server_running
    }

    /// The address on which the listener was bound, where that is known.
    pub fn get_server_address(&self) -> (addr: Option<Endpoint>)
        ensures
            addr == self@.server_address,
    {
        self.server_address
    }

    /// Records whether a listener is running, and on which address.
    pub fn set_server_state(&mut self, running: bool, addr: Option<Endpoint>)
        ensures
            final(self)@ == (WsManagerView {
                server_running: running,
                server_address: addr,
                ..old(self)@
            }),
    {
        self.server_running = running;
        self.server_address = addr;
    }

    fn find(&self, addr: &str) -> (found: Option<usize>)
        requires
            self.wf(),
        ensures
            match found {
                Some(i) => i < self@.connections.len() && self@.connections[i as int].addr
                    == addr@ && connection_at(self@.connections, addr@) == Some(i as int),
                None => connection_at(self@.connections, addr@) is None,
            },
    {
        let mut i: usize = 0;
        while i < self.connections.len()
            invariant
                self.wf(),
                i <= self.connections@.len(),
                forall|k: int| 0 <= k < i ==> self@.connections[k].addr != addr@,
            decreases self.connections@.len() - i,
        {
            if str_eq(self.connections[i].addr.as_str(), addr) {
                proof {
                    lemma_connection_at(self@.connections, i as int);
                }
                return Some(i);
            }
            i += 1;
        }
        None
    }

    /// The number of registered connections.
    pub fn connection_count(&self) -> (n: usize)
        ensures
            n == self@.connections.len(),
    {
        self.connections.len()
    }

    /// Whether a connection is registered for `addr`.
    pub fn is_connected(&self, addr: &str) -> (connected: bool)
        requires
            self.wf(),
        ensures
            connected == registered(self@.connections, addr@),
    {
        self.find(addr).is_some()
    }

    /// How many messages wait to be written to `addr`, where a connection is
    /// registered for it.
    pub fn pending(&self, addr: &str) -> (waiting: Option<usize>)
        requires
            self.wf(),
        ensures
            match connection_at(self@.connections, addr@) {
                Some(i) => waiting == Some(self@.connections[i].outbound.len() as usize),
                None => waiting is None,
            },
    {
        match self.find(addr) {
            Some(i) => Some(self.connections[i].outbound.len()),
            None => None,
        }
    }

    /// Registers the connection to `addr` that has just been set up, and
    /// reports it.
    ///
    /// The connection takes the place of one that was registered for the same
    /// address. It starts with nothing to write.
    pub fn handle_connection(&mut self, addr: String) -> (event: WsEvent)
        requires
            old(self).wf(),
        ensures
            final(self).wf(),
            final(self)@ == (WsManagerView {
                connections: with_connection(old(self)@.connections, addr@),
                ..old(self)@
            }),
            accepts(final(self)@.connections, addr@),
            tells(event@, WsEventContent::Connected { addr: addr@ }),
    {
        let ghost before = self@.connections;
        let connection = Connection { addr: addr.clone(), outbound: VecDeque::new(), writable: true };
        assert(connection@.outbound =~= Seq::<Seq<char>>::empty());
        match self.find(addr.as_str()) {
            Some(i) => {
                self.connections.set(i, connection);
                assert(self@.connections =~= before.update(i as int, fresh_connection(addr@)));
                assert forall|a: int, b: int|
                    0 <= a < b < self@.connections.len() implies self@.connections[a].addr
                    != self@.connections[b].addr by {
                    assert(self@.connections[a].addr == before[a].addr);
                    assert(self@.connections[b].addr == before[b].addr);
                }
                proof {
                    lemma_connection_at(self@.connections, i as int);
                }
            },
            None => {
                self.connections.push(connection);
                assert(self@.connections =~= before.push(fresh_connection(addr@)));
                assert forall|a: int, b: int|
                    0 <= a < b < self@.connections.len() implies self@.connections[a].addr
                    != self@.connections[b].addr by {
                    if b == before.len() {
                        assert(self@.connections[a] == before[a]);
                        if before[a].addr == addr@ {
                            assert(registered(before, addr@));
                        }
                    }
                }
                proof {
                    lemma_connection_at(self@.connections, before.len() as int);
                }
            },
        }
        WsEvent::new_connected(addr)
    }

    /// Where a client connects to in order to reach `addr`.
    pub fn connect_url(addr: &str) -> (url: String)
        ensures
            url@ == url_of(addr@),
    {
        proof {
            reveal_strlit("ws://");
        }
        let mut url = "ws://".to_owned();
        url.append(addr);
        assert(url@ =~= url_of(addr@));
        url
    }

    /// Takes in how the setting up of a connection to `addr` went.
    ///
    /// Where it went well the connection is registered as by
    /// `handle_connection`, and the event to publish is the result. Where it
    /// failed nothing is registered, and the failure is the result.
    pub fn connect(&mut self, addr: String, handshake: Result<(), String>) -> (outcome: Result<
        WsEvent,
        WsError,
    >)
        requires
            old(self).wf(),
        ensures
            final(self).wf(),
            match handshake {
                Ok(_) => {
                    &&& final(self)@ == (WsManagerView {
                        connections: with_connection(old(self)@.connections, addr@),
                        ..old(self)@
                    })
                    &&& outcome matches Ok(event) && tells(event@, WsEventContent::Connected {
                        addr: addr@,
                    })
                },
                Err(why) => {
                    &&& final(self)@ == old(self)@
                    &&& outcome matches Err(WsError::ConnectFailed { addr: a, reason }) && a@
                        == addr@ && reason@ == why@
                },
            },
    {
        match handshake {
            Ok(_) => Ok(self.handle_connection(addr)),
            Err(reason) => Err(WsError::ConnectFailed { addr, reason }),
        }
    }

    /// Puts `msg` into the outbound queue of the connection to `addr`.
    ///
    /// This fails, and nothing is queued, where no connection is registered
    /// for `addr`, or where the connection's writer has stopped.
    pub fn send_message(&mut self, addr: &str, msg: String) -> (sent: Result<(), WsError>)
        requires
            old(self).wf(),
        ensures
            final(self).wf(),
            final(self)@ == (WsManagerView {
                connections: enqueued(old(self)@.connections, addr@, msg@),
                ..old(self)@
            }),
            match connection_at(old(self)@.connections, addr@) {
                Some(i) => if old(self)@.connections[i].writable {
                    sent is Ok
                } else {
                    sent matches Err(WsError::ConnectionClosed { addr: a }) && a@ == addr@
                },
                None => sent matches Err(WsError::NotConnected { addr: a }) && a@ == addr@,
            },
    {
        match self.find(addr) {
            Some(i) => {
                if self.connections[i].writable {
                    let ghost before = self@.connections;
                    let ghost held = self.connections@;
                    let ghost queue = self.connections@[i as int].outbound@;
                    self.connections[i].outbound.push_back(msg);
                    proof {
                        assert(self.connections@[i as int].outbound@.map_values(|m: String| m@)
                            =~= queue.map_values(|m: String| m@).push(msg@));
                        assert forall|k: int| 0 <= k < held.len() && k != i implies #[trigger] self@.connections[k]
                            == before[k] by {
                            assert(self.connections@[k] == held[k]);
                        }
                        assert(self@.connections =~= before.update(
                            i as int,
                            ConnectionView {
                                outbound: before[i as int].outbound.push(msg@),
                                ..before[i as int]
                            },
                        ));
                    }
                    Ok(())
                } else {
                    Err(WsError::ConnectionClosed { addr: addr.to_owned() })
                }
            },
            None => Err(WsError::NotConnected { addr: addr.to_owned() }),
        }
    }

    /// Takes the oldest message that waits to be written to `addr`.
    ///
    /// There is none where nothing waits, where the connection's writer has
    /// stopped, or where no connection is registered for `addr`.
    pub fn next_outbound(&mut self, addr: &str) -> (message: Option<String>)
        requires
            old(self).wf(),
        ensures
            final(self).wf(),
            final(self)@ == (WsManagerView {
                connections: dequeued(old(self)@.connections, addr@),
                ..old(self)@
            }),
            match next_message(old(self)@.connections, addr@) {
                Some(next) => message matches Some(m) && m@ == next,
                None => message is None,
            },
    {
        match self.find(addr) {
            Some(i) => {
                if self.connections[i].writable {
                    let ghost before = self@.connections;
                    let ghost held = self.connections@;
                    let ghost queue = self.connections@[i as int].outbound@;
                    let message = self.connections[i].outbound.pop_front();
                    proof {
                        if queue.len() > 0 {
                            assert(self.connections@[i as int].outbound@.map_values(
                                |m: String| m@,
                            ) =~= queue.map_values(|m: String| m@).drop_first());
                            assert forall|k: int|
                                0 <= k < held.len() && k != i implies #[trigger] self@.connections[k]
                                == before[k] by {
                                assert(self.connections@[k] == held[k]);
                            }
                            assert(self@.connections =~= before.update(
                                i as int,
                                ConnectionView {
                                    outbound: before[i as int].outbound.drop_first(),
                                    ..before[i as int]
                                },
                            ));
                        } else {
                            assert(self.connections@[i as int].outbound@ == queue);
                            assert forall|k: int| 0 <= k < held.len() implies #[trigger] self@.connections[k]
                                == before[k] by {
                                assert(self.connections@[k].addr == held[k].addr);
                            }
                            assert(self@.connections =~= before);
                        }
                    }
                    message
                } else {
                    None
                }
            },
            None => None,
        }
    }

    /// Records that the writer of the connection to `addr` has stopped: what
    /// waited to be written is dropped, and sending to `addr` fails from now
    /// on. The registration stays until the connection is replaced or
    /// disconnected.
    pub fn close_outbound(&mut self, addr: &str)
        requires
            old(self).wf(),
        ensures
            final(self).wf(),
            final(self)@ == (WsManagerView {
                connections: closed_for_writing(old(self)@.connections, addr@),
                ..old(self)@
            }),
    {
        match self.find(addr) {
            Some(i) => {
                let ghost before = self@.connections;
                let ghost held = self.connections@;
                self.connections[i].outbound.clear();
                self.connections[i].writable = false;
                proof {
                    assert(self.connections@[i as int].outbound@.map_values(|m: String| m@)
                        =~= Seq::<Seq<char>>::empty());
                    assert forall|k: int| 0 <= k < held.len() && k != i implies #[trigger] self@.connections[k]
                        == before[k] by {
                        assert(self.connections@[k] == held[k]);
                    }
                    assert(self@.connections =~= before.update(
                        i as int,
                        ConnectionView {
                            outbound: Seq::empty(),
                            writable: false,
                            ..before[i as int]
                        },
                    ));
                }
            },
            None => {},
        }
    }

    /// What a frame that came in from `addr` gives rise to: a text frame is
    /// reported with its text, and every other frame is passed over.
    pub fn handle_frame(addr: &str, frame: Frame) -> (event: Option<WsEvent>)
        ensures
            match frame {
                Frame::Text(text) => event matches Some(e) && tells(e@, WsEventContent::MessageReceived { addr: addr@, message: text@ }),
                _ => event is None,
            },
    {
        match frame {
            Frame::Text(text) => Some(WsEvent::new_message_received(addr.to_owned(), text)),
            _ => None,
        }
    }

    /// Reports that nothing more comes in from `addr`. The registration
    /// stays until the connection is replaced or disconnected.
    pub fn handle_closed(addr: &str) -> (event: WsEvent)
        ensures
            tells(event@, WsEventContent::Disconnected { addr: addr@, error: None }),
    {
        WsEvent::new_disconnected(addr.to_owned())
    }

    /// Removes the registration for `addr`, if there is one, and reports the
    /// disconnection.
    pub fn disconnect(&mut self, addr: &str) -> (event: WsEvent)
        requires
            old(self).wf(),
        ensures
            final(self).wf(),
            final(self)@ == (WsManagerView {
                connections: without_connection(old(self)@.connections, addr@),
                ..old(self)@
            }),
            !registered(final(self)@.connections, addr@),
            tells(event@, WsEventContent::Disconnected { addr: addr@, error: None }),
    {
        match self.find(addr) {
            Some(i) => {
                let ghost before = self@.connections;
                let _ = self.connections.remove(i);
                assert(self@.connections =~= before.remove(i as int));
                assert forall|k: int| 0 <= k < self@.connections.len() implies self@.connections[k].addr
                    != addr@ by {
                    if k < i {
                        assert(self@.connections[k] == before[k]);
                    } else {
                        assert(self@.connections[k] == before[k + 1]);
                    }
                }
            },
            None => {},
        }
        WsEvent::new_disconnected(addr.to_owned())
    }

    /// Reports a failure on the way to a connection with `addr` as a
    /// disconnection that carries the failure's description.
    pub fn emit_error(&self, addr: String, error: String) -> (event: WsEvent)
        ensures
            tells(event@, WsEventContent::Disconnected { addr: addr@, error: Some(error@) }),
    {
        WsEvent::new_failed(addr, error)
    }
}

} // verus!
