//! What the connection multiplexer reports.

use crate::sys::{is_random_uuid, random_uuid, utc_now_millis};
use vstd::prelude::*;

verus! {

/// Something that happened on the connection to one remote address.
///
/// Every event carries a random identifier and the wall-clock time at which
/// it was made, in milliseconds since the Unix epoch. A disconnection that
/// was caused by a failure carries the failure's description.
#[derive(Debug)]
pub enum WsEvent {
    Connected { id: u128, timestamp: i64, addr: String },
    Disconnected { id: u128, timestamp: i64, addr: String, error: Option<String> },
    MessageReceived { id: u128, timestamp: i64, addr: String, message: String },
}

/// What an event says, apart from its identifier and its time.
pub enum WsEventContent {
    Connected { addr: Seq<char> },
    Disconnected { addr: Seq<char>, error: Option<Seq<char>> },
    MessageReceived { addr: Seq<char>, message: Seq<char> },
}

/// What a `WsEvent` holds, as mathematical values.
pub struct WsEventView {
    pub id: u128,
    pub timestamp: i64,
    pub content: WsEventContent,
}

impl View for WsEvent {
    type V = WsEventView;

    open spec fn view(&self) -> WsEventView {
        match *self {
            WsEvent::Connected { id, timestamp, addr } => WsEventView {
                id,
                timestamp,
                content: WsEventContent::Connected { addr: addr@ },
            },
            WsEvent::Disconnected { id, timestamp, addr, error } => WsEventView {
                id,
                timestamp,
                content: WsEventContent::Disconnected {
                    addr: addr@,
                    error: match error {
                        Some(e) => Some(e@),
                        None => None,
                    },
                },
            },
            WsEvent::MessageReceived { id, timestamp, addr, message } => WsEventView {
                id,
                timestamp,
                content: WsEventContent::MessageReceived { addr: addr@, message: message@ },
            },
        }
    }
}

/// Whether `event` says `content`. Its identifier is some random UUID, and
/// its timestamp is left open.
pub open spec fn tells(event: WsEventView, content: WsEventContent) -> bool {
    event.content == content && is_random_uuid(event.id)
}

impl WsEvent {
    /// A connection to `addr` was set up.
    pub fn new_connected(addr: String) -> (event: Self)
        ensures
            tells(event@, WsEventContent::Connected { addr: addr@ }),
    {
        WsEvent::Connected { id: random_uuid(), timestamp: utc_now_millis(), addr }
    }

    /// The connection to `addr` ended.
    pub fn new_disconnected(addr: String) -> (event: Self)
        ensures
            tells(event@, WsEventContent::Disconnected { addr: addr@, error: None }),
    {
        WsEvent::Disconnected {
            id: random_uuid(),
            timestamp: utc_now_millis(),
            addr,
            error: None,
        }
    }

    /// The connection to `addr` failed, for the reason that `error` gives.
    pub fn new_failed(addr: String, error: String) -> (event: Self)
        ensures
            tells(event@, WsEventContent::Disconnected { addr: addr@, error: Some(error@) }),
    {
        WsEvent::Disconnected {
            id: random_uuid(),
            timestamp: utc_now_millis(),
            addr,
            error: Some(error),
        }
    }

    /// The text `message` came in from `addr`.
    pub fn new_message_received(addr: String, message: String) -> (event: Self)
        ensures
            tells(event@, WsEventContent::MessageReceived {
                addr: addr@,
                message: message@,
            }),
    {
        WsEvent::MessageReceived {
            id: random_uuid(),
            timestamp: utc_now_millis(),
            addr,
            message,
        }
    }

    /// The event's own identifier.
    pub fn event_id(&self) -> (id: u128)
        ensures
            id == self@.id,
    {
        match self {
            WsEvent::Connected { id, .. } => *id,
            WsEvent::Disconnected { id, .. } => *id,
            WsEvent::MessageReceived { id, .. } => *id,
        }
    }

    /// When the event was made, in milliseconds since the Unix epoch.
    pub fn timestamp(&self) -> (timestamp: i64)
        ensures
            timestamp == self@.timestamp,
    {
        match self {
            WsEvent::Connected { timestamp, .. } => *timestamp,
            WsEvent::Disconnected { timestamp, .. } => *timestamp,
            WsEvent::MessageReceived { timestamp, .. } => *timestamp,
        }
    }

    /// The remote address that the event is about.
    pub fn addr(&self) -> (addr: &String)
        ensures
            addr@ == match self@.content {
                WsEventContent::Connected { addr } => addr,
                WsEventContent::Disconnected { addr, .. } => addr,
                WsEventContent::MessageReceived { addr, .. } => addr,
            },
    {
        match self {
            WsEvent::Connected { addr, .. } => addr,
            WsEvent::Disconnected { addr, .. } => addr,
            WsEvent::MessageReceived { addr, .. } => addr,
        }
    }
}

} // verus!
