//! The transports over which a peer may be reached.

use vstd::prelude::*;

verus! {

/// A way of carrying messages between two peers.
#[derive(Clone, Copy, Debug, PartialEq, Eq, Structural)]
pub enum Transport {
    Quic,
    Websocket,
    WebRTC,
}

} // verus!
