//! Network endpoints as plain values.

use vstd::prelude::*;

verus! {

/// An IP address, held as the big-endian integer of its octets.
#[derive(Clone, Copy, Debug, PartialEq, Eq, Structural)]
pub enum IpAddress {
    V4(u32),
    V6(u128),
}

/// An IP address and a port: where a peer can be reached.
#[derive(Clone, Copy, Debug, PartialEq, Eq, Structural)]
pub struct Endpoint {
    pub ip: IpAddress,
    pub port: u16,
}

impl Endpoint {
    pub fn new(ip: IpAddress, port: u16) -> (endpoint: Endpoint)
        ensures
            endpoint == (Endpoint { ip, port }),
    {
        Endpoint { ip, port }
    }

    /// The same host on another port.
    pub fn with_port(&self, port: u16) -> (endpoint: Endpoint)
        ensures
            endpoint == (Endpoint { ip: self.ip, port }),
    {
        Endpoint { ip: self.ip, port }
    }
}

} // verus!
