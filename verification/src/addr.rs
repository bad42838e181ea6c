//! Network addresses as plain values: four IPv4 octets and a port.
//!
//! The connection-establishment layer that owns real socket addresses
//! converts to and from this form at the boundary; everything in the channel
//! core identifies a peer by an `Addr`.

use vstd::prelude::*;

verus! {

/// A peer's network address: IPv4 octets `a.b.c.d` and a TCP port.
#[derive(Clone, Copy, Debug, PartialEq, Eq, Structural, Hash)]
pub struct Addr {
    pub a: u8,
    pub b: u8,
    pub c: u8,
    pub d: u8,
    pub port: u16,
}

impl Addr {
    /// Builds an address from its octets and port.
    pub fn new(a: u8, b: u8, c: u8, d: u8, port: u16) -> (r: Addr)
        ensures
            r == (Addr { a, b, c, d, port }),
    {
        Addr { a, b, c, d, port }
    }
}

/// One freshly established duplex connection to a remote endpoint, as the
/// connection-establishment collaborator hands it over: the local and the
/// peer address, and whether the underlying transport can be halved into an
/// independent read side and write side.
#[derive(Clone, Copy, Debug, PartialEq, Eq, Structural)]
pub struct PeerConn {
    pub local: Addr,
    pub peer: Addr,
    pub halvable: bool,
}

} // verus!
