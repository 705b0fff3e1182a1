//! What this core needs to know of the unreliable-datagram transport:
//! peer addresses and the events it delivers.
use vstd::prelude::*;

verus! {

/// A transport endpoint, held as plain values: the IP address (an IPv4
/// address in its low 32 bits), the port, and for IPv6 the flow label and
/// scope.
#[derive(Clone, Copy, PartialEq, Eq, Structural, Debug)]
pub struct Address {
    pub ip: u128,
    pub port: u16,
    pub v6: bool,
    pub flowinfo: u32,
    pub scope_id: u32,
}

/// What the transport reports: a peer connected, a peer timed out, or a
/// packet arrived from a peer.
pub enum TransportEvent {
    Connect(Address),
    Timeout(Address),
    Packet(Address, Vec<u8>),
}

} // verus!
