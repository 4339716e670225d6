//! Flow identification: a unidirectional flow is named by its source and
//! destination addresses and ports. Keys are directional — a request flow
//! and its reply flow have distinct keys — and are never mutated.

use vstd::prelude::*;

verus! {

/// A network address, held as its numeric value.
#[derive(Debug, Clone, Copy, PartialEq, Eq, Structural)]
pub enum IpAddress {
    V4(u32),
    V6(u128),
}

/// Identifies one direction of a transport-layer conversation.
#[derive(Debug, Clone, Copy, PartialEq, Eq, Structural)]
pub struct FlowKey {
    pub source_ip: IpAddress,
    pub source_port: u16,
    pub destination_ip: IpAddress,
    pub destination_port: u16,
}

impl FlowKey {
    /// Bundle the four transport-layer fields into a key.
    pub fn new(source_ip: IpAddress, source_port: u16, destination_ip: IpAddress, destination_port: u16) -> (r: FlowKey)
        ensures
            r == (FlowKey { source_ip, source_port, destination_ip, destination_port }),
    {
        FlowKey { source_ip, source_port, destination_ip, destination_port }
    }
}

} // verus!
