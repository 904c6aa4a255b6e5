//! Addresses as plain numbers.

use vstd::prelude::*;

verus! {

/// An address of a host.
#[derive(Clone, Copy, Debug, PartialEq, Eq, Structural)]
pub enum IpAddress {
    V4(u32),
    V6(u128),
}

/// A port of a host.
#[derive(Clone, Copy, Debug, PartialEq, Eq, Structural)]
pub struct SocketAddress {
    pub ip: IpAddress,
    pub port: u16,
    /// The flow label of version 6, zero in version 4.
    pub flowinfo: u32,
    /// The zone of a version 6 address, zero in version 4.
    pub scope_id: u32,
}

} // verus!
