//! The name of a connection's far end.

use vstd::prelude::*;

verus! {

/// The network endpoint of a peer. Two peers are the same connection exactly
/// when every field agrees.
#[derive(Clone, Copy, Debug, PartialEq, Eq, Hash, Structural)]
pub enum PeerAddr {
    /// An IPv4 address, its four octets as one number, and a port.
    V4 { octets: u32, port: u16 },
    /// An IPv6 address, its eight segments as one number, a port, and the
    /// flow and scope fields.
    V6 { segments: u128, port: u16, flowinfo: u32, scope_id: u32 },
}

} // verus!
