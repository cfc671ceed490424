//! What one connection actor knows.

use vstd::prelude::*;
use crate::addr::PeerAddr;

verus! {

/// The connection actor: what it does with each event that reaches it.
pub struct SingleConnectionHandler {}

/// The state of one connection actor: the way to the registry, and the
/// address of the peer that it serves.
pub struct SingleConnectionState<C> {
    pub controller_handle: C,
    pub addr: PeerAddr,
}

impl<C> SingleConnectionState<C> {
    pub fn new(controller_handle: C, addr: PeerAddr) -> (state: Self)
        ensures
            state.controller_handle == controller_handle,
            state.addr == addr,
    {
        SingleConnectionState { controller_handle, addr }
    }
}

} // verus!
