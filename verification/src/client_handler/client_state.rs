//! What a handler of plain text messages decides about its connection.

use vstd::prelude::*;

verus! {

/// Whether a connection stays open after a message was handled.
#[derive(Debug, Clone, Copy, PartialEq, Eq, Structural)]
pub enum ClientStateAction {
    Disconnect,
    KeepAlive,
}

} // verus!
