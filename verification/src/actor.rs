//! The two event loops of the relay, each as a function from what woke the
//! loop to what the loop does next.

use vstd::prelude::*;

pub mod server_actor;
pub mod tcp_handler;

verus! {

/// The status with which an actor leaves its loop after a poison pill.
pub const EXIT_KILLED: u8 = 1;

/// The status with which an actor leaves its loop for any other reason.
pub const EXIT_DONE: u8 = 0;

} // verus!
