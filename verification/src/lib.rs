//! The core of a small chat relay: the wire codec for the frames that clients
//! and the server exchange, the session registry that hands out display names
//! and fans chat messages out, and the decisions of the two actors that sit
//! between sockets and mailboxes.
//!
//! Everything here is a function from plain values to plain values. Sockets,
//! channels and tasks live with the program that links this library.

pub mod actor;
pub mod actor_impl;
pub mod addr;
pub mod client_handler;
pub mod msg;
pub mod wire;
