pub mod registry;
pub mod server_impl;
pub mod tcp_impl;
