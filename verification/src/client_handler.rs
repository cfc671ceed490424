pub mod client_state;
pub mod msg_handler;
