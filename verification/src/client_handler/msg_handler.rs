//! A handler that acknowledges every text message and hangs up on request.

use vstd::prelude::*;
use vstd::utf8::{encode_utf8, encode_utf8_decode_utf8};
use crate::client_handler::client_state::ClientStateAction;

verus! {

/// Answers every message with the same acknowledgement, and closes the
/// connection when the peer asks for it or cannot be reached.
pub struct MsgHandler {}

/// The acknowledgement that goes back for every message.
pub open spec fn acknowledgement() -> Seq<char> {
    "Server received your message!"@
}

/// The message with which a peer asks to be disconnected.
pub open spec fn farewell() -> Seq<char> {
    "disconnect"@
}

/// Whether two texts are the same text.
fn same_text(a: &str, b: &str) -> (same: bool)
    ensures
        same == (a@ == b@),
{
    let x = a.as_bytes();
    let y = b.as_bytes();
    proof {
        encode_utf8_decode_utf8(a@);
        encode_utf8_decode_utf8(b@);
    }
    if x.len() != y.len() {
        return false;
    }
    let mut i: usize = 0;
    while i < x.len()
        invariant
            x@ == encode_utf8(a@),
            y@ == encode_utf8(b@),
            x@.len() == y@.len(),
            i <= x@.len(),
            forall|k: int| 0 <= k < i ==> x@[k] == y@[k],
        decreases x@.len() - i,
    {
        if x[i] != y[i] {
            return false;
        }
        i += 1;
    }
    assert(x@ =~= y@);
    true
}

impl MsgHandler {
    pub fn new() -> (handler: Self) {
        MsgHandler {  }
    }

    /// The text to write back for a message, whatever the message is.
    pub fn response() -> (text: &'static str)
        ensures
            text@ == acknowledgement(),
    {
        "Server received your message!"
    }

    /// What becomes of the connection once the answer to `message` has been
    /// written, or could not be written: it closes where the write failed or
    /// the message asks for it, and stays open otherwise.
    pub fn after_reply(message: &str, written: bool) -> (action: ClientStateAction)
        ensures
            action == if !written || message@ == farewell() {
                ClientStateAction::Disconnect
            } else {
                ClientStateAction::KeepAlive
            },
    {
        if !written {
            ClientStateAction::Disconnect
        } else if same_text(message, "disconnect") {
            ClientStateAction::Disconnect
        } else {
            ClientStateAction::KeepAlive
        }
    }
}

} // verus!
