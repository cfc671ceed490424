//! The connection actor's event loop, one turn at a time. The actor owns one
//! socket. It writes what the registry asks it to write, and passes on to the
//! registry what the peer sends. It never touches the registry's state.

use vstd::prelude::*;
use crate::actor::{EXIT_DONE, EXIT_KILLED};
use crate::actor_impl::registry::RegistryEvent;
use crate::actor_impl::server_impl::ConnectionMessage;
use crate::actor_impl::tcp_impl::{SingleConnectionHandler, SingleConnectionState};
use crate::addr::PeerAddr;
use crate::msg::{ClientFrame, ClientMessage, DecodeError, ServerFrame, ServerResponse};

verus! {

/// What the registry asks a connection actor to do.
#[derive(Debug, Clone, PartialEq, Eq)]
pub enum ControllerMessages {
    /// Write this frame to the socket.
    WriteStream(ServerResponse),
    /// Nothing.
    Null,
}

/// A `ControllerMessages` as a plain value.
pub enum ControllerRequest {
    WriteStream(ServerFrame),
    Null,
}

impl View for ControllerMessages {
    type V = ControllerRequest;

    open spec fn view(&self) -> ControllerRequest {
        match self {
            ControllerMessages::WriteStream(frame) => ControllerRequest::WriteStream(frame@),
            ControllerMessages::Null => ControllerRequest::Null,
        }
    }
}

/// What a connection's loop can wake up to.
#[derive(Debug, Clone, PartialEq, Eq)]
pub enum ConnectionEvent {
    /// The registry asked for something.
    Controller(ControllerMessages),
    /// The actor was told to shut down.
    PoisonPill,
    /// A read from the socket came back with these bytes. No bytes: the peer
    /// has closed the connection.
    Received(Vec<u8>),
    /// A read from the socket failed.
    ReadFailed,
    /// The write that the last turn asked for failed.
    WriteFailed,
}

/// A `ConnectionEvent` as a plain value.
pub enum ConnectionEventView {
    Controller(ControllerRequest),
    PoisonPill,
    Received(Seq<u8>),
    ReadFailed,
    WriteFailed,
}

impl View for ConnectionEvent {
    type V = ConnectionEventView;

    open spec fn view(&self) -> ConnectionEventView {
        match self {
            ConnectionEvent::Controller(msg) => ConnectionEventView::Controller(msg@),
            ConnectionEvent::PoisonPill => ConnectionEventView::PoisonPill,
            ConnectionEvent::Received(bytes) => ConnectionEventView::Received(bytes@),
            ConnectionEvent::ReadFailed => ConnectionEventView::ReadFailed,
            ConnectionEvent::WriteFailed => ConnectionEventView::WriteFailed,
        }
    }
}

/// What a connection's loop does after an event.
#[derive(Debug, Clone, PartialEq, Eq)]
pub enum ConnectionAction {
    /// Write these bytes to the socket, then wait for the next event.
    Write(Vec<u8>),
    /// Send this to the registry, then wait for the next event.
    Forward(ConnectionMessage),
    /// The bytes that came were no frame: drop them and wait for the next
    /// event.
    Discard(DecodeError),
    /// Wait for the next event.
    Wait,
    /// Send `notify` to the registry, if there is one, and leave the loop
    /// with this status.
    Exit { notify: Option<ConnectionMessage>, status: u8 },
}

/// A `ConnectionAction` as a plain value.
pub enum ConnectionActionView {
    Write(Seq<u8>),
    Forward(RegistryEvent),
    Discard(DecodeError),
    Wait,
    Exit { notify: Option<RegistryEvent>, status: u8 },
}

impl View for ConnectionAction {
    type V = ConnectionActionView;

    open spec fn view(&self) -> ConnectionActionView {
        match self {
            ConnectionAction::Write(bytes) => ConnectionActionView::Write(bytes@),
            ConnectionAction::Forward(msg) => ConnectionActionView::Forward(msg@),
            ConnectionAction::Discard(error) => ConnectionActionView::Discard(*error),
            ConnectionAction::Wait => ConnectionActionView::Wait,
            ConnectionAction::Exit { notify, status } => ConnectionActionView::Exit {
                notify: match notify {
                    Some(msg) => Some(msg@),
                    None => None,
                },
                status: *status,
            },
        }
    }
}

/// What the connection at `addr` reports for a frame from its peer.
pub open spec fn report_of(addr: PeerAddr, frame: ClientFrame) -> RegistryEvent {
    match frame {
        ClientFrame::SetUsername(name) => RegistryEvent::UsernameRequested { addr, name },
        ClientFrame::ChatMessage(text) => RegistryEvent::ChatSent { addr, text },
    }
}

/// What the loop does with a request from the registry.
pub open spec fn controller_turn(request: ControllerRequest) -> ConnectionActionView {
    match request {
        ControllerRequest::WriteStream(frame) => ConnectionActionView::Write(frame.wire()),
        ControllerRequest::Null => ConnectionActionView::Wait,
    }
}

/// The way out of the loop on which the registry learns that the connection
/// at `addr` is gone.
pub open spec fn leave_reporting(addr: PeerAddr) -> ConnectionActionView {
    ConnectionActionView::Exit {
        notify: Some(RegistryEvent::Disconnected { addr }),
        status: EXIT_DONE,
    }
}

/// What the loop of the connection at `addr` does in one turn.
pub open spec fn connection_turn(addr: PeerAddr, event: ConnectionEventView) -> ConnectionActionView {
    match event {
        ConnectionEventView::Controller(request) => controller_turn(request),
        ConnectionEventView::PoisonPill => ConnectionActionView::Exit {
            notify: None,
            status: EXIT_KILLED,
        },
        ConnectionEventView::Received(bytes) => if bytes.len() == 0 {
            leave_reporting(addr)
        } else {
            match ClientFrame::parse(bytes) {
                Ok(frame) => ConnectionActionView::Forward(report_of(addr, frame)),
                Err(error) => ConnectionActionView::Discard(error),
            }
        },
        ConnectionEventView::ReadFailed => leave_reporting(addr),
        ConnectionEventView::WriteFailed => leave_reporting(addr),
    }
}

/// Whatever a client encodes and sends in one piece reaches the registry as
/// the event that stands for it.
pub proof fn lemma_sent_frame_is_forwarded(addr: PeerAddr, frame: ClientFrame)
    requires
        frame.fits(),
    ensures
        connection_turn(addr, ConnectionEventView::Received(frame.wire()))
            == ConnectionActionView::Forward(report_of(addr, frame)),
{
    frame.lemma_round_trip();
    ClientFrame::lemma_parse_unique(frame.wire());
}

impl SingleConnectionHandler {
    /// What to do with a request from the registry: a frame to write becomes
    /// the bytes to write.
    pub fn handle_controller_message(msg: ControllerMessages) -> (action: ConnectionAction)
        ensures
            action@ == controller_turn(msg@),
    {
        match msg {
            ControllerMessages::WriteStream(frame) => ConnectionAction::Write(frame.encode()),
            ControllerMessages::Null => ConnectionAction::Wait,
        }
    }

    /// What to do with a frame from the peer: it goes to the registry, under
    /// the address of this connection.
    pub fn handle_message<C>(state: &SingleConnectionState<C>, msg: ClientMessage) -> (action:
        ConnectionAction)
        ensures
            action@ == ConnectionActionView::Forward(report_of(state.addr, msg@)),
    {
        match msg {
            ClientMessage::UserName(name) => ConnectionAction::Forward(
                ConnectionMessage::UserCreationRequest { addr: state.addr, name },
            ),
            ClientMessage::Message(message) => ConnectionAction::Forward(
                ConnectionMessage::UserMessage { addr: state.addr, message },
            ),
        }
    }

    /// One turn of the connection's loop.
    pub fn step<C>(state: &SingleConnectionState<C>, event: ConnectionEvent) -> (action:
        ConnectionAction)
        ensures
            action@ == connection_turn(state.addr, event@),
    {
        match event {
            ConnectionEvent::Controller(msg) => SingleConnectionHandler::handle_controller_message(
                msg,
            ),
            ConnectionEvent::PoisonPill => ConnectionAction::Exit {
                notify: None,
                status: EXIT_KILLED,
            },
            ConnectionEvent::Received(bytes) => {
                if bytes.len() == 0 {
                    SingleConnectionHandler::leave(state)
                } else {
                    match ClientMessage::decode(bytes.as_slice()) {
                        Ok(msg) => SingleConnectionHandler::handle_message(state, msg),
                        Err(error) => ConnectionAction::Discard(error),
                    }
                }
            },
            ConnectionEvent::ReadFailed => SingleConnectionHandler::leave(state),
            ConnectionEvent::WriteFailed => SingleConnectionHandler::leave(state),
        }
    }

    /// Leaves the loop and tells the registry that this connection is gone.
    fn leave<C>(state: &SingleConnectionState<C>) -> (action: ConnectionAction)
        ensures
            action@ == leave_reporting(state.addr),
    {
        ConnectionAction::Exit {
            notify: Some(ConnectionMessage::ConnectionDropped { addr: state.addr }),
            status: EXIT_DONE,
        }
    }
}

} // verus!
