//! The registry actor's event loop, one turn at a time: what woke the loop,
//! and what the loop does about it.

use vstd::prelude::*;
use crate::actor::{EXIT_DONE, EXIT_KILLED};
use crate::actor_impl::registry::{DeliveryView, Registry};
use crate::actor_impl::server_impl::{
    delivery_views, CentralController, ConnectionMessage, Delivery, ServerState,
};
use crate::addr::PeerAddr;

verus! {

/// What the registry's loop can wake up to.
pub enum ServerEvent<H> {
    /// A connection reported something.
    Message(ConnectionMessage),
    /// The registry was told to shut down.
    PoisonPill,
    /// The listener accepted a socket from `addr`; frames for it go through
    /// `handle`.
    Accepted { addr: PeerAddr, handle: H },
    /// No source can ever fire again.
    Closed,
}

/// What the registry's loop does after an event.
#[derive(Debug, Clone, PartialEq, Eq)]
pub enum ServerAction {
    /// Send these frames, in this order, and wait for the next event.
    Deliver(Vec<Delivery>),
    /// Leave the loop with this status.
    Exit(u8),
}

/// A `ServerAction` as a plain value.
pub enum ServerActionView {
    Deliver(Seq<DeliveryView>),
    Exit(u8),
}

impl View for ServerAction {
    type V = ServerActionView;

    open spec fn view(&self) -> ServerActionView {
        match self {
            ServerAction::Deliver(list) => ServerActionView::Deliver(delivery_views(list@)),
            ServerAction::Exit(status) => ServerActionView::Exit(*status),
        }
    }
}

impl<H> Registry<H> {
    /// The registry after one turn of the loop.
    pub open spec fn turned(self, event: ServerEvent<H>) -> Registry<H> {
        match event {
            ServerEvent::Message(msg) => self.after(msg@),
            ServerEvent::Accepted { addr, handle } => self.connected(addr, handle),
            ServerEvent::PoisonPill => self,
            ServerEvent::Closed => self,
        }
    }

    /// What the loop does in one turn.
    pub open spec fn turn_action(self, event: ServerEvent<H>) -> ServerActionView {
        match event {
            ServerEvent::Message(msg) => ServerActionView::Deliver(self.deliveries(msg@)),
            ServerEvent::Accepted { addr, handle } => ServerActionView::Deliver(Seq::empty()),
            ServerEvent::PoisonPill => ServerActionView::Exit(EXIT_KILLED),
            ServerEvent::Closed => ServerActionView::Exit(EXIT_DONE),
        }
    }

    /// A turn of the loop loses nothing that always holds of a registry.
    pub proof fn lemma_turned_consistent(self, event: ServerEvent<H>)
        requires
            self.consistent(),
        ensures
            self.turned(event).consistent(),
    {
        match event {
            ServerEvent::Message(msg) => {
                self.lemma_after_consistent(msg@);
            },
            ServerEvent::Accepted { addr, handle } => {
                self.lemma_connected_consistent(addr, handle);
            },
            ServerEvent::PoisonPill => {},
            ServerEvent::Closed => {},
        }
    }
}

impl CentralController {
    /// One turn of the registry's loop: a message from a connection is
    /// applied and answered, an accepted socket gets a session, and a poison
    /// pill or the loss of every source ends the loop.
    pub fn step<H>(state: &mut ServerState<H>, event: ServerEvent<H>) -> (action: ServerAction)
        ensures
            final(state)@ == old(state)@.turned(event),
            final(state)@.consistent(),
            action@ == old(state)@.turn_action(event),
    {
        match event {
            ServerEvent::Message(msg) => ServerAction::Deliver(
                CentralController::handle(state, msg),
            ),
            ServerEvent::Accepted { addr, handle } => {
                state.connect(addr, handle);
                let none: Vec<Delivery> = Vec::new();
                assert(delivery_views(none@) =~= Seq::<DeliveryView>::empty());
                ServerAction::Deliver(none)
            },
            ServerEvent::PoisonPill => {
                proof {
                    use_type_invariant(&*state);
                }
                ServerAction::Exit(EXIT_KILLED)
            },
            ServerEvent::Closed => {
                proof {
                    use_type_invariant(&*state);
                }
                ServerAction::Exit(EXIT_DONE)
            },
        }
    }
}

} // verus!
