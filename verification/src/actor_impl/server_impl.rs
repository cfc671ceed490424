//! The state that the registry actor owns, and what it does with each event
//! from a connection.

use vstd::prelude::*;
use vstd::hash_set::StringHashSet;
use crate::actor_impl::registry::{DeliveryView, Registry, RegistryEvent, SessionView};
use crate::addr::PeerAddr;
use crate::msg::{ServerFrame, ServerResponse};

verus! {

/// One connection: where it comes from, the display name it has been given,
/// and the handle through which frames reach it.
struct Session<H> {
    addr: PeerAddr,
    username: Option<String>,
    handle: H,
}

impl<H> View for Session<H> {
    type V = SessionView<H>;

    closed spec fn view(&self) -> SessionView<H> {
        SessionView {
            addr: self.addr,
            username: match self.username {
                Some(name) => Some(name@),
                None => None,
            },
            handle: self.handle,
        }
    }
}

/// A frame on its way to the connection at `to`.
#[derive(Debug, Clone, PartialEq, Eq)]
pub struct Delivery {
    pub to: PeerAddr,
    pub frame: ServerResponse,
}

impl View for Delivery {
    type V = DeliveryView;

    open spec fn view(&self) -> DeliveryView {
        DeliveryView { to: self.to, frame: self.frame@ }
    }
}

/// The deliveries of a list, each as a plain value.
pub open spec fn delivery_views(list: Seq<Delivery>) -> Seq<DeliveryView> {
    list.map_values(|d: Delivery| d@)
}

/// What a connection reports to the registry.
#[derive(Debug, Clone, PartialEq, Eq)]
pub enum ConnectionMessage {
    /// The connection sent a line of chat.
    UserMessage { addr: PeerAddr, message: String },
    /// The connection asks for a display name.
    UserCreationRequest { addr: PeerAddr, name: String },
    /// The connection is gone.
    ConnectionDropped { addr: PeerAddr },
}

impl View for ConnectionMessage {
    type V = RegistryEvent;

    open spec fn view(&self) -> RegistryEvent {
        match self {
            ConnectionMessage::UserMessage { addr, message } => RegistryEvent::ChatSent {
                addr: *addr,
                text: message@,
            },
            ConnectionMessage::UserCreationRequest { addr, name } => RegistryEvent::UsernameRequested {
                addr: *addr,
                name: name@,
            },
            ConnectionMessage::ConnectionDropped { addr } => RegistryEvent::Disconnected {
                addr: *addr,
            },
        }
    }
}

/// The sessions of a list, each as a plain value.
spec fn session_views<H>(list: Seq<Session<H>>) -> Seq<SessionView<H>> {
    list.map_values(|s: Session<H>| s@)
}

/// Where in `connections` the session with this address stands.
fn find_session<H>(connections: &Vec<Session<H>>, addr: PeerAddr) -> (found: Option<usize>)
    ensures
        match found {
            Some(at) => at < connections@.len() && connections@[at as int].addr == addr,
            None => forall|i: int|
                0 <= i < connections@.len() ==> (#[trigger] connections@[i]).addr != addr,
        },
{
    let mut i: usize = 0;
    while i < connections.len()
        invariant
            i <= connections@.len(),
            forall|k: int| 0 <= k < i ==> (#[trigger] connections@[k]).addr != addr,
        decreases connections@.len() - i,
    {
        if connections[i].addr == addr {
            return Some(i);
        }
        i += 1;
    }
    None
}

/// The registry that a list of sessions and a set of names stand for.
spec fn registry_of<H>(connections: Seq<Session<H>>, names: Set<Seq<char>>) -> Registry<
    H,
> {
    Registry { sessions: session_views(connections), claimed_names: names }
}

/// What `find_session` found is what the registry's own search finds.
proof fn lemma_found<H>(
    connections: Seq<Session<H>>,
    names: Set<Seq<char>>,
    addr: PeerAddr,
    found: Option<usize>,
)
    requires
        registry_of(connections, names).consistent(),
        match found {
            Some(at) => at < connections.len() && connections[at as int].addr == addr,
            None => forall|i: int|
                0 <= i < connections.len() ==> (#[trigger] connections[i]).addr != addr,
        },
    ensures
        registry_of(connections, names).has_session(addr) == (found is Some),
        found matches Some(at) ==> registry_of(connections, names).position(addr) == at,
{
    let registry = registry_of(connections, names);
    match found {
        Some(at) => {
            registry.lemma_position(addr, at as int);
        },
        None => {
            assert forall|i: int| 0 <= i < registry.sessions.len() implies (
            #[trigger] registry.sessions[i]).addr != addr by {
                assert(connections[i].addr != addr);
            }
        },
    }
}

/// Drops the session with this address, if there is one, and frees its name.
fn drop_session<H>(connections: &mut Vec<Session<H>>, names: &mut StringHashSet, addr: PeerAddr)
    requires
        registry_of(old(connections)@, old(names)@).consistent(),
    ensures
        registry_of(final(connections)@, final(names)@) == registry_of(
            old(connections)@,
            old(names)@,
        ).disconnected(addr),
        registry_of(final(connections)@, final(names)@).consistent(),
{
    let ghost before = registry_of(connections@, names@);
    let found = find_session(connections, addr);
    proof {
        lemma_found(connections@, names@, addr, found);
        before.lemma_disconnected_consistent(addr);
    }
    if let Some(at) = found {
        let gone = connections.remove(at);
        if let Some(name) = gone.username {
            names.remove(name.as_str());
        }
        proof {
            let now = registry_of(connections@, names@);
            assert(now.sessions =~= before.sessions.remove(at as int));
            assert(now.claimed_names =~= before.disconnected(addr).claimed_names);
        }
    }
}

/// Adds a fresh session without a name for this address, in place of any
/// session that held the address before.
fn add_session<H>(
    connections: &mut Vec<Session<H>>,
    names: &mut StringHashSet,
    addr: PeerAddr,
    handle: H,
)
    requires
        registry_of(old(connections)@, old(names)@).consistent(),
    ensures
        registry_of(final(connections)@, final(names)@) == registry_of(
            old(connections)@,
            old(names)@,
        ).connected(addr, handle),
        registry_of(final(connections)@, final(names)@).consistent(),
{
    let ghost before = registry_of(connections@, names@);
    drop_session(connections, names, addr);
    connections.push(Session { addr, username: None, handle });
    proof {
        let now = registry_of(connections@, names@);
        before.lemma_connected_consistent(addr, handle);
        assert(now.sessions =~= before.connected(addr, handle).sessions);
    }
}

/// Gives the session at `addr` the name it asks for where that name is free,
/// and says what to answer.
fn claim_name<H>(
    connections: &mut Vec<Session<H>>,
    names: &mut StringHashSet,
    addr: PeerAddr,
    name: String,
) -> (out: Vec<Delivery>)
    requires
        registry_of(old(connections)@, old(names)@).consistent(),
    ensures
        registry_of(final(connections)@, final(names)@) == registry_of(
            old(connections)@,
            old(names)@,
        ).username_requested(addr, name@),
        registry_of(final(connections)@, final(names)@).consistent(),
        delivery_views(out@) == registry_of(old(connections)@, old(names)@).username_reply(
            addr,
            name@,
        ),
{
    let ghost before = registry_of(connections@, names@);
    let mut out: Vec<Delivery> = Vec::new();
    let found = find_session(connections, addr);
    proof {
        lemma_found(connections@, names@, addr, found);
        before.lemma_username_requested_consistent(addr, name@);
    }
    if let Some(at) = found {
        if names.contains(name.as_str()) {
            out.push(
                Delivery {
                    to: addr,
                    frame: ServerResponse::UsernameRejected { reason: "name taken".to_owned() },
                },
            );
        } else {
            let session = connections.remove(at);
            if let Some(given_up) = session.username {
                names.remove(given_up.as_str());
            }
            connections.insert(
                at,
                Session { addr, username: Some(name.clone()), handle: session.handle },
            );
            names.insert(name);
            out.push(Delivery { to: addr, frame: ServerResponse::UsernameAccepted });
            proof {
                let now = registry_of(connections@, names@);
                let next = before.username_requested(addr, name@);
                assert(now.sessions =~= next.sessions);
                assert(now.claimed_names =~= next.claimed_names);
            }
        }
    }
    assert(delivery_views(out@) =~= before.username_reply(addr, name@));
    out
}

/// The frames that a line of chat from `addr` sends out.
fn fan_out<H>(
    connections: &Vec<Session<H>>,
    names: &StringHashSet,
    addr: PeerAddr,
    text: &str,
) -> (out: Vec<Delivery>)
    requires
        registry_of(connections@, names@).consistent(),
    ensures
        delivery_views(out@) == registry_of(connections@, names@).broadcast(addr, text@),
{
    let ghost registry = registry_of(connections@, names@);
    let mut out: Vec<Delivery> = Vec::new();
    let found = find_session(connections, addr);
    proof {
        lemma_found(connections@, names@, addr, found);
    }
    if let Some(at) = found {
        if let Some(from) = &connections[at].username {
            let mut i: usize = 0;
            while i < connections.len()
                invariant
                    i <= connections@.len(),
                    at < connections@.len(),
                    out@.len() == if i <= at { i as int } else { i - 1 },
                    forall|k: int|
                        0 <= k < out@.len() ==> (#[trigger] out@[k])@ == (DeliveryView {
                            to: connections@[if k < at { k } else { k + 1 }].addr,
                            frame: ServerFrame::Broadcast { from_username: from@, text: text@ },
                        }),
                decreases connections@.len() - i,
            {
                if i != at {
                    out.push(
                        Delivery {
                            to: connections[i].addr,
                            frame: ServerResponse::Broadcast {
                                username: from.clone(),
                                message: text.to_owned(),
                            },
                        },
                    );
                }
                i += 1;
            }
            assert(delivery_views(out@) =~= registry.broadcast(addr, text@));
            return out;
        }
    }
    assert(delivery_views(out@) =~= registry.broadcast(addr, text@));
    out
}

/// The state of the registry: every live connection and every display name
/// that is taken.
pub struct ServerState<H> {
    connections: Vec<Session<H>>,
    user_names: StringHashSet,
}

impl<H> View for ServerState<H> {
    type V = Registry<H>;

    closed spec fn view(&self) -> Registry<H> {
        registry_of(self.connections@, self.user_names@)
    }
}


impl<H> ServerState<H> {
    /// Holds of every `ServerState` at every moment.
    #[verifier::type_invariant]
    pub open spec fn well_formed(self) -> bool {
        self@.consistent()
    }

    /// A registry without sessions and without names.
    pub fn new() -> (state: Self)
        ensures
            state@ == Registry::<H>::empty(),
            state@.consistent(),
    {
        let connections: Vec<Session<H>> = Vec::new();
        let user_names = StringHashSet::new();
        proof {
            let made = registry_of(connections@, user_names@);
            assert(made.sessions =~= Seq::<SessionView<H>>::empty());
            assert(made.claimed_names =~= made.session_names());
        }
        ServerState { connections, user_names }
    }

    /// Registers the connection that was accepted from `addr`: it gets a
    /// fresh session without a name. A session that held the address before
    /// is dropped, and its name is free again.
    pub fn connect(&mut self, addr: PeerAddr, handle: H)
        ensures
            final(self)@ == old(self)@.connected(addr, handle),
            final(self)@.consistent(),
    {
        proof {
            use_type_invariant(&*self);
        }
        let mut taken = ServerState::new();
        core::mem::swap(self, &mut taken);
        let ServerState { connections, user_names } = taken;
        let mut connections = connections;
        let mut user_names = user_names;
        add_session(&mut connections, &mut user_names, addr, handle);
        *self = ServerState { connections, user_names };
    }

    /// Handles a request of the session at `addr` for the display name
    /// `name`. A free name becomes the session's name and the answer is
    /// `UsernameAccepted`; a name that is taken changes nothing and the answer
    /// is `UsernameRejected`. Without a session at `addr` nothing changes and
    /// nothing is answered.
    pub fn request_username(&mut self, addr: PeerAddr, name: String) -> (out: Vec<Delivery>)
        ensures
            final(self)@ == old(self)@.username_requested(addr, name@),
            final(self)@.consistent(),
            delivery_views(out@) == old(self)@.username_reply(addr, name@),
    {
        proof {
            use_type_invariant(&*self);
        }
        let mut taken = ServerState::new();
        core::mem::swap(self, &mut taken);
        let ServerState { connections, user_names } = taken;
        let mut connections = connections;
        let mut user_names = user_names;
        let out = claim_name(&mut connections, &mut user_names, addr, name);
        *self = ServerState { connections, user_names };
        out
    }

    /// The frames that a line of chat from `addr` sends out: a `Broadcast`
    /// under the sender's name to every other session, and nothing where the
    /// sender has no session or no name.
    pub fn broadcast(&self, addr: PeerAddr, text: &str) -> (out: Vec<Delivery>)
        ensures
            delivery_views(out@) == self@.broadcast(addr, text@),
            self@.consistent(),
    {
        proof {
            use_type_invariant(self);
        }
        fan_out(&self.connections, &self.user_names, addr, text)
    }

    /// Forgets the connection at `addr`: its session is dropped and its name
    /// is free again.
    pub fn disconnect(&mut self, addr: PeerAddr)
        ensures
            final(self)@ == old(self)@.disconnected(addr),
            final(self)@.consistent(),
    {
        proof {
            use_type_invariant(&*self);
        }
        let mut taken = ServerState::new();
        core::mem::swap(self, &mut taken);
        let ServerState { connections, user_names } = taken;
        let mut connections = connections;
        let mut user_names = user_names;
        drop_session(&mut connections, &mut user_names, addr);
        *self = ServerState { connections, user_names };
    }

    /// The handle of the session at `addr`.
    pub fn handle_of(&self, addr: PeerAddr) -> (found: Option<&H>)
        ensures
            match found {
                Some(handle) => self@.handle_of(addr) == Some(*handle),
                None => self@.handle_of(addr) is None,
            },
    {
        proof {
            use_type_invariant(self);
        }
        let found = find_session(&self.connections, addr);
        proof {
            lemma_found(self.connections@, self.user_names@, addr, found);
        }
        match found {
            Some(at) => Some(&self.connections[at].handle),
            None => None,
        }
    }

    /// The display name of the session at `addr`.
    pub fn username_of(&self, addr: PeerAddr) -> (found: Option<&String>)
        ensures
            match found {
                Some(name) => self@.username_of(addr) == Some(name@),
                None => self@.username_of(addr) is None,
            },
    {
        proof {
            use_type_invariant(self);
        }
        let found = find_session(&self.connections, addr);
        proof {
            lemma_found(self.connections@, self.user_names@, addr, found);
        }
        match found {
            Some(at) => match &self.connections[at].username {
                Some(name) => Some(name),
                None => None,
            },
            None => None,
        }
    }

    /// Whether a session with this address exists.
    pub fn has_session(&self, addr: PeerAddr) -> (found: bool)
        ensures
            found == self@.has_session(addr),
    {
        proof {
            use_type_invariant(self);
        }
        let found = find_session(&self.connections, addr);
        proof {
            lemma_found(self.connections@, self.user_names@, addr, found);
        }
        found.is_some()
    }

    /// Whether this display name is taken.
    pub fn is_claimed(&self, name: &str) -> (taken: bool)
        ensures
            taken == self@.claimed_names.contains(name@),
    {
        self.user_names.contains(name)
    }

    /// The number of sessions.
    pub fn len(&self) -> (count: usize)
        ensures
            count == self@.sessions.len(),
    {
        self.connections.len()
    }
}

impl<H> Default for ServerState<H> {
    fn default() -> (state: Self)
        ensures
            state@ == Registry::<H>::empty(),
            state@.consistent(),
    {
        ServerState::new()
    }
}

/// The registry actor: what it does with each event that reaches it.
pub struct CentralController {}

impl CentralController {
    /// Applies one event from a connection to the registry and says which
    /// frames to send.
    pub fn handle<H>(state: &mut ServerState<H>, msg: ConnectionMessage) -> (out: Vec<Delivery>)
        ensures
            final(state)@ == old(state)@.after(msg@),
            final(state)@.consistent(),
            delivery_views(out@) == old(state)@.deliveries(msg@),
    {
        match msg {
            ConnectionMessage::UserMessage { addr, message } => state.broadcast(
                addr,
                message.as_str(),
            ),
            ConnectionMessage::UserCreationRequest { addr, name } => state.request_username(
                addr,
                name,
            ),
            ConnectionMessage::ConnectionDropped { addr } => {
                state.disconnect(addr);
                let out: Vec<Delivery> = Vec::new();
                assert(delivery_views(out@) =~= Seq::<DeliveryView>::empty());
                out
            },
        }
    }
}

} // verus!
