//! The session registry as a plain value: who is connected, which display
//! names are taken, what each event changes and sends, and what holds of
//! every registry that events can lead to.

use vstd::prelude::*;
use crate::addr::PeerAddr;
use crate::msg::ServerFrame;

verus! {

/// One connection as the registry sees it.
pub struct SessionView<H> {
    pub addr: PeerAddr,
    pub username: Option<Seq<char>>,
    pub handle: H,
}

/// A frame on its way to the connection at `to`.
pub struct DeliveryView {
    pub to: PeerAddr,
    pub frame: ServerFrame,
}

/// What a connection reports to the registry.
pub enum RegistryEvent {
    UsernameRequested { addr: PeerAddr, name: Seq<char> },
    ChatSent { addr: PeerAddr, text: Seq<char> },
    Disconnected { addr: PeerAddr },
}

/// The registry as a plain value: the sessions in the order in which they
/// connected, and the display names that are taken.
pub struct Registry<H> {
    pub sessions: Seq<SessionView<H>>,
    pub claimed_names: Set<Seq<char>>,
}

/// The reason that goes with a refused name.
pub open spec fn name_taken() -> Seq<char> {
    "name taken"@
}

impl<H> Registry<H> {
    /// The registry before anybody has connected.
    pub open spec fn empty() -> Registry<H> {
        Registry { sessions: Seq::empty(), claimed_names: Set::empty() }
    }

    /// Whether a session with this address exists.
    pub open spec fn has_session(self, addr: PeerAddr) -> bool {
        exists|i: int| 0 <= i < self.sessions.len() && (#[trigger] self.sessions[i]).addr == addr
    }

    /// Where the session with this address stands.
    pub open spec fn position(self, addr: PeerAddr) -> int {
        choose|i: int| 0 <= i < self.sessions.len() && (#[trigger] self.sessions[i]).addr == addr
    }

    /// The display name of the session with this address, if it has one.
    pub open spec fn username_of(self, addr: PeerAddr) -> Option<Seq<char>> {
        if self.has_session(addr) {
            self.sessions[self.position(addr)].username
        } else {
            None
        }
    }

    /// The handle of the session with this address.
    pub open spec fn handle_of(self, addr: PeerAddr) -> Option<H> {
        if self.has_session(addr) {
            Some(self.sessions[self.position(addr)].handle)
        } else {
            None
        }
    }

    /// The display names that sessions carry.
    pub open spec fn session_names(self) -> Set<Seq<char>> {
        Set::new(
            |name: Seq<char>|
                exists|i: int|
                    0 <= i < self.sessions.len() && (#[trigger] self.sessions[i]).username == Some(
                        name,
                    ),
        )
    }

    /// What always holds of a registry: no address has two sessions, no name
    /// has two sessions, and the names that are taken are exactly the names
    /// that sessions carry.
    pub open spec fn consistent(self) -> bool {
        &&& forall|i: int, j: int|
            0 <= i < j < self.sessions.len() ==> (#[trigger] self.sessions[i]).addr != (
            #[trigger] self.sessions[j]).addr
        &&& forall|i: int, j: int|
            0 <= i < j < self.sessions.len() && (#[trigger] self.sessions[i]).username is Some
                ==> self.sessions[i].username != (#[trigger] self.sessions[j]).username
        &&& self.claimed_names == self.session_names()
    }

    /// The claimed names once `name`, if there is one, is given up.
    pub open spec fn released(self, name: Option<Seq<char>>) -> Set<Seq<char>> {
        match name {
            Some(n) => self.claimed_names.remove(n),
            None => self.claimed_names,
        }
    }

    /// The registry after the connection at `addr` has gone: its session is
    /// dropped and its name is free again.
    pub open spec fn disconnected(self, addr: PeerAddr) -> Registry<H> {
        if self.has_session(addr) {
            let at = self.position(addr);
            Registry {
                sessions: self.sessions.remove(at),
                claimed_names: self.released(self.sessions[at].username),
            }
        } else {
            self
        }
    }

    /// The registry after a socket from `addr` was accepted: a fresh session
    /// without a name stands last. A session that held the address before is
    /// dropped first.
    pub open spec fn connected(self, addr: PeerAddr, handle: H) -> Registry<H> {
        let cleared = self.disconnected(addr);
        Registry {
            sessions: cleared.sessions.push(SessionView { addr, username: None, handle }),
            claimed_names: cleared.claimed_names,
        }
    }

    /// The registry after the session at `addr` asked for `name`. A name that
    /// is free becomes the session's name, and the name it had before is free
    /// again. Otherwise nothing changes.
    pub open spec fn username_requested(self, addr: PeerAddr, name: Seq<char>) -> Registry<H> {
        if self.has_session(addr) && !self.claimed_names.contains(name) {
            let at = self.position(addr);
            let session = self.sessions[at];
            Registry {
                sessions: self.sessions.update(
                    at,
                    SessionView { addr, username: Some(name), handle: session.handle },
                ),
                claimed_names: self.released(session.username).insert(name),
            }
        } else {
            self
        }
    }

    /// The answer to the session at `addr` that asked for `name`: none where
    /// no such session exists.
    pub open spec fn username_reply(self, addr: PeerAddr, name: Seq<char>) -> Seq<DeliveryView> {
        if !self.has_session(addr) {
            Seq::empty()
        } else if self.claimed_names.contains(name) {
            seq![
                DeliveryView {
                    to: addr,
                    frame: ServerFrame::UsernameRejected { reason: name_taken() },
                },
            ]
        } else {
            seq![DeliveryView { to: addr, frame: ServerFrame::UsernameAccepted }]
        }
    }

    /// The frames that a line of chat from `addr` sends out: one to every
    /// other session, in the order in which they connected, and none where
    /// the sender is unknown or has no name.
    pub open spec fn broadcast(self, addr: PeerAddr, text: Seq<char>) -> Seq<DeliveryView> {
        match self.username_of(addr) {
            Some(from_username) => self.sessions.remove(self.position(addr)).map_values(
                |s: SessionView<H>|
                    DeliveryView {
                        to: s.addr,
                        frame: ServerFrame::Broadcast { from_username, text },
                    },
            ),
            None => Seq::empty(),
        }
    }

    /// The registry after an event.
    pub open spec fn after(self, event: RegistryEvent) -> Registry<H> {
        match event {
            RegistryEvent::UsernameRequested { addr, name } => self.username_requested(addr, name),
            RegistryEvent::ChatSent { addr, text } => self,
            RegistryEvent::Disconnected { addr } => self.disconnected(addr),
        }
    }

    /// The frames that an event sends out.
    pub open spec fn deliveries(self, event: RegistryEvent) -> Seq<DeliveryView> {
        match event {
            RegistryEvent::UsernameRequested { addr, name } => self.username_reply(addr, name),
            RegistryEvent::ChatSent { addr, text } => self.broadcast(addr, text),
            RegistryEvent::Disconnected { addr } => Seq::empty(),
        }
    }

    /// In a consistent registry the session with an address is found where
    /// it stands.
    pub proof fn lemma_position(self, addr: PeerAddr, at: int)
        requires
            self.consistent(),
            0 <= at < self.sessions.len(),
            self.sessions[at].addr == addr,
        ensures
            self.has_session(addr),
            self.position(addr) == at,
    {
        let found = self.position(addr);
        if found < at {
            assert(self.sessions[found].addr != self.sessions[at].addr);
        } else if at < found {
            assert(self.sessions[at].addr != self.sessions[found].addr);
        }
    }

    /// Nothing that always holds is lost when a connection goes.
    pub proof fn lemma_disconnected_consistent(self, addr: PeerAddr)
        requires
            self.consistent(),
        ensures
            self.disconnected(addr).consistent(),
    {
        if self.has_session(addr) {
            let at = self.position(addr);
            let next = self.disconnected(addr);
            assert forall|i: int| 0 <= i < next.sessions.len() implies #[trigger] next.sessions[i]
                == self.sessions[if i < at { i } else { i + 1 }] by {}
            assert forall|name: Seq<char>| next.claimed_names.contains(name)
                == next.session_names().contains(name) by {
                if self.claimed_names.contains(name) {
                    let k = choose|k: int|
                        0 <= k < self.sessions.len() && (#[trigger] self.sessions[k]).username
                            == Some(name);
                    if k != at {
                        let moved = if k < at { k } else { k - 1 };
                        assert(next.sessions[moved].username == Some(name));
                    } else {
                        assert forall|i: int| 0 <= i < next.sessions.len() implies (
                        #[trigger] next.sessions[i]).username != Some(name) by {
                            let from = if i < at { i } else { i + 1 };
                            if from < at {
                                assert(self.sessions[from].username != self.sessions[at].username);
                            } else {
                                assert(self.sessions[at].username != self.sessions[from].username);
                            }
                        }
                    }
                }
                if next.session_names().contains(name) {
                    let i = choose|i: int|
                        0 <= i < next.sessions.len() && (#[trigger] next.sessions[i]).username
                            == Some(name);
                    let from = if i < at { i } else { i + 1 };
                    assert(self.sessions[from].username == Some(name));
                    assert(self.session_names().contains(name));
                    if from < at {
                        assert(self.sessions[from].username != self.sessions[at].username);
                    } else {
                        assert(self.sessions[at].username != self.sessions[from].username);
                    }
                }
            }
            assert(next.claimed_names =~= next.session_names());
        }
    }

    /// Nothing that always holds is lost when a connection arrives.
    pub proof fn lemma_connected_consistent(self, addr: PeerAddr, handle: H)
        requires
            self.consistent(),
        ensures
            self.connected(addr, handle).consistent(),
            self.connected(addr, handle).has_session(addr),
            self.connected(addr, handle).username_of(addr) is None,
    {
        let cleared = self.disconnected(addr);
        let next = self.connected(addr, handle);
        let last = cleared.sessions.len() as int;
        self.lemma_disconnected_consistent(addr);
        self.lemma_disconnected_forgets(addr);
        assert forall|i: int| 0 <= i < last implies #[trigger] next.sessions[i]
            == cleared.sessions[i] by {}
        assert(next.sessions[last].addr == addr);
        assert forall|i: int| 0 <= i < last implies (#[trigger] next.sessions[i]).addr != addr by {
            assert(cleared.sessions[i].addr == next.sessions[i].addr);
        }
        assert forall|name: Seq<char>| next.claimed_names.contains(name)
            == next.session_names().contains(name) by {
            if cleared.session_names().contains(name) {
                let k = choose|k: int|
                    0 <= k < cleared.sessions.len() && (#[trigger] cleared.sessions[k]).username
                        == Some(name);
                assert(next.sessions[k].username == Some(name));
            }
            if next.session_names().contains(name) {
                let i = choose|i: int|
                    0 <= i < next.sessions.len() && (#[trigger] next.sessions[i]).username == Some(
                        name,
                    );
                assert(cleared.sessions[i].username == Some(name));
            }
        }
        assert(next.claimed_names =~= next.session_names());
        next.lemma_position(addr, last);
    }

    /// Once a connection has gone, no session has its address, and every
    /// other session is as it was.
    pub proof fn lemma_disconnected_forgets(self, addr: PeerAddr)
        requires
            self.consistent(),
        ensures
            !self.disconnected(addr).has_session(addr),
            forall|other: PeerAddr|
                other != addr ==> self.disconnected(addr).has_session(other) == self.has_session(
                    other,
                ) && self.disconnected(addr).username_of(other) == self.username_of(other),
    {
        let next = self.disconnected(addr);
        self.lemma_disconnected_consistent(addr);
        if self.has_session(addr) {
            let at = self.position(addr);
            assert forall|i: int| 0 <= i < next.sessions.len() implies #[trigger] next.sessions[i]
                == self.sessions[if i < at { i } else { i + 1 }] by {}
            assert forall|i: int| 0 <= i < next.sessions.len() implies (
            #[trigger] next.sessions[i]).addr != addr by {
                let from = if i < at { i } else { i + 1 };
                if from < at {
                    assert(self.sessions[from].addr != self.sessions[at].addr);
                } else {
                    assert(self.sessions[at].addr != self.sessions[from].addr);
                }
            }
            assert forall|other: PeerAddr| other != addr implies next.has_session(other)
                == self.has_session(other) && next.username_of(other) == self.username_of(
                other,
            ) by {
                if self.has_session(other) {
                    let k = self.position(other);
                    let moved = if k < at { k } else { k - 1 };
                    assert(next.sessions[moved] == self.sessions[k]);
                    next.lemma_position(other, moved);
                }
                if next.has_session(other) {
                    let i = next.position(other);
                    let from = if i < at { i } else { i + 1 };
                    assert(self.sessions[from] == next.sessions[i]);
                    self.lemma_position(other, from);
                }
            }
        }
    }

    /// Nothing that always holds is lost when a session asks for a name.
    pub proof fn lemma_username_requested_consistent(self, addr: PeerAddr, name: Seq<char>)
        requires
            self.consistent(),
        ensures
            self.username_requested(addr, name).consistent(),
    {
        if self.has_session(addr) && !self.claimed_names.contains(name) {
            let at = self.position(addr);
            let before = self.sessions[at].username;
            let next = self.username_requested(addr, name);
            assert forall|i: int| 0 <= i < next.sessions.len() && i != at implies (
            #[trigger] next.sessions[i]) == self.sessions[i] by {}
            assert(next.sessions[at].username == Some(name));
            assert forall|i: int| 0 <= i < self.sessions.len() implies (
            #[trigger] self.sessions[i]).username != Some(name) by {
                if self.sessions[i].username == Some(name) {
                    assert(self.session_names().contains(name));
                }
            }
            assert forall|i: int, j: int|
                0 <= i < j < next.sessions.len() && (#[trigger] next.sessions[i]).username is Some
                implies next.sessions[i].username != (#[trigger] next.sessions[j]).username by {
                if i != at && j != at {
                    assert(self.sessions[i].username != self.sessions[j].username);
                }
            }
            assert forall|i: int, j: int| 0 <= i < j < next.sessions.len() implies (
            #[trigger] next.sessions[i]).addr != (#[trigger] next.sessions[j]).addr by {
                assert(self.sessions[i].addr != self.sessions[j].addr);
            }
            assert forall|other: Seq<char>| next.claimed_names.contains(other)
                == next.session_names().contains(other) by {
                if other == name {
                    assert(next.sessions[at].username == Some(other));
                } else {
                    if self.claimed_names.contains(other) && before != Some(other) {
                        let k = choose|k: int|
                            0 <= k < self.sessions.len() && (#[trigger] self.sessions[k]).username
                                == Some(other);
                        assert(next.sessions[k].username == Some(other));
                    }
                    if next.session_names().contains(other) {
                        let i = choose|i: int|
                            0 <= i < next.sessions.len() && (#[trigger] next.sessions[i]).username
                                == Some(other);
                        assert(self.sessions[i].username == Some(other));
                        assert(self.session_names().contains(other));
                        if i < at {
                            assert(self.sessions[i].username != self.sessions[at].username);
                        } else {
                            assert(self.sessions[at].username != self.sessions[i].username);
                        }
                    }
                }
            }
            assert(next.claimed_names =~= next.session_names());
        }
    }

    /// The names that are taken are exactly the names that sessions carry,
    /// before the first connection and after every event.
    pub proof fn lemma_after_consistent(self, event: RegistryEvent)
        requires
            self.consistent(),
        ensures
            Registry::<H>::empty().consistent(),
            self.after(event).consistent(),
            self.after(event).claimed_names == self.after(event).session_names(),
    {
        assert(Registry::<H>::empty().claimed_names =~= Registry::<H>::empty().session_names());
        match event {
            RegistryEvent::UsernameRequested { addr, name } => {
                self.lemma_username_requested_consistent(addr, name);
            },
            RegistryEvent::ChatSent { addr, text } => {},
            RegistryEvent::Disconnected { addr } => {
                self.lemma_disconnected_consistent(addr);
            },
        }
    }

    /// A request for a name changes the name of the session that asked, and
    /// only where the name was free. Every session stays, and every other
    /// session keeps its name.
    pub proof fn lemma_username_requested_names(self, addr: PeerAddr, name: Seq<char>)
        requires
            self.consistent(),
        ensures
            forall|other: PeerAddr|
                self.username_requested(addr, name).has_session(other) == self.has_session(other),
            forall|other: PeerAddr|
                other != addr ==> self.username_requested(addr, name).username_of(other)
                    == self.username_of(other),
            self.has_session(addr) && !self.claimed_names.contains(name)
                ==> self.username_requested(addr, name).username_of(addr) == Some(name)
                && self.username_requested(addr, name).claimed_names.contains(name),
            !(self.has_session(addr) && !self.claimed_names.contains(name))
                ==> self.username_requested(addr, name) == self,
    {
        let next = self.username_requested(addr, name);
        self.lemma_username_requested_consistent(addr, name);
        if self.has_session(addr) && !self.claimed_names.contains(name) {
            let at = self.position(addr);
            assert forall|i: int| 0 <= i < next.sessions.len() implies (
            #[trigger] next.sessions[i]).addr == self.sessions[i].addr by {}
            next.lemma_position(addr, at);
            assert forall|other: PeerAddr| next.has_session(other) == self.has_session(other) by {
                if self.has_session(other) {
                    let k = self.position(other);
                    assert(next.sessions[k].addr == other);
                }
                if next.has_session(other) {
                    let k = next.position(other);
                    assert(self.sessions[k].addr == other);
                }
            }
            assert forall|other: PeerAddr| other != addr implies next.username_of(other)
                == self.username_of(other) by {
                if self.has_session(other) {
                    let k = self.position(other);
                    assert(next.sessions[k] == self.sessions[k]);
                    next.lemma_position(other, k);
                }
            }
        }
    }

    /// A line of chat from a session with a name goes to every other session,
    /// once each, and never back to its sender. A sender without a name, or
    /// without a session, reaches nobody.
    pub proof fn lemma_broadcast_reaches_all_others(self, addr: PeerAddr, text: Seq<char>)
        requires
            self.consistent(),
        ensures
            self.username_of(addr) is None ==> self.broadcast(addr, text).len() == 0,
            forall|k: int|
                0 <= k < self.broadcast(addr, text).len() ==> {
                    let sent = #[trigger] self.broadcast(addr, text)[k];
                    &&& sent.to != addr
                    &&& self.has_session(sent.to)
                    &&& self.username_of(addr) is Some
                    &&& sent.frame == ServerFrame::Broadcast {
                        from_username: self.username_of(addr)->Some_0,
                        text,
                    }
                },
            forall|other: PeerAddr|
                self.username_of(addr) is Some && self.has_session(other) && other != addr
                    ==> exists|k: int|
                    0 <= k < self.broadcast(addr, text).len() && (#[trigger] self.broadcast(
                        addr,
                        text,
                    )[k]).to == other,
            forall|j: int, k: int|
                0 <= j < k < self.broadcast(addr, text).len() ==> (#[trigger] self.broadcast(
                    addr,
                    text,
                )[j]).to != (#[trigger] self.broadcast(addr, text)[k]).to,
    {
        let out = self.broadcast(addr, text);
        if self.username_of(addr) is Some {
            let at = self.position(addr);
            let others = self.sessions.remove(at);
            assert forall|k: int| 0 <= k < out.len() implies (#[trigger] out[k]).to
                == self.sessions[if k < at { k } else { k + 1 }].addr by {
                assert(others[k] == self.sessions[if k < at { k } else { k + 1 }]);
            }
            assert forall|k: int| 0 <= k < out.len() implies {
                let sent = #[trigger] out[k];
                &&& sent.to != addr
                &&& self.has_session(sent.to)
            } by {
                let from = if k < at { k } else { k + 1 };
                if from < at {
                    assert(self.sessions[from].addr != self.sessions[at].addr);
                } else {
                    assert(self.sessions[at].addr != self.sessions[from].addr);
                }
            }
            assert forall|other: PeerAddr| self.has_session(other) && other != addr implies exists|
                k: int,
            |
                0 <= k < out.len() && (#[trigger] out[k]).to == other by {
                let from = self.position(other);
                let k = if from < at { from } else { from - 1 };
                assert(out[k].to == other);
            }
            assert forall|j: int, k: int| 0 <= j < k < out.len() implies (#[trigger] out[j]).to != (
            #[trigger] out[k]).to by {
                let from_j = if j < at { j } else { j + 1 };
                let from_k = if k < at { k } else { k + 1 };
                assert(self.sessions[from_j].addr != self.sessions[from_k].addr);
            }
        }
    }

    /// After a connection has gone its address has no session, and the name
    /// it had is free: the next session that asks for it gets it.
    pub proof fn lemma_disconnected_frees_name(self, addr: PeerAddr, next_addr: PeerAddr)
        requires
            self.consistent(),
            self.disconnected(addr).has_session(next_addr),
        ensures
            !self.disconnected(addr).has_session(addr),
            self.username_of(addr) matches Some(name) ==> {
                let left = self.disconnected(addr);
                &&& !left.claimed_names.contains(name)
                &&& left.username_reply(next_addr, name) == seq![
                    DeliveryView { to: next_addr, frame: ServerFrame::UsernameAccepted },
                ]
                &&& left.username_requested(next_addr, name).username_of(next_addr) == Some(name)
            },
    {
        let left = self.disconnected(addr);
        self.lemma_disconnected_forgets(addr);
        self.lemma_disconnected_consistent(addr);
        if let Some(name) = self.username_of(addr) {
            left.lemma_username_requested_names(next_addr, name);
        }
    }

    /// Of two sessions that ask for the same free name, the one whose request
    /// comes first gets it and the other is refused, whichever of them that
    /// is.
    pub proof fn lemma_same_name_one_winner(self, a: PeerAddr, b: PeerAddr, name: Seq<char>)
        requires
            self.consistent(),
            self.has_session(a),
            self.has_session(b),
            a != b,
            !self.claimed_names.contains(name),
        ensures
            self.username_reply(a, name) == seq![
                DeliveryView { to: a, frame: ServerFrame::UsernameAccepted },
            ],
            self.username_requested(a, name).username_reply(b, name) == seq![
                DeliveryView { to: b, frame: ServerFrame::UsernameRejected { reason: name_taken() } },
            ],
            self.username_requested(a, name).username_requested(b, name).username_of(a) == Some(
                name,
            ),
            self.username_requested(a, name).username_requested(b, name).username_of(b)
                == self.username_of(b),
            self.username_reply(b, name) == seq![
                DeliveryView { to: b, frame: ServerFrame::UsernameAccepted },
            ],
            self.username_requested(b, name).username_reply(a, name) == seq![
                DeliveryView { to: a, frame: ServerFrame::UsernameRejected { reason: name_taken() } },
            ],
            self.username_requested(b, name).username_requested(a, name).username_of(b) == Some(
                name,
            ),
            self.username_requested(b, name).username_requested(a, name).username_of(a)
                == self.username_of(a),
    {
        self.lemma_username_requested_names(a, name);
        self.lemma_username_requested_consistent(a, name);
        self.username_requested(a, name).lemma_username_requested_names(b, name);
        self.lemma_username_requested_names(b, name);
        self.lemma_username_requested_consistent(b, name);
        self.username_requested(b, name).lemma_username_requested_names(a, name);
    }
}

} // verus!
