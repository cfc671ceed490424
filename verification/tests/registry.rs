use simple_lib::actor_impl::server_impl::{
    CentralController, ConnectionMessage, Delivery, ServerState,
};
use simple_lib::addr::PeerAddr;
use simple_lib::msg::ServerResponse;

fn peer(port: u16) -> PeerAddr {
    PeerAddr::V4 { octets: 0x7f00_0001, port }
}

fn accepted(to: PeerAddr) -> Delivery {
    Delivery { to, frame: ServerResponse::UsernameAccepted }
}

fn rejected(to: PeerAddr) -> Delivery {
    Delivery { to, frame: ServerResponse::UsernameRejected { reason: "name taken".to_string() } }
}

fn broadcast(to: PeerAddr, from: &str, text: &str) -> Delivery {
    Delivery {
        to,
        frame: ServerResponse::Broadcast { username: from.to_string(), message: text.to_string() },
    }
}

fn ask(state: &mut ServerState<u32>, addr: PeerAddr, name: &str) -> Vec<Delivery> {
    CentralController::handle(
        state,
        ConnectionMessage::UserCreationRequest { addr, name: name.to_string() },
    )
}

fn say(state: &mut ServerState<u32>, addr: PeerAddr, text: &str) -> Vec<Delivery> {
    CentralController::handle(
        state,
        ConnectionMessage::UserMessage { addr, message: text.to_string() },
    )
}

fn drop_connection(state: &mut ServerState<u32>, addr: PeerAddr) -> Vec<Delivery> {
    CentralController::handle(state, ConnectionMessage::ConnectionDropped { addr })
}

/// The names that sessions carry, sorted.
fn names_of_sessions(state: &ServerState<u32>, peers: &[PeerAddr]) -> Vec<String> {
    let mut names: Vec<String> =
        peers.iter().filter_map(|p| state.username_of(*p).cloned()).collect();
    names.sort();
    names
}

#[test]
fn a_new_registry_is_empty() {
    let state: ServerState<u32> = ServerState::new();
    assert_eq!(state.len(), 0);
    assert!(!state.has_session(peer(1)));
    assert!(!state.is_claimed("alice"));
    assert_eq!(state.handle_of(peer(1)), None);
    assert_eq!(state.username_of(peer(1)), None);
}

#[test]
fn the_default_registry_is_empty() {
    let state: ServerState<u32> = ServerState::default();
    assert_eq!(state.len(), 0);
    assert!(!state.is_claimed(""));
}

#[test]
fn a_connection_starts_without_a_name() {
    let mut state: ServerState<u32> = ServerState::new();
    state.connect(peer(1), 11);
    assert_eq!(state.len(), 1);
    assert!(state.has_session(peer(1)));
    assert_eq!(state.handle_of(peer(1)), Some(&11));
    assert_eq!(state.username_of(peer(1)), None);
}

#[test]
fn first_come_first_named() {
    let (a, b) = (peer(1), peer(2));
    let mut state: ServerState<u32> = ServerState::new();

    state.connect(a, 1);
    assert_eq!(ask(&mut state, a, "alice"), vec![accepted(a)]);

    state.connect(b, 2);
    assert_eq!(ask(&mut state, b, "alice"), vec![rejected(b)]);
    assert_eq!(state.username_of(b), None);

    assert_eq!(ask(&mut state, b, "bob"), vec![accepted(b)]);
    assert_eq!(state.username_of(b), Some(&"bob".to_string()));

    assert_eq!(say(&mut state, a, "hi"), vec![broadcast(b, "alice", "hi")]);
}

#[test]
fn a_name_is_free_after_its_owner_left() {
    let (a, c) = (peer(1), peer(3));
    let mut state: ServerState<u32> = ServerState::new();

    state.connect(a, 1);
    assert_eq!(ask(&mut state, a, "alice"), vec![accepted(a)]);
    assert_eq!(drop_connection(&mut state, a), vec![]);
    assert!(!state.has_session(a));
    assert!(!state.is_claimed("alice"));

    state.connect(c, 3);
    assert_eq!(ask(&mut state, c, "alice"), vec![accepted(c)]);
    assert_eq!(state.username_of(c), Some(&"alice".to_string()));
}

#[test]
fn claimed_names_are_the_names_of_sessions() {
    let peers = [peer(1), peer(2), peer(3), peer(4)];
    let mut state: ServerState<u32> = ServerState::new();
    for (i, p) in peers.iter().enumerate() {
        state.connect(*p, i as u32);
    }
    ask(&mut state, peers[0], "alice");
    ask(&mut state, peers[1], "alice");
    ask(&mut state, peers[1], "bob");
    ask(&mut state, peers[2], "carol");
    ask(&mut state, peers[0], "dave");
    drop_connection(&mut state, peers[2]);
    state.connect(peers[1], 9);

    assert_eq!(names_of_sessions(&state, &peers), vec!["dave".to_string()]);
    for name in ["alice", "bob", "carol", "erin"] {
        assert!(!state.is_claimed(name), "{name} should be free");
    }
    assert!(state.is_claimed("dave"));
    assert_eq!(state.len(), 3);
}

#[test]
fn a_refused_name_is_not_taken_by_the_refusal() {
    let (a, b) = (peer(1), peer(2));
    let mut state: ServerState<u32> = ServerState::new();
    state.connect(a, 1);
    state.connect(b, 2);
    ask(&mut state, a, "alice");
    assert_eq!(ask(&mut state, b, "alice"), vec![rejected(b)]);
    drop_connection(&mut state, a);
    assert!(!state.is_claimed("alice"));
    assert_eq!(ask(&mut state, b, "alice"), vec![accepted(b)]);
}

#[test]
fn a_session_cannot_take_its_own_name_again() {
    let a = peer(1);
    let mut state: ServerState<u32> = ServerState::new();
    state.connect(a, 1);
    assert_eq!(ask(&mut state, a, "alice"), vec![accepted(a)]);
    assert_eq!(ask(&mut state, a, "alice"), vec![rejected(a)]);
    assert_eq!(state.username_of(a), Some(&"alice".to_string()));
    assert!(state.is_claimed("alice"));
}

#[test]
fn a_new_name_frees_the_old_one() {
    let (a, b) = (peer(1), peer(2));
    let mut state: ServerState<u32> = ServerState::new();
    state.connect(a, 1);
    state.connect(b, 2);
    ask(&mut state, a, "alice");
    assert_eq!(ask(&mut state, a, "alicia"), vec![accepted(a)]);
    assert_eq!(state.username_of(a), Some(&"alicia".to_string()));
    assert!(!state.is_claimed("alice"));
    assert!(state.is_claimed("alicia"));
    assert_eq!(ask(&mut state, b, "alice"), vec![accepted(b)]);
}

#[test]
fn a_request_without_a_session_changes_nothing() {
    let mut state: ServerState<u32> = ServerState::new();
    state.connect(peer(1), 1);
    assert_eq!(ask(&mut state, peer(2), "ghost"), vec![]);
    assert!(!state.is_claimed("ghost"));
    assert_eq!(state.len(), 1);
    assert_eq!(ask(&mut state, peer(1), "ghost"), vec![accepted(peer(1))]);
}

#[test]
fn of_two_requests_for_one_name_the_first_wins() {
    let (a, b) = (peer(1), peer(2));

    let mut one: ServerState<u32> = ServerState::new();
    one.connect(a, 1);
    one.connect(b, 2);
    assert_eq!(ask(&mut one, a, "sam"), vec![accepted(a)]);
    assert_eq!(ask(&mut one, b, "sam"), vec![rejected(b)]);
    assert_eq!(one.username_of(a), Some(&"sam".to_string()));
    assert_eq!(one.username_of(b), None);

    let mut other: ServerState<u32> = ServerState::new();
    other.connect(a, 1);
    other.connect(b, 2);
    assert_eq!(ask(&mut other, b, "sam"), vec![accepted(b)]);
    assert_eq!(ask(&mut other, a, "sam"), vec![rejected(a)]);
    assert_eq!(other.username_of(b), Some(&"sam".to_string()));
    assert_eq!(other.username_of(a), None);
}

#[test]
fn two_requests_for_a_taken_name_both_fail() {
    let (a, b, c) = (peer(1), peer(2), peer(3));
    let mut state: ServerState<u32> = ServerState::new();
    state.connect(a, 1);
    state.connect(b, 2);
    state.connect(c, 3);
    ask(&mut state, c, "sam");
    assert_eq!(ask(&mut state, a, "sam"), vec![rejected(a)]);
    assert_eq!(ask(&mut state, b, "sam"), vec![rejected(b)]);
}

#[test]
fn chat_goes_to_everyone_else_in_the_order_they_connected() {
    let peers = [peer(1), peer(2), peer(3), peer(4)];
    let mut state: ServerState<u32> = ServerState::new();
    for (i, p) in peers.iter().enumerate() {
        state.connect(*p, i as u32);
    }
    ask(&mut state, peers[2], "carol");
    ask(&mut state, peers[0], "alice");

    assert_eq!(
        say(&mut state, peers[2], "hello"),
        vec![
            broadcast(peers[0], "carol", "hello"),
            broadcast(peers[1], "carol", "hello"),
            broadcast(peers[3], "carol", "hello"),
        ]
    );
    assert_eq!(
        state.broadcast(peers[0], "hey"),
        vec![
            broadcast(peers[1], "alice", "hey"),
            broadcast(peers[2], "alice", "hey"),
            broadcast(peers[3], "alice", "hey"),
        ]
    );
}

#[test]
fn chat_with_nobody_else_goes_nowhere() {
    let a = peer(1);
    let mut state: ServerState<u32> = ServerState::new();
    state.connect(a, 1);
    ask(&mut state, a, "alice");
    assert_eq!(say(&mut state, a, "anyone?"), vec![]);
}

#[test]
fn chat_without_a_name_is_dropped() {
    let (a, b) = (peer(1), peer(2));
    let mut state: ServerState<u32> = ServerState::new();
    state.connect(a, 1);
    state.connect(b, 2);
    ask(&mut state, b, "bob");
    assert_eq!(say(&mut state, a, "hi"), vec![]);
}

#[test]
fn chat_without_a_session_is_dropped() {
    let (a, b) = (peer(1), peer(2));
    let mut state: ServerState<u32> = ServerState::new();
    state.connect(a, 1);
    ask(&mut state, a, "alice");
    assert_eq!(say(&mut state, b, "hi"), vec![]);
}

#[test]
fn chat_changes_nothing() {
    let (a, b) = (peer(1), peer(2));
    let mut state: ServerState<u32> = ServerState::new();
    state.connect(a, 1);
    state.connect(b, 2);
    ask(&mut state, a, "alice");
    say(&mut state, a, "hi");
    assert_eq!(state.len(), 2);
    assert_eq!(state.username_of(a), Some(&"alice".to_string()));
    assert_eq!(state.username_of(b), None);
    assert!(state.is_claimed("alice"));
}

#[test]
fn a_dropped_connection_gets_no_more_chat() {
    let (a, b, c) = (peer(1), peer(2), peer(3));
    let mut state: ServerState<u32> = ServerState::new();
    state.connect(a, 1);
    state.connect(b, 2);
    state.connect(c, 3);
    ask(&mut state, a, "alice");
    drop_connection(&mut state, b);
    assert_eq!(say(&mut state, a, "hi"), vec![broadcast(c, "alice", "hi")]);
    assert_eq!(state.handle_of(b), None);
}

#[test]
fn dropping_an_unknown_connection_changes_nothing() {
    let a = peer(1);
    let mut state: ServerState<u32> = ServerState::new();
    state.connect(a, 1);
    ask(&mut state, a, "alice");
    assert_eq!(drop_connection(&mut state, peer(2)), vec![]);
    assert_eq!(state.len(), 1);
    assert!(state.is_claimed("alice"));
}

#[test]
fn a_second_connection_from_one_address_replaces_the_first() {
    let (a, b) = (peer(1), peer(2));
    let mut state: ServerState<u32> = ServerState::new();
    state.connect(a, 1);
    state.connect(b, 2);
    ask(&mut state, a, "alice");
    ask(&mut state, b, "bob");

    state.connect(a, 7);
    assert_eq!(state.len(), 2);
    assert_eq!(state.handle_of(a), Some(&7));
    assert_eq!(state.username_of(a), None);
    assert!(!state.is_claimed("alice"));
    assert_eq!(say(&mut state, b, "hi"), vec![broadcast(a, "bob", "hi")]);
}

#[test]
fn addresses_differ_in_any_field() {
    let v4 = PeerAddr::V4 { octets: 1, port: 80 };
    let other_port = PeerAddr::V4 { octets: 1, port: 81 };
    let v6 = PeerAddr::V6 { segments: 1, port: 80, flowinfo: 0, scope_id: 0 };
    let scoped = PeerAddr::V6 { segments: 1, port: 80, flowinfo: 0, scope_id: 2 };
    let mut state: ServerState<u32> = ServerState::new();
    state.connect(v4, 1);
    state.connect(other_port, 2);
    state.connect(v6, 3);
    state.connect(scoped, 4);
    assert_eq!(state.len(), 4);
    assert_eq!(state.handle_of(v6), Some(&3));
    assert_eq!(state.handle_of(scoped), Some(&4));
}
