use chat_server::client::{Client, ClientState};
use chat_server::registry::{SessionRef, SessionRegistry};

fn session(address: &str, username: &str, room: &str) -> SessionRef {
    SessionRef {
        client: Client { address: address.to_string(), username: username.to_string() },
        state: ClientState::placed(room),
    }
}

#[test]
fn new_client_is_signed_out() {
    let (client, state) = Client::new("10.0.0.1:4000");
    assert_eq!(client.address, "10.0.0.1:4000");
    assert_eq!(client.username, "");
    assert_eq!(state.current_room, None);
    assert!(!state.is_logged_in);
    assert!(!state.mark_disconnected);
}

#[test]
fn clients_are_the_same_by_address_and_name() {
    let a = Client { address: "10.0.0.1:4000".to_string(), username: "alice".to_string() };
    let copy = a.clone();
    let other_address = Client { address: "10.0.0.2:4000".to_string(), username: "alice".to_string() };
    let other_name = Client { address: "10.0.0.1:4000".to_string(), username: "bob".to_string() };
    assert!(a == copy);
    assert!(a != other_address);
    assert!(a != other_name);
    assert_eq!(a, copy);
}

#[test]
fn placed_state_is_signed_in() {
    let state = ClientState::placed("lounge");
    assert_eq!(state.current_room, Some("lounge".to_string()));
    assert!(state.is_logged_in);
    assert!(!state.mark_disconnected);
    let copy = state.clone();
    assert_eq!(copy.current_room, Some("lounge".to_string()));
    assert!(copy.is_logged_in);
    assert!(!copy.mark_disconnected);
}

#[test]
fn registry_starts_empty() {
    let registry = SessionRegistry::new();
    assert!(registry.lookup("alice").is_none());
    assert!(registry.snapshot_all().is_empty());
}

#[test]
fn register_then_lookup() {
    let mut registry = SessionRegistry::new();
    assert!(registry.register("alice", session("10.0.0.1:4000", "alice", "main")).is_none());
    let found = registry.lookup("alice").expect("alice is registered");
    assert_eq!(found.client.address, "10.0.0.1:4000");
    assert_eq!(found.client.username, "alice");
    assert_eq!(found.state.current_room, Some("main".to_string()));
    assert!(registry.lookup("bob").is_none());
    assert!(registry.lookup("alic").is_none());
}

#[test]
fn register_again_evicts_the_first_session() {
    let mut registry = SessionRegistry::new();
    assert!(registry.register("alice", session("10.0.0.1:4000", "alice", "main")).is_none());
    assert!(registry.register("bob", session("10.0.0.3:4000", "bob", "main")).is_none());
    let evicted = registry
        .register("alice", session("10.0.0.2:5000", "alice", "lounge"))
        .expect("the first session is handed back");
    assert_eq!(evicted.client.address, "10.0.0.1:4000");
    assert_eq!(evicted.state.current_room, Some("main".to_string()));
    let found = registry.lookup("alice").expect("alice is registered");
    assert_eq!(found.client.address, "10.0.0.2:5000");
    assert_eq!(found.state.current_room, Some("lounge".to_string()));
    let all = registry.snapshot_all();
    assert_eq!(all.len(), 2);
    assert_eq!(all[0].client.address, "10.0.0.2:5000");
    assert_eq!(all[1].client.address, "10.0.0.3:4000");
}

#[test]
fn unregister_removes_only_the_named_identity() {
    let mut registry = SessionRegistry::new();
    assert!(registry.register("alice", session("10.0.0.1:4000", "alice", "main")).is_none());
    assert!(registry.register("bob", session("10.0.0.3:4000", "bob", "main")).is_none());
    registry.unregister("alice");
    assert!(registry.lookup("alice").is_none());
    assert!(registry.lookup("bob").is_some());
    registry.unregister("alice");
    registry.unregister("nobody");
    let all = registry.snapshot_all();
    assert_eq!(all.len(), 1);
    assert_eq!(all[0].client.username, "bob");
}

#[test]
fn snapshot_is_a_copy() {
    let mut registry = SessionRegistry::new();
    assert!(registry.register("alice", session("10.0.0.1:4000", "alice", "main")).is_none());
    let snapshot = registry.snapshot_all();
    registry.unregister("alice");
    assert_eq!(snapshot.len(), 1);
    assert_eq!(snapshot[0].client.username, "alice");
    assert!(registry.snapshot_all().is_empty());
}
