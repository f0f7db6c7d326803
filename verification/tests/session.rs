use chat_server::coordinator::Coordinator;
use chat_server::router::Delivery;
use chat_server::session::{Outcome, Prompt, Session};

fn sign_up(server: &mut Coordinator, address: &str, name: &str, password: &str) -> Session {
    let mut session = Session::new(address);
    server.handle_input(&mut session, "1");
    server.handle_input(&mut session, name);
    server.handle_input(&mut session, password);
    assert!(session.is_authenticated());
    session
}

fn sign_in(server: &mut Coordinator, address: &str, name: &str, password: &str) -> (Session, Outcome) {
    let mut session = Session::new(address);
    server.handle_input(&mut session, "2");
    server.handle_input(&mut session, name);
    let outcome = server.handle_input(&mut session, password);
    (session, outcome)
}

fn replies(lines: &[&str]) -> Vec<String> {
    lines.iter().map(|l| l.to_string()).collect()
}

fn in_any_room(server: &Coordinator, name: &str) -> bool {
    server
        .rooms()
        .list_rooms()
        .iter()
        .any(|room| server.rooms().members_of(room).contains(&name.to_string()))
}

#[test]
fn new_coordinator_has_only_the_empty_main_room() {
    let server = Coordinator::new();
    assert_eq!(server.rooms().list_rooms(), vec!["main".to_string()]);
    assert!(server.rooms().members_of("main").is_empty());
    assert!(server.registry().snapshot_all().is_empty());
    assert!(server.database().list_users().is_empty());
}

#[test]
fn new_session_is_greeted_with_the_menu() {
    let session = Session::new("10.0.0.1:1");
    assert_eq!(session.client.address, "10.0.0.1:1");
    assert!(!session.is_authenticated());
    assert!(!session.is_terminated());
    assert!(matches!(session.prompt, Prompt::Menu));
    assert_eq!(
        Session::greeting(),
        replies(&["Welcome to the chat server!\n", "1. Sign up\n2. Sign in\nPlease choose (1|2): "])
    );
}

#[test]
fn sign_up_dialogue_ends_in_main() {
    let mut server = Coordinator::new();
    let mut session = Session::new("10.0.0.1:1");
    let out = server.handle_input(&mut session, "1");
    assert_eq!(out.replies, replies(&["Enter a username: "]));
    assert!(matches!(session.prompt, Prompt::Username { sign_up: true }));
    let out = server.handle_input(&mut session, "alice");
    assert_eq!(out.replies, replies(&["Enter a password: "]));
    assert!(!session.is_authenticated());
    let out = server.handle_input(&mut session, "pw1");
    assert_eq!(
        out.replies,
        replies(&["User 'alice' registered successfully.\n", "You have joined the 'main' room.\n> "])
    );
    assert!(out.deliveries.is_empty());
    assert!(out.evicted.is_none());
    assert!(session.is_authenticated());
    assert_eq!(session.client.username, "alice");
    assert_eq!(session.state.current_room, Some("main".to_string()));
    assert_eq!(server.rooms().members_of("main"), vec!["alice".to_string()]);
    let held = server.registry().lookup("alice").expect("alice holds a slot");
    assert_eq!(held.client.address, "10.0.0.1:1");
    assert_eq!(held.state.current_room, Some("main".to_string()));
    assert!(held.state.is_logged_in);
}

#[test]
fn register_alice_twice_yields_already_exists() {
    let mut server = Coordinator::new();
    let _alice = sign_up(&mut server, "10.0.0.1:1", "alice", "pw1");
    let mut second = Session::new("10.0.0.2:2");
    server.handle_input(&mut second, "1");
    server.handle_input(&mut second, "alice");
    let out = server.handle_input(&mut second, "anything");
    assert_eq!(out.replies, replies(&["User already exists\n"]));
    assert!(out.evicted.is_none());
    assert!(!second.is_authenticated());
    assert!(!second.is_terminated());
    assert!(matches!(second.prompt, Prompt::Menu));
    let held = server.registry().lookup("alice").expect("alice holds a slot");
    assert_eq!(held.client.address, "10.0.0.1:1");
    assert_eq!(server.rooms().members_of("main"), vec!["alice".to_string()]);
}

#[test]
fn sign_in_with_wrong_password_stays_signed_out() {
    let mut server = Coordinator::new();
    let mut alice = sign_up(&mut server, "10.0.0.1:1", "alice", "pw1");
    server.handle_input(&mut alice, "/q");
    let (session, out) = sign_in(&mut server, "10.0.0.2:2", "alice", "wrong");
    assert_eq!(out.replies, replies(&["Incorrect password.\n"]));
    assert!(!session.is_authenticated());
    assert_eq!(session.state.current_room, None);
    assert!(server.registry().lookup("alice").is_none());
    assert!(server.rooms().members_of("main").is_empty());
    assert_eq!(server.database().list_users(), vec!["alice offline".to_string()]);
}

#[test]
fn sign_in_of_an_unknown_user_is_refused() {
    let mut server = Coordinator::new();
    let (session, out) = sign_in(&mut server, "10.0.0.2:2", "nobody", "pw");
    assert_eq!(out.replies, replies(&["User not found.\n"]));
    assert!(!session.is_authenticated());
    assert!(server.registry().snapshot_all().is_empty());
}

#[test]
fn sign_in_dialogue_ends_in_main() {
    let mut server = Coordinator::new();
    let mut alice = sign_up(&mut server, "10.0.0.1:1", "alice", "pw1");
    server.handle_input(&mut alice, "/q");
    let mut session = Session::new("10.0.0.2:2");
    let out = server.handle_input(&mut session, "2");
    assert_eq!(out.replies, replies(&["Enter your username: "]));
    let out = server.handle_input(&mut session, "alice");
    assert_eq!(out.replies, replies(&["Enter your password: "]));
    let out = server.handle_input(&mut session, "pw1");
    assert_eq!(
        out.replies,
        replies(&["Welcome back, alice!\n", "You have joined the 'main' room.\n> "])
    );
    assert!(session.is_authenticated());
    assert_eq!(server.database().list_users(), vec!["alice online".to_string()]);
    assert_eq!(server.rooms().members_of("main"), vec!["alice".to_string()]);
}

#[test]
fn menu_refuses_any_other_choice() {
    let mut server = Coordinator::new();
    let mut session = Session::new("10.0.0.1:1");
    for input in ["3", "hello", "/q", "11", " 1"] {
        let out = server.handle_input(&mut session, input);
        assert_eq!(
            out.replies,
            replies(&["Invalid choice. Please choose 1 (Sign up) or 2 (Sign in).\n"])
        );
        assert!(matches!(session.prompt, Prompt::Menu));
        assert!(!session.is_authenticated());
        assert!(!session.is_terminated());
    }
}

#[test]
fn alice_sends_hi_and_only_bob_receives_it() {
    let mut server = Coordinator::new();
    let mut alice = sign_up(&mut server, "10.0.0.1:1", "alice", "pw1");
    let _bob = sign_up(&mut server, "10.0.0.2:2", "bob", "pw2");
    let out = server.handle_input(&mut alice, "hi");
    assert_eq!(out.replies, replies(&["> "]));
    assert_eq!(out.deliveries.len(), 1);
    assert_eq!(out.deliveries[0].recipient, "bob");
    assert_eq!(out.deliveries[0].address, "10.0.0.2:2");
    assert_eq!(out.deliveries[0].line, "[main] alice: hi");
    assert!(out.deliveries.iter().all(|d| d.recipient != "alice"));
}

#[test]
fn broadcast_reaches_each_other_member_once_and_no_other_room() {
    let mut server = Coordinator::new();
    let mut alice = sign_up(&mut server, "10.0.0.1:1", "alice", "pw1");
    let _bob = sign_up(&mut server, "10.0.0.2:2", "bob", "pw2");
    let mut carol = sign_up(&mut server, "10.0.0.3:3", "carol", "pw3");
    let _dave = sign_up(&mut server, "10.0.0.4:4", "dave", "pw4");
    server.handle_input(&mut carol, "/cr lounge");
    server.handle_input(&mut carol, "/sr lounge");
    let out = server.handle_input(&mut alice, "hello all");
    let recipients: Vec<String> = out.deliveries.iter().map(|d| d.recipient.clone()).collect();
    assert_eq!(recipients, vec!["bob".to_string(), "dave".to_string()]);
    assert!(out.deliveries.iter().all(|d| d.line == "[main] alice: hello all"));
    let out = server.handle_input(&mut carol, "anyone?");
    assert!(out.deliveries.is_empty());
    assert_eq!(out.replies, replies(&["> "]));
}

#[test]
fn broadcast_into_a_missing_room_reaches_nobody() {
    let mut server = Coordinator::new();
    let _alice = sign_up(&mut server, "10.0.0.1:1", "alice", "pw1");
    let _bob = sign_up(&mut server, "10.0.0.2:2", "bob", "pw2");
    assert!(server.broadcast("nowhere", "alice", "hi").is_empty());
    let direct = server.broadcast("main", "alice", "hi");
    assert_eq!(direct.len(), 1);
    assert_eq!(direct[0].recipient, "bob");
}

#[test]
fn create_then_switch_moves_alice_to_the_lounge() {
    let mut server = Coordinator::new();
    let mut alice = sign_up(&mut server, "10.0.0.1:1", "alice", "pw1");
    let out = server.handle_input(&mut alice, "/cr lounge");
    assert_eq!(out.replies, replies(&["Room 'lounge' created.\n", "> "]));
    assert_eq!(server.rooms().members_of("main"), vec!["alice".to_string()]);
    assert_eq!(alice.state.current_room, Some("main".to_string()));
    let out = server.handle_input(&mut alice, "/sr lounge");
    assert_eq!(out.replies, replies(&["Switched to room 'lounge'.\n", "> "]));
    assert_eq!(server.rooms().members_of("lounge"), vec!["alice".to_string()]);
    assert!(!server.rooms().members_of("main").contains(&"alice".to_string()));
    assert_eq!(alice.state.current_room, Some("lounge".to_string()));
    let held = server.registry().lookup("alice").expect("alice holds a slot");
    assert_eq!(held.state.current_room, Some("lounge".to_string()));
}

#[test]
fn switch_to_a_missing_room_is_refused() {
    let mut server = Coordinator::new();
    let mut alice = sign_up(&mut server, "10.0.0.1:1", "alice", "pw1");
    let out = server.handle_input(&mut alice, "/sr nowhere");
    assert_eq!(out.replies, replies(&["Room does not exist.\n", "> "]));
    assert_eq!(server.rooms().members_of("main"), vec!["alice".to_string()]);
    assert_eq!(alice.state.current_room, Some("main".to_string()));
    let out = server.handle_input(&mut alice, "/switch_room");
    assert_eq!(out.replies, replies(&["Usage: /sr <room_name>\n", "> "]));
}

#[test]
fn create_room_refusals_are_reported() {
    let mut server = Coordinator::new();
    let mut alice = sign_up(&mut server, "10.0.0.1:1", "alice", "pw1");
    server.handle_input(&mut alice, "/cr lounge");
    let out = server.handle_input(&mut alice, "/cr lounge");
    assert_eq!(out.replies, replies(&["Room already exists.\n", "> "]));
    let out = server.handle_input(&mut alice, "/create_room main");
    assert_eq!(out.replies, replies(&["Room name is reserved.\n", "> "]));
    let out = server.handle_input(&mut alice, "/cr");
    assert_eq!(out.replies, replies(&["Usage: /cr <room_name>\n", "> "]));
    assert_eq!(server.rooms().list_rooms(), vec!["main".to_string(), "lounge".to_string()]);
}

#[test]
fn disconnect_releases_everything_and_ends_the_session() {
    let mut server = Coordinator::new();
    let mut alice = sign_up(&mut server, "10.0.0.1:1", "alice", "pw1");
    let mut bob = sign_up(&mut server, "10.0.0.2:2", "bob", "pw2");
    server.handle_input(&mut alice, "/cr lounge");
    server.handle_input(&mut alice, "/sr lounge");
    let out = server.handle_input(&mut alice, "/disconnect");
    assert_eq!(out.replies, replies(&["You have been logged out and disconnected.\n"]));
    assert!(alice.is_terminated());
    assert!(!alice.is_authenticated());
    assert!(server.registry().lookup("alice").is_none());
    assert!(!in_any_room(&server, "alice"));
    assert!(in_any_room(&server, "bob"));
    for input in ["hi", "/sr main", "1", ""] {
        let out = server.handle_input(&mut alice, input);
        assert!(out.replies.is_empty());
        assert!(out.deliveries.is_empty());
        assert!(alice.is_terminated());
    }
    assert!(server.registry().lookup("alice").is_none());
    assert!(!in_any_room(&server, "alice"));
    let out = server.handle_input(&mut bob, "still here");
    assert!(out.deliveries.is_empty());
}

#[test]
fn second_sign_in_replaces_the_first_session() {
    let mut server = Coordinator::new();
    let mut first = sign_up(&mut server, "10.0.0.1:1", "alice", "pw1");
    server.handle_input(&mut first, "/cr lounge");
    server.handle_input(&mut first, "/sr lounge");
    let (second, out) = sign_in(&mut server, "10.0.0.2:2", "alice", "pw1");
    assert!(second.is_authenticated());
    let evicted = out.evicted.expect("the first session is evicted");
    assert_eq!(evicted.address, "10.0.0.1:1");
    assert_eq!(evicted.username, "alice");
    let held = server.registry().lookup("alice").expect("alice holds a slot");
    assert_eq!(held.client.address, "10.0.0.2:2");
    assert_eq!(held.state.current_room, Some("main".to_string()));
    assert_eq!(server.registry().snapshot_all().len(), 1);
    assert_eq!(server.rooms().members_of("main"), vec!["alice".to_string()]);
    assert!(server.rooms().members_of("lounge").is_empty());
    let out = server.handle_input(&mut first, "am I still here?");
    assert!(out.replies.is_empty());
    assert!(out.deliveries.is_empty());
    assert!(first.is_terminated());
    let held = server.registry().lookup("alice").expect("the second session keeps the slot");
    assert_eq!(held.client.address, "10.0.0.2:2");
    assert_eq!(server.rooms().members_of("main"), vec!["alice".to_string()]);
}

#[test]
fn closing_an_evicted_session_releases_nothing() {
    let mut server = Coordinator::new();
    let mut first = sign_up(&mut server, "10.0.0.1:1", "alice", "pw1");
    let (_second, _out) = sign_in(&mut server, "10.0.0.2:2", "alice", "pw1");
    let out = server.handle_closed(&mut first);
    assert!(out.replies.is_empty());
    assert!(first.is_terminated());
    assert!(server.registry().lookup("alice").is_some());
    assert_eq!(server.rooms().members_of("main"), vec!["alice".to_string()]);
}

#[test]
fn quit_signs_out_and_returns_to_the_menu() {
    let mut server = Coordinator::new();
    let mut alice = sign_up(&mut server, "10.0.0.1:1", "alice", "pw1");
    let out = server.handle_input(&mut alice, "/q");
    assert_eq!(
        out.replies,
        replies(&["You have been logged out.\n", "1. Sign up\n2. Sign in\nPlease choose (1|2): "])
    );
    assert!(!alice.is_authenticated());
    assert!(!alice.is_terminated());
    assert_eq!(alice.state.current_room, None);
    assert!(matches!(alice.prompt, Prompt::Menu));
    assert!(server.registry().lookup("alice").is_none());
    assert!(server.rooms().members_of("main").is_empty());
    let out = server.handle_input(&mut alice, "/q");
    assert_eq!(
        out.replies,
        replies(&["Invalid choice. Please choose 1 (Sign up) or 2 (Sign in).\n"])
    );
    let out = server.handle_input(&mut alice, "2");
    assert_eq!(out.replies, replies(&["Enter your username: "]));
}

#[test]
fn quit_marks_the_account_offline() {
    let mut server = Coordinator::new();
    let mut alice = sign_up(&mut server, "10.0.0.1:1", "alice", "pw1");
    server.handle_input(&mut alice, "/quit");
    let (mut again, _out) = sign_in(&mut server, "10.0.0.1:1", "alice", "pw1");
    assert_eq!(server.database().list_users(), vec!["alice online".to_string()]);
    server.handle_input(&mut again, "/q");
    assert_eq!(server.database().list_users(), vec!["alice offline".to_string()]);
}

#[test]
fn empty_line_terminates_and_releases() {
    let mut server = Coordinator::new();
    let mut alice = sign_up(&mut server, "10.0.0.1:1", "alice", "pw1");
    let out = server.handle_input(&mut alice, "");
    assert!(out.replies.is_empty());
    assert!(alice.is_terminated());
    assert!(server.registry().lookup("alice").is_none());
    assert!(server.rooms().members_of("main").is_empty());
}

#[test]
fn empty_line_terminates_a_signed_out_session() {
    let mut server = Coordinator::new();
    let mut session = Session::new("10.0.0.1:1");
    server.handle_input(&mut session, "1");
    let out = server.handle_input(&mut session, "");
    assert!(out.replies.is_empty());
    assert!(session.is_terminated());
    let mut other = Session::new("10.0.0.2:2");
    let out = server.handle_closed(&mut other);
    assert!(out.replies.is_empty());
    assert!(other.is_terminated());
}

#[test]
fn listings_show_users_and_rooms() {
    let mut server = Coordinator::new();
    let mut alice = sign_up(&mut server, "10.0.0.1:1", "alice", "pw1");
    let mut bob = sign_up(&mut server, "10.0.0.2:2", "bob", "pw2");
    server.handle_input(&mut bob, "/q");
    let (_bob, _out) = sign_in(&mut server, "10.0.0.2:2", "bob", "pw2");
    server.handle_input(&mut alice, "/cr lounge");
    let out = server.handle_input(&mut alice, "/list users");
    assert_eq!(
        out.replies,
        replies(&["Online/Offline Users:\n", "alice offline\nbob online\n", "> "])
    );
    let out = server.handle_input(&mut alice, "/list rooms");
    assert_eq!(out.replies, replies(&["Available Rooms:\n", "main\nlounge\n", "> "]));
    let out = server.handle_input(&mut alice, "/list");
    assert_eq!(out.replies, replies(&["Usage: /list <users|rooms>\n", "> "]));
    let out = server.handle_input(&mut alice, "/list cats");
    assert_eq!(
        out.replies,
        replies(&["Invalid argument. Use '/list users' or '/list rooms'.\n", "> "])
    );
}

#[test]
fn help_unknown_and_private_lines_are_answered() {
    let mut server = Coordinator::new();
    let mut alice = sign_up(&mut server, "10.0.0.1:1", "alice", "pw1");
    let _bob = sign_up(&mut server, "10.0.0.2:2", "bob", "pw2");
    let out = server.handle_input(&mut alice, "/help");
    assert_eq!(out.replies.len(), 9);
    assert_eq!(out.replies[0], "Available commands:\n");
    assert_eq!(out.replies[8], "> ");
    let out = server.handle_input(&mut alice, "/dance");
    assert_eq!(out.replies, replies(&["Unknown command.\n", "> "]));
    assert!(out.deliveries.is_empty());
    let out = server.handle_input(&mut alice, "@bob psst");
    assert_eq!(out.replies, replies(&["not implemented\n", "> "]));
    assert!(out.deliveries.is_empty());
}

#[test]
fn failed_delivery_tears_the_recipient_down() {
    let mut server = Coordinator::new();
    let mut alice = sign_up(&mut server, "10.0.0.1:1", "alice", "pw1");
    let mut bob = sign_up(&mut server, "10.0.0.2:2", "bob", "pw2");
    let out = server.handle_input(&mut alice, "hi");
    assert_eq!(out.deliveries.len(), 1);
    assert!(server.delivery_failed(&out.deliveries[0]));
    assert!(server.registry().lookup("bob").is_none());
    assert_eq!(server.rooms().members_of("main"), vec!["alice".to_string()]);
    assert!(!server.delivery_failed(&out.deliveries[0]));
    let out = server.handle_input(&mut alice, "anyone?");
    assert!(out.deliveries.is_empty());
    let out = server.handle_input(&mut bob, "me");
    assert!(out.replies.is_empty());
    assert!(bob.is_terminated());
}

#[test]
fn failed_delivery_to_a_replaced_connection_tears_nothing_down() {
    let mut server = Coordinator::new();
    let _bob = sign_up(&mut server, "10.0.0.2:2", "bob", "pw2");
    let stale = Delivery {
        recipient: "bob".to_string(),
        address: "10.0.0.9:9".to_string(),
        line: "[main] alice: hi".to_string(),
    };
    assert!(!server.delivery_failed(&stale));
    assert!(server.registry().lookup("bob").is_some());
    assert_eq!(server.rooms().members_of("main"), vec!["bob".to_string()]);
}

#[test]
fn every_signed_in_identity_is_in_exactly_its_current_room() {
    let mut server = Coordinator::new();
    let mut alice = sign_up(&mut server, "10.0.0.1:1", "alice", "pw1");
    let mut bob = sign_up(&mut server, "10.0.0.2:2", "bob", "pw2");
    let _carol = sign_up(&mut server, "10.0.0.3:3", "carol", "pw3");
    server.handle_input(&mut alice, "/cr lounge");
    server.handle_input(&mut alice, "/sr lounge");
    server.handle_input(&mut bob, "/sr lounge");
    server.handle_input(&mut bob, "/sr nowhere");
    server.handle_input(&mut alice, "/sr main");
    let rooms = server.rooms().list_rooms();
    for held in server.registry().snapshot_all() {
        let current = held.state.current_room.clone().expect("a signed-in session has a room");
        for room in &rooms {
            let listed = server.rooms().members_of(room).contains(&held.client.username);
            assert_eq!(listed, *room == current);
        }
    }
    assert_eq!(
        server.rooms().members_of("main"),
        vec!["carol".to_string(), "alice".to_string()]
    );
    assert_eq!(server.rooms().members_of("lounge"), vec!["bob".to_string()]);
}
