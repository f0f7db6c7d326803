use chat_server::directory::{RoomDirectory, RoomError};
use chat_server::registry::SessionRegistry;
use chat_server::room::Room;

#[test]
fn room_starts_empty_under_its_name() {
    let room = Room::new("lounge");
    assert_eq!(room.get_name(), "lounge");
    assert_eq!(room.get_members(), Vec::<String>::new());
    assert!(!room.has_member("alice"));
}

#[test]
fn room_lists_a_member_once() {
    let mut room = Room::new("lounge");
    room.add_member("alice");
    room.add_member("bob");
    room.add_member("alice");
    assert_eq!(room.get_members(), vec!["alice".to_string(), "bob".to_string()]);
    assert!(room.has_member("alice"));
    assert!(room.has_member("bob"));
    assert!(!room.has_member("ali"));
}

#[test]
fn room_removes_only_the_named_member() {
    let mut room = Room::new("lounge");
    room.add_member("alice");
    room.add_member("bob");
    room.add_member("carol");
    room.remove_member("bob");
    assert_eq!(room.get_members(), vec!["alice".to_string(), "carol".to_string()]);
    room.remove_member("bob");
    room.remove_member("nobody");
    assert_eq!(room.get_members(), vec!["alice".to_string(), "carol".to_string()]);
}

#[test]
fn room_broadcast_without_sessions_reaches_nobody() {
    let mut room = Room::new("lounge");
    room.add_member("alice");
    room.add_member("bob");
    let registry = SessionRegistry::new();
    assert!(room.broadcast(&registry, "alice", "hi").is_empty());
}

#[test]
fn new_directory_holds_the_empty_main_room() {
    let dir = RoomDirectory::new();
    assert_eq!(dir.list_rooms(), vec!["main".to_string()]);
    assert!(dir.room_exists("main"));
    assert!(!dir.room_exists("lounge"));
    assert_eq!(dir.members_of("main"), Vec::<String>::new());
}

#[test]
fn create_room_keeps_the_order_of_creation() {
    let mut dir = RoomDirectory::new();
    assert_eq!(dir.create_room("lounge"), Ok(()));
    assert_eq!(dir.create_room("den"), Ok(()));
    assert_eq!(
        dir.list_rooms(),
        vec!["main".to_string(), "lounge".to_string(), "den".to_string()]
    );
    assert!(dir.room_exists("den"));
}

#[test]
fn create_room_refuses_a_name_that_exists() {
    let mut dir = RoomDirectory::new();
    assert_eq!(dir.create_room("lounge"), Ok(()));
    assert_eq!(dir.create_room("lounge"), Err(RoomError::AlreadyExists));
    assert_eq!(dir.list_rooms(), vec!["main".to_string(), "lounge".to_string()]);
}

#[test]
fn create_room_refuses_the_reserved_name() {
    let mut dir = RoomDirectory::new();
    assert_eq!(dir.create_room("main"), Err(RoomError::ReservedRoomName));
    assert_eq!(dir.list_rooms(), vec!["main".to_string()]);
}

#[test]
fn create_room_refuses_an_empty_or_blank_name() {
    let mut dir = RoomDirectory::new();
    assert_eq!(dir.create_room(""), Err(RoomError::EmptyArgument));
    assert_eq!(dir.create_room("   "), Err(RoomError::EmptyArgument));
    assert_eq!(dir.create_room("\t\n"), Err(RoomError::EmptyArgument));
    assert_eq!(dir.list_rooms(), vec!["main".to_string()]);
}

#[test]
fn join_adds_once_and_needs_the_room() {
    let mut dir = RoomDirectory::new();
    assert_eq!(dir.join("main", "alice"), Ok(()));
    assert_eq!(dir.join("main", "alice"), Ok(()));
    assert_eq!(dir.join("main", "bob"), Ok(()));
    assert_eq!(dir.members_of("main"), vec!["alice".to_string(), "bob".to_string()]);
    assert_eq!(dir.join("nowhere", "alice"), Err(RoomError::RoomNotFound));
    assert_eq!(dir.members_of("nowhere"), Vec::<String>::new());
    assert!(!dir.room_exists("nowhere"));
}

#[test]
fn leave_removes_and_forgives_absence() {
    let mut dir = RoomDirectory::new();
    assert_eq!(dir.join("main", "alice"), Ok(()));
    assert_eq!(dir.join("main", "bob"), Ok(()));
    dir.leave("main", "alice");
    assert_eq!(dir.members_of("main"), vec!["bob".to_string()]);
    dir.leave("main", "alice");
    dir.leave("nowhere", "bob");
    assert_eq!(dir.members_of("main"), vec!["bob".to_string()]);
}

#[test]
fn move_member_leaves_one_room_for_the_other() {
    let mut dir = RoomDirectory::new();
    assert_eq!(dir.create_room("lounge"), Ok(()));
    assert_eq!(dir.join("main", "alice"), Ok(()));
    assert_eq!(dir.join("main", "bob"), Ok(()));
    assert_eq!(dir.move_member("alice", "main", "lounge"), Ok(()));
    assert_eq!(dir.members_of("main"), vec!["bob".to_string()]);
    assert_eq!(dir.members_of("lounge"), vec!["alice".to_string()]);
}

#[test]
fn move_member_to_a_missing_room_changes_nothing() {
    let mut dir = RoomDirectory::new();
    assert_eq!(dir.join("main", "alice"), Ok(()));
    assert_eq!(dir.move_member("alice", "main", "nowhere"), Err(RoomError::RoomNotFound));
    assert_eq!(dir.members_of("main"), vec!["alice".to_string()]);
    assert_eq!(dir.list_rooms(), vec!["main".to_string()]);
}

#[test]
fn move_member_within_one_room_keeps_the_member() {
    let mut dir = RoomDirectory::new();
    assert_eq!(dir.join("main", "alice"), Ok(()));
    assert_eq!(dir.move_member("alice", "main", "main"), Ok(()));
    assert_eq!(dir.members_of("main"), vec!["alice".to_string()]);
}

#[test]
fn room_error_messages() {
    assert_eq!(RoomError::AlreadyExists.message(), "Room already exists.");
    assert_eq!(RoomError::RoomNotFound.message(), "Room does not exist.");
    assert_eq!(RoomError::ReservedRoomName.message(), "Room name is reserved.");
    assert_eq!(RoomError::EmptyArgument.message(), "Room name cannot be empty.");
}
