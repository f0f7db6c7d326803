use chat_server::command::{classify, display_help, parse_command, Command, Input};

#[test]
fn parse_command_reads_each_directive() {
    assert!(matches!(parse_command("/help"), Command::Help));
    assert!(matches!(parse_command("/list users"), Command::ListUsers));
    assert!(matches!(parse_command("/list rooms"), Command::ListRooms));
    assert!(matches!(parse_command("/q"), Command::Quit));
    assert!(matches!(parse_command("/quit"), Command::Quit));
    assert!(matches!(parse_command("/disconnect"), Command::Disconnect));
}

#[test]
fn parse_command_takes_the_second_word_as_room_name() {
    match parse_command("/cr lounge") {
        Command::CreateRoom { name } => assert_eq!(name, "lounge"),
        other => panic!("read as {:?}", other),
    }
    match parse_command("/create_room   den  extra") {
        Command::CreateRoom { name } => assert_eq!(name, "den"),
        other => panic!("read as {:?}", other),
    }
    match parse_command("/sr lounge") {
        Command::SwitchRoom { name } => assert_eq!(name, "lounge"),
        other => panic!("read as {:?}", other),
    }
    match parse_command("/switch_room main") {
        Command::SwitchRoom { name } => assert_eq!(name, "main"),
        other => panic!("read as {:?}", other),
    }
}

#[test]
fn parse_command_asks_for_a_missing_argument() {
    assert!(matches!(parse_command("/list"), Command::ListUsage));
    assert!(matches!(parse_command("/cr"), Command::CreateRoomUsage));
    assert!(matches!(parse_command("/create_room "), Command::CreateRoomUsage));
    assert!(matches!(parse_command("/sr"), Command::SwitchRoomUsage));
    assert!(matches!(parse_command("/switch_room"), Command::SwitchRoomUsage));
}

#[test]
fn parse_command_refuses_what_it_does_not_know() {
    assert!(matches!(parse_command("/list everything"), Command::ListInvalid));
    assert!(matches!(parse_command("/dance"), Command::Unknown));
    assert!(matches!(parse_command("/helpme"), Command::Unknown));
    assert!(matches!(parse_command("/"), Command::Unknown));
    assert!(matches!(parse_command("hello there"), Command::Unknown));
}

#[test]
fn parse_command_of_a_blank_line_is_blank() {
    assert!(matches!(parse_command(""), Command::Blank));
    assert!(matches!(parse_command("   "), Command::Blank));
}

#[test]
fn classify_tells_the_four_kinds_of_line_apart() {
    assert!(matches!(classify(""), Input::Closed));
    assert!(matches!(classify("/q"), Input::Directive(Command::Quit)));
    assert!(matches!(classify("/nothing"), Input::Directive(Command::Unknown)));
    assert!(matches!(classify("@bob hello"), Input::Private));
    assert!(matches!(classify("hello"), Input::Chat));
    assert!(matches!(classify(" /q"), Input::Chat));
}

#[test]
fn display_help_lists_the_commands() {
    assert_eq!(
        display_help(),
        vec![
            "Available commands:\n".to_string(),
            "/list - List all users\n".to_string(),
            "/cr <room_name> - Create a room\n".to_string(),
            "/sr <room_name> - Switch to a room\n".to_string(),
            "/q - Logout\n".to_string(),
            "/disconnect - Disconnect\n".to_string(),
            "@username message - Send a private message\n".to_string(),
            "/list_rooms - List all rooms\n".to_string(),
        ]
    );
}
