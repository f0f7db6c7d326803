//! The directives a signed-in peer can send, and how an input line is read
//! as one of them.

use vstd::prelude::*;
use vstd::string::*;
use crate::text::{split_words, str_eq, texts, words};

verus! {

/// A directive of the command table.
#[derive(Debug)]
pub enum Command {
    /// A line without any word.
    Blank,
    /// `/help`
    Help,
    /// `/list` without an argument.
    ListUsage,
    /// `/list users`
    ListUsers,
    /// `/list rooms`
    ListRooms,
    /// `/list` with any other argument.
    ListInvalid,
    /// `/q` or `/quit`: log out and stay connected.
    Quit,
    /// `/disconnect`: log out and close.
    Disconnect,
    /// `/cr <name>` or `/create_room <name>`
    CreateRoom { name: String },
    /// `/cr` without a name.
    CreateRoomUsage,
    /// `/sr <name>` or `/switch_room <name>`
    SwitchRoom { name: String },
    /// `/sr` without a name.
    SwitchRoomUsage,
    /// Any other first word.
    Unknown,
}

/// A directive with its argument as plain characters.
pub enum CommandView {
    Blank,
    Help,
    ListUsage,
    ListUsers,
    ListRooms,
    ListInvalid,
    Quit,
    Disconnect,
    CreateRoom { name: Seq<char> },
    CreateRoomUsage,
    SwitchRoom { name: Seq<char> },
    SwitchRoomUsage,
    Unknown,
}

impl View for Command {
    type V = CommandView;

    open spec fn view(&self) -> CommandView {
        match *self {
            Command::Blank => CommandView::Blank,
            Command::Help => CommandView::Help,
            Command::ListUsage => CommandView::ListUsage,
            Command::ListUsers => CommandView::ListUsers,
            Command::ListRooms => CommandView::ListRooms,
            Command::ListInvalid => CommandView::ListInvalid,
            Command::Quit => CommandView::Quit,
            Command::Disconnect => CommandView::Disconnect,
            Command::CreateRoom { name } => CommandView::CreateRoom { name: name@ },
            Command::CreateRoomUsage => CommandView::CreateRoomUsage,
            Command::SwitchRoom { name } => CommandView::SwitchRoom { name: name@ },
            Command::SwitchRoomUsage => CommandView::SwitchRoomUsage,
            Command::Unknown => CommandView::Unknown,
        }
    }
}

/// The directive that a line with the words `ws` stands for. Only the first
/// two words count; the first decides the directive, the second is its
/// argument.
pub open spec fn command_of(ws: Seq<Seq<char>>) -> CommandView {
    if ws.len() == 0 {
        CommandView::Blank
    } else if ws[0] == "/help"@ {
        CommandView::Help
    } else if ws[0] == "/list"@ {
        if ws.len() < 2 {
            CommandView::ListUsage
        } else if ws[1] == "users"@ {
            CommandView::ListUsers
        } else if ws[1] == "rooms"@ {
            CommandView::ListRooms
        } else {
            CommandView::ListInvalid
        }
    } else if ws[0] == "/q"@ || ws[0] == "/quit"@ {
        CommandView::Quit
    } else if ws[0] == "/disconnect"@ {
        CommandView::Disconnect
    } else if ws[0] == "/cr"@ || ws[0] == "/create_room"@ {
        if ws.len() < 2 {
            CommandView::CreateRoomUsage
        } else {
            CommandView::CreateRoom { name: ws[1] }
        }
    } else if ws[0] == "/sr"@ || ws[0] == "/switch_room"@ {
        if ws.len() < 2 {
            CommandView::SwitchRoomUsage
        } else {
            CommandView::SwitchRoom { name: ws[1] }
        }
    } else {
        CommandView::Unknown
    }
}

/// Reads `cmd` as a directive.
pub fn parse_command(cmd: &str) -> (r: Command)
    ensures
        r@ == command_of(words(cmd@)),
{
    let parts = split_words(cmd);
    if parts.len() == 0 {
        return Command::Blank;
    }
    let head = parts[0].as_str();
    if str_eq(head, "/help") {
        Command::Help
    } else if str_eq(head, "/list") {
        if parts.len() < 2 {
            Command::ListUsage
        } else if str_eq(parts[1].as_str(), "users") {
            Command::ListUsers
        } else if str_eq(parts[1].as_str(), "rooms") {
            Command::ListRooms
        } else {
            Command::ListInvalid
        }
    } else if str_eq(head, "/q") || str_eq(head, "/quit") {
        Command::Quit
    } else if str_eq(head, "/disconnect") {
        Command::Disconnect
    } else if str_eq(head, "/cr") || str_eq(head, "/create_room") {
        if parts.len() < 2 {
            Command::CreateRoomUsage
        } else {
            Command::CreateRoom { name: parts[1].clone() }
        }
    } else if str_eq(head, "/sr") || str_eq(head, "/switch_room") {
        if parts.len() < 2 {
            Command::SwitchRoomUsage
        } else {
            Command::SwitchRoom { name: parts[1].clone() }
        }
    } else {
        Command::Unknown
    }
}

/// What an input line is to a signed-in session.
#[derive(Debug)]
pub enum Input {
    /// The empty line: the peer has closed.
    Closed,
    /// A line that starts with `/`.
    Directive(Command),
    /// A line that starts with `@`: reserved for private messages.
    Private,
    /// Any other line: a chat line for the current room.
    Chat,
}

/// An input kind with its directive as plain characters.
pub enum InputView {
    Closed,
    Directive(CommandView),
    Private,
    Chat,
}

impl View for Input {
    type V = InputView;

    open spec fn view(&self) -> InputView {
        match *self {
            Input::Closed => InputView::Closed,
            Input::Directive(c) => InputView::Directive(c@),
            Input::Private => InputView::Private,
            Input::Chat => InputView::Chat,
        }
    }
}

/// How a signed-in session reads the line `line`.
pub open spec fn input_of(line: Seq<char>) -> InputView {
    if line.len() == 0 {
        InputView::Closed
    } else if line[0] == '/' {
        InputView::Directive(command_of(words(line)))
    } else if line[0] == '@' {
        InputView::Private
    } else {
        InputView::Chat
    }
}

/// Tells a directive, a private message and a chat line apart.
pub fn classify(line: &str) -> (r: Input)
    ensures
        r@ == input_of(line@),
{
    if line.is_empty() {
        return Input::Closed;
    }
    let first = line.get_char(0);
    if first == '/' {
        Input::Directive(parse_command(line))
    } else if first == '@' {
        Input::Private
    } else {
        Input::Chat
    }
}

/// The lines of the help text.
pub open spec fn help_text() -> Seq<Seq<char>> {
    seq![
        "Available commands:\n"@,
        "/list - List all users\n"@,
        "/cr <room_name> - Create a room\n"@,
        "/sr <room_name> - Switch to a room\n"@,
        "/q - Logout\n"@,
        "/disconnect - Disconnect\n"@,
        "@username message - Send a private message\n"@,
        "/list_rooms - List all rooms\n"@,
    ]
}

/// The help text, one reply per line.
pub fn display_help() -> (r: Vec<String>)
    ensures
        texts(r@) == help_text(),
{
    let mut out: Vec<String> = Vec::new();
    out.push(String::from_str("Available commands:\n"));
    out.push(String::from_str("/list - List all users\n"));
    out.push(String::from_str("/cr <room_name> - Create a room\n"));
    out.push(String::from_str("/sr <room_name> - Switch to a room\n"));
    out.push(String::from_str("/q - Logout\n"));
    out.push(String::from_str("/disconnect - Disconnect\n"));
    out.push(String::from_str("@username message - Send a private message\n"));
    out.push(String::from_str("/list_rooms - List all rooms\n"));
    out
}

} // verus!
