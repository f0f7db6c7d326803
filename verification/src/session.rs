//! The per-connection state machine: a session is signed out, signed in and
//! standing in a room, or terminated, and each input line moves it on.

use vstd::prelude::*;
use vstd::string::*;
use crate::client::{Client, ClientState, ClientStateView, ClientView};
use crate::command::{classify, display_help, help_text, input_of, Command, CommandView, Input, InputView};
use crate::coordinator::{client_of, opt_client, Coordinator, CoordinatorView};
use crate::database::DatabaseView;
use crate::directory::RoomError;
use crate::registry::SessionRefView;
use crate::router::{copies, delivery_views, Delivery, DeliveryView};
use crate::text::{join, joined, lemma_texts_push, lines1, lines2, lines3, str_eq, texts};

verus! {

/// What a signed-out session is waiting for.
#[derive(Debug)]
pub enum Prompt {
    /// The choice between signing up and signing in.
    Menu,
    /// The name of the account.
    Username { sign_up: bool },
    /// The password of the account named `username`.
    Password { sign_up: bool, username: String },
}

/// A prompt as plain values.
pub enum PromptView {
    Menu,
    Username { sign_up: bool },
    Password { sign_up: bool, username: Seq<char> },
}

impl View for Prompt {
    type V = PromptView;

    open spec fn view(&self) -> PromptView {
        match *self {
            Prompt::Menu => PromptView::Menu,
            Prompt::Username { sign_up } => PromptView::Username { sign_up },
            Prompt::Password { sign_up, username } => PromptView::Password {
                sign_up,
                username: username@,
            },
        }
    }
}

/// The state of one connection.
#[derive(Debug)]
pub struct Session {
    pub client: Client,
    pub state: ClientState,
    pub prompt: Prompt,
}

/// A session as plain values.
pub struct SessionView {
    pub client: ClientView,
    pub state: ClientStateView,
    pub prompt: PromptView,
}

impl View for Session {
    type V = SessionView;

    open spec fn view(&self) -> SessionView {
        SessionView { client: self.client@, state: self.state@, prompt: self.prompt@ }
    }
}

/// The state of a session as the state machine names it.
pub enum Phase {
    Unauthenticated,
    Authenticated { room: Seq<char> },
    Terminated,
}

impl SessionView {
    /// The state of the session.
    pub open spec fn phase(self) -> Phase {
        if self.state.mark_disconnected {
            Phase::Terminated
        } else if self.state.is_logged_in {
            Phase::Authenticated { room: self.state.current_room->0 }
        } else {
            Phase::Unauthenticated
        }
    }

    /// The fresh session of the peer at `address`.
    pub open spec fn fresh(address: Seq<char>) -> SessionView {
        SessionView {
            client: ClientView { address, username: Seq::empty() },
            state: ClientStateView::fresh(),
            prompt: PromptView::Menu,
        }
    }

    /// This session, terminated.
    pub open spec fn closed(self) -> SessionView {
        SessionView {
            client: self.client,
            state: ClientStateView::closed(),
            prompt: PromptView::Menu,
        }
    }

    /// This session, signed out and back at the menu.
    pub open spec fn signed_out(self) -> SessionView {
        SessionView {
            client: self.client,
            state: ClientStateView::fresh(),
            prompt: PromptView::Menu,
        }
    }

    /// This session, waiting for `prompt`.
    pub open spec fn waiting_for(self, prompt: PromptView) -> SessionView {
        SessionView { client: self.client, state: self.state, prompt }
    }

    /// This session, signed in as `username` and standing in `room`.
    pub open spec fn signed_in(self, username: Seq<char>, room: Seq<char>) -> SessionView {
        SessionView {
            client: ClientView { address: self.client.address, username },
            state: ClientStateView::placed(room),
            prompt: PromptView::Menu,
        }
    }
}

/// What one input line asks the caller to do.
#[derive(Debug)]
pub struct Outcome {
    /// The texts to write to the session that sent the line, in order.
    pub replies: Vec<String>,
    /// The chat lines to write to other sessions.
    pub deliveries: Vec<Delivery>,
    /// The client of a session that lost its slot to this sign-in and is to
    /// be closed.
    pub evicted: Option<Client>,
}

/// An outcome as plain values.
pub struct OutcomeView {
    pub replies: Seq<Seq<char>>,
    pub deliveries: Seq<DeliveryView>,
    pub evicted: Option<ClientView>,
}

impl View for Outcome {
    type V = OutcomeView;

    open spec fn view(&self) -> OutcomeView {
        OutcomeView {
            replies: texts(self.replies@),
            deliveries: delivery_views(self.deliveries@),
            evicted: opt_client(self.evicted),
        }
    }
}

impl OutcomeView {
    /// Nothing to write.
    pub open spec fn silent() -> OutcomeView {
        OutcomeView { replies: Seq::empty(), deliveries: Seq::empty(), evicted: None }
    }

    /// Only replies to the sender of the line.
    pub open spec fn replying(replies: Seq<Seq<char>>) -> OutcomeView {
        OutcomeView { replies, deliveries: Seq::empty(), evicted: None }
    }
}

/// One step of the state machine: the coordinator and the session after an
/// input line, and what the line asks the caller to do.
pub struct StepView {
    pub coordinator: CoordinatorView,
    pub session: SessionView,
    pub outcome: OutcomeView,
}

/// The prompt that ends the replies to a session that is signed in.
pub open spec fn ready() -> Seq<char> {
    "> "@
}

/// The menu that a signed-out session chooses from.
pub open spec fn menu() -> Seq<char> {
    "1. Sign up\n2. Sign in\nPlease choose (1|2): "@
}

/// The reply to `/cr <name>`.
pub open spec fn create_reply(outcome: Result<(), RoomError>, name: Seq<char>) -> Seq<char> {
    match outcome {
        Ok(_) => "Room '"@ + name + "' created.\n"@,
        Err(e) => e.text() + "\n"@,
    }
}

impl CoordinatorView {
    /// This coordinator with `db` as its credential store.
    pub open spec fn with_db(self, db: DatabaseView) -> CoordinatorView {
        CoordinatorView { db, registry: self.registry, rooms: self.rooms }
    }

    /// A step that changes nothing but the session's prompt and replies to
    /// the sender.
    pub open spec fn answer(self, session: SessionView, replies: Seq<Seq<char>>) -> StepView {
        StepView { coordinator: self, session, outcome: OutcomeView::replying(replies) }
    }

    /// Whether the credential store accepts the name with the password: for
    /// a sign-up, that the name is free; for a sign-in, that the account
    /// exists and the password is its own.
    pub open spec fn accepts(self, sign_up: bool, username: Seq<char>, password: Seq<char>) -> bool {
        if sign_up {
            self.db.register_outcome(username) is Ok
        } else {
            self.db.login_outcome(username, password) is Ok
        }
    }

    /// The step of a session that has given a name and now gives its
    /// password: the account is registered or checked, and on success the
    /// session takes the slot of the name and stands in `main`.
    pub open spec fn step_credentials(
        self,
        session: SessionView,
        sign_up: bool,
        username: Seq<char>,
        password: Seq<char>,
    ) -> StepView {
        let db = if sign_up {
            self.db.after_register(username, password)
        } else {
            self.db.after_login(username, password)
        };
        let answer = if sign_up {
            self.db.register_outcome(username)
        } else {
            self.db.login_outcome(username, password)
        };
        match answer {
            Ok(welcome) => StepView {
                coordinator: self.with_db(db).after_enter(
                    ClientView { address: session.client.address, username },
                ),
                session: session.signed_in(username, "main"@),
                outcome: OutcomeView {
                    replies: seq![welcome + "\n"@, "You have joined the 'main' room.\n> "@],
                    deliveries: Seq::empty(),
                    evicted: client_of(self.registry.lookup(username)),
                },
            },
            Err(refusal) => self.with_db(db).answer(
                session.waiting_for(PromptView::Menu),
                seq![refusal + "\n"@],
            ),
        }
    }

    /// The step of a session that is signed out. The empty line terminates
    /// it; any other line answers the prompt that the session is waiting for.
    pub open spec fn step_signed_out(self, session: SessionView, input: Seq<char>) -> StepView {
        if input.len() == 0 {
            StepView { coordinator: self, session: session.closed(), outcome: OutcomeView::silent() }
        } else {
            match session.prompt {
                PromptView::Menu => if input == "1"@ {
                    self.answer(
                        session.waiting_for(PromptView::Username { sign_up: true }),
                        seq!["Enter a username: "@],
                    )
                } else if input == "2"@ {
                    self.answer(
                        session.waiting_for(PromptView::Username { sign_up: false }),
                        seq!["Enter your username: "@],
                    )
                } else {
                    self.answer(
                        session,
                        seq!["Invalid choice. Please choose 1 (Sign up) or 2 (Sign in).\n"@],
                    )
                },
                PromptView::Username { sign_up } => self.answer(
                    session.waiting_for(PromptView::Password { sign_up, username: input }),
                    seq![
                        if sign_up {
                            "Enter a password: "@
                        } else {
                            "Enter your password: "@
                        },
                    ],
                ),
                PromptView::Password { sign_up, username } => self.step_credentials(
                    session,
                    sign_up,
                    username,
                    input,
                ),
            }
        }
    }

    /// The step of a signed-in session for the directive `command`.
    pub open spec fn step_command(self, session: SessionView, command: CommandView) -> StepView {
        let identity = session.client.username;
        match command {
            CommandView::Blank => self.answer(session, seq![ready()]),
            CommandView::Help => self.answer(session, help_text().push(ready())),
            CommandView::ListUsage => self.answer(
                session,
                seq!["Usage: /list <users|rooms>\n"@, ready()],
            ),
            CommandView::ListUsers => self.answer(
                session,
                seq![
                    "Online/Offline Users:\n"@,
                    joined(self.db.user_lines(), "\n"@) + "\n"@,
                    ready(),
                ],
            ),
            CommandView::ListRooms => self.answer(
                session,
                seq!["Available Rooms:\n"@, joined(self.rooms.names(), "\n"@) + "\n"@, ready()],
            ),
            CommandView::ListInvalid => self.answer(
                session,
                seq!["Invalid argument. Use '/list users' or '/list rooms'.\n"@, ready()],
            ),
            CommandView::Quit => StepView {
                coordinator: self.with_db(self.db.after_logout(identity)).after_release(identity),
                session: session.signed_out(),
                outcome: OutcomeView::replying(seq!["You have been logged out.\n"@, menu()]),
            },
            CommandView::Disconnect => StepView {
                coordinator: self.with_db(self.db.after_logout(identity)).after_release(identity),
                session: session.closed(),
                outcome: OutcomeView::replying(
                    seq!["You have been logged out and disconnected.\n"@],
                ),
            },
            CommandView::CreateRoom { name } => StepView {
                coordinator: CoordinatorView {
                    db: self.db,
                    registry: self.registry,
                    rooms: self.rooms.after_create(name),
                },
                session,
                outcome: OutcomeView::replying(
                    seq![create_reply(self.rooms.create_outcome(name), name), ready()],
                ),
            },
            CommandView::CreateRoomUsage => self.answer(
                session,
                seq!["Usage: /cr <room_name>\n"@, ready()],
            ),
            CommandView::SwitchRoom { name } => if self.rooms.has_room(name) {
                StepView {
                    coordinator: self.after_switch(identity, name),
                    session: session.signed_in(identity, name),
                    outcome: OutcomeView::replying(
                        seq!["Switched to room '"@ + name + "'.\n"@, ready()],
                    ),
                }
            } else {
                self.answer(session, seq!["Room does not exist.\n"@, ready()])
            },
            CommandView::SwitchRoomUsage => self.answer(
                session,
                seq!["Usage: /sr <room_name>\n"@, ready()],
            ),
            CommandView::Unknown => self.answer(session, seq!["Unknown command.\n"@, ready()]),
        }
    }

    /// The step of a session that is signed in and holds the slot of its
    /// name. The empty line terminates it and releases its slot and its
    /// membership; a line that starts with `/` is a directive; one that
    /// starts with `@` is refused; any other line goes to the other members
    /// of the session's room.
    pub open spec fn step_signed_in(self, session: SessionView, input: Seq<char>) -> StepView {
        let identity = session.client.username;
        match input_of(input) {
            InputView::Closed => StepView {
                coordinator: self.after_release(identity),
                session: session.closed(),
                outcome: OutcomeView::silent(),
            },
            InputView::Directive(command) => self.step_command(session, command),
            InputView::Private => self.answer(session, seq!["not implemented\n"@, ready()]),
            InputView::Chat => StepView {
                coordinator: self,
                session,
                outcome: OutcomeView {
                    replies: seq![ready()],
                    deliveries: self.broadcast(self.room_of(identity), identity, input),
                    evicted: None,
                },
            },
        }
    }

    /// One step of the state machine. A terminated session stays as it is
    /// and nothing is written. A session that is signed in but no longer
    /// holds the slot of its name was evicted: it is terminated, and the slot
    /// and the rooms stay as they are.
    pub open spec fn step(self, session: SessionView, input: Seq<char>) -> StepView {
        if session.state.mark_disconnected {
            StepView { coordinator: self, session, outcome: OutcomeView::silent() }
        } else if !session.state.is_logged_in {
            self.step_signed_out(session, input)
        } else if !self.owns(session.client) {
            StepView { coordinator: self, session: session.closed(), outcome: OutcomeView::silent() }
        } else {
            self.step_signed_in(session, input)
        }
    }

    /// The step that takes a password keeps the coordinator valid. Where it
    /// signs the session in, the session holds the slot of its name and
    /// stands in `main` and in no other room.
    pub proof fn lemma_step_credentials(
        self,
        session: SessionView,
        sign_up: bool,
        username: Seq<char>,
        password: Seq<char>,
    )
        requires
            self.valid(),
        ensures
            self.step_credentials(session, sign_up, username, password).coordinator.valid(),
            self.accepts(sign_up, username, password) ==> {
                let after = self.step_credentials(session, sign_up, username, password);
                &&& after.coordinator.registry.lookup(username) == Some(
                    SessionRefView { client: after.session.client, state: after.session.state },
                )
                &&& after.coordinator.rooms.sole_room(username, "main"@)
            },
    {
        let db = if sign_up {
            self.db.after_register(username, password)
        } else {
            self.db.after_login(username, password)
        };
        if sign_up {
            self.db.lemma_after_register(username, password);
        } else {
            self.db.lemma_after_login(username, password);
        }
        self.lemma_with_db(db);
        self.with_db(db).lemma_after_enter(
            ClientView { address: session.client.address, username },
        );
    }

    /// Every step keeps the coordinator valid.
    pub proof fn law_step_keeps_valid(self, session: SessionView, input: Seq<char>)
        requires
            self.valid(),
        ensures
            self.step(session, input).coordinator.valid(),
    {
        let identity = session.client.username;
        match session.phase() {
            Phase::Terminated => {},
            Phase::Unauthenticated => {
                if let PromptView::Password { sign_up, username } = session.prompt {
                    self.lemma_step_credentials(session, sign_up, username, input);
                }
            },
            Phase::Authenticated { .. } => {
                self.lemma_after_release(identity);
                self.db.lemma_after_logout(identity);
                self.lemma_with_db(self.db.after_logout(identity));
                self.with_db(self.db.after_logout(identity)).lemma_after_release(identity);
                if self.owns(session.client) {
                    match input_of(input) {
                        InputView::Directive(CommandView::CreateRoom { name }) => {
                            self.lemma_after_create(name);
                        },
                        InputView::Directive(CommandView::SwitchRoom { name }) => {
                            self.lemma_after_switch(identity, name);
                        },
                        _ => {},
                    }
                }
            },
        }
    }

    /// Replacing a valid credential store by another valid one keeps the
    /// coordinator valid.
    pub proof fn lemma_with_db(self, db: DatabaseView)
        requires
            self.valid(),
            db.valid(),
        ensures
            self.with_db(db).valid(),
    {
    }
}

impl CoordinatorView {
    /// The coordinator after a write to the connection at `address`, made
    /// for `recipient`, has failed: the recipient's session is torn down
    /// where that connection still holds the recipient's slot.
    pub open spec fn after_failed_delivery(self, recipient: Seq<char>, address: Seq<char>) -> CoordinatorView {
        if self.owns(ClientView { address, username: recipient }) {
            self.after_release(recipient)
        } else {
            self
        }
    }
}

impl Session {
    /// The session of a connection that has just been accepted from
    /// `address`: signed out, at the menu.
    pub fn new(address: &str) -> (r: Session)
        ensures
            r@ == SessionView::fresh(address@),
    {
        let (client, state) = Client::new(address);
        Session { client, state, prompt: Prompt::Menu }
    }

    /// The texts that welcome a new connection.
    pub fn greeting() -> (r: Vec<String>)
        ensures
            texts(r@) == seq!["Welcome to the chat server!\n"@, menu()],
    {
        lines2(
            String::from_str("Welcome to the chat server!\n"),
            String::from_str("1. Sign up\n2. Sign in\nPlease choose (1|2): "),
        )
    }

    /// Whether the session is terminated: its connection is to be closed.
    pub fn is_terminated(&self) -> (r: bool)
        ensures
            r == (self@.phase() is Terminated),
    {
        self.state.mark_disconnected
    }

    /// Whether the session is signed in.
    pub fn is_authenticated(&self) -> (r: bool)
        ensures
            r == (self@.phase() is Authenticated),
    {
        !self.state.mark_disconnected && self.state.is_logged_in
    }

    /// Terminates the session.
    fn close(&mut self)
        ensures
            final(self)@ == old(self)@.closed(),
    {
        self.state = ClientState { current_room: None, is_logged_in: false, mark_disconnected: true };
        self.prompt = Prompt::Menu;
    }
}

impl Outcome {
    /// Nothing to write.
    pub fn silent() -> (r: Outcome)
        ensures
            r@ == OutcomeView::silent(),
    {
        let r = Outcome { replies: Vec::new(), deliveries: Vec::new(), evicted: None };
        assert(texts(r.replies@) =~= Seq::<Seq<char>>::empty());
        assert(delivery_views(r.deliveries@) =~= Seq::<DeliveryView>::empty());
        r
    }

    /// Only replies to the sender of the line.
    pub fn replying(replies: Vec<String>) -> (r: Outcome)
        ensures
            r@ == OutcomeView::replying(texts(replies@)),
    {
        let r = Outcome { replies, deliveries: Vec::new(), evicted: None };
        assert(delivery_views(r.deliveries@) =~= Seq::<DeliveryView>::empty());
        r
    }
}

impl Coordinator {
    /// The step of a session that has given a name and now gives its
    /// password.
    fn credentials_step(
        &mut self,
        session: &mut Session,
        sign_up: bool,
        username: String,
        password: &str,
    ) -> (outcome: Outcome)
        requires
            old(self).wf(),
        ensures
            final(self).wf(),
            (StepView { coordinator: final(self)@, session: final(session)@, outcome: outcome@ })
                == old(self)@.step_credentials(old(session)@, sign_up, username@, password@),
    {
        let answer = if sign_up {
            self.sign_up(username.as_str(), password)
        } else {
            self.sign_in(username.as_str(), password)
        };
        match answer {
            Ok(welcome) => {
                let mut line = welcome;
                line.append("\n");
                let client = Client {
                    address: session.client.address.clone(),
                    username: username.clone(),
                };
                let evicted = self.enter(client);
                session.client.username = username;
                session.state = ClientState::placed("main");
                session.prompt = Prompt::Menu;
                let outcome = Outcome {
                    replies: lines2(line, String::from_str("You have joined the 'main' room.\n> ")),
                    deliveries: Vec::new(),
                    evicted,
                };
                assert(delivery_views(outcome.deliveries@) =~= Seq::<DeliveryView>::empty());
                outcome
            },
            Err(refusal) => {
                let mut line = refusal;
                line.append("\n");
                session.prompt = Prompt::Menu;
                Outcome::replying(lines1(line))
            },
        }
    }

    /// The step of a session that is signed out.
    fn signed_out_step(&mut self, session: &mut Session, input: &str) -> (outcome: Outcome)
        requires
            old(self).wf(),
        ensures
            final(self).wf(),
            (StepView { coordinator: final(self)@, session: final(session)@, outcome: outcome@ })
                == old(self)@.step_signed_out(old(session)@, input@),
    {
        if input.is_empty() {
            session.close();
            return Outcome::silent();
        }
        let (sign_up, username) = match &session.prompt {
            Prompt::Menu => {
                if str_eq(input, "1") {
                    session.prompt = Prompt::Username { sign_up: true };
                    return Outcome::replying(lines1(String::from_str("Enter a username: ")));
                } else if str_eq(input, "2") {
                    session.prompt = Prompt::Username { sign_up: false };
                    return Outcome::replying(lines1(String::from_str("Enter your username: ")));
                } else {
                    return Outcome::replying(
                        lines1(
                            String::from_str(
                                "Invalid choice. Please choose 1 (Sign up) or 2 (Sign in).\n",
                            ),
                        ),
                    );
                }
            },
            Prompt::Username { sign_up } => {
                let sign_up = *sign_up;
                session.prompt = Prompt::Password { sign_up, username: input.to_owned() };
                let ask = if sign_up {
                    String::from_str("Enter a password: ")
                } else {
                    String::from_str("Enter your password: ")
                };
                return Outcome::replying(lines1(ask));
            },
            Prompt::Password { sign_up, username } => (*sign_up, username.clone()),
        };
        self.credentials_step(session, sign_up, username, input)
    }

    /// The step of a signed-in session for the directive `command`.
    fn command_step(&mut self, session: &mut Session, command: Command) -> (outcome: Outcome)
        requires
            old(self).wf(),
            old(self)@.registry.has(old(session)@.client.username),
        ensures
            final(self).wf(),
            (StepView { coordinator: final(self)@, session: final(session)@, outcome: outcome@ })
                == old(self)@.step_command(old(session)@, command@),
    {
        let ready = String::from_str("> ");
        match command {
            Command::Blank => Outcome::replying(lines1(ready)),
            Command::Help => {
                let mut replies = display_help();
                proof {
                    lemma_texts_push(replies@, ready);
                }
                replies.push(ready);
                Outcome::replying(replies)
            },
            Command::ListUsage => Outcome::replying(
                lines2(String::from_str("Usage: /list <users|rooms>\n"), ready),
            ),
            Command::ListUsers => {
                let users = self.database().list_users();
                let mut listing = join(&users, "\n");
                listing.append("\n");
                Outcome::replying(
                    lines3(String::from_str("Online/Offline Users:\n"), listing, ready),
                )
            },
            Command::ListRooms => {
                let names = self.rooms().list_rooms();
                let mut listing = join(&names, "\n");
                listing.append("\n");
                Outcome::replying(lines3(String::from_str("Available Rooms:\n"), listing, ready))
            },
            Command::ListInvalid => Outcome::replying(
                lines2(
                    String::from_str("Invalid argument. Use '/list users' or '/list rooms'.\n"),
                    ready,
                ),
            ),
            Command::Quit => {
                self.sign_out(session.client.username.as_str());
                self.release(session.client.username.as_str());
                session.state = ClientState {
                    current_room: None,
                    is_logged_in: false,
                    mark_disconnected: false,
                };
                session.prompt = Prompt::Menu;
                Outcome::replying(
                    lines2(
                        String::from_str("You have been logged out.\n"),
                        String::from_str("1. Sign up\n2. Sign in\nPlease choose (1|2): "),
                    ),
                )
            },
            Command::Disconnect => {
                self.sign_out(session.client.username.as_str());
                self.release(session.client.username.as_str());
                session.close();
                Outcome::replying(
                    lines1(String::from_str("You have been logged out and disconnected.\n")),
                )
            },
            Command::CreateRoom { name } => {
                let reply = match self.create_room(name.as_str()) {
                    Ok(_) => {
                        let mut line = String::from_str("Room '");
                        line.append(name.as_str());
                        line.append("' created.\n");
                        line
                    },
                    Err(e) => {
                        let mut line = e.message();
                        line.append("\n");
                        line
                    },
                };
                Outcome::replying(lines2(reply, ready))
            },
            Command::CreateRoomUsage => Outcome::replying(
                lines2(String::from_str("Usage: /cr <room_name>\n"), ready),
            ),
            Command::SwitchRoom { name } => {
                match self.switch_room(session.client.username.as_str(), name.as_str()) {
                    Ok(_) => {
                        session.state = ClientState::placed(name.as_str());
                        session.prompt = Prompt::Menu;
                        let mut line = String::from_str("Switched to room '");
                        line.append(name.as_str());
                        line.append("'.\n");
                        Outcome::replying(lines2(line, ready))
                    },
                    Err(_) => Outcome::replying(
                        lines2(String::from_str("Room does not exist.\n"), ready),
                    ),
                }
            },
            Command::SwitchRoomUsage => Outcome::replying(
                lines2(String::from_str("Usage: /sr <room_name>\n"), ready),
            ),
            Command::Unknown => Outcome::replying(
                lines2(String::from_str("Unknown command.\n"), ready),
            ),
        }
    }

    /// The step of a session that is signed in and holds the slot of its
    /// name, where `room` is the room in which it stands.
    fn signed_in_step(&mut self, session: &mut Session, room: &str, input: &str) -> (outcome: Outcome)
        requires
            old(self).wf(),
            old(self)@.registry.has(old(session)@.client.username),
            room@ == old(self)@.room_of(old(session)@.client.username),
        ensures
            final(self).wf(),
            (StepView { coordinator: final(self)@, session: final(session)@, outcome: outcome@ })
                == old(self)@.step_signed_in(old(session)@, input@),
    {
        match classify(input) {
            Input::Closed => {
                self.release(session.client.username.as_str());
                session.close();
                Outcome::silent()
            },
            Input::Directive(command) => self.command_step(session, command),
            Input::Private => Outcome::replying(
                lines2(String::from_str("not implemented\n"), String::from_str("> ")),
            ),
            Input::Chat => {
                let deliveries = self.broadcast(room, session.client.username.as_str(), input);
                Outcome { replies: lines1(String::from_str("> ")), deliveries, evicted: None }
            },
        }
    }

    /// Takes one input line of `session` and moves the session on. The empty
    /// line stands for a peer that has closed. What is to be written, to the
    /// session itself and to others, is handed back; nothing is written here.
    pub fn handle_input(&mut self, session: &mut Session, input: &str) -> (outcome: Outcome)
        requires
            old(self).wf(),
        ensures
            final(self).wf(),
            (StepView { coordinator: final(self)@, session: final(session)@, outcome: outcome@ })
                == old(self)@.step(old(session)@, input@),
    {
        if session.state.mark_disconnected {
            return Outcome::silent();
        }
        if !session.state.is_logged_in {
            return self.signed_out_step(session, input);
        }
        match self.registry().lookup(session.client.username.as_str()) {
            Some(held) => {
                if str_eq(held.client.address.as_str(), session.client.address.as_str()) {
                    let room = held.state.current_room.unwrap();
                    self.signed_in_step(session, room.as_str(), input)
                } else {
                    session.close();
                    Outcome::silent()
                }
            },
            None => {
                session.close();
                Outcome::silent()
            },
        }
    }

    /// Terminates `session` after its connection has closed or failed, and
    /// releases what it held: the step for the empty line.
    pub fn handle_closed(&mut self, session: &mut Session) -> (outcome: Outcome)
        requires
            old(self).wf(),
        ensures
            final(self).wf(),
            (StepView { coordinator: final(self)@, session: final(session)@, outcome: outcome@ })
                == old(self)@.step(old(session)@, Seq::empty()),
    {
        proof {
            reveal_strlit("");
        }
        self.handle_input(session, "")
    }

    /// Records that writing `delivery` has failed: the recipient's session is
    /// torn down where the connection that the delivery went to still holds
    /// the recipient's slot. Tells whether a session was torn down.
    pub fn delivery_failed(&mut self, delivery: &Delivery) -> (torn_down: bool)
        requires
            old(self).wf(),
        ensures
            final(self).wf(),
            final(self)@ == old(self)@.after_failed_delivery(
                delivery@.recipient,
                delivery@.address,
            ),
            torn_down == old(self)@.owns(
                ClientView { address: delivery@.address, username: delivery@.recipient },
            ),
    {
        match self.registry().lookup(delivery.recipient.as_str()) {
            Some(held) => {
                if str_eq(held.client.address.as_str(), delivery.address.as_str()) {
                    self.release(delivery.recipient.as_str());
                    true
                } else {
                    false
                }
            },
            None => false,
        }
    }
}

impl CoordinatorView {
    /// Whether a session that says it is signed in holds the slot of its
    /// name, with the standing that the slot records.
    pub open spec fn matches_slot(self, session: SessionView) -> bool {
        session.phase() is Authenticated ==> self.owns(session.client) && self.registry.get(
            session.client.username,
        ).state == session.state
    }

    /// A session that matches its slot still does after any step. With the
    /// coordinator valid, the room that the session names as its current one
    /// is then the one room that lists its identity.
    pub proof fn law_session_matches_slot(self, session: SessionView, input: Seq<char>)
        requires
            self.valid(),
            self.matches_slot(session),
        ensures
            self.step(session, input).coordinator.matches_slot(self.step(session, input).session),
            self.step(session, input).session.phase() matches Phase::Authenticated { room }
                ==> self.step(session, input).coordinator.rooms.sole_room(
                self.step(session, input).session.client.username,
                room,
            ),
    {
        let after = self.step(session, input);
        let identity = session.client.username;
        self.law_step_keeps_valid(session, input);
        match session.phase() {
            Phase::Terminated => {},
            Phase::Unauthenticated => {
                if let PromptView::Password { sign_up, username } = session.prompt {
                    self.lemma_step_credentials(session, sign_up, username, input);
                }
            },
            Phase::Authenticated { .. } => {
                if let InputView::Directive(CommandView::SwitchRoom { name }) = input_of(input) {
                    self.lemma_after_switch(identity, name);
                    self.registry.lemma_after_register(
                        identity,
                        SessionRefView {
                            client: self.registry.get(identity).client,
                            state: ClientStateView::placed(name),
                        },
                    );
                }
            },
        }
        if after.session.phase() is Authenticated {
            after.coordinator.law_one_room(after.session.client.username);
        }
    }

    /// A sign-in with a wrong password is refused with the answer that the
    /// password is incorrect: the session stays signed out, and the store,
    /// the registry and the rooms stay as they were.
    pub proof fn law_wrong_password_stays_out(
        self,
        session: SessionView,
        username: Seq<char>,
        password: Seq<char>,
    )
        requires
            session.phase() is Unauthenticated,
            session.prompt == (PromptView::Password { sign_up: false, username }),
            password.len() > 0,
            self.db.has_user(username),
            self.db.user(username).password != password,
        ensures
            self.step(session, password).coordinator == self,
            self.step(session, password).session.phase() is Unauthenticated,
            self.step(session, password).session.state == session.state,
            self.step(session, password).outcome == OutcomeView::replying(
                seq!["Incorrect password."@ + "\n"@],
            ),
    {
    }

    /// A sign-in that succeeds gives the slot of the name to the new session,
    /// places it in `main` and in no other room, and hands back the client of
    /// the session that held the slot before, if there was one.
    pub proof fn law_last_sign_in_wins(
        self,
        session: SessionView,
        sign_up: bool,
        username: Seq<char>,
        password: Seq<char>,
    )
        requires
            self.valid(),
            session.phase() is Unauthenticated,
            session.prompt == (PromptView::Password { sign_up, username }),
            password.len() > 0,
            self.step(session, password).session.phase() is Authenticated,
        ensures
            self.step(session, password).coordinator.registry.lookup(username) == Some(
                SessionRefView {
                    client: ClientView { address: session.client.address, username },
                    state: ClientStateView::placed("main"@),
                },
            ),
            self.step(session, password).coordinator.rooms.sole_room(username, "main"@),
            self.step(session, password).outcome.evicted == client_of(
                self.registry.lookup(username),
            ),
    {
        self.lemma_step_credentials(session, sign_up, username, password);
    }

    /// Leaving releases everything: after a session that holds its slot has
    /// closed, quit or disconnected, its identity holds no slot and is in no
    /// room; and unless it only quit, the session is terminated.
    pub proof fn law_leaving_releases(self, session: SessionView, input: Seq<char>)
        requires
            self.valid(),
            session.phase() is Authenticated,
            self.owns(session.client),
            input_of(input) is Closed || input_of(input) == InputView::Directive(CommandView::Quit)
                || input_of(input) == InputView::Directive(CommandView::Disconnect),
        ensures
            !self.step(session, input).coordinator.registry.has(session.client.username),
            forall|r: Seq<char>| !#[trigger] self.step(session, input).coordinator.rooms.is_member(
                r,
                session.client.username,
            ),
            input_of(input) != InputView::Directive(CommandView::Quit) ==> self.step(
                session,
                input,
            ).session.phase() is Terminated,
            input_of(input) == InputView::Directive(CommandView::Quit) ==> self.step(
                session,
                input,
            ).session.phase() is Unauthenticated,
    {
        let identity = session.client.username;
        self.lemma_after_release(identity);
        self.db.lemma_after_logout(identity);
        self.lemma_with_db(self.db.after_logout(identity));
        self.with_db(self.db.after_logout(identity)).lemma_after_release(identity);
    }

    /// A terminated session stays terminated: no input changes it or the
    /// coordinator, and nothing is written.
    pub proof fn law_terminated_is_final(self, session: SessionView, input: Seq<char>)
        requires
            session.phase() is Terminated,
        ensures
            self.step(session, input) == (StepView {
                coordinator: self,
                session,
                outcome: OutcomeView::silent(),
            }),
    {
    }

    /// What a chat line does: the coordinator and the session stay as they
    /// are, the sender is prompted again, and the line goes exactly once to
    /// every other member of the sender's room and to nobody else.
    pub proof fn law_chat_line_fan_out(self, session: SessionView, input: Seq<char>, who: Seq<char>)
        requires
            self.valid(),
            session.phase() is Authenticated,
            self.owns(session.client),
            input_of(input) is Chat,
        ensures
            self.step(session, input).coordinator == self,
            self.step(session, input).session == session,
            self.step(session, input).outcome.replies == seq![ready()],
            copies(self.step(session, input).outcome.deliveries, who) == if who
                != session.client.username && self.rooms.is_member(
                self.room_of(session.client.username),
                who,
            ) {
                1nat
            } else {
                0nat
            },
    {
        self.law_broadcast_fan_out(
            self.room_of(session.client.username),
            session.client.username,
            input,
            who,
        );
    }
}

} // verus!
