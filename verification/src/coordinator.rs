//! The coordinator: the credential store, the session registry and the room
//! directory held together, so that every signed-in identity stands in
//! exactly one room.

use vstd::prelude::*;
use vstd::string::*;
use crate::client::{Client, ClientState, ClientStateView, ClientView};
use crate::database::{Database, DatabaseView};
use crate::directory::{DirectoryView, RoomDirectory, RoomError};
use crate::room::RoomView;
use crate::registry::{RegistryView, SessionRef, SessionRefView, SessionRegistry};
use crate::router::{copies, delivery_views, law_fan_out, route, routed, Delivery, DeliveryView};
use crate::text::outcome_text;

verus! {

/// The coordinator as plain values.
pub struct CoordinatorView {
    pub db: DatabaseView,
    pub registry: RegistryView,
    pub rooms: DirectoryView,
}

impl CoordinatorView {
    /// The coordinator at its start: no account, no session, and the empty
    /// room `main`.
    pub open spec fn initial() -> CoordinatorView {
        CoordinatorView {
            db: DatabaseView { users: Seq::empty(), rooms: seq!["main"@] },
            registry: RegistryView { slots: Seq::empty() },
            rooms: DirectoryView {
                rooms: seq![RoomView { name: "main"@, members: Seq::empty() }],
            },
        }
    }

    /// Whether the registered session of `identity` bears that name, is
    /// signed in and open, and stands in a room that lists the identity.
    pub open spec fn placed(self, identity: Seq<char>) -> bool {
        let s = self.registry.get(identity);
        &&& s.client.username == identity
        &&& s.state.is_logged_in
        &&& !s.state.mark_disconnected
        &&& s.state.current_room matches Some(r) && self.rooms.is_member(r, identity)
    }

    /// The three parts are valid, every registered identity is placed, and
    /// every member of a room is registered as standing in that room.
    pub open spec fn valid(self) -> bool {
        &&& self.db.valid()
        &&& self.registry.valid()
        &&& self.rooms.valid()
        &&& forall|id: Seq<char>| #[trigger] self.registry.has(id) ==> self.placed(id)
        &&& forall|r: Seq<char>, id: Seq<char>| #[trigger]
            self.rooms.is_member(r, id) ==> self.registry.has(id) && self.registry.get(
                id,
            ).state.current_room == Some(r)
    }

    /// The room in which the registered session of `identity` stands.
    pub open spec fn room_of(self, identity: Seq<char>) -> Seq<char> {
        self.registry.get(identity).state.current_room->0
    }

    /// Whether the slot of the peer's name is held by the peer's connection.
    pub open spec fn owns(self, client: ClientView) -> bool {
        self.registry.has(client.username) && self.registry.get(client.username).client.address
            == client.address
    }

    /// The coordinator after the slot and the membership of `identity` are
    /// released.
    pub open spec fn after_release(self, identity: Seq<char>) -> CoordinatorView {
        if self.registry.has(identity) {
            CoordinatorView {
                db: self.db,
                registry: self.registry.after_unregister(identity),
                rooms: self.rooms.after_leave(self.room_of(identity), identity),
            }
        } else {
            self
        }
    }

    /// The coordinator after `client` has signed in under its name: a session
    /// that held the name before loses its slot and its membership, and the
    /// client takes the slot and stands in `main`.
    pub open spec fn after_enter(self, client: ClientView) -> CoordinatorView {
        let vacated = if self.registry.has(client.username) {
            self.rooms.after_leave(self.room_of(client.username), client.username)
        } else {
            self.rooms
        };
        CoordinatorView {
            db: self.db,
            registry: self.registry.after_register(
                client.username,
                SessionRefView { client, state: ClientStateView::placed("main"@) },
            ),
            rooms: vacated.after_join("main"@, client.username),
        }
    }

    /// The coordinator after the registered `identity` has asked to stand in
    /// the room `to`: it is moved there, or nothing changes where `to` is no
    /// room.
    pub open spec fn after_switch(self, identity: Seq<char>, to: Seq<char>) -> CoordinatorView {
        if self.rooms.has_room(to) {
            CoordinatorView {
                db: self.db,
                registry: self.registry.after_register(
                    identity,
                    SessionRefView {
                        client: self.registry.get(identity).client,
                        state: ClientStateView::placed(to),
                    },
                ),
                rooms: self.rooms.after_move(identity, self.room_of(identity), to),
            }
        } else {
            self
        }
    }

    /// The deliveries owed for the line `text`, sent by `sender` in `room`.
    pub open spec fn broadcast(self, room: Seq<char>, sender: Seq<char>, text: Seq<char>) -> Seq<
        DeliveryView,
    > {
        routed(self.registry, self.rooms.members_of(room), room, sender, text)
    }

    /// Every signed-in identity stands in exactly one room, the room that its
    /// session names as the current one.
    pub proof fn law_one_room(self, identity: Seq<char>)
        requires
            self.valid(),
            self.registry.has(identity),
        ensures
            self.registry.get(identity).state.is_logged_in,
            self.registry.get(identity).state.current_room == Some(self.room_of(identity)),
            self.rooms.sole_room(identity, self.room_of(identity)),
    {
    }

    /// Releasing an identity keeps the coordinator valid, and afterwards the
    /// identity holds no slot and is in no room.
    pub proof fn lemma_after_release(self, identity: Seq<char>)
        requires
            self.valid(),
        ensures
            self.after_release(identity).valid(),
            !self.after_release(identity).registry.has(identity),
            forall|r: Seq<char>| !#[trigger] self.after_release(identity).rooms.is_member(
                r,
                identity,
            ),
    {
        let after = self.after_release(identity);
        if self.registry.has(identity) {
            let room = self.room_of(identity);
            self.registry.lemma_after_unregister(identity);
            self.rooms.lemma_after_leave(room, identity);
            assert forall|id: Seq<char>| #[trigger] after.registry.has(id) implies after.placed(
                id,
            ) by {
                assert(after.registry.lookup(id) == self.registry.lookup(id));
                assert(self.rooms.is_member(self.room_of(id), id));
            }
            assert forall|r: Seq<char>, id: Seq<char>| #[trigger]
                after.rooms.is_member(r, id) implies after.registry.has(id) && after.registry.get(
                id,
            ).state.current_room == Some(r) by {
                assert(after.registry.lookup(id) == if id == identity {
                    None
                } else {
                    self.registry.lookup(id)
                });
            }
        }
    }

    /// Releasing is idempotent: a second release of the same identity changes
    /// nothing.
    pub proof fn law_release_once(self, identity: Seq<char>)
        requires
            self.valid(),
        ensures
            self.after_release(identity).after_release(identity) == self.after_release(identity),
    {
        self.lemma_after_release(identity);
    }

    /// Signing in keeps the coordinator valid, and afterwards the client
    /// holds the slot of its name and stands in `main` and in no other room.
    pub proof fn lemma_after_enter(self, client: ClientView)
        requires
            self.valid(),
        ensures
            self.after_enter(client).valid(),
            self.after_enter(client).registry.lookup(client.username) == Some(
                SessionRefView { client, state: ClientStateView::placed("main"@) },
            ),
            self.after_enter(client).rooms.sole_room(client.username, "main"@),
    {
        let identity = client.username;
        let after = self.after_enter(client);
        let session = SessionRefView { client, state: ClientStateView::placed("main"@) };
        let vacated = if self.registry.has(identity) {
            self.rooms.after_leave(self.room_of(identity), identity)
        } else {
            self.rooms
        };
        if self.registry.has(identity) {
            self.rooms.lemma_after_leave(self.room_of(identity), identity);
        }
        vacated.lemma_after_join("main"@, identity);
        self.registry.lemma_after_register(identity, session);
        assert forall|r: Seq<char>, id: Seq<char>| #[trigger]
            after.rooms.is_member(r, id) implies after.registry.has(id) && after.registry.get(
            id,
        ).state.current_room == Some(r) by {
            assert(after.registry.lookup(id) == if id == identity {
                Some(session)
            } else {
                self.registry.lookup(id)
            });
        }
    }

    /// A switch keeps the coordinator valid, and afterwards the identity
    /// stands in exactly one room: `to` where that room exists, and its old
    /// room where it does not.
    pub proof fn lemma_after_switch(self, identity: Seq<char>, to: Seq<char>)
        requires
            self.valid(),
            self.registry.has(identity),
        ensures
            self.after_switch(identity, to).valid(),
            self.after_switch(identity, to).registry.has(identity),
            self.after_switch(identity, to).room_of(identity) == if self.rooms.has_room(to) {
                to
            } else {
                self.room_of(identity)
            },
    {
        let after = self.after_switch(identity, to);
        if self.rooms.has_room(to) {
            let from = self.room_of(identity);
            let session = SessionRefView {
                client: self.registry.get(identity).client,
                state: ClientStateView::placed(to),
            };
            self.rooms.lemma_after_move(identity, from, to);
            self.registry.lemma_after_register(identity, session);
            assert forall|r: Seq<char>, id: Seq<char>| #[trigger]
                after.rooms.is_member(r, id) implies after.registry.has(id) && after.registry.get(
                id,
            ).state.current_room == Some(r) by {
                assert(after.registry.lookup(id) == if id == identity {
                    Some(session)
                } else {
                    self.registry.lookup(id)
                });
            }
        }
    }

    /// Creating a room keeps the coordinator valid.
    pub proof fn lemma_after_create(self, name: Seq<char>)
        requires
            self.valid(),
        ensures
            (CoordinatorView {
                db: self.db,
                registry: self.registry,
                rooms: self.rooms.after_create(name),
            }).valid(),
    {
        let after = CoordinatorView {
            db: self.db,
            registry: self.registry,
            rooms: self.rooms.after_create(name),
        };
        self.rooms.lemma_after_create(name);
        assert forall|r: Seq<char>, id: Seq<char>| #[trigger]
            after.rooms.is_member(r, id) implies after.registry.has(id) && after.registry.get(
            id,
        ).state.current_room == Some(r) by {
            assert(self.rooms.is_member(r, id));
        }
    }

    /// Fan-out in a valid coordinator: a line sent in `room` reaches every
    /// member of that room other than the sender exactly once, and reaches
    /// nobody else: not the sender, and no identity that stands in another
    /// room or in none.
    pub proof fn law_broadcast_fan_out(
        self,
        room: Seq<char>,
        sender: Seq<char>,
        text: Seq<char>,
        who: Seq<char>,
    )
        requires
            self.valid(),
        ensures
            copies(self.broadcast(room, sender, text), who) == if who != sender
                && self.rooms.is_member(room, who) {
                1nat
            } else {
                0nat
            },
    {
        let members = self.rooms.members_of(room);
        self.rooms.lemma_members_distinct(room);
        law_fan_out(self.registry, members, room, sender, text, who);
    }
}

/// The shared state of the chat service.
pub struct Coordinator {
    db: Database,
    registry: SessionRegistry,
    rooms: RoomDirectory,
}

impl View for Coordinator {
    type V = CoordinatorView;

    closed spec fn view(&self) -> CoordinatorView {
        CoordinatorView { db: self.db@, registry: self.registry@, rooms: self.rooms@ }
    }
}

/// The client of an optional session reference.
pub open spec fn client_of(session: Option<SessionRefView>) -> Option<ClientView> {
    match session {
        Some(s) => Some(s.client),
        None => None,
    }
}

/// The view of an optional client.
pub open spec fn opt_client(client: Option<Client>) -> Option<ClientView> {
    match client {
        Some(c) => Some(c@),
        None => None,
    }
}

impl Coordinator {
    /// The invariant of the coordinator.
    pub open spec fn wf(&self) -> bool {
        self@.valid()
    }

    /// A coordinator without accounts or sessions, with the empty room
    /// `main`.
    pub fn new() -> (r: Coordinator)
        ensures
            r.wf(),
            r@ == CoordinatorView::initial(),
    {
        let r = Coordinator {
            db: Database::new(),
            registry: SessionRegistry::new(),
            rooms: RoomDirectory::new(),
        };
        r
    }

    /// The credential store.
    pub fn database(&self) -> (r: &Database)
        ensures
            r@ == self@.db,
    {
        &self.db
    }

    /// The session registry.
    pub fn registry(&self) -> (r: &SessionRegistry)
        ensures
            r@ == self@.registry,
    {
        &self.registry
    }

    /// The room directory.
    pub fn rooms(&self) -> (r: &RoomDirectory)
        ensures
            r@ == self@.rooms,
    {
        &self.rooms
    }

    /// Registers an account in the credential store.
    pub(crate) fn sign_up(&mut self, username: &str, password: &str) -> (r: Result<String, String>)
        requires
            old(self).wf(),
        ensures
            final(self).wf(),
            final(self)@ == (CoordinatorView {
                db: old(self)@.db.after_register(username@, password@),
                registry: old(self)@.registry,
                rooms: old(self)@.rooms,
            }),
            outcome_text(r) == old(self)@.db.register_outcome(username@),
    {
        self.db.register(username, password)
    }

    /// Checks a password against the credential store.
    pub(crate) fn sign_in(&mut self, username: &str, password: &str) -> (r: Result<String, String>)
        requires
            old(self).wf(),
        ensures
            final(self).wf(),
            final(self)@ == (CoordinatorView {
                db: old(self)@.db.after_login(username@, password@),
                registry: old(self)@.registry,
                rooms: old(self)@.rooms,
            }),
            outcome_text(r) == old(self)@.db.login_outcome(username@, password@),
    {
        self.db.login(username, password)
    }

    /// Marks an account as signed out in the credential store.
    pub(crate) fn sign_out(&mut self, username: &str)
        requires
            old(self).wf(),
        ensures
            final(self).wf(),
            final(self)@ == (CoordinatorView {
                db: old(self)@.db.after_logout(username@),
                registry: old(self)@.registry,
                rooms: old(self)@.rooms,
            }),
    {
        self.db.logout(username)
    }

    /// Creates a room.
    pub(crate) fn create_room(&mut self, name: &str) -> (r: Result<(), RoomError>)
        requires
            old(self).wf(),
        ensures
            final(self).wf(),
            final(self)@ == (CoordinatorView {
                db: old(self)@.db,
                registry: old(self)@.registry,
                rooms: old(self)@.rooms.after_create(name@),
            }),
            r == old(self)@.rooms.create_outcome(name@),
    {
        proof {
            old(self)@.lemma_after_create(name@);
        }
        self.rooms.create_room(name)
    }

    /// Releases the slot and the membership of `identity`, if it holds any.
    pub(crate) fn release(&mut self, identity: &str)
        requires
            old(self).wf(),
        ensures
            final(self).wf(),
            final(self)@ == old(self)@.after_release(identity@),
    {
        proof {
            old(self)@.lemma_after_release(identity@);
        }
        match self.registry.lookup(identity) {
            Some(session) => {
                let room = session.state.current_room.unwrap();
                self.rooms.leave(room.as_str(), identity);
                self.registry.unregister(identity);
            },
            None => {},
        }
    }

    /// Gives `client` the slot of its name and places it in `main`. A session
    /// that held the name before is evicted: it loses its membership, and its
    /// client is handed back.
    pub(crate) fn enter(&mut self, client: Client) -> (evicted: Option<Client>)
        requires
            old(self).wf(),
        ensures
            final(self).wf(),
            final(self)@ == old(self)@.after_enter(client@),
            opt_client(evicted) == client_of(old(self)@.registry.lookup(client@.username)),
    {
        proof {
            old(self)@.lemma_after_enter(client@);
        }
        let identity = client.username.clone();
        match self.registry.lookup(identity.as_str()) {
            Some(previous) => {
                let room = previous.state.current_room.unwrap();
                self.rooms.leave(room.as_str(), identity.as_str());
            },
            None => {},
        }
        let session = SessionRef { client, state: ClientState::placed("main") };
        let evicted = self.registry.register(identity.as_str(), session);
        let _joined = self.rooms.join("main", identity.as_str());
        match evicted {
            Some(e) => Some(e.client),
            None => None,
        }
    }

    /// Moves the registered `identity` into the room `to`. Fails, and changes
    /// nothing, where `to` is no room.
    pub(crate) fn switch_room(&mut self, identity: &str, to: &str) -> (r: Result<(), RoomError>)
        requires
            old(self).wf(),
            old(self)@.registry.has(identity@),
        ensures
            final(self).wf(),
            final(self)@ == old(self)@.after_switch(identity@, to@),
            r == if old(self)@.rooms.has_room(to@) {
                Ok::<(), RoomError>(())
            } else {
                Err::<(), RoomError>(RoomError::RoomNotFound)
            },
    {
        proof {
            old(self)@.lemma_after_switch(identity@, to@);
        }
        let session = self.registry.lookup(identity).unwrap();
        let from = session.state.current_room.unwrap();
        match self.rooms.move_member(identity, from.as_str(), to) {
            Ok(_) => {
                let moved = SessionRef { client: session.client, state: ClientState::placed(to) };
                let _previous = self.registry.register(identity, moved);
                Ok(())
            },
            Err(e) => Err(e),
        }
    }

    /// The deliveries owed for the line `text`, sent by `sender` in `room`:
    /// one for each member of the room, as it is now, other than the sender.
    /// None where no such room exists.
    pub fn broadcast(&self, room: &str, sender: &str, text: &str) -> (r: Vec<Delivery>)
        requires
            self.wf(),
        ensures
            delivery_views(r@) == self@.broadcast(room@, sender@, text@),
    {
        let snapshot = self.rooms.members_of(room);
        route(&snapshot, &self.registry, room, sender, text)
    }
}

} // verus!
