//! The room directory: every room by name, in the order of creation, with
//! the room `main` always present.

use vstd::prelude::*;
use vstd::string::*;
use crate::room::{lemma_with_member, lemma_without_member, with_member, without_member, Room, RoomView};
use crate::text::{is_space, is_space_char, chars_of, str_eq, texts};

verus! {

/// Why a directory operation was refused.
#[derive(Debug, Clone, Copy, PartialEq, Eq, Structural)]
pub enum RoomError {
    /// A room of that name exists.
    AlreadyExists,
    /// No room of that name exists.
    RoomNotFound,
    /// The name belongs to the permanent room.
    ReservedRoomName,
    /// The name is empty or white space only.
    EmptyArgument,
}

impl RoomError {
    /// The reply line that reports the refusal.
    pub open spec fn text(self) -> Seq<char> {
        match self {
            RoomError::AlreadyExists => "Room already exists."@,
            RoomError::RoomNotFound => "Room does not exist."@,
            RoomError::ReservedRoomName => "Room name is reserved."@,
            RoomError::EmptyArgument => "Room name cannot be empty."@,
        }
    }

    /// The reply line that reports the refusal.
    pub fn message(&self) -> (r: String)
        ensures
            r@ == self.text(),
    {
        match self {
            RoomError::AlreadyExists => String::from_str("Room already exists."),
            RoomError::RoomNotFound => String::from_str("Room does not exist."),
            RoomError::ReservedRoomName => String::from_str("Room name is reserved."),
            RoomError::EmptyArgument => String::from_str("Room name cannot be empty."),
        }
    }
}

/// Whether every character of `s` is white space; so for the empty text.
pub open spec fn is_blank(s: Seq<char>) -> bool {
    forall|i: int| 0 <= i < s.len() ==> is_space(#[trigger] s[i])
}

/// The directory as plain values.
pub struct DirectoryView {
    pub rooms: Seq<RoomView>,
}

impl DirectoryView {
    /// Whether a room named `name` exists.
    pub open spec fn has_room(self, name: Seq<char>) -> bool {
        exists|i: int| 0 <= i < self.rooms.len() && (#[trigger] self.rooms[i]).name == name
    }

    /// The place of the room named `name`.
    pub open spec fn position(self, name: Seq<char>) -> int {
        choose|i: int| 0 <= i < self.rooms.len() && (#[trigger] self.rooms[i]).name == name
    }

    /// The members of the room named `name`; none where no such room exists.
    pub open spec fn members_of(self, name: Seq<char>) -> Seq<Seq<char>> {
        if self.has_room(name) {
            self.rooms[self.position(name)].members
        } else {
            Seq::empty()
        }
    }

    /// The room names in the order of creation.
    pub open spec fn names(self) -> Seq<Seq<char>> {
        Seq::new(self.rooms.len(), |i: int| self.rooms[i].name)
    }

    /// No two rooms share a name, the first room is `main`, and no room lists
    /// an identity twice.
    pub open spec fn valid(self) -> bool {
        &&& self.rooms.len() > 0
        &&& self.rooms[0].name == "main"@
        &&& forall|i: int, j: int|
            0 <= i < j < self.rooms.len() ==> (#[trigger] self.rooms[i]).name != (
            #[trigger] self.rooms[j]).name
        &&& forall|i: int| 0 <= i < self.rooms.len() ==> (#[trigger] self.rooms[i]).members.no_duplicates()
    }

    /// Whether `identity` is a member of the room named `room`.
    pub open spec fn is_member(self, room: Seq<char>, identity: Seq<char>) -> bool {
        self.members_of(room).contains(identity)
    }

    /// The directory with `members` as the members of the room named `name`.
    pub open spec fn with_members(self, name: Seq<char>, members: Seq<Seq<char>>) -> DirectoryView {
        if self.has_room(name) {
            DirectoryView {
                rooms: self.rooms.update(self.position(name), RoomView { name, members }),
            }
        } else {
            self
        }
    }

    /// What `create_room(name)` answers.
    pub open spec fn create_outcome(self, name: Seq<char>) -> Result<(), RoomError> {
        if is_blank(name) {
            Err(RoomError::EmptyArgument)
        } else if name == "main"@ {
            Err(RoomError::ReservedRoomName)
        } else if self.has_room(name) {
            Err(RoomError::AlreadyExists)
        } else {
            Ok(())
        }
    }

    /// The directory after `create_room(name)`.
    pub open spec fn after_create(self, name: Seq<char>) -> DirectoryView {
        if self.create_outcome(name) is Ok {
            DirectoryView { rooms: self.rooms.push(RoomView { name, members: Seq::empty() }) }
        } else {
            self
        }
    }

    /// The directory after `join(room, identity)`.
    pub open spec fn after_join(self, room: Seq<char>, identity: Seq<char>) -> DirectoryView {
        self.with_members(room, with_member(self.members_of(room), identity))
    }

    /// The directory after `leave(room, identity)`.
    pub open spec fn after_leave(self, room: Seq<char>, identity: Seq<char>) -> DirectoryView {
        self.with_members(room, without_member(self.members_of(room), identity))
    }

    /// The directory after `move_member(identity, from, to)`: the identity
    /// leaves `from` and joins `to`, or nothing changes where `to` is no room.
    pub open spec fn after_move(self, identity: Seq<char>, from: Seq<char>, to: Seq<char>) -> DirectoryView {
        if self.has_room(to) {
            self.after_leave(from, identity).after_join(to, identity)
        } else {
            self
        }
    }

    /// Replacing the members of one room leaves every name and every other
    /// room as it was.
    pub proof fn lemma_with_members(self, name: Seq<char>, members: Seq<Seq<char>>)
        requires
            self.valid(),
            members.no_duplicates(),
        ensures
            self.with_members(name, members).valid(),
            self.with_members(name, members).names() == self.names(),
            forall|r: Seq<char>| #[trigger]
                self.with_members(name, members).has_room(r) == self.has_room(r),
            forall|r: Seq<char>| #[trigger]
                self.with_members(name, members).members_of(r) == if r == name && self.has_room(
                    name,
                ) {
                    members
                } else {
                    self.members_of(r)
                },
    {
        let after = self.with_members(name, members);
        if self.has_room(name) {
            assert forall|r: Seq<char>| #[trigger] after.has_room(r) == self.has_room(r) by {
                if self.has_room(r) {
                    let k = self.position(r);
                    assert(after.rooms[k].name == r);
                }
            }
        }
    }

    /// Creating a room adds an empty room at the end and leaves the others as
    /// they were.
    pub proof fn lemma_after_create(self, name: Seq<char>)
        requires
            self.valid(),
        ensures
            self.after_create(name).valid(),
            forall|r: Seq<char>| #[trigger]
                self.after_create(name).has_room(r) == (self.has_room(r) || (r == name
                    && self.create_outcome(name) is Ok)),
            forall|r: Seq<char>| #[trigger]
                self.after_create(name).members_of(r) == self.members_of(r),
    {
        let after = self.after_create(name);
        if self.create_outcome(name) is Ok {
            let n = self.rooms.len() as int;
            assert(after.rooms[n].name == name);
            assert forall|r: Seq<char>| #[trigger]
                after.has_room(r) == (self.has_room(r) || r == name) by {
                if self.has_room(r) {
                    assert(after.rooms[self.position(r)].name == r);
                }
            }
        }
    }

    /// Whether `identity` is a member of the room named `room` and of no other
    /// room.
    pub open spec fn sole_room(self, identity: Seq<char>, room: Seq<char>) -> bool {
        &&& self.is_member(room, identity)
        &&& forall|r: Seq<char>| r != room ==> !#[trigger] self.is_member(r, identity)
    }

    /// Joining adds one membership and touches no other.
    pub proof fn lemma_after_join(self, room: Seq<char>, identity: Seq<char>)
        requires
            self.valid(),
        ensures
            self.after_join(room, identity).valid(),
            self.after_join(room, identity).names() == self.names(),
            forall|r: Seq<char>| #[trigger]
                self.after_join(room, identity).has_room(r) == self.has_room(r),
            forall|r: Seq<char>, m: Seq<char>| #[trigger]
                self.after_join(room, identity).is_member(r, m) <==> (self.is_member(r, m) || (r
                    == room && m == identity && self.has_room(room))),
    {
        let members = with_member(self.members_of(room), identity);
        self.lemma_members_distinct(room);
        lemma_with_member(self.members_of(room), identity);
        self.lemma_with_members(room, members);
    }

    /// Leaving removes one membership and touches no other.
    pub proof fn lemma_after_leave(self, room: Seq<char>, identity: Seq<char>)
        requires
            self.valid(),
        ensures
            self.after_leave(room, identity).valid(),
            self.after_leave(room, identity).names() == self.names(),
            forall|r: Seq<char>| #[trigger]
                self.after_leave(room, identity).has_room(r) == self.has_room(r),
            forall|r: Seq<char>, m: Seq<char>| #[trigger]
                self.after_leave(room, identity).is_member(r, m) <==> (self.is_member(r, m) && !(r
                    == room && m == identity)),
    {
        let members = without_member(self.members_of(room), identity);
        self.lemma_members_distinct(room);
        lemma_without_member(self.members_of(room), identity);
        self.lemma_with_members(room, members);
    }

    /// A move takes the identity out of `from` and puts it into `to`, and
    /// touches no other membership; where `to` is no room it changes nothing.
    pub proof fn lemma_after_move(self, identity: Seq<char>, from: Seq<char>, to: Seq<char>)
        requires
            self.valid(),
        ensures
            self.after_move(identity, from, to).valid(),
            self.after_move(identity, from, to).names() == self.names(),
            forall|r: Seq<char>| #[trigger]
                self.after_move(identity, from, to).has_room(r) == self.has_room(r),
            forall|r: Seq<char>, m: Seq<char>| #[trigger]
                self.after_move(identity, from, to).is_member(r, m) <==> if self.has_room(to) && m
                    == identity && (r == from || r == to) {
                    r == to
                } else {
                    self.is_member(r, m)
                },
    {
        if self.has_room(to) {
            let mid = self.after_leave(from, identity);
            self.lemma_after_leave(from, identity);
            mid.lemma_after_join(to, identity);
        }
    }

    /// A move is one step: an identity that was in the room `from` and in no
    /// other is afterwards again in exactly one room, `to` where that room
    /// exists and `from` where it does not.
    pub proof fn law_move_keeps_one_room(self, identity: Seq<char>, from: Seq<char>, to: Seq<char>)
        requires
            self.valid(),
            self.sole_room(identity, from),
        ensures
            self.has_room(to) ==> self.after_move(identity, from, to).sole_room(identity, to),
            !self.has_room(to) ==> self.after_move(identity, from, to).sole_room(identity, from),
    {
        self.lemma_after_move(identity, from, to);
    }

    /// In a valid directory the members of a room occur once each.
    pub proof fn lemma_members_distinct(self, room: Seq<char>)
        requires
            self.valid(),
        ensures
            self.members_of(room).no_duplicates(),
    {
    }
}

/// The rooms in the order of their creation.
pub struct RoomDirectory {
    rooms: Vec<Room>,
}

impl View for RoomDirectory {
    type V = DirectoryView;

    closed spec fn view(&self) -> DirectoryView {
        DirectoryView { rooms: Seq::new(self.rooms@.len(), |i: int| self.rooms@[i]@) }
    }
}

impl RoomDirectory {
    /// The invariant of the directory.
    pub open spec fn wf(&self) -> bool {
        self@.valid()
    }

    /// A directory that holds the empty room `main`.
    pub fn new() -> (dir: RoomDirectory)
        ensures
            dir.wf(),
            dir@.rooms == seq![RoomView { name: "main"@, members: Seq::empty() }],
    {
        let mut rooms: Vec<Room> = Vec::new();
        rooms.push(Room::new("main"));
        RoomDirectory { rooms }
    }

    /// The place of the room named `name`, if there is one.
    fn find_room(&self, name: &str) -> (r: Option<usize>)
        requires
            self.wf(),
        ensures
            r is Some <==> self@.has_room(name@),
            r matches Some(i) ==> i < self.rooms@.len() && i == self@.position(name@),
    {
        let mut i: usize = 0;
        while i < self.rooms.len()
            invariant
                self.wf(),
                i <= self.rooms@.len(),
                forall|k: int| 0 <= k < i ==> (#[trigger] self@.rooms[k]).name != name@,
            decreases self.rooms.len() - i,
        {
            assert(self@.rooms[i as int] == self.rooms@[i as int]@);
            if str_eq(self.rooms[i].get_name(), name) {
                return Some(i);
            }
            i = i + 1;
        }
        None
    }

    /// Whether a room named `name` exists.
    pub fn room_exists(&self, name: &str) -> (r: bool)
        requires
            self.wf(),
        ensures
            r == self@.has_room(name@),
    {
        self.find_room(name).is_some()
    }

    /// Adds `identity` to the room named `room`; a member stays listed once.
    /// Fails, and changes nothing, where no such room exists.
    pub fn join(&mut self, room: &str, identity: &str) -> (r: Result<(), RoomError>)
        requires
            old(self).wf(),
        ensures
            final(self).wf(),
            final(self)@ == old(self)@.after_join(room@, identity@),
            r == if old(self)@.has_room(room@) {
                Ok::<(), RoomError>(())
            } else {
                Err::<(), RoomError>(RoomError::RoomNotFound)
            },
    {
        match self.find_room(room) {
            Some(i) => {
                self.rooms[i].add_member(identity);
                proof {
                    let before = old(self)@;
                    let members = with_member(before.members_of(room@), identity@);
                    assert(self@.rooms =~= before.with_members(room@, members).rooms);
                    lemma_with_member(before.members_of(room@), identity@);
                    before.lemma_with_members(room@, members);
                }
                Ok(())
            },
            None => Err(RoomError::RoomNotFound),
        }
    }

    /// Removes `identity` from the room named `room`. Nothing changes where
    /// no such room exists or the identity is not in it.
    pub fn leave(&mut self, room: &str, identity: &str)
        requires
            old(self).wf(),
        ensures
            final(self).wf(),
            final(self)@ == old(self)@.after_leave(room@, identity@),
    {
        match self.find_room(room) {
            Some(i) => {
                self.rooms[i].remove_member(identity);
                proof {
                    let before = old(self)@;
                    let members = without_member(before.members_of(room@), identity@);
                    assert(self@.rooms =~= before.with_members(room@, members).rooms);
                    lemma_without_member(before.members_of(room@), identity@);
                    before.lemma_with_members(room@, members);
                }
            },
            None => {},
        }
    }

    /// Moves `identity` out of the room named `from` and into the room named
    /// `to`, as one step. Fails, and changes nothing, where `to` is no room.
    pub fn move_member(&mut self, identity: &str, from: &str, to: &str) -> (r: Result<
        (),
        RoomError,
    >)
        requires
            old(self).wf(),
        ensures
            final(self).wf(),
            final(self)@ == old(self)@.after_move(identity@, from@, to@),
            r == if old(self)@.has_room(to@) {
                Ok::<(), RoomError>(())
            } else {
                Err::<(), RoomError>(RoomError::RoomNotFound)
            },
    {
        if !self.room_exists(to) {
            return Err(RoomError::RoomNotFound);
        }
        self.leave(from, identity);
        proof {
            let before = old(self)@;
            before.lemma_members_distinct(from@);
            lemma_without_member(before.members_of(from@), identity@);
            before.lemma_with_members(
                from@,
                without_member(before.members_of(from@), identity@),
            );
        }
        self.join(to, identity)
    }

    /// Whether `name` is empty or white space only.
    fn blank(name: &str) -> (r: bool)
        ensures
            r == is_blank(name@),
    {
        let chars = chars_of(name);
        let mut i: usize = 0;
        while i < chars.len()
            invariant
                chars@ == name@,
                i <= chars@.len(),
                forall|k: int| 0 <= k < i ==> is_space(#[trigger] name@[k]),
            decreases chars.len() - i,
        {
            if !is_space_char(chars[i]) {
                return false;
            }
            i = i + 1;
        }
        true
    }

    /// Creates an empty room named `name`. Refuses a name that is empty or
    /// white space only, the name `main`, and the name of an existing room,
    /// in this order; a refusal changes nothing.
    pub fn create_room(&mut self, name: &str) -> (r: Result<(), RoomError>)
        requires
            old(self).wf(),
        ensures
            final(self).wf(),
            r == old(self)@.create_outcome(name@),
            final(self)@ == old(self)@.after_create(name@),
    {
        if Self::blank(name) {
            return Err(RoomError::EmptyArgument);
        }
        if str_eq(name, "main") {
            return Err(RoomError::ReservedRoomName);
        }
        if self.room_exists(name) {
            return Err(RoomError::AlreadyExists);
        }
        self.rooms.push(Room::new(name));
        proof {
            let before = old(self)@;
            let added = RoomView { name: name@, members: Seq::empty() };
            assert(self@.rooms =~= before.rooms.push(added));
            before.lemma_after_create(name@);
        }
        Ok(())
    }

    /// A snapshot of the members of the room named `room`, in the order in
    /// which they joined; empty where no such room exists.
    pub fn members_of(&self, room: &str) -> (r: Vec<String>)
        requires
            self.wf(),
        ensures
            texts(r@) == self@.members_of(room@),
    {
        match self.find_room(room) {
            Some(i) => {
                self.rooms[i].get_members()
            },
            None => {
                let r: Vec<String> = Vec::new();
                r
            },
        }
    }

    /// The room names in the order of creation.
    pub fn list_rooms(&self) -> (r: Vec<String>)
        ensures
            texts(r@) == self@.names(),
    {
        let mut out: Vec<String> = Vec::new();
        let mut i: usize = 0;
        while i < self.rooms.len()
            invariant
                i <= self.rooms@.len(),
                out@.len() == i,
                forall|k: int| 0 <= k < i ==> (#[trigger] out@[k])@ == self@.rooms[k].name,
            decreases self.rooms.len() - i,
        {
            out.push(self.rooms[i].get_name().to_owned());
            i = i + 1;
        }
        out
    }
}

} // verus!
