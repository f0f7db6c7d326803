//! The credential store: accounts by name, each with a password and an
//! online flag, and the list of known room names.

use vstd::prelude::*;
use vstd::string::*;
use crate::text::{outcome_text, str_eq, texts};
use crate::user::{User, UserView};

verus! {

/// The accounts in the order of their registration, and the room names in
/// the order of their creation.
pub struct Database {
    users: Vec<User>,
    rooms: Vec<String>,
}

/// The store as plain values.
pub struct DatabaseView {
    pub users: Seq<UserView>,
    pub rooms: Seq<Seq<char>>,
}

impl DatabaseView {
    /// Whether an account named `name` is registered.
    pub open spec fn has_user(self, name: Seq<char>) -> bool {
        exists|i: int| 0 <= i < self.users.len() && (#[trigger] self.users[i]).username == name
    }

    /// The place of the account named `name`.
    pub open spec fn position(self, name: Seq<char>) -> int {
        choose|i: int| 0 <= i < self.users.len() && (#[trigger] self.users[i]).username == name
    }

    /// The account named `name`.
    pub open spec fn user(self, name: Seq<char>) -> UserView {
        self.users[self.position(name)]
    }

    /// No two accounts share a name, no two rooms share a name, and the room
    /// `main` is among the rooms.
    pub open spec fn valid(self) -> bool {
        &&& forall|i: int, j: int|
            0 <= i < j < self.users.len() ==> (#[trigger] self.users[i]).username != (
            #[trigger] self.users[j]).username
        &&& self.rooms.no_duplicates()
        &&& self.rooms.contains("main"@)
    }

    /// The store with the account at `i` signed in or out.
    pub open spec fn with_online(self, i: int, online: bool) -> DatabaseView {
        DatabaseView {
            users: self.users.update(
                i,
                UserView {
                    username: self.users[i].username,
                    password: self.users[i].password,
                    is_online: online,
                },
            ),
            rooms: self.rooms,
        }
    }

    /// The store after `register(username, password)`.
    pub open spec fn after_register(self, username: Seq<char>, password: Seq<char>) -> DatabaseView {
        if self.has_user(username) {
            self
        } else {
            DatabaseView {
                users: self.users.push(UserView { username, password, is_online: false }),
                rooms: self.rooms,
            }
        }
    }

    /// What `register(username, password)` answers.
    pub open spec fn register_outcome(self, username: Seq<char>) -> Result<Seq<char>, Seq<char>> {
        if self.has_user(username) {
            Err("User already exists"@)
        } else {
            Ok("User '"@ + username + "' registered successfully."@)
        }
    }

    /// The store after `login(username, password)`.
    pub open spec fn after_login(self, username: Seq<char>, password: Seq<char>) -> DatabaseView {
        if self.has_user(username) && self.user(username).password == password {
            self.with_online(self.position(username), true)
        } else {
            self
        }
    }

    /// What `login(username, password)` answers.
    pub open spec fn login_outcome(self, username: Seq<char>, password: Seq<char>) -> Result<
        Seq<char>,
        Seq<char>,
    > {
        if !self.has_user(username) {
            Err("User not found."@)
        } else if self.user(username).password == password {
            Ok("Welcome back, "@ + username + "!"@)
        } else {
            Err("Incorrect password."@)
        }
    }

    /// The store after `logout(username)`.
    pub open spec fn after_logout(self, username: Seq<char>) -> DatabaseView {
        if self.has_user(username) {
            self.with_online(self.position(username), false)
        } else {
            self
        }
    }

    /// The listing line of one account.
    pub open spec fn user_line(u: UserView) -> Seq<char> {
        if u.is_online {
            u.username + " online"@
        } else {
            u.username + " offline"@
        }
    }

    /// One listing line per account, in the order of registration.
    pub open spec fn user_lines(self) -> Seq<Seq<char>> {
        Seq::new(self.users.len(), |i: int| Self::user_line(self.users[i]))
    }

    /// The store after `add_room(name)`.
    pub open spec fn after_add_room(self, name: Seq<char>) -> DatabaseView {
        if self.rooms.contains(name) {
            self
        } else {
            DatabaseView { users: self.users, rooms: self.rooms.push(name) }
        }
    }

    /// What `add_room(name)` answers.
    pub open spec fn add_room_outcome(self, name: Seq<char>) -> Result<Seq<char>, Seq<char>> {
        if self.rooms.contains(name) {
            Err("Room already exists."@)
        } else {
            Ok("Room '"@ + name + "' created."@)
        }
    }
}

impl DatabaseView {
    /// In a valid store an account is found at its own place.
    pub proof fn lemma_position(self, i: int)
        requires
            self.valid(),
            0 <= i < self.users.len(),
        ensures
            self.has_user(self.users[i].username),
            self.position(self.users[i].username) == i,
    {
    }

    /// Setting an online flag keeps the store valid.
    pub proof fn lemma_with_online(self, i: int, online: bool)
        requires
            self.valid(),
            0 <= i < self.users.len(),
        ensures
            self.with_online(i, online).valid(),
    {
    }

    /// Registering keeps the store valid.
    pub proof fn lemma_after_register(self, username: Seq<char>, password: Seq<char>)
        requires
            self.valid(),
        ensures
            self.after_register(username, password).valid(),
    {
    }

    /// Signing in keeps the store valid.
    pub proof fn lemma_after_login(self, username: Seq<char>, password: Seq<char>)
        requires
            self.valid(),
        ensures
            self.after_login(username, password).valid(),
    {
        if self.has_user(username) {
            self.lemma_with_online(self.position(username), true);
        }
    }

    /// Signing out keeps the store valid.
    pub proof fn lemma_after_logout(self, username: Seq<char>)
        requires
            self.valid(),
        ensures
            self.after_logout(username).valid(),
    {
        if self.has_user(username) {
            self.lemma_with_online(self.position(username), false);
        }
    }
}

impl View for Database {
    type V = DatabaseView;

    closed spec fn view(&self) -> DatabaseView {
        DatabaseView {
            users: Seq::new(self.users@.len(), |i: int| self.users@[i]@),
            rooms: texts(self.rooms@),
        }
    }
}

impl Database {
    /// The invariant of the store.
    pub open spec fn wf(&self) -> bool {
        self@.valid()
    }

    /// An empty store that knows the room `main`.
    pub fn new() -> (db: Database)
        ensures
            db.wf(),
            db@.users == Seq::<UserView>::empty(),
            db@.rooms == seq!["main"@],
    {
        let mut rooms: Vec<String> = Vec::new();
        rooms.push(String::from_str("main"));
        let db = Database { users: Vec::new(), rooms };
        assert(db@.rooms[0] == "main"@);
        db
    }

    /// The place of the account named `username`, if there is one.
    fn find_user(&self, username: &str) -> (r: Option<usize>)
        requires
            self.wf(),
        ensures
            r is Some <==> self@.has_user(username@),
            r matches Some(i) ==> i < self.users@.len() && i == self@.position(username@)
                && self.users@[i as int]@ == self@.user(username@),
    {
        let mut i: usize = 0;
        while i < self.users.len()
            invariant
                self.wf(),
                i <= self.users@.len(),
                forall|k: int| 0 <= k < i ==> (#[trigger] self@.users[k]).username != username@,
            decreases self.users.len() - i,
        {
            if str_eq(self.users[i].username.as_str(), username) {
                proof {
                    self@.lemma_position(i as int);
                }
                return Some(i);
            }
            i = i + 1;
        }
        None
    }

    /// Registers a new account, signed out. Fails, and changes nothing, when
    /// the name is taken.
    pub fn register(&mut self, username: &str, password: &str) -> (r: Result<String, String>)
        requires
            old(self).wf(),
        ensures
            final(self).wf(),
            final(self)@ == old(self)@.after_register(username@, password@),
            outcome_text(r) == old(self)@.register_outcome(username@),
    {
        if self.find_user(username).is_some() {
            return Err(String::from_str("User already exists"));
        }
        let mut msg = String::from_str("User '");
        msg.append(username);
        msg.append("' registered successfully.");
        self.users.push(User::new(username, password));
        proof {
            let before = old(self)@;
            let added = UserView { username: username@, password: password@, is_online: false };
            assert(self@.users =~= before.users.push(added));
        }
        Ok(msg)
    }

    /// Signs the account in when the password matches. Fails, and changes
    /// nothing, when the account is unknown or the password is wrong.
    pub fn login(&mut self, username: &str, password: &str) -> (r: Result<String, String>)
        requires
            old(self).wf(),
        ensures
            final(self).wf(),
            final(self)@ == old(self)@.after_login(username@, password@),
            outcome_text(r) == old(self)@.login_outcome(username@, password@),
    {
        match self.find_user(username) {
            Some(i) => {
                if str_eq(self.users[i].password.as_str(), password) {
                    self.set_online(i, true);
                    let mut msg = String::from_str("Welcome back, ");
                    msg.append(username);
                    msg.append("!");
                    Ok(msg)
                } else {
                    Err(String::from_str("Incorrect password."))
                }
            },
            None => Err(String::from_str("User not found.")),
        }
    }

    /// Sets the online flag of the account at `i`.
    fn set_online(&mut self, i: usize, online: bool)
        requires
            old(self).wf(),
            i < old(self).users@.len(),
        ensures
            final(self).wf(),
            final(self)@ == old(self)@.with_online(i as int, online),
    {
        let ghost before = self@;
        let mut user = self.users[i].clone();
        user.is_online = online;
        self.users.set(i, user);
        proof {
            assert(self@.users =~= before.with_online(i as int, online).users);
            before.lemma_with_online(i as int, online);
        }
    }

    /// Signs the account out, if it exists.
    pub fn logout(&mut self, username: &str)
        requires
            old(self).wf(),
        ensures
            final(self).wf(),
            final(self)@ == old(self)@.after_logout(username@),
    {
        match self.find_user(username) {
            Some(i) => {
                self.set_online(i, false);
            },
            None => {},
        }
    }

    /// One line per account, `<name> online` or `<name> offline`, in the
    /// order of registration.
    pub fn list_users(&self) -> (r: Vec<String>)
        ensures
            texts(r@) == self@.user_lines(),
    {
        let mut out: Vec<String> = Vec::new();
        let mut i: usize = 0;
        while i < self.users.len()
            invariant
                i <= self.users@.len(),
                out@.len() == i,
                forall|k: int| 0 <= k < i ==> (#[trigger] out@[k])@ == DatabaseView::user_line(
                    self@.users[k],
                ),
            decreases self.users.len() - i,
        {
            let mut line = self.users[i].username.clone();
            if self.users[i].is_online {
                line.append(" online");
            } else {
                line.append(" offline");
            }
            out.push(line);
            i = i + 1;
        }
        out
    }

    /// The place of the room named `room_name`, if there is one.
    fn find_room(&self, room_name: &str) -> (r: bool)
        ensures
            r == self@.rooms.contains(room_name@),
    {
        let mut i: usize = 0;
        while i < self.rooms.len()
            invariant
                i <= self.rooms@.len(),
                forall|k: int| 0 <= k < i ==> (#[trigger] self@.rooms[k]) != room_name@,
            decreases self.rooms.len() - i,
        {
            assert(self@.rooms[i as int] == self.rooms@[i as int]@);
            if str_eq(self.rooms[i].as_str(), room_name) {
                return true;
            }
            i = i + 1;
        }
        false
    }

    /// Adds a room name. Fails, and changes nothing, when the name is known.
    pub fn add_room(&mut self, room_name: &str) -> (r: Result<String, String>)
        requires
            old(self).wf(),
        ensures
            final(self).wf(),
            final(self)@ == old(self)@.after_add_room(room_name@),
            outcome_text(r) == old(self)@.add_room_outcome(room_name@),
    {
        if self.find_room(room_name) {
            return Err(String::from_str("Room already exists."));
        }
        let mut msg = String::from_str("Room '");
        msg.append(room_name);
        msg.append("' created.");
        self.rooms.push(room_name.to_owned());
        proof {
            let before = old(self)@;
            assert(self@.rooms =~= before.rooms.push(room_name@));
            assert(self@.users =~= before.users);
            let k = choose|k: int| 0 <= k < before.rooms.len() && before.rooms[k] == "main"@;
            assert(self@.rooms[k] == "main"@);
        }
        Ok(msg)
    }

    /// Whether a room named `room_name` is known.
    pub fn room_exists(&self, room_name: &str) -> (r: bool)
        ensures
            r == self@.rooms.contains(room_name@),
    {
        self.find_room(room_name)
    }

    /// The room names in the order of their creation.
    pub fn list_rooms(&self) -> (r: Vec<String>)
        ensures
            texts(r@) == self@.rooms,
    {
        self.rooms.clone()
    }
}

/// Registering a name twice: the second call answers that the user already
/// exists, whatever password it brings, and leaves the store as the first
/// call left it.
pub proof fn law_register_twice(
    db: DatabaseView,
    username: Seq<char>,
    first_password: Seq<char>,
    second_password: Seq<char>,
)
    ensures
        db.after_register(username, first_password).register_outcome(username) == Err::<
            Seq<char>,
            Seq<char>,
        >("User already exists"@),
        db.after_register(username, first_password).after_register(username, second_password)
            == db.after_register(username, first_password),
{
    let once = db.after_register(username, first_password);
    if !db.has_user(username) {
        assert(once.users[db.users.len() as int].username == username);
    }
}

/// Signing in with a wrong password fails with the answer that the password
/// is incorrect and leaves the store, and so the online flag of every
/// account, as it was.
pub proof fn law_wrong_password(db: DatabaseView, username: Seq<char>, password: Seq<char>)
    requires
        db.has_user(username),
        db.user(username).password != password,
    ensures
        db.login_outcome(username, password) == Err::<Seq<char>, Seq<char>>(
            "Incorrect password."@,
        ),
        db.after_login(username, password) == db,
{
}

} // verus!
