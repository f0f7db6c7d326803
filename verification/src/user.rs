//! An account of the credential store.

use vstd::prelude::*;
use vstd::string::*;

verus! {

/// A registered account: its name, its password and whether it is signed in.
#[derive(Debug)]
pub struct User {
    pub username: String,
    pub password: String,
    pub is_online: bool,
}

/// An account as plain values.
pub struct UserView {
    pub username: Seq<char>,
    pub password: Seq<char>,
    pub is_online: bool,
}

impl View for User {
    type V = UserView;

    open spec fn view(&self) -> UserView {
        UserView {
            username: self.username@,
            password: self.password@,
            is_online: self.is_online,
        }
    }
}

impl Clone for User {
    fn clone(&self) -> (r: User)
        ensures
            r == *self,
    {
        User {
            username: self.username.clone(),
            password: self.password.clone(),
            is_online: self.is_online,
        }
    }
}

impl User {
    /// A new account, signed out.
    pub fn new(username: &str, password: &str) -> (user: User)
        ensures
            user@ == (UserView { username: username@, password: password@, is_online: false }),
    {
        User { username: username.to_owned(), password: password.to_owned(), is_online: false }
    }
}

} // verus!
