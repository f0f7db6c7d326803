//! What the core knows of one connection: who the peer is and where it
//! stands.

use vstd::prelude::*;
use vstd::string::*;
use crate::text::{opt_text, str_eq};

verus! {

/// The peer of one connection: its address and, once it has signed in, its
/// name. The connection itself stays with its owner.
#[derive(Debug, Hash)]
pub struct Client {
    pub address: String,
    pub username: String,
}

/// A peer as plain values.
pub struct ClientView {
    pub address: Seq<char>,
    pub username: Seq<char>,
}

impl View for Client {
    type V = ClientView;

    open spec fn view(&self) -> ClientView {
        ClientView { address: self.address@, username: self.username@ }
    }
}

/// Where a connection stands: its room, whether it is signed in, and
/// whether it is to be closed.
#[derive(Debug)]
pub struct ClientState {
    pub current_room: Option<String>,
    pub is_logged_in: bool,
    pub mark_disconnected: bool,
}

/// A connection's standing as plain values.
pub struct ClientStateView {
    pub current_room: Option<Seq<char>>,
    pub is_logged_in: bool,
    pub mark_disconnected: bool,
}

impl View for ClientState {
    type V = ClientStateView;

    open spec fn view(&self) -> ClientStateView {
        ClientStateView {
            current_room: opt_text(self.current_room),
            is_logged_in: self.is_logged_in,
            mark_disconnected: self.mark_disconnected,
        }
    }
}

impl ClientStateView {
    /// The standing of a fresh connection.
    pub open spec fn fresh() -> ClientStateView {
        ClientStateView { current_room: None, is_logged_in: false, mark_disconnected: false }
    }

    /// The standing of a connection signed in and placed in `room`.
    pub open spec fn placed(room: Seq<char>) -> ClientStateView {
        ClientStateView { current_room: Some(room), is_logged_in: true, mark_disconnected: false }
    }

    /// The standing of a connection that is to be closed.
    pub open spec fn closed() -> ClientStateView {
        ClientStateView { current_room: None, is_logged_in: false, mark_disconnected: true }
    }
}

impl Clone for ClientState {
    fn clone(&self) -> (r: ClientState)
        ensures
            r == *self,
    {
        ClientState {
            current_room: self.current_room.clone(),
            is_logged_in: self.is_logged_in,
            mark_disconnected: self.mark_disconnected,
        }
    }
}

impl Clone for Client {
    fn clone(&self) -> (r: Client)
        ensures
            r == *self,
    {
        Client { address: self.address.clone(), username: self.username.clone() }
    }
}

impl ClientState {
    /// The standing of a connection signed in and placed in `room`.
    pub fn placed(room: &str) -> (r: ClientState)
        ensures
            r@ == ClientStateView::placed(room@),
    {
        ClientState {
            current_room: Some(room.to_owned()),
            is_logged_in: true,
            mark_disconnected: false,
        }
    }
}

impl Client {
    /// The peer at `address`, not signed in, with its fresh standing.
    pub fn new(address: &str) -> (r: (Client, ClientState))
        ensures
            r.0@ == (ClientView { address: address@, username: Seq::empty() }),
            r.1@ == ClientStateView::fresh(),
    {
        let client = Client { address: address.to_owned(), username: String::new() };
        let state = ClientState {
            current_room: None,
            is_logged_in: false,
            mark_disconnected: false,
        };
        (client, state)
    }

}

impl PartialEq for Client {
    /// Two clients are equal when they have the same address and the same
    /// name.
    fn eq(&self, other: &Client) -> (r: bool) {
        str_eq(self.address.as_str(), other.address.as_str()) && str_eq(
            self.username.as_str(),
            other.username.as_str(),
        )
    }
}

impl vstd::std_specs::cmp::PartialEqSpecImpl for Client {
    open spec fn obeys_eq_spec() -> bool {
        true
    }

    open spec fn eq_spec(&self, other: &Client) -> bool {
        self@ == other@
    }
}

impl Eq for Client {}

} // verus!
