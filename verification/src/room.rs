//! A room: a name and the identities that are currently in it.

use vstd::prelude::*;
use vstd::string::*;
use crate::registry::SessionRegistry;
use crate::router::{delivery_views, route, routed, Delivery};
use crate::text::{str_eq, texts};

verus! {

/// The members `members` with `identity` among them.
pub open spec fn with_member(members: Seq<Seq<char>>, identity: Seq<char>) -> Seq<Seq<char>> {
    if members.contains(identity) {
        members
    } else {
        members.push(identity)
    }
}

/// The members `members` without `identity`.
pub open spec fn without_member(members: Seq<Seq<char>>, identity: Seq<char>) -> Seq<Seq<char>> {
    if members.contains(identity) {
        members.remove(members.index_of(identity))
    } else {
        members
    }
}

/// Adding a member keeps the others, and keeps the list free of repeats.
pub proof fn lemma_with_member(members: Seq<Seq<char>>, identity: Seq<char>)
    requires
        members.no_duplicates(),
    ensures
        with_member(members, identity).no_duplicates(),
        forall|other: Seq<char>| #[trigger]
            with_member(members, identity).contains(other) <==> (other == identity
                || members.contains(other)),
{
    let after = with_member(members, identity);
    assert forall|other: Seq<char>| #[trigger]
        after.contains(other) <==> (other == identity || members.contains(other)) by {
        if !members.contains(identity) {
            if after.contains(other) {
                let k = choose|k: int| 0 <= k < after.len() && after[k] == other;
                if k < members.len() {
                    assert(members[k] == other);
                }
            }
            if members.contains(other) {
                let k = choose|k: int| 0 <= k < members.len() && members[k] == other;
                assert(after[k] == other);
            }
            if other == identity {
                assert(after[members.len() as int] == other);
            }
        }
    }
}

/// Removing a member keeps exactly the others, and keeps the list free of
/// repeats.
pub proof fn lemma_without_member(members: Seq<Seq<char>>, identity: Seq<char>)
    requires
        members.no_duplicates(),
    ensures
        without_member(members, identity).no_duplicates(),
        forall|other: Seq<char>| #[trigger]
            without_member(members, identity).contains(other) <==> (other != identity
                && members.contains(other)),
{
    let after = without_member(members, identity);
    if members.contains(identity) {
        let at = members.index_of(identity);
        assert(0 <= at < members.len() && members[at] == identity);
        assert forall|i: int| 0 <= i < after.len() implies #[trigger] after[i] == members[if i
            < at {
            i
        } else {
            i + 1
        }] by {}
        assert forall|other: Seq<char>| #[trigger]
            after.contains(other) <==> (other != identity && members.contains(other)) by {
            if after.contains(other) {
                let k = choose|k: int| 0 <= k < after.len() && after[k] == other;
                let src = if k < at {
                    k
                } else {
                    k + 1
                };
                assert(members[src] == other);
            }
            if other != identity && members.contains(other) {
                let k = choose|k: int| 0 <= k < members.len() && members[k] == other;
                let dst = if k < at {
                    k
                } else {
                    k - 1
                };
                assert(after[dst] == other);
            }
        }
    } else {
        assert forall|other: Seq<char>| #[trigger]
            after.contains(other) <==> (other != identity && members.contains(other)) by {}
    }
}

/// A named room and its members, each an identity that occurs once.
#[derive(Debug)]
pub struct Room {
    name: String,
    members: Vec<String>,
}

/// A room as plain values.
pub struct RoomView {
    pub name: Seq<char>,
    pub members: Seq<Seq<char>>,
}

impl View for Room {
    type V = RoomView;

    closed spec fn view(&self) -> RoomView {
        RoomView { name: self.name@, members: texts(self.members@) }
    }
}

impl Room {
    /// No identity is listed twice.
    pub open spec fn wf(&self) -> bool {
        self@.members.no_duplicates()
    }

    /// An empty room named `name`.
    pub fn new(name: &str) -> (room: Room)
        ensures
            room.wf(),
            room@ == (RoomView { name: name@, members: Seq::empty() }),
    {
        let room = Room { name: name.to_owned(), members: Vec::new() };
        assert(room@.members =~= Seq::<Seq<char>>::empty());
        room
    }

    /// The place of `identity` among the members, if it is one.
    fn find_member(&self, identity: &str) -> (r: Option<usize>)
        requires
            self.wf(),
        ensures
            r is Some <==> self@.members.contains(identity@),
            r matches Some(i) ==> i < self.members@.len() && i == self@.members.index_of(
                identity@,
            ),
    {
        let mut i: usize = 0;
        while i < self.members.len()
            invariant
                self.wf(),
                i <= self.members@.len(),
                forall|k: int| 0 <= k < i ==> (#[trigger] self@.members[k]) != identity@,
            decreases self.members.len() - i,
        {
            assert(self@.members[i as int] == self.members@[i as int]@);
            if str_eq(self.members[i].as_str(), identity) {
                return Some(i);
            }
            i = i + 1;
        }
        None
    }

    /// Whether `identity` is a member.
    pub fn has_member(&self, identity: &str) -> (r: bool)
        requires
            self.wf(),
        ensures
            r == self@.members.contains(identity@),
    {
        self.find_member(identity).is_some()
    }

    /// Adds `identity` to the members; a member stays listed once.
    pub fn add_member(&mut self, identity: &str)
        requires
            old(self).wf(),
        ensures
            final(self).wf(),
            final(self)@.name == old(self)@.name,
            final(self)@.members == with_member(old(self)@.members, identity@),
    {
        if self.find_member(identity).is_none() {
            self.members.push(identity.to_owned());
            proof {
                assert(self@.members =~= old(self)@.members.push(identity@));
                lemma_with_member(old(self)@.members, identity@);
            }
        }
    }

    /// Removes `identity` from the members, if it is one.
    pub fn remove_member(&mut self, identity: &str)
        requires
            old(self).wf(),
        ensures
            final(self).wf(),
            final(self)@.name == old(self)@.name,
            final(self)@.members == without_member(old(self)@.members, identity@),
    {
        match self.find_member(identity) {
            Some(i) => {
                let _gone = self.members.remove(i);
                proof {
                    assert(self@.members =~= old(self)@.members.remove(i as int));
                    lemma_without_member(old(self)@.members, identity@);
                }
            },
            None => {},
        }
    }

    /// The room's name.
    pub fn get_name(&self) -> (r: &str)
        ensures
            r@ == self@.name,
    {
        self.name.as_str()
    }

    /// A snapshot of the members, in the order in which they joined.
    pub fn get_members(&self) -> (r: Vec<String>)
        ensures
            texts(r@) == self@.members,
    {
        self.members.clone()
    }

    /// Routes the line `text`, sent by `sender`, to the members of this room
    /// as they are now: one delivery for each member other than the sender
    /// whose registered session is signed in and stands in this room.
    pub fn broadcast(&self, registry: &SessionRegistry, sender: &str, text: &str) -> (r: Vec<
        Delivery,
    >)
        requires
            registry.wf(),
        ensures
            delivery_views(r@) == routed(registry@, self@.members, self@.name, sender@, text@),
    {
        route(&self.members, registry, self.name.as_str(), sender, text)
    }
}

} // verus!
