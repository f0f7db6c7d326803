//! The session registry: for each identity that is signed in, the one
//! session that holds it.

use vstd::prelude::*;
use vstd::string::*;
use crate::client::{Client, ClientState, ClientStateView, ClientView};
use crate::text::str_eq;

verus! {

/// What the registry keeps of a session: the peer and its standing.
#[derive(Debug)]
pub struct SessionRef {
    pub client: Client,
    pub state: ClientState,
}

/// A registered session as plain values.
pub struct SessionRefView {
    pub client: ClientView,
    pub state: ClientStateView,
}

impl View for SessionRef {
    type V = SessionRefView;

    open spec fn view(&self) -> SessionRefView {
        SessionRefView { client: self.client@, state: self.state@ }
    }
}

impl Clone for SessionRef {
    fn clone(&self) -> (r: SessionRef)
        ensures
            r == *self,
    {
        SessionRef { client: self.client.clone(), state: self.state.clone() }
    }
}

/// One slot of the registry.
struct Slot {
    identity: String,
    session: SessionRef,
}

/// One slot of the registry as plain values.
pub struct SlotView {
    pub identity: Seq<char>,
    pub session: SessionRefView,
}

/// The registry as plain values: its slots in the order in which their
/// identities first signed in.
pub struct RegistryView {
    pub slots: Seq<SlotView>,
}

impl RegistryView {
    /// Whether `identity` holds a slot.
    pub open spec fn has(self, identity: Seq<char>) -> bool {
        exists|i: int| 0 <= i < self.slots.len() && (#[trigger] self.slots[i]).identity == identity
    }

    /// The place of the slot of `identity`.
    pub open spec fn position(self, identity: Seq<char>) -> int {
        choose|i: int| 0 <= i < self.slots.len() && (#[trigger] self.slots[i]).identity == identity
    }

    /// The session registered for `identity`.
    pub open spec fn get(self, identity: Seq<char>) -> SessionRefView {
        self.slots[self.position(identity)].session
    }

    /// The session registered for `identity`, if any.
    pub open spec fn lookup(self, identity: Seq<char>) -> Option<SessionRefView> {
        if self.has(identity) {
            Some(self.get(identity))
        } else {
            None
        }
    }

    /// The registered sessions, slot by slot.
    pub open spec fn sessions(self) -> Seq<SessionRefView> {
        Seq::new(self.slots.len(), |i: int| self.slots[i].session)
    }

    /// No two slots belong to one identity.
    pub open spec fn valid(self) -> bool {
        forall|i: int, j: int|
            0 <= i < j < self.slots.len() ==> (#[trigger] self.slots[i]).identity != (
            #[trigger] self.slots[j]).identity
    }

    /// The registry after `register(identity, session)`: the slot of
    /// `identity` holds `session`, in its old place or in a new last one.
    pub open spec fn after_register(self, identity: Seq<char>, session: SessionRefView) -> RegistryView {
        if self.has(identity) {
            RegistryView {
                slots: self.slots.update(self.position(identity), SlotView { identity, session }),
            }
        } else {
            RegistryView { slots: self.slots.push(SlotView { identity, session }) }
        }
    }

    /// The registry after `unregister(identity)`.
    pub open spec fn after_unregister(self, identity: Seq<char>) -> RegistryView {
        if self.has(identity) {
            RegistryView { slots: self.slots.remove(self.position(identity)) }
        } else {
            self
        }
    }

    /// In a valid registry a slot is found at its own place.
    pub proof fn lemma_position(self, i: int)
        requires
            self.valid(),
            0 <= i < self.slots.len(),
        ensures
            self.has(self.slots[i].identity),
            self.position(self.slots[i].identity) == i,
            self.get(self.slots[i].identity) == self.slots[i].session,
    {
        let id = self.slots[i].identity;
        let p = self.position(id);
        assert(self.slots[p].identity == id);
        if p < i {
            assert(self.slots[p].identity != self.slots[i].identity);
        } else if i < p {
            assert(self.slots[i].identity != self.slots[p].identity);
        }
    }

    /// Registering gives `identity` the session and leaves every other
    /// identity as it was.
    pub proof fn lemma_after_register(self, identity: Seq<char>, session: SessionRefView)
        requires
            self.valid(),
        ensures
            self.after_register(identity, session).valid(),
            forall|x: Seq<char>| #[trigger]
                self.after_register(identity, session).has(x) <==> (x == identity || self.has(x)),
            forall|x: Seq<char>| #[trigger]
                self.after_register(identity, session).lookup(x) == if x == identity {
                    Some(session)
                } else {
                    self.lookup(x)
                },
    {
        let after = self.after_register(identity, session);
        let n = self.slots.len() as int;
        let at = if self.has(identity) {
            self.position(identity)
        } else {
            n
        };
        assert(after.slots[at] == SlotView { identity, session });
        assert forall|i: int| 0 <= i < after.slots.len() implies (#[trigger] after.slots[i]).identity
            == if i == at {
            identity
        } else {
            self.slots[i].identity
        } by {}
        assert forall|i: int, j: int| 0 <= i < j < after.slots.len() implies (
        #[trigger] after.slots[i]).identity != (#[trigger] after.slots[j]).identity by {
            if j < n {
                assert(self.slots[i].identity != self.slots[j].identity);
                if self.has(identity) {
                    assert(self.slots[at].identity == identity);
                }
            } else {
                assert(self.slots[i].identity != identity);
            }
        }
        assert forall|x: Seq<char>| #[trigger] after.has(x) <==> (x == identity || self.has(x)) by {
            if after.has(x) {
                let k = after.position(x);
                if k != at {
                    assert(self.slots[k].identity == x);
                }
            }
            if self.has(x) {
                let k = self.position(x);
                assert(after.slots[k].identity == x);
            }
            if x == identity {
                assert(after.slots[at].identity == x);
            }
        }
        assert forall|x: Seq<char>| #[trigger]
            after.lookup(x) == if x == identity {
                Some(session)
            } else {
                self.lookup(x)
            } by {
            if x == identity {
                after.lemma_position(at);
            } else if self.has(x) {
                let k = self.position(x);
                assert(self.slots[k].identity == x);
                assert(k != at);
                after.lemma_position(k);
            }
        }
    }

    /// Unregistering removes `identity` and leaves every other identity as it
    /// was.
    pub proof fn lemma_after_unregister(self, identity: Seq<char>)
        requires
            self.valid(),
        ensures
            self.after_unregister(identity).valid(),
            forall|x: Seq<char>| #[trigger]
                self.after_unregister(identity).lookup(x) == if x == identity {
                    None
                } else {
                    self.lookup(x)
                },
    {
        let after = self.after_unregister(identity);
        if self.has(identity) {
            let at = self.position(identity);
            assert(self.slots[at].identity == identity);
            assert forall|i: int| 0 <= i < after.slots.len() implies #[trigger] after.slots[i]
                == self.slots[if i < at {
                i
            } else {
                i + 1
            }] by {}
            assert forall|i: int, j: int| 0 <= i < j < after.slots.len() implies (
            #[trigger] after.slots[i]).identity != (#[trigger] after.slots[j]).identity by {
                let si = if i < at {
                    i
                } else {
                    i + 1
                };
                let sj = if j < at {
                    j
                } else {
                    j + 1
                };
                assert(self.slots[si].identity != self.slots[sj].identity);
            }
            assert forall|x: Seq<char>| #[trigger]
                after.lookup(x) == if x == identity {
                    None
                } else {
                    self.lookup(x)
                } by {
                if after.has(x) {
                    let k = after.position(x);
                    let sk = if k < at {
                        k
                    } else {
                        k + 1
                    };
                    assert(self.slots[sk].identity == x);
                    self.lemma_position(sk);
                    self.lemma_position(at);
                    after.lemma_position(k);
                }
                if self.has(x) && x != identity {
                    let k = self.position(x);
                    assert(self.slots[k].identity == x);
                    let dk = if k < at {
                        k
                    } else {
                        k - 1
                    };
                    assert(after.slots[dk].identity == x);
                    after.lemma_position(dk);
                }
            }
        }
    }
}

/// The directory of live sessions, one slot per identity.
pub struct SessionRegistry {
    slots: Vec<Slot>,
}

impl View for SessionRegistry {
    type V = RegistryView;

    closed spec fn view(&self) -> RegistryView {
        RegistryView {
            slots: Seq::new(
                self.slots@.len(),
                |i: int|
                    SlotView {
                        identity: self.slots@[i].identity@,
                        session: self.slots@[i].session@,
                    },
            ),
        }
    }
}

impl SessionRegistry {
    /// The invariant of the registry.
    pub open spec fn wf(&self) -> bool {
        self@.valid()
    }

    /// An empty registry.
    pub fn new() -> (r: SessionRegistry)
        ensures
            r.wf(),
            r@.slots == Seq::<SlotView>::empty(),
    {
        SessionRegistry { slots: Vec::new() }
    }

    /// The place of the slot of `identity`, if it has one.
    fn find(&self, identity: &str) -> (r: Option<usize>)
        requires
            self.wf(),
        ensures
            r is Some <==> self@.has(identity@),
            r matches Some(i) ==> i < self.slots@.len() && i == self@.position(identity@),
    {
        let mut i: usize = 0;
        while i < self.slots.len()
            invariant
                self.wf(),
                i <= self.slots@.len(),
                forall|k: int| 0 <= k < i ==> (#[trigger] self@.slots[k]).identity != identity@,
            decreases self.slots.len() - i,
        {
            if str_eq(self.slots[i].identity.as_str(), identity) {
                proof {
                    self@.lemma_position(i as int);
                }
                return Some(i);
            }
            i = i + 1;
        }
        None
    }

    /// Puts `session` into the slot of `identity`. Where the identity held a
    /// slot already, the session that was in it is evicted and handed back.
    pub fn register(&mut self, identity: &str, session: SessionRef) -> (evicted: Option<SessionRef>)
        requires
            old(self).wf(),
        ensures
            final(self).wf(),
            final(self)@ == old(self)@.after_register(identity@, session@),
            evicted.is_some() == old(self)@.has(identity@),
            evicted matches Some(e) ==> e@ == old(self)@.get(identity@),
    {
        proof {
            old(self)@.lemma_after_register(identity@, session@);
        }
        match self.find(identity) {
            Some(i) => {
                let previous = self.slots[i].session.clone();
                self.slots.set(i, Slot { identity: identity.to_owned(), session });
                assert(self@.slots =~= old(self)@.after_register(identity@, session@).slots);
                Some(previous)
            },
            None => {
                self.slots.push(Slot { identity: identity.to_owned(), session });
                assert(self@.slots =~= old(self)@.after_register(identity@, session@).slots);
                None
            },
        }
    }

    /// Empties the slot of `identity`, if it holds one.
    pub fn unregister(&mut self, identity: &str)
        requires
            old(self).wf(),
        ensures
            final(self).wf(),
            final(self)@ == old(self)@.after_unregister(identity@),
    {
        proof {
            old(self)@.lemma_after_unregister(identity@);
        }
        match self.find(identity) {
            Some(i) => {
                let _gone = self.slots.remove(i);
                assert(self@.slots =~= old(self)@.after_unregister(identity@).slots);
            },
            None => {},
        }
    }

    /// The session registered for `identity`, if any.
    pub fn lookup(&self, identity: &str) -> (r: Option<SessionRef>)
        requires
            self.wf(),
        ensures
            r.is_some() == self@.has(identity@),
            r matches Some(s) ==> s@ == self@.get(identity@),
    {
        match self.find(identity) {
            Some(i) => Some(self.slots[i].session.clone()),
            None => None,
        }
    }

    /// A copy of every registered session as it is now, slot by slot.
    pub fn snapshot_all(&self) -> (r: Vec<SessionRef>)
        ensures
            r@.len() == self@.slots.len(),
            forall|i: int| 0 <= i < r@.len() ==> (#[trigger] r@[i])@ == self@.slots[i].session,
    {
        let mut out: Vec<SessionRef> = Vec::new();
        let mut i: usize = 0;
        while i < self.slots.len()
            invariant
                i <= self.slots@.len(),
                out@.len() == i,
                forall|k: int| 0 <= k < i ==> (#[trigger] out@[k])@ == self@.slots[k].session,
            decreases self.slots.len() - i,
        {
            out.push(self.slots[i].session.clone());
            i = i + 1;
        }
        out
    }
}

} // verus!
