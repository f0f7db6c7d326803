//! Broadcast routing: from a snapshot of a room's members to the chat lines
//! that are owed, one for each member that is live in that room and is not
//! the sender.

use vstd::prelude::*;
use vstd::string::*;
use crate::registry::{RegistryView, SessionRegistry};
use crate::text::{str_eq, texts};

verus! {

/// One chat line for one recipient.
#[derive(Debug)]
pub struct Delivery {
    /// The identity that is to receive the line.
    pub recipient: String,
    /// The address of the recipient's connection.
    pub address: String,
    /// The line, `[<room>] <sender>: <text>`.
    pub line: String,
}

/// A delivery as plain values.
pub struct DeliveryView {
    pub recipient: Seq<char>,
    pub address: Seq<char>,
    pub line: Seq<char>,
}

impl View for Delivery {
    type V = DeliveryView;

    open spec fn view(&self) -> DeliveryView {
        DeliveryView { recipient: self.recipient@, address: self.address@, line: self.line@ }
    }
}

/// The views of a sequence of deliveries, in order.
pub open spec fn delivery_views(v: Seq<Delivery>) -> Seq<DeliveryView> {
    Seq::new(v.len(), |i: int| v[i]@)
}

impl Delivery {
    /// The line as it is written to the recipient: the line, a line break
    /// and the prompt.
    pub fn wire_text(&self) -> (r: String)
        ensures
            r@ == self@.line + "\n> "@,
    {
        let mut out = self.line.clone();
        out.append("\n> ");
        out
    }
}

/// The chat line for `text`, sent by `sender` in `room`.
pub open spec fn chat_line(room: Seq<char>, sender: Seq<char>, text: Seq<char>) -> Seq<char> {
    "["@ + room + "] "@ + sender + ": "@ + text
}

/// Whether `member` is owed a line sent by `sender` in `room`: it is not the
/// sender, and its registered session is signed in and stands in that room.
pub open spec fn receives(
    registry: RegistryView,
    room: Seq<char>,
    sender: Seq<char>,
    member: Seq<char>,
) -> bool {
    &&& member != sender
    &&& registry.has(member)
    &&& registry.get(member).state.is_logged_in
    &&& registry.get(member).state.current_room == Some(room)
}

/// The delivery owed to `member`.
pub open spec fn delivery_to(
    registry: RegistryView,
    room: Seq<char>,
    sender: Seq<char>,
    text: Seq<char>,
    member: Seq<char>,
) -> DeliveryView {
    DeliveryView {
        recipient: member,
        address: registry.get(member).client.address,
        line: chat_line(room, sender, text),
    }
}

/// The deliveries owed for the snapshot `members`, in the snapshot's order.
pub open spec fn routed(
    registry: RegistryView,
    members: Seq<Seq<char>>,
    room: Seq<char>,
    sender: Seq<char>,
    text: Seq<char>,
) -> Seq<DeliveryView>
    decreases members.len(),
{
    if members.len() == 0 {
        Seq::empty()
    } else {
        let rest = routed(registry, members.drop_last(), room, sender, text);
        if receives(registry, room, sender, members.last()) {
            rest.push(delivery_to(registry, room, sender, text, members.last()))
        } else {
            rest
        }
    }
}

/// How many of the deliveries `ds` go to `who`.
pub open spec fn copies(ds: Seq<DeliveryView>, who: Seq<char>) -> nat
    decreases ds.len(),
{
    if ds.len() == 0 {
        0
    } else if ds.last().recipient == who {
        copies(ds.drop_last(), who) + 1
    } else {
        copies(ds.drop_last(), who)
    }
}

/// Fan-out: of a snapshot without repeats, every member that is owed the
/// line gets exactly one copy, and nobody else gets any. So the sender gets
/// none, and neither does an identity that stands in another room, is signed
/// out or is not in the snapshot.
pub proof fn law_fan_out(
    registry: RegistryView,
    members: Seq<Seq<char>>,
    room: Seq<char>,
    sender: Seq<char>,
    text: Seq<char>,
    who: Seq<char>,
)
    requires
        members.no_duplicates(),
    ensures
        copies(routed(registry, members, room, sender, text), who) == if members.contains(who)
            && receives(registry, room, sender, who) {
            1nat
        } else {
            0nat
        },
        copies(routed(registry, members, room, sender, text), sender) == 0,
    decreases members.len(),
{
    if members.len() > 0 {
        let front = members.drop_last();
        let last = members.last();
        assert(front.no_duplicates()) by {
            assert forall|i: int, j: int|
                0 <= i < front.len() && 0 <= j < front.len() && i != j implies front[i]
                != front[j] by {
                assert(members[i] != members[j]);
            }
        }
        law_fan_out(registry, front, room, sender, text, who);
        law_fan_out(registry, front, room, sender, text, sender);
        let rest = routed(registry, front, room, sender, text);
        assert(members.contains(who) <==> (front.contains(who) || last == who)) by {
            if front.contains(who) {
                let k = choose|k: int| 0 <= k < front.len() && front[k] == who;
                assert(members[k] == who);
            }
            if last == who {
                assert(members[members.len() - 1] == who);
            }
            if members.contains(who) {
                let k = choose|k: int| 0 <= k < members.len() && members[k] == who;
                if k < front.len() {
                    assert(front[k] == who);
                }
            }
        }
        assert(last == who ==> !front.contains(who)) by {
            if last == who && front.contains(who) {
                let k = choose|k: int| 0 <= k < front.len() && front[k] == who;
                assert(members[k] != members[members.len() - 1]);
            }
        }
        if receives(registry, room, sender, last) {
            let added = delivery_to(registry, room, sender, text, last);
            assert(rest.push(added).drop_last() =~= rest);
            assert(rest.push(added).last() == added);
        }
    }
}

/// Every delivery carries the chat line, and goes to a member of the
/// snapshot that is owed it, at the address of that member's registered
/// session.
pub proof fn law_routed_lines(
    registry: RegistryView,
    members: Seq<Seq<char>>,
    room: Seq<char>,
    sender: Seq<char>,
    text: Seq<char>,
)
    ensures
        forall|i: int|
            0 <= i < routed(registry, members, room, sender, text).len() ==> {
                let d = #[trigger] routed(registry, members, room, sender, text)[i];
                &&& members.contains(d.recipient)
                &&& receives(registry, room, sender, d.recipient)
                &&& d == delivery_to(registry, room, sender, text, d.recipient)
            },
    decreases members.len(),
{
    if members.len() > 0 {
        let front = members.drop_last();
        let last = members.last();
        law_routed_lines(registry, front, room, sender, text);
        let rest = routed(registry, front, room, sender, text);
        let all = routed(registry, members, room, sender, text);
        assert forall|i: int| 0 <= i < all.len() implies {
            let d = #[trigger] all[i];
            &&& members.contains(d.recipient)
            &&& receives(registry, room, sender, d.recipient)
            &&& d == delivery_to(registry, room, sender, text, d.recipient)
        } by {
            if i < rest.len() {
                let d = rest[i];
                assert(all[i] == d);
                let k = choose|k: int| 0 <= k < front.len() && front[k] == d.recipient;
                assert(members[k] == d.recipient);
            } else {
                assert(members[members.len() - 1] == last);
            }
        }
    }
}

/// Routes the line `text`, sent by `sender` in `room`, to the members of the
/// snapshot `members`: each is looked up in the registry and gets the line
/// where its session is signed in and still stands in `room`; the sender and
/// every other member are passed over.
pub fn route(
    members: &Vec<String>,
    registry: &SessionRegistry,
    room: &str,
    sender: &str,
    text: &str,
) -> (r: Vec<Delivery>)
    requires
        registry.wf(),
    ensures
        delivery_views(r@) == routed(registry@, texts(members@), room@, sender@, text@),
{
    let mut line = String::from_str("[");
    line.append(room);
    line.append("] ");
    line.append(sender);
    line.append(": ");
    line.append(text);
    let mut out: Vec<Delivery> = Vec::new();
    let mut i: usize = 0;
    while i < members.len()
        invariant
            registry.wf(),
            i <= members@.len(),
            line@ == chat_line(room@, sender@, text@),
            delivery_views(out@) == routed(
                registry@,
                texts(members@).take(i as int),
                room@,
                sender@,
                text@,
            ),
        decreases members.len() - i,
    {
        let member = members[i].as_str();
        proof {
            let all = texts(members@);
            assert(all.take(i as int + 1).drop_last() =~= all.take(i as int));
        }
        if !str_eq(member, sender) {
            match registry.lookup(member) {
                Some(session) => {
                    let in_room = match &session.state.current_room {
                        Some(current) => str_eq(current.as_str(), room),
                        None => false,
                    };
                    if session.state.is_logged_in && in_room {
                        let delivery = Delivery {
                            recipient: members[i].clone(),
                            address: session.client.address,
                            line: line.clone(),
                        };
                        out.push(delivery);
                    }
                },
                None => {},
            }
        }
        i = i + 1;
    }
    assert(texts(members@).take(members@.len() as int) =~= texts(members@));
    out
}

} // verus!
