//! The mathematical model of a room: an ordered sequence of members, each a
//! name with the lines waiting in its mailbox, and what every room operation
//! does to it.
use vstd::prelude::*;
use crate::text::valid_name;

verus! {

/// One member as the model sees it: its name and its pending lines, oldest
/// first.
pub type Entry = (Seq<char>, Seq<Seq<char>>);

/// `parts` joined with `sep` between each two neighbours.
pub open spec fn join(parts: Seq<Seq<char>>, sep: Seq<char>) -> Seq<char>
    decreases parts.len(),
{
    if parts.len() == 0 {
        Seq::empty()
    } else if parts.len() == 1 {
        parts[0]
    } else {
        join(parts.drop_last(), sep) + sep + parts.last()
    }
}

/// The line that greets a newly joined member with the names already present.
pub open spec fn roster_line(names: Seq<Seq<char>>) -> Seq<char> {
    "* The room contains: "@ + join(names, ", "@)
}

/// The notice that `name` has joined.
pub open spec fn entered_line(name: Seq<char>) -> Seq<char> {
    "* "@ + name + " has entered the room"@
}

/// The notice that `name` has gone.
pub open spec fn left_line(name: Seq<char>) -> Seq<char> {
    "* "@ + name + " has left the room"@
}

/// A chat line of `sender` as the other members receive it.
pub open spec fn chat_line(sender: Seq<char>, message: Seq<char>) -> Seq<char> {
    "["@ + sender + "] "@ + message
}

/// The names of the members, in the room's order.
pub open spec fn names_of(m: Seq<Entry>) -> Seq<Seq<char>> {
    m.map_values(|e: Entry| e.0)
}

/// Every name is valid and no name is held twice.
pub open spec fn room_inv(m: Seq<Entry>) -> bool {
    &&& forall|i: int, j: int|
        0 <= i < m.len() && 0 <= j < m.len() && i != j ==> #[trigger] m[i].0 != #[trigger] m[j].0
    &&& forall|i: int| 0 <= i < m.len() ==> valid_name(#[trigger] m[i].0)
}

/// `name` is held by a member.
pub open spec fn has_member(m: Seq<Entry>, name: Seq<char>) -> bool {
    exists|i: int| 0 <= i < m.len() && #[trigger] m[i].0 == name
}

/// The position of the member called `name`, where there is one.
pub open spec fn index_of(m: Seq<Entry>, name: Seq<char>) -> int {
    choose|i: int| 0 <= i < m.len() && #[trigger] m[i].0 == name
}

/// The pending lines of the member called `name`, where there is one.
pub open spec fn mailbox_of(m: Seq<Entry>, name: Seq<char>) -> Seq<Seq<char>> {
    m[index_of(m, name)].1
}

/// `e` after `line` was broadcast by `sender`: every member but the sender
/// gets the line at the end of its mailbox.
pub open spec fn broadcast_entry(e: Entry, sender: Seq<char>, line: Seq<char>) -> Entry {
    if e.0 != sender {
        (e.0, e.1.push(line))
    } else {
        e
    }
}

/// The room after `line` was sent to every member but `sender`.
pub open spec fn broadcast_model(m: Seq<Entry>, sender: Seq<char>, line: Seq<char>) -> Seq<Entry> {
    m.map_values(|e: Entry| broadcast_entry(e, sender, line))
}

/// `e` after `line` was put into the mailbox of `name`.
pub open spec fn enqueue_entry(e: Entry, name: Seq<char>, line: Seq<char>) -> Entry {
    if e.0 == name {
        (e.0, e.1.push(line))
    } else {
        e
    }
}

/// The room after `line` was put into the mailbox of `name` (no change where
/// nobody holds that name).
pub open spec fn enqueue_model(m: Seq<Entry>, name: Seq<char>, line: Seq<char>) -> Seq<Entry> {
    m.map_values(|e: Entry| enqueue_entry(e, name, line))
}

/// `e` after the mailbox of `name` was emptied.
pub open spec fn drain_entry(e: Entry, name: Seq<char>) -> Entry {
    if e.0 == name {
        (e.0, Seq::empty())
    } else {
        e
    }
}

/// The room after the mailbox of `name` was emptied.
pub open spec fn drain_model(m: Seq<Entry>, name: Seq<char>) -> Seq<Entry> {
    m.map_values(|e: Entry| drain_entry(e, name))
}

/// The room after `name` joined: every present member is told, and the
/// newcomer is placed last with the roster of those present in its mailbox.
pub open spec fn enter_model(m: Seq<Entry>, name: Seq<char>) -> Seq<Entry> {
    broadcast_model(m, name, entered_line(name)).push((name, seq![roster_line(names_of(m))]))
}

/// The room without the member called `name`.
pub open spec fn remove_model(m: Seq<Entry>, name: Seq<char>) -> Seq<Entry> {
    if has_member(m, name) {
        m.remove(index_of(m, name))
    } else {
        m
    }
}

/// The room after `name` left: where it was present it is removed and every
/// remaining member is told; otherwise nothing happens.
pub open spec fn depart_model(m: Seq<Entry>, name: Seq<char>) -> Seq<Entry> {
    if has_member(m, name) {
        broadcast_model(remove_model(m, name), name, left_line(name))
    } else {
        m
    }
}

/// In a room whose names are unique, the member called `m[i].0` stands at `i`.
pub proof fn lemma_index_of(m: Seq<Entry>, i: int)
    requires
        room_inv(m),
        0 <= i < m.len(),
    ensures
        has_member(m, m[i].0),
        index_of(m, m[i].0) == i,
{
    assert(m[i].0 == m[i].0);
}

} // verus!
