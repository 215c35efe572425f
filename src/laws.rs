//! What holds of the room across operations, proved over the model that
//! the operations' contracts speak of.
use vstd::prelude::*;
use crate::model::{
    Entry, broadcast_model, depart_model, enqueue_model, enter_model, entered_line, has_member,
    index_of, lemma_index_of, mailbox_of, names_of, remove_model, room_inv, roster_line,
};
use crate::text::valid_name;

verus! {

/// Broadcasting keeps every name where it was, and so keeps the invariant.
pub proof fn lemma_broadcast_keeps_names(m: Seq<Entry>, sender: Seq<char>, line: Seq<char>)
    ensures
        names_of(broadcast_model(m, sender, line)) == names_of(m),
        room_inv(m) ==> room_inv(broadcast_model(m, sender, line)),
        forall|n: Seq<char>| has_member(broadcast_model(m, sender, line), n) == has_member(m, n),
{
    let b = broadcast_model(m, sender, line);
    assert(names_of(b) =~= names_of(m));
    assert forall|n: Seq<char>| has_member(b, n) == has_member(m, n) by {
        if has_member(m, n) {
            let i = choose|i: int| 0 <= i < m.len() && #[trigger] m[i].0 == n;
            assert(b[i].0 == n);
        }
        if has_member(b, n) {
            let i = choose|i: int| 0 <= i < b.len() && #[trigger] b[i].0 == n;
            assert(m[i].0 == n);
        }
    }
}

/// A newcomer with a valid, unused name: every present member keeps its place
/// and gets the entry notice, and the newcomer stands last with the roster of
/// those present.
pub proof fn lemma_enter(m: Seq<Entry>, name: Seq<char>)
    requires
        room_inv(m),
        valid_name(name),
        !has_member(m, name),
    ensures
        ({
            let e = enter_model(m, name);
            &&& room_inv(e)
            &&& e.len() == m.len() + 1
            &&& names_of(e) == names_of(m).push(name)
            &&& forall|i: int| 0 <= i < m.len() ==> #[trigger] e[i] == (m[i].0, m[i].1.push(entered_line(name)))
            &&& e[m.len() as int] == (name, seq![roster_line(names_of(m))])
            &&& has_member(e, name)
            &&& index_of(e, name) == m.len()
        }),
{
    let e = enter_model(m, name);
    lemma_broadcast_keeps_names(m, name, entered_line(name));
    assert forall|i: int| 0 <= i < m.len() implies #[trigger] e[i] == (m[i].0, m[i].1.push(entered_line(name))) by {
        assert(m[i].0 != name);
    }
    assert(names_of(e) =~= names_of(m).push(name));
    assert forall|i: int, j: int| 0 <= i < e.len() && 0 <= j < e.len() && i != j implies #[trigger] e[i].0 != #[trigger] e[j].0 by {
        if i < m.len() && j < m.len() {
            assert(e[i].0 == m[i].0 && e[j].0 == m[j].0);
        } else if i < m.len() {
            assert(e[i].0 == m[i].0);
        } else {
            assert(e[j].0 == m[j].0);
        }
    }
    assert forall|i: int| 0 <= i < e.len() implies valid_name(#[trigger] e[i].0) by {
        if i < m.len() {
            assert(e[i].0 == m[i].0);
        }
    }
    lemma_index_of(e, m.len() as int);
}

/// Two members with different valid names who join one after the other each
/// learn of the other exactly once: the later finds the earlier in its roster,
/// after the names that were there before it and none of which is the
/// earlier's; the earlier gets the later's entry notice after its own roster.
pub proof fn lemma_joins_see_each_other(m: Seq<Entry>, first: Seq<char>, second: Seq<char>)
    requires
        room_inv(m),
        valid_name(first),
        valid_name(second),
        first != second,
        !has_member(m, first),
        !has_member(m, second),
    ensures
        ({
            let both = enter_model(enter_model(m, first), second);
            &&& room_inv(both)
            &&& has_member(both, first)
            &&& has_member(both, second)
            &&& mailbox_of(both, first) == seq![roster_line(names_of(m)), entered_line(second)]
            &&& mailbox_of(both, second) == seq![roster_line(names_of(m).push(first))]
            &&& forall|i: int| 0 <= i < names_of(m).len() ==> #[trigger] names_of(m)[i] != first
        }),
{
    let one = enter_model(m, first);
    lemma_enter(m, first);
    assert(!has_member(one, second)) by {
        if has_member(one, second) {
            let i = choose|i: int| 0 <= i < one.len() && #[trigger] one[i].0 == second;
            if i < m.len() {
                assert(one[i].0 == m[i].0);
            }
        }
    }
    lemma_enter(one, second);
    let both = enter_model(one, second);
    assert(both[m.len() as int] == (first, seq![roster_line(names_of(m)), entered_line(second)]));
    lemma_index_of(both, m.len() as int);
    assert forall|i: int| 0 <= i < names_of(m).len() implies #[trigger] names_of(m)[i] != first by {
        assert(names_of(m)[i] == m[i].0);
    }
}

/// A line that a member sends never reaches its own mailbox: its entry is
/// left as it was, while every other member gets the line last.
pub proof fn lemma_sender_not_echoed(m: Seq<Entry>, sender: Seq<char>, line: Seq<char>)
    ensures
        forall|i: int| 0 <= i < m.len() && m[i].0 == sender ==> #[trigger] broadcast_model(m, sender, line)[i] == m[i],
        forall|i: int| 0 <= i < m.len() && m[i].0 != sender ==> #[trigger] broadcast_model(m, sender, line)[i] == (m[i].0, m[i].1.push(line)),
        room_inv(m) && has_member(m, sender) ==> mailbox_of(broadcast_model(m, sender, line), sender) == mailbox_of(m, sender),
{
    if room_inv(m) && has_member(m, sender) {
        let i = index_of(m, sender);
        lemma_index_of(m, i);
        lemma_broadcast_keeps_names(m, sender, line);
        lemma_index_of(broadcast_model(m, sender, line), i);
    }
}

/// A mailbox is first in, first out: two lines put into it one after the
/// other stand behind what was there, in that order.
pub proof fn lemma_mailbox_fifo(m: Seq<Entry>, name: Seq<char>, a: Seq<char>, b: Seq<char>)
    requires
        room_inv(m),
        has_member(m, name),
    ensures
        mailbox_of(enqueue_model(enqueue_model(m, name, a), name, b), name) == mailbox_of(m, name).push(a).push(b),
{
    let i = index_of(m, name);
    lemma_index_of(m, i);
    let once = enqueue_model(m, name, a);
    let twice = enqueue_model(once, name, b);
    assert(names_of(twice) =~= names_of(m));
    assert forall|j: int| 0 <= j < twice.len() implies #[trigger] twice[j].0 == m[j].0 by {
        assert(twice[j].0 == names_of(twice)[j]);
    }
    assert(room_inv(twice));
    lemma_index_of(twice, i);
}

/// Taking a member out keeps the invariant and leaves no one of that name.
pub proof fn lemma_remove(m: Seq<Entry>, name: Seq<char>)
    requires
        room_inv(m),
    ensures
        room_inv(remove_model(m, name)),
        !has_member(remove_model(m, name), name),
{
    if has_member(m, name) {
        let i = index_of(m, name);
        let r = m.remove(i);
        assert forall|k: int| 0 <= k < r.len() implies #[trigger] r[k] == (if k < i { m[k] } else { m[k + 1] }) by {}
        assert forall|a: int, b: int| 0 <= a < r.len() && 0 <= b < r.len() && a != b implies #[trigger] r[a].0 != #[trigger] r[b].0 by {
            let a2 = if a < i { a } else { a + 1 };
            let b2 = if b < i { b } else { b + 1 };
            assert(r[a] == m[a2] && r[b] == m[b2]);
        }
        assert forall|k: int| 0 <= k < r.len() implies valid_name(#[trigger] r[k].0) by {
            let k2 = if k < i { k } else { k + 1 };
            assert(r[k] == m[k2]);
        }
        if has_member(r, name) {
            let k = choose|k: int| 0 <= k < r.len() && #[trigger] r[k].0 == name;
            let k2 = if k < i { k } else { k + 1 };
            assert(r[k] == m[k2]);
        }
    }
}

/// Leaving is done once: afterwards no member holds the name, so a second
/// departure of the same name finds no one, sends no notice and changes
/// nothing.
pub proof fn lemma_depart_once(m: Seq<Entry>, name: Seq<char>)
    requires
        room_inv(m),
    ensures
        room_inv(depart_model(m, name)),
        !has_member(depart_model(m, name), name),
        depart_model(depart_model(m, name), name) == depart_model(m, name),
{
    lemma_remove(m, name);
    if has_member(m, name) {
        lemma_broadcast_keeps_names(remove_model(m, name), name, crate::model::left_line(name));
    }
}

} // verus!
