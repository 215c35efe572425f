//! The room registry: the members present, each with the lines waiting to
//! be delivered to it, and the operations that join, leave and message it.
use vstd::prelude::*;
use crate::model::{
    Entry, broadcast_entry, broadcast_model, chat_line, depart_model, drain_entry, drain_model,
    enqueue_entry, enqueue_model, entered_line, enter_model, has_member, join, left_line,
    lemma_index_of, mailbox_of, names_of, remove_model, room_inv, roster_line,
};
use crate::text::{is_valid_username, is_valid_message, valid_name, valid_message};

verus! {

/// A member: its name and the lines not yet delivered to it.
struct Member {
    name: String,
    mailbox: Vec<String>,
}

impl View for Member {
    type V = Entry;

    closed spec fn view(&self) -> Entry {
        (self.name@, self.mailbox@.map_values(|l: String| l@))
    }
}

/// The single chat room. Members are kept in the order they joined, which
/// fixes the order of rosters and of fan-out.
pub struct Room {
    members: Vec<Member>,
}

impl View for Room {
    type V = Seq<Entry>;

    closed spec fn view(&self) -> Seq<Entry> {
        self.members@.map_values(|m: Member| m@)
    }
}

impl Room {
    /// The room's invariant: valid names, none held twice.
    pub open spec fn wf(&self) -> bool {
        room_inv(self@)
    }

    /// An empty room.
    pub fn new() -> (r: Room)
        ensures
            r@ == Seq::<Entry>::empty(),
            r.wf(),
    {
        let r = Room { members: Vec::new() };
        assert(r@ =~= Seq::<Entry>::empty());
        r
    }

    /// The position of the member called `key`.
    fn find(&self, key: &String) -> (r: Option<usize>)
        ensures
            match r {
                Some(i) => i < self@.len() && self@[i as int].0 == key@,
                None => !has_member(self@, key@),
            },
    {
        let n = self.members.len();
        let mut i: usize = 0;
        while i < n
            invariant
                n == self.members@.len(),
                i <= n,
                forall|k: int| 0 <= k < i ==> (#[trigger] self@[k]).0 != key@,
            decreases n - i,
        {
            if self.members[i].name == *key {
                return Some(i);
            }
            i = i + 1;
        }
        None
    }

    /// Whether a member called `name` is present.
    pub fn contains(&self, name: &str) -> (r: bool)
        ensures
            r == has_member(self@, name@),
    {
        let key = String::from_str(name);
        self.find(&key).is_some()
    }

    /// Appends `line` to the mailbox of the member at position `i`.
    fn push_line(&mut self, i: usize, line: &str)
        requires
            i < old(self)@.len(),
        ensures
            final(self).members@.len() == old(self).members@.len(),
            final(self)@ == old(self)@.update(
                i as int,
                (old(self)@[i as int].0, old(self)@[i as int].1.push(line@)),
            ),
    {
        let ghost before = self.members@;
        self.members[i].mailbox.push(String::from_str(line));
        assert(self.members@[i as int].mailbox@.map_values(|l: String| l@)
            =~= before[i as int].mailbox@.map_values(|l: String| l@).push(line@));
        assert(self@ =~= old(self)@.update(
            i as int,
            (old(self)@[i as int].0, old(self)@[i as int].1.push(line@)),
        ));
    }

    /// Puts `line` at the end of the mailbox of the member called `name`;
    /// does nothing where no such member is present.
    pub fn enqueue(&mut self, name: &str, line: &str)
        requires
            old(self).wf(),
        ensures
            final(self).wf(),
            final(self)@ == enqueue_model(old(self)@, name@, line@),
    {
        let key = String::from_str(name);
        let n = self.members.len();
        let mut i: usize = 0;
        while i < n
            invariant
                n == self.members@.len(),
                n == old(self)@.len(),
                key@ == name@,
                i <= n,
                forall|k: int| 0 <= k < i ==> #[trigger] self@[k] == enqueue_entry(old(self)@[k], name@, line@),
                forall|k: int| i <= k < n ==> #[trigger] self@[k] == old(self)@[k],
            decreases n - i,
        {
            if self.members[i].name == key {
                self.push_line(i, line);
            }
            i = i + 1;
        }
        assert(self@ =~= enqueue_model(old(self)@, name@, line@));
    }

    /// Puts `line` at the end of the mailbox of every member but `sender`.
    pub fn broadcast_except(&mut self, sender: &str, line: &str)
        requires
            old(self).wf(),
        ensures
            final(self).wf(),
            final(self)@ == broadcast_model(old(self)@, sender@, line@),
    {
        let key = String::from_str(sender);
        let n = self.members.len();
        let mut i: usize = 0;
        while i < n
            invariant
                n == self.members@.len(),
                n == old(self)@.len(),
                key@ == sender@,
                i <= n,
                forall|k: int| 0 <= k < i ==> #[trigger] self@[k] == broadcast_entry(old(self)@[k], sender@, line@),
                forall|k: int| i <= k < n ==> #[trigger] self@[k] == old(self)@[k],
            decreases n - i,
        {
            if !(self.members[i].name == key) {
                self.push_line(i, line);
            }
            i = i + 1;
        }
        assert(self@ =~= broadcast_model(old(self)@, sender@, line@));
    }

    /// The names of the members, in the order they joined.
    pub fn names(&self) -> (r: Vec<String>)
        ensures
            r@.map_values(|s: String| s@) == names_of(self@),
    {
        let n = self.members.len();
        let mut r: Vec<String> = Vec::new();
        let mut i: usize = 0;
        while i < n
            invariant
                n == self.members@.len(),
                i <= n,
                r@.len() == i,
                r@.map_values(|s: String| s@) =~= names_of(self@).take(i as int),
            decreases n - i,
        {
            let name = self.members[i].name.clone();
            assert(names_of(self@)[i as int] == name@);
            let ghost prev = r@;
            r.push(name);
            assert forall|k: int| 0 <= k < i implies #[trigger] r@[k]@ == names_of(self@)[k] by {
                assert(r@[k] == prev[k]);
                assert(prev.map_values(|s: String| s@)[k] == names_of(self@).take(i as int)[k]);
            }
            i = i + 1;
            assert(r@.map_values(|s: String| s@) =~= names_of(self@).take(i as int));
        }
        assert(names_of(self@).take(n as int) =~= names_of(self@));
        r
    }

    /// The greeting for a newcomer: the names present, comma-separated.
    pub fn roster(&self) -> (r: String)
        ensures
            r@ == roster_line(names_of(self@)),
    {
        let ghost names = names_of(self@);
        let n = self.members.len();
        let mut joined = String::new();
        let mut i: usize = 0;
        while i < n
            invariant
                n == self.members@.len(),
                names == names_of(self@),
                i <= n,
                joined@ == join(names.take(i as int), ", "@),
            decreases n - i,
        {
            assert(names.take(i + 1).drop_last() =~= names.take(i as int));
            if i > 0 {
                joined.append(", ");
            }
            joined.append(self.members[i].name.as_str());
            i = i + 1;
        }
        assert(names.take(n as int) =~= names);
        let mut r = String::from_str("* The room contains: ");
        r.append(joined.as_str());
        r
    }

    /// Lets a member called `name` in. Refused, and the room left as it is,
    /// where the name is not valid or is already held. Otherwise, in one
    /// step, every present member is told of the newcomer and the newcomer
    /// is placed last with the roster of those present in its mailbox.
    pub fn enter(&mut self, name: &str) -> (r: Result<(), ChatError>)
        requires
            old(self).wf(),
        ensures
            final(self).wf(),
            r is Ok <==> valid_name(name@) && !has_member(old(self)@, name@),
            r is Ok ==> final(self)@ == enter_model(old(self)@, name@),
            r is Err ==> r == Err::<(), ChatError>(ChatError::InvalidName) && final(self)@ == old(self)@,
    {
        if !is_valid_username(name) {
            return Err(ChatError::InvalidName);
        }
        let key = String::from_str(name);
        if self.find(&key).is_some() {
            return Err(ChatError::InvalidName);
        }
        let roster = self.roster();
        let notice = entered_notice(name);
        self.broadcast_except(name, notice.as_str());
        let ghost mid = self@;
        let mut mailbox: Vec<String> = Vec::new();
        mailbox.push(roster);
        self.members.push(Member { name: key, mailbox });
        proof {
            assert(mailbox@.map_values(|l: String| l@) =~= seq![roster_line(names_of(old(self)@))]);
            assert(self@ =~= mid.push((name@, seq![roster_line(names_of(old(self)@))])));
            assert(names_of(mid) =~= names_of(old(self)@));
            assert forall|i: int| 0 <= i < mid.len() implies (#[trigger] mid[i]).0 != name@ by {
                assert(mid[i].0 == old(self)@[i].0);
            }
        }
        Ok(())
    }

    /// Takes the member called `name` out of the room and hands back the
    /// lines still waiting for it; `None`, and no change, where it is absent.
    pub fn remove(&mut self, name: &str) -> (r: Option<Vec<String>>)
        requires
            old(self).wf(),
        ensures
            final(self).wf(),
            final(self)@ == remove_model(old(self)@, name@),
            r is Some <==> has_member(old(self)@, name@),
            r is Some ==> r->0@.map_values(|l: String| l@) == mailbox_of(old(self)@, name@),
    {
        let key = String::from_str(name);
        match self.find(&key) {
            None => None,
            Some(i) => {
                proof {
                    lemma_index_of(self@, i as int);
                }
                let gone = self.members.remove(i);
                assert(self@ =~= old(self)@.remove(i as int));
                Some(gone.mailbox)
            },
        }
    }

    /// Empties the mailbox of the member called `name` and hands back what it
    /// held, oldest first; `None`, and no change, where it is absent.
    pub fn drain(&mut self, name: &str) -> (r: Option<Vec<String>>)
        requires
            old(self).wf(),
        ensures
            final(self).wf(),
            final(self)@ == drain_model(old(self)@, name@),
            r is Some <==> has_member(old(self)@, name@),
            r is Some ==> r->0@.map_values(|l: String| l@) == mailbox_of(old(self)@, name@),
    {
        let key = String::from_str(name);
        match self.find(&key) {
            None => {
                assert(self@ =~= drain_model(old(self)@, name@));
                None
            },
            Some(i) => {
                proof {
                    lemma_index_of(self@, i as int);
                }
                let ghost before = self.members@;
                let mut lines: Vec<String> = Vec::new();
                std::mem::swap(&mut lines, &mut self.members[i].mailbox);
                assert(self.members@[i as int].mailbox@.map_values(|l: String| l@) =~= Seq::<Seq<char>>::empty());
                assert forall|k: int| 0 <= k < self@.len() implies #[trigger] self@[k] == drain_entry(old(self)@[k], name@) by {
                    if k != i {
                        assert(self.members@[k] == before[k]);
                        assert(old(self)@[k].0 != name@);
                    }
                }
                assert(self@ =~= drain_model(old(self)@, name@));
                Some(lines)
            },
        }
    }

    /// The member called `name` leaves: where it is present it is removed,
    /// its undelivered lines are dropped and every remaining member is told.
    /// Returns whether it was present, that is whether the notice went out;
    /// a second departure of the same name changes nothing.
    pub fn depart(&mut self, name: &str) -> (r: bool)
        requires
            old(self).wf(),
        ensures
            final(self).wf(),
            final(self)@ == depart_model(old(self)@, name@),
            r == has_member(old(self)@, name@),
    {
        match self.remove(name) {
            None => false,
            Some(_) => {
                let notice = left_notice(name);
                self.broadcast_except(name, notice.as_str());
                true
            },
        }
    }

    /// A chat line from `sender`: where it is a valid message, it goes to
    /// every member but the sender as `[sender] message`; otherwise it is
    /// refused and the room left as it is.
    pub fn post(&mut self, sender: &str, message: &str) -> (r: Result<(), ChatError>)
        requires
            old(self).wf(),
        ensures
            final(self).wf(),
            r is Ok <==> valid_message(message@),
            r is Ok ==> final(self)@ == broadcast_model(old(self)@, sender@, chat_line(sender@, message@)),
            r is Err ==> r == Err::<(), ChatError>(ChatError::InvalidMessage) && final(self)@ == old(self)@,
    {
        if !is_valid_message(message) {
            return Err(ChatError::InvalidMessage);
        }
        let line = chat_message(sender, message);
        self.broadcast_except(sender, line.as_str());
        Ok(())
    }
}

/// What ends a session, or refuses a name or a line.
#[derive(Clone, Copy, Debug, PartialEq, Eq, Structural)]
pub enum ChatError {
    /// No data arrived within the read window.
    Timeout,
    /// The peer closed or reset the connection.
    ConnectionClosed,
    /// A name that is malformed or already held.
    InvalidName,
    /// An empty or non-ASCII chat line.
    InvalidMessage,
    /// Any other transport fault.
    IoError,
}

/// `* name has entered the room`
pub fn entered_notice(name: &str) -> (r: String)
    ensures
        r@ == entered_line(name@),
{
    let mut r = String::from_str("* ");
    r.append(name);
    r.append(" has entered the room");
    r
}

/// `* name has left the room`
pub fn left_notice(name: &str) -> (r: String)
    ensures
        r@ == left_line(name@),
{
    let mut r = String::from_str("* ");
    r.append(name);
    r.append(" has left the room");
    r
}

/// `[sender] message`
pub fn chat_message(sender: &str, message: &str) -> (r: String)
    ensures
        r@ == chat_line(sender@, message@),
{
    let mut r = String::from_str("[");
    r.append(sender);
    r.append("] ");
    r.append(message);
    r
}

} // verus!
