//! The decisions of one client session, from the event that the transport
//! delivered to what the room does and what the session does next. The
//! caller owns the socket, the threads and the waiting.
use vstd::prelude::*;
use crate::model::{broadcast_model, chat_line, depart_model, drain_model, enter_model, has_member, mailbox_of};
use crate::room::{ChatError, Room};
use crate::text::{frame, trim_crlf, trim_line, valid_message, valid_name};

verus! {

/// The first line a new connection receives.
pub fn welcome() -> (r: &'static str)
    ensures
        r@ == "Welcome to budgetchat! What shall I call you?"@,
{
    "Welcome to budgetchat! What shall I call you?"
}

/// The inbound side's next move.
#[derive(Clone, Copy, Debug, PartialEq, Eq, Structural)]
pub enum Flow {
    /// Read the next line.
    Continue,
    /// The member has left the room: close the connection.
    Stop,
}

/// The outbound side's next move.
#[derive(Debug)]
pub enum Outbound {
    /// Write these framed lines, in order.
    Deliver(Vec<String>),
    /// Nothing to write yet: wait for mail.
    Idle,
    /// The member is no longer in the room: close the connection.
    Closed,
}

/// Handles the line received in answer to the welcome: the line, without its
/// terminator, is the name asked for. Returns that name where the room let
/// it in, and `InvalidName`, with the room unchanged, where it did not.
pub fn join_room(room: &mut Room, received: &str) -> (r: Result<String, ChatError>)
    requires
        old(room).wf(),
    ensures
        final(room).wf(),
        r is Ok <==> valid_name(trim_crlf(received@)) && !has_member(old(room)@, trim_crlf(received@)),
        r is Ok ==> r->Ok_0@ == trim_crlf(received@) && final(room)@ == enter_model(old(room)@, trim_crlf(received@)),
        r is Err ==> r == Err::<String, ChatError>(ChatError::InvalidName) && final(room)@ == old(room)@,
{
    let name = trim_line(received);
    match room.enter(name) {
        Ok(()) => Ok(String::from_str(name)),
        Err(e) => Err(e),
    }
}

/// Handles what the inbound side of member `name` read. A valid chat line
/// goes to every other member and reading goes on. A failed read or an
/// invalid line makes the member leave, with its notice to the others.
pub fn on_inbound(room: &mut Room, name: &str, received: Result<&str, ChatError>) -> (r: Flow)
    requires
        old(room).wf(),
    ensures
        final(room).wf(),
        match received {
            Ok(line) if valid_message(trim_crlf(line@)) => {
                &&& r == Flow::Continue
                &&& final(room)@ == broadcast_model(old(room)@, name@, chat_line(name@, trim_crlf(line@)))
            },
            _ => r == Flow::Stop && final(room)@ == depart_model(old(room)@, name@),
        },
{
    match received {
        Ok(line) => {
            let message = trim_line(line);
            match room.post(name, message) {
                Ok(()) => Flow::Continue,
                Err(_) => {
                    room.depart(name);
                    Flow::Stop
                },
            }
        },
        Err(_) => {
            room.depart(name);
            Flow::Stop
        },
    }
}

/// The framed form of each of `lines`, in order.
fn frame_all(lines: &Vec<String>) -> (r: Vec<String>)
    ensures
        r@.len() == lines@.len(),
        forall|k: int| 0 <= k < lines@.len() ==> #[trigger] r@[k]@ == lines@[k]@ + "\n"@,
{
    let mut r: Vec<String> = Vec::new();
    let mut i: usize = 0;
    while i < lines.len()
        invariant
            i <= lines@.len(),
            r@.len() == i,
            forall|k: int| 0 <= k < i ==> #[trigger] r@[k]@ == lines@[k]@ + "\n"@,
        decreases lines@.len() - i,
    {
        r.push(frame(lines[i].as_str()));
        i = i + 1;
    }
    r
}

/// Takes the outbound side of member `name` one step: the member's pending
/// lines are taken out of the room and handed back framed, oldest first.
pub fn on_outbound(room: &mut Room, name: &str) -> (r: Outbound)
    requires
        old(room).wf(),
    ensures
        final(room).wf(),
        final(room)@ == drain_model(old(room)@, name@),
        r is Closed <==> !has_member(old(room)@, name@),
        r is Idle <==> has_member(old(room)@, name@) && mailbox_of(old(room)@, name@).len() == 0,
        r is Deliver ==> {
            let mail = mailbox_of(old(room)@, name@);
            &&& r->Deliver_0@.len() == mail.len()
            &&& forall|k: int| 0 <= k < mail.len() ==> #[trigger] r->Deliver_0@[k]@ == mail[k] + "\n"@
        },
{
    match room.drain(name) {
        None => Outbound::Closed,
        Some(lines) => {
            if lines.len() == 0 {
                Outbound::Idle
            } else {
                let ghost mail = lines@.map_values(|l: String| l@);
                let framed = frame_all(&lines);
                assert forall|k: int| 0 <= k < mail.len() implies #[trigger] framed@[k]@ == mail[k] + "\n"@ by {
                    assert(mail[k] == lines@[k]@);
                }
                Outbound::Deliver(framed)
            }
        },
    }
}

} // verus!
