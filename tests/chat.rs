use budget_chat::room::{chat_message, entered_notice, left_notice, ChatError, Room};
use budget_chat::session::{join_room, on_inbound, on_outbound, welcome, Flow, Outbound};
use budget_chat::text::{frame, is_valid_message, is_valid_username, trim_line};

fn drained(room: &mut Room, name: &str) -> Vec<String> {
    room.drain(name).expect("member present")
}

#[test]
fn names_rejected() {
    let mut room = Room::new();
    assert_eq!(room.enter("bob"), Ok(()));
    assert_eq!(room.enter(""), Err(ChatError::InvalidName));
    assert_eq!(room.enter(&"a".repeat(51)), Err(ChatError::InvalidName));
    assert_eq!(room.enter("bob!"), Err(ChatError::InvalidName));
    assert_eq!(room.enter("bob"), Err(ChatError::InvalidName));
    assert_eq!(room.names(), vec!["bob".to_string()]);
}

#[test]
fn names_accepted() {
    let mut room = Room::new();
    assert_eq!(room.enter("a"), Ok(()));
    assert_eq!(room.enter("Bob123"), Ok(()));
    let long = "x".repeat(50);
    assert_eq!(room.enter(&long), Ok(()));
    assert_eq!(room.names(), vec!["a".to_string(), "Bob123".to_string(), long]);
}

#[test]
fn username_character_rules() {
    assert!(is_valid_username("Z9"));
    assert!(!is_valid_username("with space"));
    assert!(!is_valid_username("caf\u{e9}"));
    assert!(!is_valid_username("under_score"));
    assert!(!is_valid_username("tab\t"));
}

#[test]
fn message_rules() {
    assert!(is_valid_message("hi"));
    assert!(is_valid_message(" "));
    assert!(!is_valid_message(""));
    assert!(!is_valid_message("gr\u{fc}n"));
}

#[test]
fn trimming_and_framing() {
    assert_eq!(trim_line("alice\r\n"), "alice");
    assert_eq!(trim_line("alice\n"), "alice");
    assert_eq!(trim_line("alice"), "alice");
    assert_eq!(trim_line("a\rb\n"), "a\rb");
    assert_eq!(trim_line("\r\n"), "");
    assert_eq!(frame("* bob has left the room"), "* bob has left the room\n");
    assert_eq!(welcome(), "Welcome to budgetchat! What shall I call you?");
}

#[test]
fn two_clients_chat_and_leave() {
    let mut room = Room::new();
    assert_eq!(join_room(&mut room, "alice\n"), Ok("alice".to_string()));
    match on_outbound(&mut room, "alice") {
        Outbound::Deliver(lines) => assert_eq!(lines, vec!["* The room contains: \n".to_string()]),
        other => panic!("unexpected {:?}", other),
    }
    assert_eq!(join_room(&mut room, "bob\r\n"), Ok("bob".to_string()));
    match on_outbound(&mut room, "bob") {
        Outbound::Deliver(lines) => assert_eq!(lines, vec!["* The room contains: alice\n".to_string()]),
        other => panic!("unexpected {:?}", other),
    }
    match on_outbound(&mut room, "alice") {
        Outbound::Deliver(lines) => assert_eq!(lines, vec!["* bob has entered the room\n".to_string()]),
        other => panic!("unexpected {:?}", other),
    }
    assert_eq!(on_inbound(&mut room, "alice", Ok("hi\n")), Flow::Continue);
    match on_outbound(&mut room, "bob") {
        Outbound::Deliver(lines) => assert_eq!(lines, vec!["[alice] hi\n".to_string()]),
        other => panic!("unexpected {:?}", other),
    }
    assert!(matches!(on_outbound(&mut room, "alice"), Outbound::Idle));
    assert_eq!(on_inbound(&mut room, "bob", Err(ChatError::ConnectionClosed)), Flow::Stop);
    match on_outbound(&mut room, "alice") {
        Outbound::Deliver(lines) => assert_eq!(lines, vec!["* bob has left the room\n".to_string()]),
        other => panic!("unexpected {:?}", other),
    }
    assert!(matches!(on_outbound(&mut room, "bob"), Outbound::Closed));
}

#[test]
fn same_name_claimed_twice() {
    let mut room = Room::new();
    let first = join_room(&mut room, "carol\n");
    let second = join_room(&mut room, "carol\n");
    assert_eq!(first, Ok("carol".to_string()));
    assert_eq!(second, Err(ChatError::InvalidName));
    assert_eq!(room.names(), vec!["carol".to_string()]);
    assert_eq!(drained(&mut room, "carol"), vec!["* The room contains: ".to_string()]);
}

#[test]
fn joins_see_each_other_once() {
    let mut room = Room::new();
    room.enter("zed").unwrap();
    room.enter("ann").unwrap();
    room.enter("ben").unwrap();
    assert_eq!(
        drained(&mut room, "ann"),
        vec!["* The room contains: zed".to_string(), "* ben has entered the room".to_string()]
    );
    assert_eq!(drained(&mut room, "ben"), vec!["* The room contains: zed, ann".to_string()]);
}

#[test]
fn own_lines_not_echoed() {
    let mut room = Room::new();
    room.enter("alice").unwrap();
    room.enter("bob").unwrap();
    room.drain("alice");
    room.drain("bob");
    assert_eq!(room.post("alice", "hello"), Ok(()));
    assert_eq!(drained(&mut room, "alice"), Vec::<String>::new());
    assert_eq!(drained(&mut room, "bob"), vec!["[alice] hello".to_string()]);
}

#[test]
fn mailbox_keeps_order() {
    let mut room = Room::new();
    room.enter("m").unwrap();
    room.enqueue("m", "A");
    room.enqueue("m", "B");
    assert_eq!(
        drained(&mut room, "m"),
        vec!["* The room contains: ".to_string(), "A".to_string(), "B".to_string()]
    );
    assert_eq!(drained(&mut room, "m"), Vec::<String>::new());
}

#[test]
fn enqueue_to_absent_member_is_dropped() {
    let mut room = Room::new();
    room.enter("m").unwrap();
    room.enqueue("nobody", "A");
    assert_eq!(room.names(), vec!["m".to_string()]);
    assert_eq!(room.drain("nobody"), None);
}

#[test]
fn departure_notice_sent_once() {
    let mut room = Room::new();
    room.enter("alice").unwrap();
    room.enter("bob").unwrap();
    room.drain("alice");
    assert!(room.depart("bob"));
    assert!(!room.depart("bob"));
    assert_eq!(drained(&mut room, "alice"), vec!["* bob has left the room".to_string()]);
    assert!(!room.contains("bob"));
}

#[test]
fn invalid_line_ends_session() {
    let mut room = Room::new();
    room.enter("alice").unwrap();
    room.enter("bob").unwrap();
    room.drain("alice");
    assert_eq!(on_inbound(&mut room, "bob", Ok("\r\n")), Flow::Stop);
    assert_eq!(on_inbound(&mut room, "bob", Err(ChatError::Timeout)), Flow::Stop);
    assert_eq!(drained(&mut room, "alice"), vec!["* bob has left the room".to_string()]);
}

#[test]
fn non_ascii_message_refused() {
    let mut room = Room::new();
    room.enter("alice").unwrap();
    assert_eq!(room.post("alice", "\u{e9}t\u{e9}"), Err(ChatError::InvalidMessage));
    assert_eq!(room.post("alice", ""), Err(ChatError::InvalidMessage));
}

#[test]
fn remove_hands_back_mail() {
    let mut room = Room::new();
    room.enter("alice").unwrap();
    room.enqueue("alice", "x");
    assert_eq!(
        room.remove("alice"),
        Some(vec!["* The room contains: ".to_string(), "x".to_string()])
    );
    assert_eq!(room.remove("alice"), None);
    assert!(room.names().is_empty());
}

#[test]
fn roster_and_notices() {
    let mut room = Room::new();
    assert_eq!(room.roster(), "* The room contains: ");
    room.enter("a").unwrap();
    room.enter("b").unwrap();
    room.enter("c").unwrap();
    assert_eq!(room.roster(), "* The room contains: a, b, c");
    assert_eq!(entered_notice("bob"), "* bob has entered the room");
    assert_eq!(left_notice("bob"), "* bob has left the room");
    assert_eq!(chat_message("bob", "yo"), "[bob] yo");
}

#[test]
fn broadcast_skips_only_sender() {
    let mut room = Room::new();
    room.enter("a").unwrap();
    room.enter("b").unwrap();
    room.enter("c").unwrap();
    room.drain("a");
    room.drain("b");
    room.drain("c");
    room.broadcast_except("b", "note");
    assert_eq!(drained(&mut room, "a"), vec!["note".to_string()]);
    assert_eq!(drained(&mut room, "b"), Vec::<String>::new());
    assert_eq!(drained(&mut room, "c"), vec!["note".to_string()]);
}
