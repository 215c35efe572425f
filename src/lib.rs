//! The protocol engine of a line-oriented chat room: name validation,
//! the shared room of members with their mailboxes, and message fan-out.
//! Sockets, threads and timing live with the caller. A decoder for the
//! nine-byte price records of a companion service stands beside it.
pub mod laws;
pub mod model;
pub mod price;
pub mod room;
pub mod session;
pub mod text;
