//! A line-based chat over TCP: the rules of its server and of its client.
//!
//! The server has a thread that accepts connections ([`server`]), a reader for each client
//! ([`client_reader`]) and one broadcaster ([`broadcaster`]), which share the roster of the
//! clients ([`roster`]). The client has a main thread and one that shows what the server writes
//! ([`client`]). Each of them is a machine that says what to do next and is told what came of
//! it; whoever runs it does the reading, writing and waiting. [`conversation`] states what holds
//! from one end of the chat to the other.

pub mod broadcaster;
pub mod client;
pub mod client_reader;
pub mod clock;
pub mod conversation;
pub mod message;
pub mod number;
pub mod roster;
pub mod server;
pub mod text;
