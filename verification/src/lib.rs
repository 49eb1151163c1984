//! A text-messaging relay: clients register under a username over a pair of
//! connections, one in each direction, and exchange short messages that are
//! addressed by the recipient's username.
//!
//! The crate holds the relay's rules and proves them: the shapes that travel
//! on the wire, the registry of reachable users, the queues of messages that
//! wait for a recipient, and the decisions that the acceptor and the two kinds
//! of connection handler take. Sockets and tasks are the caller's.

pub mod bus;
pub mod client;
pub mod codec;
pub mod error;
pub mod laws;
pub mod registry;
pub mod request;
pub mod server;
