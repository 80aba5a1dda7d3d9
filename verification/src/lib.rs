//! Relay engine for a length-prefixed, lightly obfuscated game protocol.
//!
//! The crate holds the pure part of an intercepting relay: the frame codec,
//! the resumable read state of a connection, and the session that pairs two
//! connections, queues their packets and rewrites some of them in flight.
//! Sockets stay with the caller, who hands in what a read returned and
//! writes out the frames that come back.

pub mod numeric;
pub mod obfuscation;
pub mod frame;
pub mod stream;
pub mod bus;
pub mod delivery;
pub mod outgoing;
pub mod dispatch;
pub mod session;
pub mod settings;
