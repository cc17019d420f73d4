//! The core of a chat and call-signalling server: the directory of rooms
//! and sessions, the state machine of one connection, and the events that
//! the two exchange. Transport, text encoding and locking are the caller's.

mod clock;
pub mod connection;
pub mod directory;
pub mod membership;
pub mod table;
pub mod wire;
