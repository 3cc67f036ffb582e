//! A room-based message relay core: an in-memory store of per-room message
//! histories and the pure event-handling protocol that interprets "join" and
//! "message" events, decides what is stored, and decides what is emitted to
//! whom. The transport layer (sockets, framing, payload encoding) lives
//! outside this crate and only performs the actions this core hands back.

pub mod message;
pub mod store;
pub mod protocol;
pub mod laws;
