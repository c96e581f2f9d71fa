//! The synchronization engine of a real-time counter and chat server.
//!
//! Clients hold a persistent connection, claim a display name, add to the
//! shared counter kept under that name and exchange chat text. This crate is
//! the part of the server that decides: the shared counter store, the registry
//! of live connections, the state machine that handles what one connection
//! sends, and the fan-out of notices to the other connections. Reading from
//! and writing to the transport is left to the caller.

pub mod lifecycle;
pub mod message;
pub mod outbox;
pub mod registry;
pub mod session;
pub mod store;
pub mod text;
