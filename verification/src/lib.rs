//! The decision core of a broadcast relay.
//!
//! Every connected client's text is forwarded to all other connected clients,
//! subject to per-client rate limiting and abuse banning. This crate holds
//! the part of such a relay that decides: the registry of admitted clients,
//! the ban list, the rules that turn one event into the next state and the
//! action to perform, and the per-connection reader's bookkeeping. It never
//! touches a socket, a clock or a thread: the caller hands in events and the
//! current time, and performs whatever the returned outcome asks for.
//!
//! All times are unsigned counts of milliseconds since an epoch of the
//! caller's choosing.
pub mod addr;
pub mod assoc;
pub mod bans;
pub mod clients;
pub mod config;
pub mod model;
pub mod notice;
pub mod reader;
pub mod server;
pub mod text;
pub mod theorems;
