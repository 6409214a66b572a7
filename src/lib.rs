//! An actor-style key/value store: one owner of the map, reached through
//! commands that each carry a single-use reply channel, plus the line
//! protocol and the per-connection decisions of the network front end.

pub mod store;
pub mod protocol;
pub mod actor;
pub mod session;
