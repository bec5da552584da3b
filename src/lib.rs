//! Room state engine for a Matrix-style chat server: membership, power levels,
//! authorization of state changes, resolution of competing state events, and the
//! room orchestration built on top of them.

pub mod auth;
pub mod client_server;
pub mod conduit;
pub mod error;
pub mod events;
pub mod federation;
pub mod resolver;
pub mod room;
pub mod sources;
pub mod state;
pub mod store;
pub mod table;
pub mod util;
