//! The bridge: tunnels and nothing else, for one key.

pub mod error;
pub mod header;
pub mod routes;
pub mod stream;
