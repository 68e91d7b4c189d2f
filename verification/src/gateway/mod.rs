//! The gateway: subscriptions, tunnels and a reverse proxy behind one secret path.

pub mod config;
pub mod error;
pub mod header;
pub mod nodes;
pub mod dial;
pub mod pages;
pub mod routes;
pub mod stream;
