//! The relay: the same services as the gateway, with settings of its own and keys that can be read
//! off the secret path.

pub mod config;
pub mod dial;
pub mod error;
pub mod header;
pub mod nodes;
pub mod pages;
pub mod routes;
pub mod stream;
