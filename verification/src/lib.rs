//! Request handling for an edge tunnel.
//!
//! A worker at the edge of a network carries the traffic of its clients: they open a web socket,
//! say in a header who they are and where they want to go, and the worker connects them. It also
//! hands out the documents with which clients are set up. Three such workers are here: the
//! [`gateway`], the [`relay`] and the [`bridge`].

pub mod address;
pub mod bridge;
pub mod codec;
pub mod endpoint;
pub mod environment;
pub mod gateway;
pub mod identity;
pub mod preferred;
pub mod relay;
pub mod reply;
pub mod text;
pub mod traffic;
pub mod upgrade;
