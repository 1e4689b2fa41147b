//! The registry node: lease store, eviction, replication to peers, and the
//! decisions of its HTTP surface.

pub mod auth;
pub mod dispatcher;
pub mod env;
pub mod error;
pub mod eviction;
pub mod laws;
pub mod registry;
pub mod routes;
