//! A replicated service registry with client-side load balancing.
//!
//! Service instances register with a registry node, renew a time-bounded
//! lease, and are evicted when they fall silent. Every write on a node is
//! fanned out to its peers. Consumers look up the live instances of a
//! service and rotate across them.
//!
//! The crate holds the decisions of both the server node and the client and
//! performs no network or lock operation itself: a caller drives the
//! sockets and hands the outcomes back.

pub mod client;
pub mod clock;
pub mod http;
pub mod instance;
pub mod server;
pub mod strmap;
pub mod text;
