//! Gossip propagation core of a mesh node: per-transport neighbour tables,
//! a signed, deduplicated feed store with catch-up queries, and the local
//! user session registry.

pub mod bytes;
pub mod keyed;
pub mod neighbours;
pub mod feed;
pub mod flood;
pub mod rpc;
pub mod laws;
pub mod users;
pub mod chat;
