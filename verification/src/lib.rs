//! Verified core of a pending-transaction watcher for decentralized-exchange
//! routers: an address-keyed interface cache, a router/factory registry, a
//! selector-based call-data classifier, and the stream-pump step logic.

pub mod address;
pub mod bytes;
pub mod cache;
pub mod classify;
pub mod codec;
pub mod hashing;
pub mod interface;
pub mod pump;
pub mod registry;
