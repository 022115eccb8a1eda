//! A per-publisher late-joiner cache for a pub/sub + query fabric.
//!
//! The cache mirrors recent publications on a set of key expressions,
//! answers replay queries over the same fabric, and enforces a per-key
//! history bound together with a global bound on distinct stored keys.
//!
//! The crate holds the verified core: the key-expression engine, the
//! bounded sample store, the builder with its validation, the query
//! responder, and the event-step logic of the cache task. Declaring the
//! subscriber and queryable endpoints, running the event loop, and all
//! channel I/O live outside this crate; they hand events in and carry
//! replies out as plain values.

pub mod builder;
pub mod cache;
pub mod keyexpr;
pub mod locator;
pub mod responder;
pub mod store;
