//! A single-owner, in-memory memoization cache with a time-to-live policy and a
//! bounded, insertion-ordered store.
//!
//! A [`CacheNode`] maps `u64` keys to `u64` values. It is made by
//! [`Cache::new_node`], configured through [`CapacityController`] and
//! [`ExpirationController`], and bound to a computation by
//! [`CacheNode::with_memo`]; from then on [`CacheNode::value`] serves a key
//! from the store or computes and stores it.
//!
//! The store evicts first what was inserted first. Entries become stale
//! together, once the clock is past the node's expiration. A stale read
//! either drops every entry and computes anew, or serves the stale value and
//! starts a new expiration window.
//!
//! Every operation that reads the clock has a twin that takes the instant as
//! an argument (`value_at`, `get_at`, `expires_at`,
//! `validate_expiration_at`). The contracts of the twins are exact; those of
//! the clock-reading operations say that some reading of the clock explains
//! the outcome. What an operation does to a node is written down once, as a
//! function on [`model::NodeView`], and the laws of the cache are proved
//! about those functions.

pub mod clock;
pub mod controllers;
pub mod model;
pub mod node;
pub mod policy;
pub mod registry;
pub mod store;
pub mod traits;

pub use clock::Instant;
pub use controllers::{CapacityController, ExpirationController};
pub use node::{CacheNode, Initialized, Memoized};
pub use registry::Cache;
pub use traits::{CacheCapacityController, CacheExpirationController};
