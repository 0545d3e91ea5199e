//! Cache-and-coordination layer for a multi-process chat-platform gateway
//! fleet.
//!
//! A fleet of shard processes receives an ordered stream of domain events and
//! keeps a shared external key-value store synchronized with the entity graph
//! those events describe. This crate holds the verified logic of that layer:
//! the cache synchronizer, the identify admission gate, and the shard health
//! tracker. The store itself, the wire protocol and the codec are external
//! collaborators; the unverified binary around this crate performs their I/O
//! and feeds plain values in and out.

pub mod admission;
pub mod config;
pub mod health;
pub mod router;
pub mod event;
pub mod laws;
pub mod model;
pub mod ops;
pub mod records;
pub mod store;
pub mod sync;

use vstd::prelude::*;

verus! {

} // verus!
