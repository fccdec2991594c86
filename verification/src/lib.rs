//! Spatial-exclusion coordination library.
//!
//! The library enforces the invariant "no two stored points lie within a
//! radius `D` of each other" across a fleet of concurrent writers.  A
//! fixed-resolution hexagonal index narrows the candidate region around a
//! point, a lease-based mutual-exclusion protocol serialises access to
//! overlapping regions, and an orchestration protocol combines indexing,
//! locking, existence-checking and insertion into one conflict-safe
//! transaction.
//!
//! The stateful heart — the lease protocol, the ordered multi-key lock
//! discipline, the ring-expansion arithmetic and the transaction state
//! machine — is verified here.  Network backends (the lock store, the
//! document store) and the transport boundary drive these verified
//! decisions from outside.

pub mod error;
pub mod indexer;
pub mod lease;
pub mod locktable;
pub mod models;
pub mod transaction;
