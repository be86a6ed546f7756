//! A verified messaging backend core: a persistent store of users, groups,
//! messages and their delivery index over an embedded transactional
//! database, and the session layer that authenticates connections and fans
//! events out to live recipients.
//!
//! The store's cross-table invariants (username uniqueness, the bijection
//! between message rows and delivery-index entries, membership referential
//! integrity) and the contract of every operation are stated over a
//! mathematical model of the table contents and machine-checked.

pub mod laws;
pub mod model;
pub mod presence;
pub mod protocol;
pub mod session;
pub mod storage;
pub mod store;
pub mod types;
