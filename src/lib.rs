//! Chat over value transfers: the synchronisation core that reconciles a
//! wallet engine's event stream, the cache of built but unbroadcast
//! transactions and the persisted message and contact history.
//!
//! - `records`: the persisted message and contact rows.
//! - `pending`: the cache of built, not yet broadcast transactions.
//! - `events`: the wallet engine's events and what they carry.
//! - `wallet`: the chat side of a wallet session: build, broadcast, clear,
//!   and the one-event-at-a-time daemon step.
//! - `store`: contacts and messages, with the rules for adding, removing and
//!   advancing them.
//! - `sync`: the send path and the reconciliation of inbox and confirmations
//!   with the store.
//! - `session`: the application context that owns the session and the store.
//! - `laws`: properties that hold across several operations.

pub mod records;
pub mod pending;
pub mod events;
pub mod wallet;
pub mod store;
pub mod sync;
pub mod session;
pub mod laws;
