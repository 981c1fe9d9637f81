//! Newsletter delivery core: an idempotent publish operation, a persistent
//! per-recipient delivery queue consumed by background workers, and a
//! retention sweep that bounds the idempotency store.
//!
//! The durable state (idempotency records, newsletter issues, delivery
//! tasks) is modelled by an explicit store; every operation on it is an
//! atomic transaction with a proved contract.

pub mod auth;
pub(crate) mod clock;
pub mod configuration;
pub mod delivery;
pub mod direct_publish;
pub mod domain;
pub mod html;
pub mod idempotency;
pub mod idempotency_key;
pub mod laws;
pub mod publish;
pub mod response;
pub mod retention;
pub mod store;
pub mod subscriptions;
