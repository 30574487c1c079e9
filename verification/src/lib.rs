//! A verified document-hash registry.
//!
//! The registry permanently records that a document, identified by a
//! 64-character hash, was registered by an identity at a given time, and
//! answers queries about those registrations: whether a hash is registered,
//! which documents an identity registered and in what order, and whether an
//! identity has used a document name before.
//!
//! The registry itself is an explicit value, [`registry::DocumentVerificationContract`],
//! owned and threaded by the caller. The host around it supplies what the
//! registry does not decide: the caller's authorization, the current
//! timestamp, and the sequence number of the block the registration lands in,
//! and it publishes the [`types::DocumentRegisteredEvent`] that a successful
//! registration calls for.

pub mod laws;
pub mod model;
pub mod registry;
pub mod scan;
pub mod types;
pub mod validate;
