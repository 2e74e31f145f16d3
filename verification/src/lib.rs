//! A proof-of-existence claim registry.
//!
//! An identified actor may register a digest (a bounded-length byte sequence)
//! as owned, later revoke the claim, or transfer ownership to another actor.
//! The registry guarantees that each digest has at most one owner and that
//! only the current owner may revoke or transfer it.
//!
//! Identity resolution, the clock that supplies sequence numbers, and the
//! delivery of notifications are all collaborators of the host environment:
//! callers hand in an already-resolved actor identifier and the current
//! clock value, and successful operations hand back the event to deliver.

pub mod errors;
pub mod laws;
pub mod registry;
