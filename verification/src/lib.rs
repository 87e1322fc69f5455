//! A dynamic-DNS convergence library.
//!
//! The crate keeps a managed set of DNS address records in step with the
//! addresses a host currently has. Its heart is a reconciliation engine
//! that diffs the desired addresses against the remote records as bags
//! keyed by `(kind, value)` and emits the minimal plan of removals and
//! additions, plus an additive backoff scheduler that paces retries.
//! Transport (address discovery, the record store's wire protocol) lives
//! outside the library; callers hand in plain values and execute the plan.

pub mod backoff;
pub mod engine;
pub mod record;
