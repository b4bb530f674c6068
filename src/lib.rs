//! Read-through cache and rate-limited proxy in front of a gaming-statistics API.
//!
//! The library holds the decisions of the pipeline: the quota buckets that gate
//! upstream calls, the retry and backoff machine for throttled replies, the
//! snapshot cache and its selection policy, and the usage ledger that guards the
//! secondary generation endpoint. Network, storage and sleeping are left to the
//! caller, which hands the library plain values and performs the actions it
//! returns.

pub mod quota;
pub mod keyed;
pub mod document;
pub mod retry;
pub mod models;
pub mod cache;
pub mod ledger;
