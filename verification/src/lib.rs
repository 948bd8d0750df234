//! Supervision library for a single encrypted port-forwarding tunnel run by
//! an external ssh client process.
//!
//! The library holds the pure, verified core: building the client's argument
//! list from a configuration, classifying the client's diagnostic output
//! into a closed set of statuses, and the retry/backoff state machine that
//! decides when to reconnect, what to report, and when to give up. The
//! process plumbing around it (spawning the client, watching it, locking
//! shared state across threads) lives with the caller and drives these
//! functions with plain values.

pub mod config;
pub mod status;
pub mod supervisor;
pub mod text;
