//! Work dispatch and result aggregation for an HTTP load generator.
//!
//! The library holds the decisions of a run: which request index a worker
//! takes next, how a finished exchange is classified and folded into the
//! run's statistics, how the header list is read, and what the final
//! report says. Sending requests, timing them and printing are left to the
//! caller.

pub mod body;
pub mod counter;
pub mod dispatch;
pub mod headers;
pub mod report;
pub mod stats;
