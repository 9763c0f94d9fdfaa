//! A batch URL-cleaning library: accepts a batch of independent job
//! descriptors, processes them concurrently across a fixed pool of worker
//! slots, and returns the results in the exact order the jobs were
//! submitted — without attaching sequence numbers to any message. Jobs are
//! dispatched to slots by input index modulo the pool width and collected by
//! visiting the slots cyclically in that same pattern, which is proved to
//! restore the input order.
//!
//! The domain-specific transformation of each job is done by an external job
//! engine behind a small trusted boundary; the partitioning, ordering and
//! error discipline around it are verified.
//!
//! There is deliberately no per-job or per-batch timeout and no
//! cancellation: an engine call that never returns blocks its worker slot,
//! and with it the whole batch.

pub mod engine;
pub mod host;
pub mod pool;
pub mod server;
pub mod types;
