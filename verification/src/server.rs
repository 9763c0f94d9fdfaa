//! The server's batch-scoped state and the top of one cleaning request.

use vstd::prelude::*;

use url_cleaner_engine::types::Cleaner;

use crate::engine::{build_of, cleaner_with_diff, reflects_build, run_batch};
use crate::types::{BulkJob, CleaningSuccess};

verus! {

/// The config for the server.
pub struct ServerConfig<'a> {
    /// The shared cleaner applied to every job. Read-only for the lifetime
    /// of each batch and shared by all of its workers.
    pub cleaner: Cleaner<'a>,
    /// The cleaner's configuration as the JSON text it was loaded from.
    pub config_string: String,
    /// The number of worker threads to spawn for each [`BulkJob`]; never
    /// zero once resolved.
    pub threads: usize,
    /// The max size, in bytes, accepted for a [`BulkJob`]'s JSON
    /// representation.
    pub max_json_size: u64,
}

impl<'a> ServerConfig<'a> {
    /// A usable configuration always has at least one worker slot.
    pub open spec fn wf(&self) -> bool {
        1 <= self.threads
    }
}

/// The state of the server.
pub struct ServerState<'a> {
    /// The [`ServerConfig`] to use.
    pub config: ServerConfig<'a>,
    /// The number of [`BulkJob`]s handled. Used for naming threads.
    pub bulk_jobs_count: usize,
}

impl<'a> ServerState<'a> {
    /// Take the id for the next batch: the count of batches handled so far,
    /// stepping the counter. The id serves diagnostics and thread naming
    /// only, so the counter wraps at its numeric bound instead of failing.
    pub fn next_batch_id(&mut self) -> (id: usize)
        ensures
            id == old(self).bulk_jobs_count,
            final(self).bulk_jobs_count == if old(self).bulk_jobs_count == usize::MAX {
                0usize
            } else {
                (old(self).bulk_jobs_count + 1) as usize
            },
            final(self).config == old(self).config,
    {
        let id: usize = self.bulk_jobs_count;
        if self.bulk_jobs_count == usize::MAX {
            self.bulk_jobs_count = 0;
        } else {
            self.bulk_jobs_count = self.bulk_jobs_count + 1;
        }
        id
    }
}

/// Resolve the configured pool width: zero means "use the detected hardware
/// parallelism", any other value stands as it is. The result is never zero,
/// so a pool always has at least one worker.
pub fn resolve_pool_width(requested: usize, detected: usize) -> (width: usize)
    requires
        1 <= detected,
    ensures
        1 <= width,
        width == if requested == 0 {
            detected
        } else {
            requested
        },
{
    if requested == 0 {
        detected
    } else {
        requested
    }
}

/// One whole cleaning request, minus the HTTP framing around it: apply the
/// batch's configuration delta, if any, to a borrowed copy of the shared
/// cleaner, then scatter the descriptors over the pool, process each exactly
/// once, and gather the outcomes in input order. The response holds exactly
/// one outcome per input descriptor; a failure of one job is captured at its
/// own position and never aborts its siblings. The outcome at position `i`
/// reports descriptor `i`'s own build phase faithfully, whatever the
/// configured pool width.
pub fn clean<'a>(config: &ServerConfig<'a>, bulk_job: BulkJob) -> (r: CleaningSuccess)
    requires
        config.wf(),
    ensures
        r.urls@.len() == bulk_job.jobs@.len(),
        forall|i: int|
            0 <= i < bulk_job.jobs@.len() ==> reflects_build(
                #[trigger] r.urls@[i],
                build_of(bulk_job.jobs@[i]),
            ),
{
    let BulkJob { jobs, context, params_diff } = bulk_job;
    match params_diff {
        Some(diff) => {
            let patched = cleaner_with_diff(&config.cleaner, diff);
            CleaningSuccess { urls: run_batch(&patched, &context, jobs, config.threads) }
        },
        None => CleaningSuccess {
            urls: run_batch(&config.cleaner, &context, jobs, config.threads),
        },
    }
}

} // verus!
