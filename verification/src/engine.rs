//! The boundary to the job engine.
//!
//! The engine turns one job descriptor into a cleaned URL in two phases:
//! build (parse the descriptor into a task configuration) and run (apply the
//! shared cleaner to the task). Both phases happen behind trusted wrappers;
//! everything around them — shaping outcomes, the worker loop, the whole
//! batch — is verified for every value the engine can hand back.

use vstd::prelude::*;

use url_cleaner_engine::types::{
    Cleaner, DoTaskError, JobContext, MakeTaskConfigError, ParamsDiff, TaskConfig, TaskState,
    Unthreader,
};

use crate::pool::{collect_round_robin, dispatch, slot_len, slot_seq};
use crate::types::{JobOutcome, StringDoJobError, StringMakeJobError};

verus! {

#[verifier::external_type_specification]
#[verifier::external_body]
pub struct ExValue(serde_json::Value);

#[verifier::external_type_specification]
#[verifier::external_body]
pub struct ExCleaner<'a>(Cleaner<'a>);

#[verifier::external_type_specification]
#[verifier::external_body]
pub struct ExJobContext(JobContext);

#[verifier::external_type_specification]
#[verifier::external_body]
pub struct ExParamsDiff(ParamsDiff);

#[verifier::external_type_specification]
#[verifier::external_body]
pub struct ExTaskConfig(TaskConfig);

// No signature here names this error type, but declaring TaskConfig makes
// Verus read TaskConfig's trait impls, and `TryFrom<&str> for TaskConfig`
// has it as its associated error type; without this declaration Verus
// refuses the crate.
#[verifier::external_type_specification]
#[verifier::external_body]
pub struct ExMakeTaskConfigError(MakeTaskConfigError);

/// What the build phase answers for one job descriptor: the task
/// configuration the descriptor parses into, or the build error's display
/// and debug renderings. The parse is a function of the descriptor alone.
pub uninterp spec fn build_of(descriptor: serde_json::Value) -> Result<
    TaskConfig,
    (String, String),
>;

/// Whether a job outcome reports the build phase faithfully: a build
/// failure, with the error's renderings carried verbatim, exactly when the
/// descriptor does not build. What a successful build's run yields is the
/// engine's business and is not constrained here.
pub open spec fn reflects_build(
    r: JobOutcome,
    build: Result<TaskConfig, (String, String)>,
) -> bool {
    match build {
        Err(e) => r matches Err(f) && f.message == e.0 && f.variant == e.1,
        Ok(_) => r is Ok,
    }
}

/// Relies on serde_json::from_value::<TaskConfig>: the build phase, turning
/// one job descriptor into a task configuration. The result depends on the
/// descriptor alone. A descriptor that does not describe a task yields the
/// engine's MakeTaskConfigError, returned as its display and debug
/// renderings.
#[verifier::external_body]
fn engine_build(descriptor: serde_json::Value) -> (r: Result<TaskConfig, (String, String)>)
    ensures
        r == build_of(descriptor),
{
    match serde_json::from_value::<TaskConfig>(descriptor) {
        Ok(config) => Ok(config),
        Err(e) => {
            let e = MakeTaskConfigError::SerdeJsonError(e);
            Err((e.to_string(), format!("{e:?}")))
        },
    }
}

/// Relies on url_cleaner_engine's Cleaner::apply: the run phase, applying
/// the shared cleaner to one built task the way the engine's task runner
/// does. A clean run yields the resulting URL's text; a failed run yields
/// the engine's DoTaskError, returned as its display and debug renderings.
#[verifier::external_body]
fn engine_run(cleaner: &Cleaner, context: &JobContext, config: TaskConfig) -> (r: Result<
    String,
    (String, String),
>) {
    let mut config = config;
    let unthreader = Unthreader::no();
    match cleaner.apply(&mut TaskState {
        url: &mut config.url, scratchpad: &mut Default::default(), common_args: None,
        context: &config.context, job_context: context, unthreader: &unthreader,
        params: &cleaner.params, commons: &cleaner.commons,
    }) {
        Ok(()) => Ok(config.url.as_str().to_owned()),
        Err(e) => {
            let e = DoTaskError::ApplyCleanerError(e);
            Err((e.to_string(), format!("{e:?}")))
        },
    }
}

/// Relies on url_cleaner_engine's ParamsDiff::apply_once, applied to a
/// borrowed copy of the shared cleaner: the batch's configuration delta is
/// applied once, before dispatch, and the shared cleaner itself is left
/// untouched.
#[verifier::external_body]
pub(crate) fn cleaner_with_diff<'a>(cleaner: &'a Cleaner<'a>, diff: ParamsDiff) -> (r: Cleaner<
    'a,
>) {
    let mut patched = cleaner.borrowed();
    diff.apply_once(&mut patched.params);
    patched
}

/// Shape the engine's two-phase answer for one job into its positional
/// outcome: the success text for a clean run, the run error's renderings as
/// the inner error, the build error's renderings as the outer error.
pub fn shape_outcome(answer: Result<Result<String, (String, String)>, (String, String)>) -> (r:
    JobOutcome)
    ensures
        r is Ok <==> answer is Ok,
        answer matches Ok(run) ==> (r matches Ok(shaped) && (shaped is Ok <==> run is Ok)),
        answer matches Ok(Ok(url)) ==> r matches Ok(Ok(out)) && out == url,
        answer matches Ok(Err(e)) ==> r matches Ok(Err(f)) && f.message == e.0 && f.variant
            == e.1,
        answer matches Err(e) ==> r matches Err(f) && f.message == e.0 && f.variant == e.1,
{
    match answer {
        Ok(Ok(url)) => Ok(Ok(url)),
        Ok(Err((message, variant))) => Ok(Err(StringDoJobError { message, variant })),
        Err((message, variant)) => Err(StringMakeJobError { message, variant }),
    }
}

/// Process one job descriptor: ask the engine to build it into a task — on
/// failure, a build-failure outcome — then to run it — on failure, a
/// run-failure outcome, otherwise the cleaned URL. Failures are captured as
/// values at the job's own position; nothing panics and no failure escapes
/// to sibling jobs. The outcome is a build failure, carrying the build
/// error's renderings, exactly when the descriptor does not build.
pub fn process_descriptor(
    cleaner: &Cleaner,
    context: &JobContext,
    descriptor: serde_json::Value,
) -> (r: JobOutcome)
    ensures
        reflects_build(r, build_of(descriptor)),
{
    let answer = match engine_build(descriptor) {
        Ok(config) => Ok(engine_run(cleaner, context, config)),
        Err(e) => Err(e),
    };
    shape_outcome(answer)
}

/// The worker loop: process the slot's inbox strictly in arrival order,
/// producing exactly one outcome per descriptor, in that same order. Each
/// outcome reports its own descriptor's build phase faithfully.
pub fn process_all(cleaner: &Cleaner, context: &JobContext, inbox: Vec<serde_json::Value>) -> (out:
    Vec<JobOutcome>)
    ensures
        out@.len() == inbox@.len(),
        forall|j: int|
            0 <= j < inbox@.len() ==> reflects_build(#[trigger] out@[j], build_of(inbox@[j])),
{
    let ghost orig = inbox@;
    let mut inbox = inbox;
    let mut out: Vec<JobOutcome> = Vec::new();
    while inbox.len() > 0
        invariant
            out@.len() + inbox@.len() == orig.len(),
            inbox@ == orig.skip(out@.len() as int),
            forall|j: int|
                0 <= j < out@.len() ==> reflects_build(#[trigger] out@[j], build_of(orig[j])),
        decreases inbox@.len(),
    {
        let ghost done: nat = out@.len();
        let descriptor = inbox.remove(0);
        proof {
            assert(descriptor == orig[done as int]);
            assert(orig.skip(done as int).remove(0) =~= orig.skip(done as int + 1));
        }
        let outcome = process_descriptor(cleaner, context, descriptor);
        out.push(outcome);
    }
    out
}

/// One whole batch, scattered and gathered sequentially: dispatch the
/// descriptors round-robin over `width` slots, let each slot process its
/// share in arrival order, and merge the outboxes in the same cyclic
/// pattern. The result has exactly one outcome per input descriptor — by
/// the round-robin round trip, the outcome of descriptor `i` stands at
/// position `i`, and it reports descriptor `i`'s own build phase
/// faithfully, whatever the pool width.
pub fn run_batch(
    cleaner: &Cleaner,
    context: &JobContext,
    jobs: Vec<serde_json::Value>,
    width: usize,
) -> (out: Vec<JobOutcome>)
    requires
        1 <= width,
    ensures
        out@.len() == jobs@.len(),
        forall|i: int|
            0 <= i < jobs@.len() ==> reflects_build(#[trigger] out@[i], build_of(jobs@[i])),
{
    let ghost all = jobs@;
    let n: usize = jobs.len();
    let inboxes = dispatch(jobs, width);
    let ghost inb = inboxes@;
    let mut inboxes = inboxes;
    let mut outboxes: Vec<Vec<JobOutcome>> = Vec::new();
    while inboxes.len() > 0
        invariant
            inb.len() == width as int,
            outboxes@.len() + inboxes@.len() == width,
            inboxes@ == inb.skip(outboxes@.len() as int),
            forall|k: int|
                0 <= k < width ==> (#[trigger] inb[k])@ == slot_seq(all, width as int, k),
            forall|k: int|
                0 <= k < outboxes@.len() ==> (#[trigger] outboxes@[k])@.len() == inb[k]@.len(),
            forall|k: int, j: int|
                #![trigger outboxes@[k]@[j]]
                0 <= k < outboxes@.len() && 0 <= j < outboxes@[k]@.len() ==> reflects_build(
                    outboxes@[k]@[j],
                    build_of(inb[k]@[j]),
                ),
        decreases inboxes@.len(),
    {
        let ghost done: nat = outboxes@.len();
        let inbox = inboxes.remove(0);
        proof {
            assert(inbox == inb.skip(done as int)[0]);
            assert(inb.skip(done as int).remove(0) =~= inb.skip(done as int + 1));
        }
        let outbox = process_all(cleaner, context, inbox);
        outboxes.push(outbox);
    }
    proof {
        assert(n as int == all.len());
        assert forall|k: int| 0 <= k < width implies (#[trigger] outboxes@[k])@.len() == slot_len(
            n as int,
            width as int,
            k,
        ) by {
            crate::pool::lemma_slot_len_nonneg(n as int, width as int, k);
        }
    }
    let ghost filled = outboxes@;
    let out = collect_round_robin(outboxes, n);
    proof {
        assert forall|i: int| 0 <= i < all.len() implies reflects_build(
            #[trigger] out@[i],
            build_of(all[i]),
        ) by {
            crate::pool::lemma_slot_seq_index(all, width as int, i);
            let k: int = i % (width as int);
            let j: int = i / (width as int);
            assert(out@[i] == filled[k]@[j]);
            assert(inb[k]@[j] == all[i]);
        }
    }
    out
}

} // verus!
