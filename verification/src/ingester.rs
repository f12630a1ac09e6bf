//! The stream ingester's decisions: how many chunk fetches run at once, what
//! is forwarded for a chunk, and how the task ends.

use vstd::prelude::*;

verus! {

/// Chunk lengths that the queue to the aggregator holds before a sender has
/// to wait.
pub const QUEUE_CAPACITY: usize = 1000;

/// Calls `num_cpus::get`: the number of processing units available, which
/// is at least one.
#[verifier::external_body]
fn available_cpus() -> (count: usize)
    ensures
        count >= 1,
{
    num_cpus::get()
}

/// How many chunk fetches may run at once: one for each available
/// processing unit.
pub fn fetch_concurrency() -> (limit: usize)
    ensures
        limit >= 1,
{
    available_cpus()
}

/// What is forwarded to the aggregator for a chunk of `bytes` bytes: its
/// length.
pub fn chunk_length(bytes: usize) -> (length: u64)
    ensures
        length == bytes,
{
    bytes as u64
}

/// Whether a stream that ends before the test's duration has elapsed ends
/// the test.
#[derive(Clone, Copy, Debug, PartialEq, Eq)]
pub enum StreamEndPolicy {
    /// The test runs for its full duration.
    KeepRunning,
    /// The test ends with the stream.
    EndTest,
}

/// What ends the ingester's work.
#[derive(Clone, Debug, PartialEq, Eq)]
pub enum IngestEvent {
    /// The stream has no more chunks.
    StreamEnded,
    /// Reading a chunk failed.
    StreamFailed {
        /// The error, as text.
        reason: String,
    },
    /// The shutdown signal was observed.
    ShutdownObserved,
}

/// How the ingester leaves.
#[derive(Clone, Debug, PartialEq, Eq)]
pub enum IngestOutcome {
    /// It abandons further reads and exits.
    Finished {
        /// Whether it fires the shutdown signal on its way out.
        fire_shutdown: bool,
    },
    /// The run is aborted with this error.
    Aborted {
        /// The error, as text.
        reason: String,
    },
}

/// Whether `outcome` is how the ingester leaves after `event` under
/// `policy`.
pub open spec fn is_outcome_for(
    outcome: IngestOutcome,
    event: IngestEvent,
    policy: StreamEndPolicy,
) -> bool {
    match event {
        IngestEvent::StreamEnded => outcome matches IngestOutcome::Finished { fire_shutdown }
            && (fire_shutdown <==> policy == StreamEndPolicy::EndTest),
        IngestEvent::StreamFailed { reason } => outcome matches IngestOutcome::Aborted {
            reason: given,
        } && given@ == reason@,
        IngestEvent::ShutdownObserved => outcome matches IngestOutcome::Finished {
            fire_shutdown,
        } && !fire_shutdown,
    }
}

/// Decides how the ingester leaves: a failed read aborts the run with the
/// read's error; the end of the stream and an observed shutdown end the
/// task, and the end of the stream fires the shutdown signal exactly under
/// the policy that ends the test with the stream.
pub fn ingest_outcome(event: IngestEvent, policy: StreamEndPolicy) -> (outcome: IngestOutcome)
    ensures
        is_outcome_for(outcome, event, policy),
{
    match event {
        IngestEvent::StreamEnded => match policy {
            StreamEndPolicy::KeepRunning => IngestOutcome::Finished { fire_shutdown: false },
            StreamEndPolicy::EndTest => IngestOutcome::Finished { fire_shutdown: true },
        },
        IngestEvent::StreamFailed { reason } => IngestOutcome::Aborted { reason },
        IngestEvent::ShutdownObserved => IngestOutcome::Finished { fire_shutdown: false },
    }
}

} // verus!
