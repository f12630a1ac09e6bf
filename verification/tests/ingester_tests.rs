use lan_speed_test::ingester::{
    chunk_length, fetch_concurrency, ingest_outcome, IngestEvent, IngestOutcome, StreamEndPolicy,
    QUEUE_CAPACITY,
};

#[test]
fn queue_holds_a_thousand_lengths() {
    assert_eq!(QUEUE_CAPACITY, 1000);
}

#[test]
fn at_least_one_fetch_runs() {
    assert!(fetch_concurrency() >= 1);
}

#[test]
fn chunk_length_is_its_size() {
    assert_eq!(chunk_length(0), 0);
    assert_eq!(chunk_length(65536), 65536);
    assert_eq!(chunk_length(usize::MAX), usize::MAX as u64);
}

#[test]
fn failed_read_aborts_the_run() {
    let event = IngestEvent::StreamFailed { reason: String::from("connection reset") };
    assert_eq!(
        ingest_outcome(event.clone(), StreamEndPolicy::KeepRunning),
        IngestOutcome::Aborted { reason: String::from("connection reset") }
    );
    assert_eq!(
        ingest_outcome(event, StreamEndPolicy::EndTest),
        IngestOutcome::Aborted { reason: String::from("connection reset") }
    );
}

#[test]
fn end_of_stream_follows_the_policy() {
    assert_eq!(
        ingest_outcome(IngestEvent::StreamEnded, StreamEndPolicy::KeepRunning),
        IngestOutcome::Finished { fire_shutdown: false }
    );
    assert_eq!(
        ingest_outcome(IngestEvent::StreamEnded, StreamEndPolicy::EndTest),
        IngestOutcome::Finished { fire_shutdown: true }
    );
}

#[test]
fn shutdown_ends_the_ingester_quietly() {
    assert_eq!(
        ingest_outcome(IngestEvent::ShutdownObserved, StreamEndPolicy::EndTest),
        IngestOutcome::Finished { fire_shutdown: false }
    );
    assert_eq!(
        ingest_outcome(IngestEvent::ShutdownObserved, StreamEndPolicy::KeepRunning),
        IngestOutcome::Finished { fire_shutdown: false }
    );
}
