//! The aggregator's buffer of chunk lengths that have been delivered but not
//! yet counted.
//!
//! Lengths arrive one at a time. Whenever the measurement state can be had
//! without waiting, all buffered lengths are counted at once; otherwise they
//! stay buffered until the next delivery.

use crate::measurement::{lemma_total_of_push, total_of, MeasurementError, MeasurementState};
use crate::shutdown::TaskStep;
use vstd::prelude::*;

verus! {

/// Chunk lengths delivered to the aggregator and not yet counted, oldest
/// first.
pub struct PendingChunks {
    lengths: Vec<u64>,
}

impl View for PendingChunks {
    type V = Seq<u64>;

    closed spec fn view(&self) -> Seq<u64> {
        self.lengths@
    }
}

/// The total of a prefix is no more than the total of the whole.
pub proof fn lemma_total_of_prefix(chunks: Seq<u64>, n: int)
    requires
        0 <= n <= chunks.len(),
    ensures
        total_of(chunks.subrange(0, n)) <= total_of(chunks),
    decreases chunks.len(),
{
    if n == chunks.len() {
        assert(chunks.subrange(0, n) =~= chunks);
    } else {
        lemma_total_of_prefix(chunks.drop_last(), n);
        assert(chunks.drop_last().subrange(0, n) =~= chunks.subrange(0, n));
    }
}

impl PendingChunks {
    /// An empty buffer.
    pub fn new() -> (pending: PendingChunks)
        ensures
            pending@ == Seq::<u64>::empty(),
    {
        PendingChunks { lengths: Vec::new() }
    }

    /// Number of buffered lengths.
    pub fn len(&self) -> (n: usize)
        ensures
            n == self@.len(),
    {
        self.lengths.len()
    }

    /// Buffers one delivered length behind those already waiting.
    pub fn push(&mut self, len: u64)
        ensures
            final(self)@ == old(self)@.push(len),
            total_of(final(self)@) == total_of(old(self)@) + len,
    {
        proof {
            lemma_total_of_push(self.lengths@, len);
        }
        self.lengths.push(len);
    }

    /// Whether counting every buffered length would keep the total of `state`
    /// within 64 bits.
    pub fn fits(&self, state: &MeasurementState) -> (ok: bool)
        ensures
            ok <==> state@.total_bytes + total_of(self@) <= u64::MAX,
    {
        let room: u64 = u64::MAX - state.total_bytes();
        let mut sum: u64 = 0;
        let mut i: usize = 0;
        while i < self.lengths.len()
            invariant
                i <= self.lengths.len(),
                sum == total_of(self.lengths@.subrange(0, i as int)),
                sum <= room,
                room == u64::MAX - state@.total_bytes,
            decreases self.lengths.len() - i,
        {
            let len = self.lengths[i];
            proof {
                let next = self.lengths@.subrange(0, i + 1);
                assert(next.drop_last() =~= self.lengths@.subrange(0, i as int));
                assert(next.last() == len);
                lemma_total_of_prefix(self.lengths@, i + 1);
            }
            if len > room - sum {
                return false;
            }
            sum = sum + len;
            i = i + 1;
        }
        proof {
            assert(self.lengths@.subrange(0, i as int) =~= self.lengths@);
        }
        true
    }

    /// Counts every buffered length in `state`, oldest first, and empties the
    /// buffer. Refused, with buffer and state unchanged, exactly when the
    /// total would pass `u64::MAX`. Either way no delivered byte is lost or
    /// counted twice.
    pub fn flush_into(&mut self, state: &mut MeasurementState) -> (outcome: Result<
        (),
        MeasurementError,
    >)
        requires
            old(state).wf(),
        ensures
            final(state).wf(),
            outcome is Ok <==> old(state)@.total_bytes + total_of(old(self)@) <= u64::MAX,
            outcome is Ok ==> final(state)@ == old(state)@.ingest_all(old(self)@) && final(self)@
                == Seq::<u64>::empty(),
            outcome is Err ==> *final(state) == *old(state) && final(self)@ == old(self)@,
            outcome matches Err(error) ==> error == MeasurementError::TotalOverflow,
            final(state)@.total_bytes + total_of(final(self)@) == old(state)@.total_bytes
                + total_of(old(self)@),
    {
        if !self.fits(state) {
            return Err(MeasurementError::TotalOverflow);
        }
        let mut i: usize = 0;
        while i < self.lengths.len()
            invariant
                i <= self.lengths.len(),
                self.lengths@ == old(self).lengths@,
                state.wf(),
                state@ == old(state)@.ingest_all(self.lengths@.subrange(0, i as int)),
                old(state)@.total_bytes + total_of(self.lengths@) <= u64::MAX,
            decreases self.lengths.len() - i,
        {
            let len = self.lengths[i];
            proof {
                let done = self.lengths@.subrange(0, i as int);
                let next = self.lengths@.subrange(0, i + 1);
                assert(next.drop_last() =~= done);
                assert(next.last() == len);
                old(state)@.lemma_ingest_all(done);
                lemma_total_of_push(done, len);
                assert(done.push(len) =~= next);
                lemma_total_of_prefix(self.lengths@, i + 1);
            }
            let _ = state.record_chunk(len);
            i = i + 1;
        }
        proof {
            assert(self.lengths@.subrange(0, i as int) =~= self.lengths@);
            old(state)@.lemma_ingest_all(self.lengths@);
        }
        self.lengths.clear();
        Ok(())
    }
}

/// What the aggregator's loop receives.
#[derive(Clone, Copy, Debug, PartialEq, Eq)]
pub enum AggregatorEvent {
    /// A chunk length arrived on the queue.
    Delivered {
        /// The chunk's length in bytes.
        length: u64,
    },
    /// The queue closed: no sender is left.
    QueueClosed,
    /// The shutdown signal was observed.
    ShutdownObserved,
}

/// The buffer after `event`: a delivered length joins the end, anything else
/// leaves the buffer alone.
pub open spec fn after_event(pending: Seq<u64>, event: AggregatorEvent) -> Seq<u64> {
    match event {
        AggregatorEvent::Delivered { length } => pending.push(length),
        AggregatorEvent::QueueClosed => pending,
        AggregatorEvent::ShutdownObserved => pending,
    }
}

/// The aggregator's step: a delivered length is buffered and the loop goes
/// on; a closed queue and an observed shutdown end it, with the buffer as
/// it is.
pub fn aggregator_step(pending: &mut PendingChunks, event: AggregatorEvent) -> (step: TaskStep)
    ensures
        final(pending)@ == after_event(old(pending)@, event),
        step == TaskStep::Continue <==> event is Delivered,
        step == TaskStep::Stop <==> !(event is Delivered),
{
    match event {
        AggregatorEvent::Delivered { length } => {
            pending.push(length);
            TaskStep::Continue
        },
        AggregatorEvent::QueueClosed => TaskStep::Stop,
        AggregatorEvent::ShutdownObserved => TaskStep::Stop,
    }
}

} // verus!
