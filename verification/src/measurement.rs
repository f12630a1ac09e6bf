//! Measurement state of one throughput test: the byte totals, the sliding
//! window of rate samples and the peak rate.
//!
//! Time is a count of nanoseconds on the test's monotonic clock. A rate sample
//! is a whole number of bytes per second: the bytes of one reporting interval,
//! scaled to a second and rounded down.

use vstd::prelude::*;

verus! {

/// Nanoseconds in one second.
pub const NANOS_PER_SECOND: u128 = 1_000_000_000;

/// Number of rate samples that the sliding window holds unless told otherwise.
pub const DEFAULT_WINDOW_CAPACITY: u32 = 20;

/// Upper bound of every rate sample: all of `u64` delivered in one nanosecond.
pub const MAX_RATE: u128 = 18_446_744_073_709_551_615_000_000_000;

/// Sum of a sequence of chunk lengths.
pub open spec fn total_of(chunks: Seq<u64>) -> nat
    decreases chunks.len(),
{
    if chunks.len() == 0 {
        0
    } else {
        total_of(chunks.drop_last()) + chunks.last() as nat
    }
}

/// Sum of a sequence of rate samples.
pub open spec fn sum_of(samples: Seq<u128>) -> nat
    decreases samples.len(),
{
    if samples.len() == 0 {
        0
    } else {
        sum_of(samples.drop_last()) + samples.last() as nat
    }
}

/// Largest of a sequence of rate samples; zero when there is none.
pub open spec fn peak_of(samples: Seq<u128>) -> nat
    decreases samples.len(),
{
    if samples.len() == 0 {
        0
    } else if samples.last() as nat > peak_of(samples.drop_last()) {
        samples.last() as nat
    } else {
        peak_of(samples.drop_last())
    }
}

/// The `capacity` most recent samples, oldest first; all of them while there
/// are no more than `capacity`.
pub open spec fn most_recent(samples: Seq<u128>, capacity: nat) -> Seq<u128> {
    if samples.len() <= capacity {
        samples
    } else {
        samples.subrange(samples.len() - capacity, samples.len() as int)
    }
}

/// Bytes per second, rounded down, of `bytes` delivered over `elapsed_nanos`.
pub open spec fn rate_of(bytes: nat, elapsed_nanos: nat) -> nat
    recommends
        elapsed_nanos > 0,
{
    bytes * 1_000_000_000 / elapsed_nanos
}

/// Mathematical model of a [`MeasurementState`].
pub struct MeasurementView {
    /// All bytes ever ingested.
    pub total_bytes: nat,
    /// Bytes ingested since the last reporting tick.
    pub bytes_since_last_report: nat,
    /// Time of the last reporting tick, or of creation before the first.
    pub last_report_time: nat,
    /// The sliding window, oldest sample first.
    pub rate_window: Seq<u128>,
    /// Most samples that the window holds.
    pub capacity: nat,
    /// The newest sample; zero before the first tick.
    pub last_rate: nat,
    /// The largest sample so far; zero before the first tick.
    pub peak_rate: nat,
    /// Every chunk length ingested, in order of ingestion.
    pub chunks: Seq<u64>,
    /// Every rate sample computed, in order of computation.
    pub samples: Seq<u128>,
}

impl MeasurementView {
    /// What holds of every reachable state.
    pub open spec fn consistent(self) -> bool {
        &&& self.capacity >= 1
        &&& self.total_bytes == total_of(self.chunks)
        &&& self.bytes_since_last_report <= self.total_bytes
        &&& self.rate_window == most_recent(self.samples, self.capacity)
        &&& self.peak_rate == peak_of(self.samples)
        &&& self.last_rate == if self.samples.len() == 0 {
            0
        } else {
            self.samples.last() as nat
        }
        &&& forall|i: int| 0 <= i < self.samples.len() ==> #[trigger] self.samples[i] <= MAX_RATE
    }

    /// The state at creation.
    pub open spec fn initial(now: nat, capacity: nat) -> MeasurementView {
        MeasurementView {
            total_bytes: 0,
            bytes_since_last_report: 0,
            last_report_time: now,
            rate_window: Seq::empty(),
            capacity,
            last_rate: 0,
            peak_rate: 0,
            chunks: Seq::empty(),
            samples: Seq::empty(),
        }
    }

    /// The state after one more chunk of `len` bytes.
    pub open spec fn ingest(self, len: u64) -> MeasurementView {
        MeasurementView {
            total_bytes: self.total_bytes + len as nat,
            bytes_since_last_report: self.bytes_since_last_report + len as nat,
            chunks: self.chunks.push(len),
            ..self
        }
    }

    /// The state after each of `lengths` in turn.
    pub open spec fn ingest_all(self, lengths: Seq<u64>) -> MeasurementView
        decreases lengths.len(),
    {
        if lengths.len() == 0 {
            self
        } else {
            self.ingest_all(lengths.drop_last()).ingest(lengths.last())
        }
    }

    /// The sample that a tick at `now` computes.
    pub open spec fn next_rate(self, now: nat) -> nat {
        rate_of(self.bytes_since_last_report, (now - self.last_report_time) as nat)
    }

    /// The state after a reporting tick at `now`.
    pub open spec fn tick(self, now: nat) -> MeasurementView {
        let rate = self.next_rate(now);
        MeasurementView {
            bytes_since_last_report: 0,
            last_report_time: now,
            rate_window: most_recent(self.samples.push(rate as u128), self.capacity),
            last_rate: rate,
            peak_rate: if rate > self.peak_rate {
                rate
            } else {
                self.peak_rate
            },
            samples: self.samples.push(rate as u128),
            ..self
        }
    }

    /// Whether the window holds as many samples as it can.
    pub open spec fn window_full(self) -> bool {
        self.rate_window.len() >= self.capacity
    }
}

/// The mean of a number of rate samples, held exactly: `total / samples`.
#[derive(Clone, Copy, Debug, PartialEq, Eq)]
pub struct RateMean {
    /// Sum of the samples, in bytes per second.
    pub total: u128,
    /// How many samples were summed; never zero.
    pub samples: u32,
}

/// What one reporting tick shows.
#[derive(Clone, Copy, Debug, PartialEq, Eq)]
pub enum Report {
    /// The window is not full yet: no average is shown.
    Gathering,
    /// The window is full.
    Rates {
        /// Mean of the samples in the window.
        average: RateMean,
        /// The newest sample.
        last_rate: u128,
        /// The largest sample so far.
        peak_rate: u128,
        /// All bytes received so far.
        total_bytes: u64,
    },
}

/// What is shown when the test has ended.
#[derive(Clone, Copy, Debug, PartialEq, Eq)]
pub struct Summary {
    /// Mean of the samples in the window; `None` when no tick has happened.
    pub average: Option<RateMean>,
    /// The largest sample of the run.
    pub peak_rate: u128,
}

/// Why an update of the measurement state was refused.
#[derive(Clone, Copy, Debug, PartialEq, Eq)]
pub enum MeasurementError {
    /// The total would no longer fit in 64 bits.
    TotalOverflow,
}

/// Whether `report` is what a state with model `v` shows at a tick.
pub open spec fn report_shows(report: Report, v: MeasurementView) -> bool {
    match report {
        Report::Gathering => !v.window_full(),
        Report::Rates { average, last_rate, peak_rate, total_bytes } => {
            &&& v.window_full()
            &&& average.total == sum_of(v.rate_window)
            &&& average.samples == v.rate_window.len()
            &&& last_rate == v.last_rate
            &&& peak_rate == v.peak_rate
            &&& total_bytes == v.total_bytes
        },
    }
}

/// Whether `summary` is what a state with model `v` shows at the end.
pub open spec fn summary_shows(summary: Summary, v: MeasurementView) -> bool {
    &&& summary.peak_rate == v.peak_rate
    &&& match summary.average {
        None => v.rate_window.len() == 0,
        Some(mean) => {
            &&& v.rate_window.len() > 0
            &&& mean.total == sum_of(v.rate_window)
            &&& mean.samples == v.rate_window.len()
        },
    }
}

/// The canonical measurement state of one test run.
pub struct MeasurementState {
    total_bytes: u64,
    bytes_since_last_report: u64,
    last_report_time: u128,
    rate_window: Vec<u128>,
    capacity: u32,
    last_rate: u128,
    peak_rate: u128,
    chunks: Ghost<Seq<u64>>,
    samples: Ghost<Seq<u128>>,
}

impl View for MeasurementState {
    type V = MeasurementView;

    closed spec fn view(&self) -> MeasurementView {
        MeasurementView {
            total_bytes: self.total_bytes as nat,
            bytes_since_last_report: self.bytes_since_last_report as nat,
            last_report_time: self.last_report_time as nat,
            rate_window: self.rate_window@,
            capacity: self.capacity as nat,
            last_rate: self.last_rate as nat,
            peak_rate: self.peak_rate as nat,
            chunks: self.chunks@,
            samples: self.samples@,
        }
    }
}

/// Adding a chunk on the right adds its length to the total.
pub proof fn lemma_total_of_push(chunks: Seq<u64>, len: u64)
    ensures
        total_of(chunks.push(len)) == total_of(chunks) + len as nat,
{
    assert(chunks.push(len).drop_last() =~= chunks);
}

/// A rate is never more than `MAX_RATE` when the bytes fit in 64 bits.
pub proof fn lemma_rate_bounded(bytes: nat, elapsed_nanos: nat)
    requires
        bytes <= u64::MAX,
        elapsed_nanos > 0,
    ensures
        rate_of(bytes, elapsed_nanos) <= bytes * 1_000_000_000,
        rate_of(bytes, elapsed_nanos) <= MAX_RATE,
{
    let scaled = bytes * 1_000_000_000;
    assert(scaled / elapsed_nanos <= scaled) by (nonlinear_arith)
        requires
            elapsed_nanos > 0,
            scaled >= 0,
    ;
}

/// The total of some chunk lengths does not depend on the order in which
/// they arrive: two sequences with the same entries have the same total.
pub proof fn lemma_total_of_any_order(first: Seq<u64>, second: Seq<u64>)
    requires
        first.to_multiset() == second.to_multiset(),
    ensures
        total_of(first) == total_of(second),
    decreases first.len(),
{
    broadcast use vstd::seq_lib::group_to_multiset_ensures;

    if first.len() == 0 {
        assert(second.to_multiset().len() == 0);
        assert(second.len() == 0);
    } else {
        let x = first.last();
        assert(first.drop_last().push(x) =~= first);
        assert(first.to_multiset().contains(x));
        assert(second.contains(x));
        let i = choose|i: int| 0 <= i < second.len() && second[i] == x;
        lemma_total_of_remove(second, i);
        assert(first.drop_last().to_multiset() =~= first.to_multiset().remove(x));
        assert(second.remove(i).to_multiset() =~= second.to_multiset().remove(x));
        lemma_total_of_any_order(first.drop_last(), second.remove(i));
    }
}

/// Taking one entry out lowers the total by that entry.
pub proof fn lemma_total_of_remove(chunks: Seq<u64>, i: int)
    requires
        0 <= i < chunks.len(),
    ensures
        total_of(chunks) == total_of(chunks.remove(i)) + chunks[i] as nat,
    decreases chunks.len(),
{
    if i == chunks.len() - 1 {
        assert(chunks.remove(i) =~= chunks.drop_last());
    } else {
        lemma_total_of_remove(chunks.drop_last(), i);
        assert(chunks.remove(i).drop_last() =~= chunks.drop_last().remove(i));
        assert(chunks.remove(i).last() == chunks.last());
    }
}

/// The peak of some samples is no less than any of them and, when there is
/// one at all, is one of them: it is their maximum.
pub proof fn lemma_peak_is_maximum(samples: Seq<u128>)
    ensures
        forall|i: int| 0 <= i < samples.len() ==> #[trigger] samples[i] as nat <= peak_of(samples),
        samples.len() > 0 ==> exists|i: int|
            0 <= i < samples.len() && #[trigger] samples[i] as nat == peak_of(samples),
        samples.len() == 0 ==> peak_of(samples) == 0,
    decreases samples.len(),
{
    if samples.len() > 0 {
        let rest = samples.drop_last();
        lemma_peak_is_maximum(rest);
        assert forall|i: int| 0 <= i < samples.len() implies #[trigger] samples[i] as nat
            <= peak_of(samples) by {
            if i < rest.len() {
                assert(rest[i] == samples[i]);
            }
        }
        if samples.last() as nat > peak_of(rest) || rest.len() == 0 {
            assert(samples[samples.len() - 1] as nat == peak_of(samples));
        } else {
            let i = choose|i: int| 0 <= i < rest.len() && #[trigger] rest[i] as nat == peak_of(rest);
            assert(samples[i] as nat == peak_of(samples));
        }
    }
}

impl MeasurementView {
    /// Ingesting a sequence of chunks adds their total, whatever their order,
    /// to both byte counters, and touches nothing else but the history.
    pub proof fn lemma_ingest_all(self, lengths: Seq<u64>)
        ensures
            self.ingest_all(lengths) == (MeasurementView {
                total_bytes: self.total_bytes + total_of(lengths),
                bytes_since_last_report: self.bytes_since_last_report + total_of(lengths),
                chunks: self.chunks + lengths,
                ..self
            }),
            self.consistent() ==> self.ingest_all(lengths).consistent(),
        decreases lengths.len(),
    {
        if lengths.len() == 0 {
            assert(self.chunks + lengths =~= self.chunks);
        } else {
            let rest = lengths.drop_last();
            self.lemma_ingest_all(rest);
            assert((self.chunks + rest).push(lengths.last()) =~= self.chunks + lengths);
            lemma_total_of_push(self.chunks + rest, lengths.last());
        }
    }

    /// From creation, the total after ingesting any sequence of chunks is the
    /// sum of their lengths, and two arrival orders of the same chunks give
    /// the same total.
    pub proof fn lemma_total_is_sum_of_chunks(
        now: nat,
        capacity: nat,
        lengths: Seq<u64>,
        reordered: Seq<u64>,
    )
        requires
            lengths.to_multiset() == reordered.to_multiset(),
        ensures
            Self::initial(now, capacity).ingest_all(lengths).total_bytes == total_of(lengths),
            Self::initial(now, capacity).ingest_all(reordered).total_bytes == total_of(lengths),
    {
        Self::initial(now, capacity).lemma_ingest_all(lengths);
        Self::initial(now, capacity).lemma_ingest_all(reordered);
        lemma_total_of_any_order(lengths, reordered);
    }

    /// The window never holds more than its capacity; once more samples than
    /// that have been computed it holds exactly the newest `capacity` of them,
    /// oldest first.
    pub proof fn lemma_window_holds_most_recent(self)
        requires
            self.consistent(),
        ensures
            self.rate_window.len() <= self.capacity,
            self.samples.len() <= self.capacity ==> self.rate_window == self.samples,
            self.samples.len() > self.capacity ==> self.rate_window.len() == self.capacity,
            forall|i: int|
                0 <= i < self.rate_window.len() ==> #[trigger] self.rate_window[i]
                    == self.samples[self.samples.len() - self.rate_window.len() + i],
    {
    }

    /// The peak is the maximum of every sample computed so far, and so is
    /// never below the newest one.
    pub proof fn lemma_peak_is_maximum_so_far(self)
        requires
            self.consistent(),
        ensures
            self.peak_rate == peak_of(self.samples),
            forall|i: int|
                0 <= i < self.samples.len() ==> #[trigger] self.samples[i] as nat <= self.peak_rate,
            self.samples.len() > 0 ==> exists|i: int|
                0 <= i < self.samples.len() && #[trigger] self.samples[i] as nat == self.peak_rate,
            self.peak_rate >= self.last_rate,
    {
        lemma_peak_is_maximum(self.samples);
        if self.samples.len() > 0 {
            assert(self.samples[self.samples.len() - 1] as nat <= self.peak_rate);
        }
    }

    /// A tick keeps a consistent state consistent, leaves the total alone and
    /// never lowers the peak.
    pub proof fn lemma_tick_preserves(self, now: nat)
        requires
            self.consistent(),
            self.bytes_since_last_report <= u64::MAX,
            now > self.last_report_time,
        ensures
            self.tick(now).consistent(),
            self.tick(now).total_bytes == self.total_bytes,
            self.tick(now).peak_rate >= self.peak_rate,
            self.tick(now).peak_rate >= self.tick(now).last_rate,
    {
        let rate = self.next_rate(now);
        lemma_rate_bounded(self.bytes_since_last_report, (now - self.last_report_time) as nat);
        assert(self.samples.push(rate as u128).drop_last() =~= self.samples);
    }
}

/// One thing that happens to the measurement state during a run.
pub enum RunStep {
    /// A chunk of this many bytes is counted.
    Chunk(u64),
    /// The reporter wakes when the clock reads this many nanoseconds.
    Tick(nat),
}

/// The chunk lengths among `steps`, in order.
pub open spec fn chunks_among(steps: Seq<RunStep>) -> Seq<u64>
    decreases steps.len(),
{
    if steps.len() == 0 {
        Seq::empty()
    } else {
        match steps.last() {
            RunStep::Chunk(len) => chunks_among(steps.drop_last()).push(len),
            RunStep::Tick(_) => chunks_among(steps.drop_last()),
        }
    }
}

impl MeasurementView {
    /// The state after one step: a chunk is ingested; a tick is taken when
    /// the clock has advanced, and skipped otherwise.
    pub open spec fn step(self, step: RunStep) -> MeasurementView {
        match step {
            RunStep::Chunk(len) => self.ingest(len),
            RunStep::Tick(now) => if now > self.last_report_time {
                self.tick(now)
            } else {
                self
            },
        }
    }

    /// The state after each of `steps` in turn.
    pub open spec fn run(self, steps: Seq<RunStep>) -> MeasurementView
        decreases steps.len(),
    {
        if steps.len() == 0 {
            self
        } else {
            self.run(steps.drop_last()).step(steps.last())
        }
    }

    /// The state that `steps` lead to from creation.
    pub open spec fn run_from(now: nat, capacity: nat, steps: Seq<RunStep>) -> MeasurementView {
        Self::initial(now, capacity).run(steps)
    }

    /// Whatever chunks and ticks a run consists of, in whatever order, as
    /// long as the chunks together fit in 64 bits: the state stays
    /// consistent, the total is the sum of all chunk lengths, the window
    /// holds the most recent samples and never more than its capacity, and
    /// the peak is the maximum of all samples and never below the newest.
    pub proof fn lemma_run_keeps_account(now: nat, capacity: nat, steps: Seq<RunStep>)
        requires
            capacity >= 1,
            total_of(chunks_among(steps)) <= u64::MAX,
        ensures
            Self::run_from(now, capacity, steps).consistent(),
            Self::run_from(now, capacity, steps).chunks == chunks_among(steps),
            Self::run_from(now, capacity, steps).total_bytes == total_of(chunks_among(steps)),
            Self::run_from(now, capacity, steps).capacity == capacity,
            Self::run_from(now, capacity, steps).rate_window.len() <= capacity,
            Self::run_from(now, capacity, steps).rate_window == most_recent(
                Self::run_from(now, capacity, steps).samples,
                capacity,
            ),
            Self::run_from(now, capacity, steps).peak_rate == peak_of(
                Self::run_from(now, capacity, steps).samples,
            ),
            Self::run_from(now, capacity, steps).peak_rate >= Self::run_from(
                now,
                capacity,
                steps,
            ).last_rate,
        decreases steps.len(),
    {
        let start = Self::initial(now, capacity);
        if steps.len() > 0 {
            let earlier = steps.drop_last();
            let before = start.run(earlier);
            match steps.last() {
                RunStep::Chunk(len) => {
                    lemma_total_of_push(chunks_among(earlier), len);
                    Self::lemma_run_keeps_account(now, capacity, earlier);
                },
                RunStep::Tick(at) => {
                    Self::lemma_run_keeps_account(now, capacity, earlier);
                    if at > before.last_report_time {
                        before.lemma_tick_preserves(at);
                    }
                },
            }
        }
        start.run(steps).lemma_peak_is_maximum_so_far();
    }
}

impl MeasurementState {
    /// Validity of the representation: the model is consistent.
    pub closed spec fn wf(&self) -> bool {
        self@.consistent()
    }

    /// The model of a valid state is consistent.
    pub proof fn lemma_wf_consistent(&self)
        requires
            self.wf(),
        ensures
            self@.consistent(),
    {
    }

    /// A state with nothing ingested, created at time `now`, whose window
    /// holds up to `capacity` samples.
    pub fn new(now: u128, capacity: u32) -> (state: MeasurementState)
        requires
            capacity >= 1,
        ensures
            state.wf(),
            state@ == MeasurementView::initial(now as nat, capacity as nat),
    {
        MeasurementState {
            total_bytes: 0,
            bytes_since_last_report: 0,
            last_report_time: now,
            rate_window: Vec::new(),
            capacity,
            last_rate: 0,
            peak_rate: 0,
            chunks: Ghost(Seq::empty()),
            samples: Ghost(Seq::empty()),
        }
    }

    /// Counts one chunk of `len` bytes. Refused, with the state unchanged,
    /// exactly when the total would pass `u64::MAX`.
    pub fn record_chunk(&mut self, len: u64) -> (outcome: Result<(), MeasurementError>)
        requires
            old(self).wf(),
        ensures
            final(self).wf(),
            outcome is Ok <==> old(self)@.total_bytes + len <= u64::MAX,
            outcome is Ok ==> final(self)@ == old(self)@.ingest(len),
            outcome is Err ==> *final(self) == *old(self),
            outcome matches Err(error) ==> error == MeasurementError::TotalOverflow,
    {
        if len > u64::MAX - self.total_bytes {
            return Err(MeasurementError::TotalOverflow);
        }
        proof {
            lemma_total_of_push(self.chunks@, len);
        }
        self.total_bytes = self.total_bytes + len;
        self.bytes_since_last_report = self.bytes_since_last_report + len;
        self.chunks = Ghost(self.chunks@.push(len));
        Ok(())
    }

    /// One reporting tick at time `now`: computes the rate of the interval
    /// that ends now, restarts the interval, appends the rate to the window
    /// (dropping the oldest sample of a full window), raises the peak to it,
    /// and says what to show.
    pub fn report_tick(&mut self, now: u128) -> (report: Report)
        requires
            old(self).wf(),
            now > old(self)@.last_report_time,
        ensures
            final(self).wf(),
            final(self)@ == old(self)@.tick(now as nat),
            report_shows(report, final(self)@),
    {
        let elapsed: u128 = now - self.last_report_time;
        let scaled: u128 = (self.bytes_since_last_report as u128) * NANOS_PER_SECOND;
        let rate: u128 = scaled / elapsed;
        proof {
            lemma_rate_bounded(self.bytes_since_last_report as nat, elapsed as nat);
            assert(rate as nat == old(self)@.next_rate(now as nat));
            assert(self.samples@.push(rate).drop_last() =~= self.samples@);
        }
        let ghost before = self.samples@;
        if self.rate_window.len() >= self.capacity as usize {
            self.rate_window.remove(0);
        }
        self.rate_window.push(rate);
        self.bytes_since_last_report = 0;
        self.last_report_time = now;
        self.last_rate = rate;
        if rate > self.peak_rate {
            self.peak_rate = rate;
        }
        self.samples = Ghost(before.push(rate));
        proof {
            assert(self.rate_window@ =~= most_recent(before.push(rate), self.capacity as nat));
        }
        self.current_report()
    }

    /// What a tick shows of the state as it is: a placeholder while the
    /// window is filling, else the window's mean, the newest rate, the peak
    /// and the total.
    pub fn current_report(&self) -> (report: Report)
        requires
            self.wf(),
        ensures
            report_shows(report, self@),
    {
        if self.rate_window.len() < self.capacity as usize {
            Report::Gathering
        } else {
            let total = self.window_sum();
            Report::Rates {
                average: RateMean { total, samples: self.capacity },
                last_rate: self.last_rate,
                peak_rate: self.peak_rate,
                total_bytes: self.total_bytes,
            }
        }
    }

    /// What is shown at the end of the run: the mean of the window as it
    /// stands and the peak. Nothing is reset.
    pub fn final_summary(&self) -> (summary: Summary)
        requires
            self.wf(),
        ensures
            summary_shows(summary, self@),
    {
        if self.rate_window.len() == 0 {
            Summary { average: None, peak_rate: self.peak_rate }
        } else {
            let total = self.window_sum();
            let samples: u32 = self.rate_window.len() as u32;
            Summary { average: Some(RateMean { total, samples }), peak_rate: self.peak_rate }
        }
    }

    /// Sum of the samples in the window.
    fn window_sum(&self) -> (total: u128)
        requires
            self.wf(),
        ensures
            total == sum_of(self@.rate_window),
    {
        let mut total: u128 = 0;
        let mut i: usize = 0;
        while i < self.rate_window.len()
            invariant
                self.wf(),
                i <= self.rate_window.len(),
                total == sum_of(self.rate_window@.subrange(0, i as int)),
                total <= i * MAX_RATE,
            decreases self.rate_window.len() - i,
        {
            proof {
                let next = self.rate_window@.subrange(0, i + 1);
                assert(next.drop_last() =~= self.rate_window@.subrange(0, i as int));
                assert(self.rate_window@[i as int] <= MAX_RATE);
            }
            total = total + self.rate_window[i];
            i = i + 1;
        }
        proof {
            assert(self.rate_window@.subrange(0, i as int) =~= self.rate_window@);
        }
        total
    }

    /// All bytes ever ingested.
    pub fn total_bytes(&self) -> (n: u64)
        ensures
            n == self@.total_bytes,
    {
        self.total_bytes
    }

    /// Bytes ingested since the last reporting tick.
    pub fn bytes_since_last_report(&self) -> (n: u64)
        ensures
            n == self@.bytes_since_last_report,
    {
        self.bytes_since_last_report
    }

    /// Time of the last reporting tick.
    pub fn last_report_time(&self) -> (t: u128)
        ensures
            t == self@.last_report_time,
    {
        self.last_report_time
    }

    /// The newest rate sample.
    pub fn last_rate(&self) -> (rate: u128)
        ensures
            rate == self@.last_rate,
    {
        self.last_rate
    }

    /// The largest rate sample so far.
    pub fn peak_rate(&self) -> (rate: u128)
        ensures
            rate == self@.peak_rate,
    {
        self.peak_rate
    }

    /// Most samples that the window holds.
    pub fn capacity(&self) -> (n: u32)
        ensures
            n == self@.capacity,
    {
        self.capacity
    }

    /// The samples in the window, oldest first.
    pub fn rate_window(&self) -> (window: &Vec<u128>)
        ensures
            window@ == self@.rate_window,
    {
        &self.rate_window
    }
}

} // verus!
