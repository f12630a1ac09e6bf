//! The reporter's decisions: on every tick of its interval it samples the
//! rate and says what to show; when shutdown is observed it gives the final
//! summary.

use crate::clock::Clock;
use crate::measurement::{
    report_shows, summary_shows, MeasurementState, MeasurementView, Report, Summary,
};
use vstd::prelude::*;

verus! {

/// Milliseconds between two reporting ticks.
pub const REPORT_INTERVAL_MILLIS: u64 = 100;

/// What wakes the reporter.
#[derive(Clone, Copy, Debug, PartialEq, Eq)]
pub enum ReporterEvent {
    /// The interval elapsed; the clock reads `now`.
    Tick {
        /// The clock's reading, in nanoseconds.
        now: u128,
    },
    /// The shutdown signal was observed.
    ShutdownObserved,
}

/// What the reporter shows, if anything.
#[derive(Clone, Copy, Debug, PartialEq, Eq)]
pub enum ReporterOutput {
    /// A tick was taken: show this report and go on.
    Tick {
        /// What the tick shows.
        report: Report,
    },
    /// The clock has not advanced since the last tick: nothing was sampled.
    Skipped,
    /// The run is over: show this summary and stop.
    Final {
        /// The end-of-run summary.
        summary: Summary,
    },
}

/// Whether `output` is what the reporter shows after `event`, and `after` the
/// state that follows `before`.
pub open spec fn is_output_for(
    output: ReporterOutput,
    event: ReporterEvent,
    before: MeasurementView,
    after: MeasurementView,
) -> bool {
    match event {
        ReporterEvent::Tick { now } => if now > before.last_report_time {
            &&& output matches ReporterOutput::Tick { report }
            &&& after == before.tick(now as nat)
            &&& report_shows(report, after)
        } else {
            output is Skipped && after == before
        },
        ReporterEvent::ShutdownObserved => {
            &&& output matches ReporterOutput::Final { summary }
            &&& summary_shows(summary, before)
            &&& after == before
        },
    }
}

/// Takes a tick at `now` if the clock has advanced past the last tick;
/// otherwise leaves the state as it is and reports nothing.
pub fn tick_at(state: &mut MeasurementState, now: u128) -> (report: Option<Report>)
    requires
        old(state).wf(),
    ensures
        final(state).wf(),
        report is Some <==> now > old(state)@.last_report_time,
        report matches Some(shown) ==> final(state)@ == old(state)@.tick(now as nat)
            && report_shows(shown, final(state)@),
        report is None ==> *final(state) == *old(state),
{
    if now > state.last_report_time() {
        Some(state.report_tick(now))
    } else {
        None
    }
}

/// Whether `report` and `after` are what a tick attempted at `now` makes of
/// the state `before`: past the last tick, the tick is taken and its report
/// shown; otherwise nothing is reported and nothing changes.
pub open spec fn is_tick_at(
    before: MeasurementView,
    after: MeasurementView,
    report: Option<Report>,
    now: u128,
) -> bool {
    if now > before.last_report_time {
        &&& report matches Some(shown)
        &&& after == before.tick(now as nat)
        &&& report_shows(shown, after)
    } else {
        report is None && after == before
    }
}

/// Takes a tick at the present reading of `clock`, as [`tick_at`] does for
/// that reading: whatever the clock reads, the outcome is that of a tick
/// attempted at that one reading.
pub fn tick_now(state: &mut MeasurementState, clock: &Clock) -> (report: Option<Report>)
    requires
        old(state).wf(),
    ensures
        final(state).wf(),
        exists|now: u128| #[trigger] is_tick_at(old(state)@, final(state)@, report, now),
        report is None ==> *final(state) == *old(state),
{
    let now = clock.now();
    let report = tick_at(state, now);
    proof {
        assert(is_tick_at(old(state)@, state@, report, now));
    }
    report
}

/// The reporter's step: a tick samples the rate and reports, unless the
/// clock stands still; shutdown yields the final summary and changes
/// nothing.
pub fn reporter_step(state: &mut MeasurementState, event: ReporterEvent) -> (output: ReporterOutput)
    requires
        old(state).wf(),
    ensures
        final(state).wf(),
        is_output_for(output, event, old(state)@, final(state)@),
        event is ShutdownObserved ==> *final(state) == *old(state),
        output is Skipped ==> *final(state) == *old(state),
{
    match event {
        ReporterEvent::Tick { now } => match tick_at(state, now) {
            Some(report) => ReporterOutput::Tick { report },
            None => ReporterOutput::Skipped,
        },
        ReporterEvent::ShutdownObserved => ReporterOutput::Final {
            summary: state.final_summary(),
        },
    }
}

} // verus!
