//! Cooperative, single-fire shutdown.
//!
//! The coordinator owns a [`ShutdownSignal`], which goes from running to
//! terminated once and never back. Every task owns a [`Terminate`] observer,
//! which remembers that it has seen the signal. A task races each unit of its
//! work against the signal; [`Terminate::after_race`] says whether it goes on.

use vstd::prelude::*;

verus! {

/// Seconds that a test runs unless told otherwise.
pub const DEFAULT_TEST_DURATION_SECS: u64 = 30;

/// The two states of a shutdown signal.
#[derive(Clone, Copy, Debug, PartialEq, Eq)]
pub enum ShutdownState {
    /// The test is running.
    Running,
    /// The signal has fired; this state is never left.
    Terminated,
}

/// The state after firing a signal in state `state`.
pub open spec fn fired(state: ShutdownState) -> ShutdownState {
    ShutdownState::Terminated
}

/// The coordinator's end of the signal.
pub struct ShutdownSignal {
    state: ShutdownState,
}

impl View for ShutdownSignal {
    type V = ShutdownState;

    closed spec fn view(&self) -> ShutdownState {
        self.state
    }
}

impl ShutdownSignal {
    /// A signal that has not fired.
    pub fn new() -> (signal: ShutdownSignal)
        ensures
            signal@ == ShutdownState::Running,
    {
        ShutdownSignal { state: ShutdownState::Running }
    }

    /// Fires the signal. Says whether this call was the one that fired it:
    /// firing again changes nothing.
    pub fn fire(&mut self) -> (first: bool)
        ensures
            final(self)@ == fired(old(self)@),
            first <==> old(self)@ == ShutdownState::Running,
    {
        match self.state {
            ShutdownState::Running => {
                self.state = ShutdownState::Terminated;
                true
            },
            ShutdownState::Terminated => false,
        }
    }

    /// The signal's state.
    pub fn state(&self) -> (state: ShutdownState)
        ensures
            state == self@,
    {
        self.state
    }

    /// Whether the signal has fired.
    pub fn is_terminated(&self) -> (yes: bool)
        ensures
            yes <==> self@ == ShutdownState::Terminated,
    {
        match self.state {
            ShutdownState::Running => false,
            ShutdownState::Terminated => true,
        }
    }
}

/// Which side of a race between the signal and a unit of work resolved first.
#[derive(Clone, Copy, Debug, PartialEq, Eq)]
pub enum RaceWinner {
    /// The wait for the signal resolved.
    Signal,
    /// The unit of work completed.
    Work,
}

/// What a task does after a race.
#[derive(Clone, Copy, Debug, PartialEq, Eq)]
pub enum TaskStep {
    /// Use the completed work and race again.
    Continue,
    /// Leave the loop.
    Stop,
}

/// One observer of the shutdown signal.
pub struct Terminate {
    terminated: bool,
}

impl Terminate {
    /// Whether this observer has seen the signal.
    pub closed spec fn observed(&self) -> bool {
        self.terminated
    }

    /// A fresh observer that has not seen the signal.
    pub fn new() -> (observer: Terminate)
        ensures
            !observer.observed(),
    {
        Terminate { terminated: false }
    }

    /// Reports whether the signal has been seen.
    pub fn has_terminated(&self) -> (seen: bool)
        ensures
            seen == self.observed(),
    {
        self.terminated
    }

    /// Whether a wait has to block on the signal's notification before it
    /// completes: only an observer that has not seen the signal waits.
    pub fn must_await(&self) -> (wait: bool)
        ensures
            wait == !self.observed(),
    {
        !self.terminated
    }

    /// Completes a wait for the signal: the caller has blocked on the
    /// notification if [`Terminate::must_await`] said so. From now on the
    /// observer has seen the signal, for good.
    pub fn wait_for_signal(&mut self)
        ensures
            final(self).observed(),
    {
        self.terminated = true;
    }

    /// Settles a race between the signal and a unit of work. When the signal
    /// won, the observer has seen it. The task stops exactly when the
    /// observer has seen the signal, in this race or an earlier one.
    pub fn after_race(&mut self, winner: RaceWinner) -> (step: TaskStep)
        ensures
            final(self).observed() == observed_after(old(self).observed(), winner),
            step == step_when(final(self).observed()),
    {
        match winner {
            RaceWinner::Signal => {
                self.wait_for_signal();
            },
            RaceWinner::Work => {},
        }
        if self.terminated {
            TaskStep::Stop
        } else {
            TaskStep::Continue
        }
    }
}

/// Whether an observer has seen the signal after a race that `winner` won,
/// given whether it had seen it before.
pub open spec fn observed_after(observed: bool, winner: RaceWinner) -> bool {
    observed || winner == RaceWinner::Signal
}

/// What a task does after a race: it stops exactly when its observer has
/// seen the signal.
pub open spec fn step_when(observed: bool) -> TaskStep {
    if observed {
        TaskStep::Stop
    } else {
        TaskStep::Continue
    }
}

/// Firing is idempotent: a fired signal is terminated, and firing it again
/// leaves it as the first firing left it.
pub proof fn lemma_fire_idempotent(state: ShutdownState)
    ensures
        fired(state) == ShutdownState::Terminated,
        fired(fired(state)) == fired(state),
{
}

/// Observation is idempotent and final: an observer that has seen the signal
/// has seen it after every later race, whoever wins, and its task stops; and
/// the signal winning twice is the same as its winning once.
pub proof fn lemma_observed_is_final(observed: bool, winner: RaceWinner)
    ensures
        observed_after(true, winner),
        step_when(observed_after(true, winner)) == TaskStep::Stop,
        observed_after(observed, RaceWinner::Signal),
        observed_after(observed_after(observed, RaceWinner::Signal), RaceWinner::Signal)
            == observed_after(observed, RaceWinner::Signal),
        observed_after(observed_after(observed, RaceWinner::Signal), winner),
{
}

} // verus!
