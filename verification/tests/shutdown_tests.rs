use lan_speed_test::shutdown::{
    RaceWinner, ShutdownSignal, ShutdownState, TaskStep, Terminate, DEFAULT_TEST_DURATION_SECS,
};

#[test]
fn signal_starts_running() {
    let signal = ShutdownSignal::new();
    assert_eq!(signal.state(), ShutdownState::Running);
    assert!(!signal.is_terminated());
}

#[test]
fn firing_twice_is_the_same_as_firing_once() {
    let mut signal = ShutdownSignal::new();
    assert!(signal.fire());
    assert_eq!(signal.state(), ShutdownState::Terminated);
    assert!(signal.is_terminated());
    assert!(!signal.fire());
    assert_eq!(signal.state(), ShutdownState::Terminated);
    assert!(signal.is_terminated());
    assert!(signal.is_terminated());
}

#[test]
fn observer_starts_unterminated_and_must_await() {
    let observer = Terminate::new();
    assert!(!observer.has_terminated());
    assert!(observer.must_await());
}

#[test]
fn observer_stays_terminated_after_the_signal() {
    let mut observer = Terminate::new();
    observer.wait_for_signal();
    assert!(observer.has_terminated());
    assert!(!observer.must_await());
    observer.wait_for_signal();
    assert!(observer.has_terminated());
    assert!(observer.has_terminated());
}

#[test]
fn task_continues_while_work_wins() {
    let mut observer = Terminate::new();
    assert_eq!(observer.after_race(RaceWinner::Work), TaskStep::Continue);
    assert_eq!(observer.after_race(RaceWinner::Work), TaskStep::Continue);
    assert!(!observer.has_terminated());
}

#[test]
fn task_stops_once_the_signal_has_won() {
    let mut observer = Terminate::new();
    assert_eq!(observer.after_race(RaceWinner::Work), TaskStep::Continue);
    assert_eq!(observer.after_race(RaceWinner::Signal), TaskStep::Stop);
    assert!(observer.has_terminated());
    assert_eq!(observer.after_race(RaceWinner::Work), TaskStep::Stop);
    assert_eq!(observer.after_race(RaceWinner::Signal), TaskStep::Stop);
    assert!(observer.has_terminated());
}

#[test]
fn test_runs_thirty_seconds_by_default() {
    assert_eq!(DEFAULT_TEST_DURATION_SECS, 30);
}
