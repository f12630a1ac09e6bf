use lan_speed_test::clock::Clock;
use lan_speed_test::measurement::{MeasurementState, RateMean, Report, Summary};
use lan_speed_test::reporter::{
    reporter_step, tick_at, tick_now, ReporterEvent, ReporterOutput, REPORT_INTERVAL_MILLIS,
};

#[test]
fn interval_is_a_tenth_of_a_second() {
    assert_eq!(REPORT_INTERVAL_MILLIS, 100);
}

#[test]
fn tick_is_skipped_when_the_clock_stands_still() {
    let mut state = MeasurementState::new(50, 2);
    state.record_chunk(10).unwrap();
    assert_eq!(tick_at(&mut state, 50), None);
    assert_eq!(tick_at(&mut state, 49), None);
    assert_eq!(state.bytes_since_last_report(), 10);
    assert_eq!(state.last_report_time(), 50);
    assert!(state.rate_window().is_empty());
    assert_eq!(tick_at(&mut state, 51), Some(Report::Gathering));
    assert_eq!(state.last_rate(), 10_000_000_000);
}

#[test]
fn reporter_ticks_then_summarizes() {
    let mut state = MeasurementState::new(0, 1);
    state.record_chunk(2048).unwrap();
    let output = reporter_step(&mut state, ReporterEvent::Tick { now: 2_000_000_000 });
    assert_eq!(
        output,
        ReporterOutput::Tick {
            report: Report::Rates {
                average: RateMean { total: 1024, samples: 1 },
                last_rate: 1024,
                peak_rate: 1024,
                total_bytes: 2048,
            }
        }
    );
    assert_eq!(
        reporter_step(&mut state, ReporterEvent::Tick { now: 2_000_000_000 }),
        ReporterOutput::Skipped
    );
    let summary = Summary { average: Some(RateMean { total: 1024, samples: 1 }), peak_rate: 1024 };
    assert_eq!(
        reporter_step(&mut state, ReporterEvent::ShutdownObserved),
        ReporterOutput::Final { summary }
    );
    assert_eq!(state.last_rate(), 1024);
    assert_eq!(state.rate_window(), &vec![1024]);
}

#[test]
fn clock_readings_do_not_go_back() {
    let clock = Clock::start();
    let first = clock.now();
    let mut count: u64 = 0;
    for i in 0..100_000u64 {
        count = count.wrapping_add(i);
    }
    assert!(count > 0);
    let second = clock.now();
    assert!(second >= first);
}

#[test]
fn tick_now_samples_or_skips() {
    let clock = Clock::start();
    let mut state = MeasurementState::new(0, 5);
    state.record_chunk(100).unwrap();
    while clock.now() == 0 {}
    match tick_now(&mut state, &clock) {
        Some(report) => {
            assert_eq!(report, Report::Gathering);
            assert_eq!(state.bytes_since_last_report(), 0);
            assert_eq!(state.rate_window().len(), 1);
            assert!(state.last_report_time() > 0);
        }
        None => panic!("the clock had advanced"),
    }
    assert_eq!(state.total_bytes(), 100);
}
