use lan_speed_test::measurement::{
    MeasurementError, MeasurementState, RateMean, Report, Summary, DEFAULT_WINDOW_CAPACITY,
    NANOS_PER_SECOND,
};

const MIB: u64 = 1024 * 1024;

fn tick_with(state: &mut MeasurementState, bytes: u64, now: u128) -> Report {
    assert_eq!(state.record_chunk(bytes), Ok(()));
    state.report_tick(now)
}

#[test]
fn new_state_is_empty() {
    let state = MeasurementState::new(7, 20);
    assert_eq!(state.total_bytes(), 0);
    assert_eq!(state.bytes_since_last_report(), 0);
    assert_eq!(state.last_report_time(), 7);
    assert_eq!(state.last_rate(), 0);
    assert_eq!(state.peak_rate(), 0);
    assert_eq!(state.capacity(), 20);
    assert!(state.rate_window().is_empty());
    assert_eq!(state.current_report(), Report::Gathering);
}

#[test]
fn total_is_sum_of_chunk_lengths() {
    let mut state = MeasurementState::new(0, 20);
    let chunks: [u64; 5] = [65536, 1, 0, 4096, 123456789];
    for len in chunks {
        assert_eq!(state.record_chunk(len), Ok(()));
    }
    assert_eq!(state.total_bytes(), 65536 + 1 + 4096 + 123456789);
    assert_eq!(state.bytes_since_last_report(), state.total_bytes());
}

#[test]
fn total_does_not_depend_on_arrival_order() {
    let first: [u64; 4] = [10, 20, 30, 40];
    let second: [u64; 4] = [40, 10, 30, 20];
    let mut a = MeasurementState::new(0, 20);
    let mut b = MeasurementState::new(0, 20);
    for len in first {
        a.record_chunk(len).unwrap();
    }
    for len in second {
        b.record_chunk(len).unwrap();
    }
    assert_eq!(a.total_bytes(), 100);
    assert_eq!(b.total_bytes(), 100);
}

#[test]
fn total_overflow_is_refused_and_changes_nothing() {
    let mut state = MeasurementState::new(0, 20);
    assert_eq!(state.record_chunk(u64::MAX - 1), Ok(()));
    assert_eq!(state.record_chunk(2), Err(MeasurementError::TotalOverflow));
    assert_eq!(state.total_bytes(), u64::MAX - 1);
    assert_eq!(state.bytes_since_last_report(), u64::MAX - 1);
    assert_eq!(state.record_chunk(1), Ok(()));
    assert_eq!(state.total_bytes(), u64::MAX);
}

#[test]
fn ten_mebibytes_in_one_second_is_ten_mebibytes_per_second() {
    let mut state = MeasurementState::new(0, 1);
    for _ in 0..160 {
        state.record_chunk(65536).unwrap();
    }
    let report = state.report_tick(NANOS_PER_SECOND);
    assert_eq!(state.last_rate(), 10 * MIB as u128);
    let mebibytes_per_second = state.last_rate() as f64 / (1024.0 * 1024.0);
    assert!((mebibytes_per_second - 10.0).abs() < 1e-9);
    assert_eq!(
        report,
        Report::Rates {
            average: RateMean { total: 10 * MIB as u128, samples: 1 },
            last_rate: 10 * MIB as u128,
            peak_rate: 10 * MIB as u128,
            total_bytes: 10 * MIB,
        }
    );
}

#[test]
fn rate_is_bytes_per_second_rounded_down() {
    let mut state = MeasurementState::new(1_000, 4);
    tick_with(&mut state, 1500, 1_000 + 250_000_000);
    assert_eq!(state.last_rate(), 6000);
    tick_with(&mut state, 1, 1_000 + 250_000_003);
    assert_eq!(state.last_rate(), 333_333_333);
    tick_with(&mut state, 0, 1_000 + 250_000_004);
    assert_eq!(state.last_rate(), 0);
    tick_with(&mut state, 7, 1_000 + 250_000_004 + 3 * NANOS_PER_SECOND);
    assert_eq!(state.last_rate(), 2);
}

#[test]
fn largest_rate_fits() {
    let mut state = MeasurementState::new(0, 2);
    state.record_chunk(u64::MAX).unwrap();
    state.report_tick(1);
    assert_eq!(state.last_rate(), u64::MAX as u128 * 1_000_000_000);
    assert_eq!(state.peak_rate(), u64::MAX as u128 * 1_000_000_000);
}

#[test]
fn tick_restarts_the_interval() {
    let mut state = MeasurementState::new(0, 20);
    state.record_chunk(500).unwrap();
    state.report_tick(100);
    assert_eq!(state.bytes_since_last_report(), 0);
    assert_eq!(state.last_report_time(), 100);
    assert_eq!(state.total_bytes(), 500);
    state.record_chunk(20).unwrap();
    assert_eq!(state.bytes_since_last_report(), 20);
    assert_eq!(state.total_bytes(), 520);
}

#[test]
fn window_never_exceeds_capacity_and_keeps_most_recent() {
    let mut state = MeasurementState::new(0, 3);
    let mut now: u128 = 0;
    let mut expected: Vec<u128> = Vec::new();
    for i in 1..=7u64 {
        now += NANOS_PER_SECOND;
        tick_with(&mut state, i * 100, now);
        expected.push(i as u128 * 100);
        assert!(state.rate_window().len() <= 3);
    }
    assert_eq!(state.rate_window(), &vec![500, 600, 700]);
    assert_eq!(&expected[4..], &state.rate_window()[..]);
}

#[test]
fn window_keeps_everything_until_full() {
    let mut state = MeasurementState::new(0, 5);
    tick_with(&mut state, 10, NANOS_PER_SECOND);
    tick_with(&mut state, 30, 2 * NANOS_PER_SECOND);
    assert_eq!(state.rate_window(), &vec![10, 30]);
}

#[test]
fn peak_is_maximum_of_all_samples() {
    let mut state = MeasurementState::new(0, 2);
    let bytes: [u64; 6] = [5, 90, 20, 90, 7, 1];
    let mut now: u128 = 0;
    let mut max: u128 = 0;
    for b in bytes {
        now += NANOS_PER_SECOND;
        tick_with(&mut state, b, now);
        max = max.max(b as u128);
        assert_eq!(state.peak_rate(), max);
        assert!(state.peak_rate() >= state.last_rate());
    }
    assert_eq!(state.peak_rate(), 90);
    assert_eq!(state.rate_window(), &vec![7, 1]);
}

#[test]
fn report_is_gathering_until_window_is_full() {
    let mut state = MeasurementState::new(0, DEFAULT_WINDOW_CAPACITY);
    let mut now: u128 = 0;
    for _ in 0..19 {
        now += 100_000_000;
        assert_eq!(tick_with(&mut state, 1000, now), Report::Gathering);
    }
    now += 100_000_000;
    let report = tick_with(&mut state, 3000, now);
    assert_eq!(
        report,
        Report::Rates {
            average: RateMean { total: 19 * 10_000 + 30_000, samples: 20 },
            last_rate: 30_000,
            peak_rate: 30_000,
            total_bytes: 22_000,
        }
    );
}

#[test]
fn average_is_mean_of_samples_in_window() {
    let mut state = MeasurementState::new(0, 4);
    let bytes: [u64; 6] = [1000, 1, 2, 3, 4, 6];
    let mut now: u128 = 0;
    let mut last = Report::Gathering;
    for b in bytes {
        now += NANOS_PER_SECOND;
        last = tick_with(&mut state, b, now);
    }
    match last {
        Report::Rates { average, last_rate, peak_rate, total_bytes } => {
            assert_eq!(average, RateMean { total: 2 + 3 + 4 + 6, samples: 4 });
            let mean = average.total as f64 / average.samples as f64;
            assert!((mean - 3.75).abs() < 1e-12);
            assert_eq!(last_rate, 6);
            assert_eq!(peak_rate, 1000);
            assert_eq!(total_bytes, 1016);
        }
        Report::Gathering => panic!("window should be full"),
    }
    assert_eq!(state.current_report(), last);
}

#[test]
fn final_summary_uses_window_as_it_stands() {
    let mut state = MeasurementState::new(0, 20);
    assert_eq!(state.final_summary(), Summary { average: None, peak_rate: 0 });
    tick_with(&mut state, 400, NANOS_PER_SECOND);
    tick_with(&mut state, 100, 2 * NANOS_PER_SECOND);
    let summary = state.final_summary();
    assert_eq!(
        summary,
        Summary { average: Some(RateMean { total: 500, samples: 2 }), peak_rate: 400 }
    );
    assert_eq!(state.final_summary(), summary);
    assert_eq!(state.rate_window(), &vec![400, 100]);
    assert_eq!(state.peak_rate(), 400);
}
