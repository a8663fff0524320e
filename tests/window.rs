use phi_detector::window::DEFAULT_HISTORY_SIZE;
use phi_detector::{DetectorError, IntervalWindow};

fn fed(history_size: usize, ts: &[u64]) -> IntervalWindow {
    let mut w = IntervalWindow::new(history_size).unwrap();
    for &t in ts {
        w.heartbeat(t);
    }
    w
}

#[test]
fn zero_history_size_is_rejected() {
    assert_eq!(
        IntervalWindow::new(0).unwrap_err(),
        DetectorError::InvalidConfiguration
    );
    assert!(IntervalWindow::new(1).is_ok());
}

#[test]
fn default_window_is_empty_with_ten_slots() {
    let w = IntervalWindow::default();
    assert_eq!(w.history_size(), 10);
    assert_eq!(DEFAULT_HISTORY_SIZE, 10);
    assert_eq!(w.intervals(), Vec::<u64>::new());
    assert_eq!(w.last_heartbeat(), None);
}

#[test]
fn first_heartbeat_records_no_interval() {
    let w = fed(4, &[7]);
    assert_eq!(w.intervals(), Vec::<u64>::new());
    assert_eq!(w.last_heartbeat(), Some(7));
}

#[test]
fn gaps_are_recorded_in_order() {
    let w = fed(4, &[10, 13, 20]);
    assert_eq!(w.intervals(), vec![3, 7]);
    assert_eq!(w.last_heartbeat(), Some(20));
}

#[test]
fn stale_heartbeat_changes_nothing() {
    let mut w = fed(4, &[10, 13, 20]);
    let before = (w.intervals(), w.last_heartbeat());
    w.heartbeat(19);
    assert_eq!((w.intervals(), w.last_heartbeat()), before);
    w.heartbeat(0);
    assert_eq!((w.intervals(), w.last_heartbeat()), before);
}

#[test]
fn repeated_timestamp_records_zero_gap() {
    let w = fed(4, &[5, 5]);
    assert_eq!(w.intervals(), vec![0]);
    assert_eq!(w.last_heartbeat(), Some(5));
}

#[test]
fn oldest_interval_is_evicted_past_the_bound() {
    let w = fed(3, &[0, 1, 3, 6, 10, 15]);
    assert_eq!(w.intervals(), vec![3, 4, 5]);
    assert_eq!(w.last_heartbeat(), Some(15));
}

#[test]
fn window_never_exceeds_its_bound() {
    for size in 1..6usize {
        let mut w = IntervalWindow::new(size).unwrap();
        for t in 0..40u64 {
            w.heartbeat(t * t);
            assert!(w.intervals().len() <= size);
        }
        assert_eq!(w.intervals().len(), size);
    }
}

#[test]
fn single_slot_keeps_latest_gap() {
    let w = fed(1, &[0, 2, 9]);
    assert_eq!(w.intervals(), vec![7]);
}

#[test]
fn nothing_elapsed_without_heartbeat() {
    let w = IntervalWindow::default();
    assert_eq!(w.elapsed(0), None);
    assert_eq!(w.elapsed(u64::MAX), None);
}

#[test]
fn nothing_elapsed_at_or_before_last_heartbeat() {
    let w = fed(10, &[100, 200]);
    assert_eq!(w.elapsed(200), None);
    assert_eq!(w.elapsed(150), None);
    assert_eq!(w.elapsed(0), None);
    assert_eq!(w.elapsed(201), Some(1));
}

#[test]
fn elapsed_grows_with_now() {
    let w = fed(10, &[0, 1000, 2000]);
    let mut prev = 0;
    for k in 1..20u64 {
        let e = w.elapsed(2000 + k * 1000).unwrap();
        assert_eq!(e, k * 1000);
        assert!(e >= prev);
        prev = e;
    }
}

#[test]
fn regular_ticks_then_long_silence() {
    let w = fed(DEFAULT_HISTORY_SIZE, &[0, 1, 2, 3, 4, 5, 6, 7, 8, 9]);
    assert_eq!(w.intervals(), vec![1; 9]);
    assert_eq!(w.elapsed(9), None);
    assert_eq!(w.elapsed(10), Some(1));
    assert_eq!(w.elapsed(300), Some(291));
}

#[test]
fn evenly_spaced_heartbeats_leave_one_gap() {
    let ts: Vec<u64> = (0..25u64).map(|n| 40 + n * 1000).collect();
    let w = fed(10, &ts);
    assert_eq!(w.intervals(), vec![1000; 10]);
    assert_eq!(w.last_heartbeat(), Some(24040));
    assert_eq!(w.elapsed(24040), None);
}

#[test]
fn largest_timestamps_do_not_overflow() {
    let w = fed(2, &[0, u64::MAX]);
    assert_eq!(w.intervals(), vec![u64::MAX]);
    assert_eq!(w.elapsed(u64::MAX), None);
}
