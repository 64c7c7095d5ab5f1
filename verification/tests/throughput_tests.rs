use speed_test::throughput::{
    report_due, send_interval_micros, ByteCounter, INITIAL_DROP_RATIO, INITIAL_UPLOAD_RATE,
    REPORT_INTERVAL_NANOS,
};

#[test]
fn counts_total_and_window() {
    let mut c = ByteCounter::new();
    c.record(8192);
    c.record(100);
    assert_eq!(c.total(), 8292);
    assert_eq!(c.take_window(), 8292);
    c.record(7);
    assert_eq!(c.take_window(), 7);
    assert_eq!(c.take_window(), 0);
    assert_eq!(c.total(), 8299);
}

#[test]
fn window_taken_only_when_due() {
    let mut c = ByteCounter::new();
    c.record(10);
    assert_eq!(c.take_window_if_due(499_999_999), None);
    c.record(5);
    assert_eq!(c.take_window_if_due(500_000_000), Some(15));
    assert_eq!(c.take_window_if_due(2_000_000_000), Some(0));
    assert_eq!(c.total(), 15);
}

#[test]
fn report_interval_is_half_a_second() {
    assert_eq!(REPORT_INTERVAL_NANOS, 500_000_000);
    assert!(!report_due(0));
    assert!(!report_due(499_999_999));
    assert!(report_due(500_000_000));
}

#[test]
fn send_intervals() {
    assert_eq!(send_interval_micros(INITIAL_UPLOAD_RATE), 1000);
    assert_eq!(send_interval_micros(0), 1_000_000);
    assert_eq!(send_interval_micros(1), 1_000_000);
    assert_eq!(send_interval_micros(3), 333_333);
    assert_eq!(send_interval_micros(2_000_000), 0);
    assert_eq!(send_interval_micros(INITIAL_DROP_RATIO), 100);
}

#[test]
fn faster_senders_pause_less() {
    let mut last = send_interval_micros(1);
    for rate in [2u64, 3, 10, 999, 1000, 1001, 50_000, 1_000_000, 5_000_000] {
        let now = send_interval_micros(rate);
        assert!(now <= last);
        last = now;
    }
}
