use quicbench::counters::CounterSet;
use quicbench::reporter::{
    on_reporter_wake, report_tick, WakeDecision, REPORT_PERIOD_MILLIS, REPORT_PERIOD_SECS,
};

#[test]
fn report_period_is_five_seconds() {
    assert_eq!(REPORT_PERIOD_SECS, 5);
    assert_eq!(REPORT_PERIOD_MILLIS, 5000);
}

#[test]
fn reporter_sleeps_to_the_end_of_the_interval() {
    assert_eq!(on_reporter_wake(0), WakeDecision { report: false, sleep_millis: 5000 });
    assert_eq!(on_reporter_wake(1200), WakeDecision { report: false, sleep_millis: 3800 });
    assert_eq!(on_reporter_wake(4999), WakeDecision { report: false, sleep_millis: 1 });
}

#[test]
fn reporter_reports_after_a_whole_interval() {
    assert_eq!(on_reporter_wake(5000), WakeDecision { report: true, sleep_millis: 5000 });
    assert_eq!(on_reporter_wake(5001), WakeDecision { report: true, sleep_millis: 5000 });
    assert_eq!(on_reporter_wake(u64::MAX), WakeDecision { report: true, sleep_millis: 5000 });
}

#[test]
fn idle_reporter_reports_zero_each_interval() {
    let mut counters = CounterSet::new();
    for _ in 0..4 {
        assert_eq!(report_tick(5000, &mut counters), Some(0));
    }
}

#[test]
fn early_wake_up_reports_nothing_and_keeps_the_count() {
    let mut counters = CounterSet::new();
    counters.record_received();
    assert_eq!(report_tick(4999, &mut counters), None);
    assert_eq!(counters.received(), 1);
}

#[test]
fn report_is_the_count_of_the_interval() {
    let mut counters = CounterSet::new();
    counters.record_sent();
    for _ in 0..3 {
        counters.record_received();
    }
    assert_eq!(report_tick(5000, &mut counters), Some(3));
    assert_eq!(counters.received(), 0);
    assert_eq!(counters.sent(), 1);
    assert_eq!(report_tick(5000, &mut counters), Some(0));
    counters.record_received();
    assert_eq!(report_tick(7000, &mut counters), Some(1));
}
