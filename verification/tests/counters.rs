use quicbench::counters::{next_count, CounterSet};

#[test]
fn new_counters_are_zero() {
    let c = CounterSet::new();
    assert_eq!(c.sent(), 0);
    assert_eq!(c.received(), 0);
    assert_eq!(c.received_responses(), 0);
}

#[test]
fn each_record_touches_one_counter() {
    let mut c = CounterSet::new();
    c.record_sent();
    c.record_sent();
    c.record_received();
    c.record_response();
    c.record_response();
    c.record_response();
    assert_eq!(c.sent(), 2);
    assert_eq!(c.received(), 1);
    assert_eq!(c.received_responses(), 3);
}

#[test]
fn next_count_adds_one() {
    assert_eq!(next_count(0), 1);
    assert_eq!(next_count(41), 42);
    assert_eq!(next_count(usize::MAX - 1), usize::MAX);
}

#[test]
fn next_count_wraps_after_largest_value() {
    assert_eq!(next_count(usize::MAX), 0);
}

#[test]
fn drain_returns_count_and_resets() {
    let mut c = CounterSet::new();
    c.record_sent();
    c.record_received();
    c.record_received();
    c.record_response();
    assert_eq!(c.drain_received(), 2);
    assert_eq!(c.received(), 0);
    assert_eq!(c.sent(), 1);
    assert_eq!(c.received_responses(), 1);
}

#[test]
fn second_drain_reports_zero() {
    let mut c = CounterSet::new();
    c.record_received();
    assert_eq!(c.drain_received(), 1);
    assert_eq!(c.drain_received(), 0);
    assert_eq!(c.drain_received(), 0);
}

#[test]
fn drain_counts_only_the_interval() {
    let mut c = CounterSet::new();
    for _ in 0..7 {
        c.record_received();
    }
    assert_eq!(c.drain_received(), 7);
    for _ in 0..3 {
        c.record_received();
    }
    assert_eq!(c.drain_received(), 3);
}

#[test]
fn two_counter_sets_are_independent() {
    let mut first = CounterSet::new();
    first.record_sent();
    first.record_received();
    first.record_response();
    let second = CounterSet::new();
    assert_eq!(second.sent(), 0);
    assert_eq!(second.received(), 0);
    assert_eq!(second.received_responses(), 0);
    assert_eq!(first.sent(), 1);
}
