use quicbench::counters::CounterSet;
use quicbench::send::{
    begin_sending, on_write_outcome, replay_client, replay_send, SendAction, SendDecision,
    WriteOutcome,
};

#[test]
fn begin_sending_cases() {
    assert_eq!(begin_sending(0), SendAction::Finish);
    assert_eq!(begin_sending(1), SendAction::WritePacket);
    assert_eq!(begin_sending(10000), SendAction::WritePacket);
}

#[test]
fn written_packet_is_counted() {
    assert_eq!(
        on_write_outcome(3, WriteOutcome::Written),
        SendDecision { remaining: 2, counted: true, action: SendAction::WritePacket }
    );
    assert_eq!(
        on_write_outcome(1, WriteOutcome::Written),
        SendDecision { remaining: 0, counted: true, action: SendAction::Finish }
    );
}

#[test]
fn failed_packet_is_not_counted_and_not_retried() {
    assert_eq!(
        on_write_outcome(3, WriteOutcome::Failed),
        SendDecision { remaining: 2, counted: false, action: SendAction::WritePacket }
    );
    assert_eq!(
        on_write_outcome(1, WriteOutcome::Failed),
        SendDecision { remaining: 0, counted: false, action: SendAction::Finish }
    );
}

#[test]
fn outcome_without_outstanding_packet_is_disregarded() {
    assert_eq!(
        on_write_outcome(0, WriteOutcome::Written),
        SendDecision { remaining: 0, counted: false, action: SendAction::Finish }
    );
}

#[test]
fn sent_is_connections_times_packets() {
    let runs = vec![vec![WriteOutcome::Written; 4]; 3];
    let mut counters = CounterSet::new();
    replay_client(4, &runs, &mut counters);
    assert_eq!(counters.sent(), 12);
    assert_eq!(counters.received(), 0);
    assert_eq!(counters.received_responses(), 0);
}

#[test]
fn no_connections_send_nothing() {
    let mut counters = CounterSet::new();
    replay_client(4, &Vec::new(), &mut counters);
    assert_eq!(counters.sent(), 0);
}

#[test]
fn failures_lower_the_count() {
    let outcomes = vec![
        WriteOutcome::Written,
        WriteOutcome::Failed,
        WriteOutcome::Written,
        WriteOutcome::Failed,
        WriteOutcome::Written,
    ];
    let mut counters = CounterSet::new();
    let left = replay_send(5, &outcomes, &mut counters);
    assert_eq!(left, 0);
    assert_eq!(counters.sent(), 3);
}

#[test]
fn driver_stops_after_its_packets() {
    let outcomes = vec![WriteOutcome::Written; 8];
    let mut counters = CounterSet::new();
    let left = replay_send(5, &outcomes, &mut counters);
    assert_eq!(left, 0);
    assert_eq!(counters.sent(), 5);
}

#[test]
fn short_record_leaves_packets() {
    let outcomes = vec![WriteOutcome::Written; 2];
    let mut counters = CounterSet::new();
    let left = replay_send(5, &outcomes, &mut counters);
    assert_eq!(left, 3);
    assert_eq!(counters.sent(), 2);
}
