use quicbench::counters::CounterSet;
use quicbench::receive::{
    action_attempts_acknowledgment, action_counts_received, awaited_operation, classify_read,
    on_receive_event, replay_receive, DrainStep, Operation, ReadOutcome, ReceiveAction,
    ReceiveEvent, ReceiveState, Verdict,
};

fn good_stream() -> Vec<ReceiveEvent> {
    vec![
        ReceiveEvent::StreamAccepted,
        ReceiveEvent::Read(ReadOutcome::Chunks(1)),
        ReceiveEvent::Read(ReadOutcome::EndOfStream),
        ReceiveEvent::AckSent,
    ]
}

fn bad_stream() -> Vec<ReceiveEvent> {
    vec![
        ReceiveEvent::StreamAccepted,
        ReceiveEvent::Read(ReadOutcome::Chunks(2)),
        ReceiveEvent::Read(ReadOutcome::Failed),
    ]
}

#[test]
fn classify_read_cases() {
    assert_eq!(classify_read(ReadOutcome::Chunks(1)), DrainStep::ReadMore);
    assert_eq!(classify_read(ReadOutcome::Chunks(4)), DrainStep::ReadMore);
    assert_eq!(classify_read(ReadOutcome::Chunks(9)), DrainStep::ReadMore);
    assert_eq!(
        classify_read(ReadOutcome::Chunks(0)),
        DrainStep::Finished(Verdict::Success)
    );
    assert_eq!(
        classify_read(ReadOutcome::EndOfStream),
        DrainStep::Finished(Verdict::Success)
    );
    assert_eq!(
        classify_read(ReadOutcome::Failed),
        DrainStep::Finished(Verdict::Failure)
    );
}

#[test]
fn accepting_transitions() {
    assert_eq!(
        on_receive_event(ReceiveState::Accepting, ReceiveEvent::StreamAccepted),
        (ReceiveState::Draining, ReceiveAction::ReadChunks)
    );
    assert_eq!(
        on_receive_event(ReceiveState::Accepting, ReceiveEvent::AcceptFailed),
        (ReceiveState::Closed, ReceiveAction::Stop)
    );
    assert_eq!(
        on_receive_event(ReceiveState::Accepting, ReceiveEvent::AckSent),
        (ReceiveState::Accepting, ReceiveAction::Wait)
    );
}

#[test]
fn draining_transitions() {
    assert_eq!(
        on_receive_event(ReceiveState::Draining, ReceiveEvent::Read(ReadOutcome::Chunks(3))),
        (ReceiveState::Draining, ReceiveAction::ReadChunks)
    );
    assert_eq!(
        on_receive_event(ReceiveState::Draining, ReceiveEvent::Read(ReadOutcome::EndOfStream)),
        (ReceiveState::Acknowledging, ReceiveAction::CountAndAcknowledge)
    );
    assert_eq!(
        on_receive_event(ReceiveState::Draining, ReceiveEvent::Read(ReadOutcome::Chunks(0))),
        (ReceiveState::Acknowledging, ReceiveAction::CountAndAcknowledge)
    );
    assert_eq!(
        on_receive_event(ReceiveState::Draining, ReceiveEvent::Read(ReadOutcome::Failed)),
        (ReceiveState::Accepting, ReceiveAction::DiscardStream)
    );
    assert_eq!(
        on_receive_event(ReceiveState::Draining, ReceiveEvent::AcceptFailed),
        (ReceiveState::Draining, ReceiveAction::Wait)
    );
}

#[test]
fn acknowledging_transitions() {
    assert_eq!(
        on_receive_event(ReceiveState::Acknowledging, ReceiveEvent::AckSent),
        (ReceiveState::Accepting, ReceiveAction::YieldThenAccept)
    );
    assert_eq!(
        on_receive_event(ReceiveState::Acknowledging, ReceiveEvent::AckFailed),
        (ReceiveState::Accepting, ReceiveAction::DropAcknowledgment)
    );
    assert_eq!(
        on_receive_event(ReceiveState::Acknowledging, ReceiveEvent::StreamAccepted),
        (ReceiveState::Acknowledging, ReceiveAction::Wait)
    );
}

#[test]
fn closed_stays_closed() {
    for event in [
        ReceiveEvent::StreamAccepted,
        ReceiveEvent::AcceptFailed,
        ReceiveEvent::Read(ReadOutcome::EndOfStream),
        ReceiveEvent::AckSent,
        ReceiveEvent::AckFailed,
    ] {
        assert_eq!(
            on_receive_event(ReceiveState::Closed, event),
            (ReceiveState::Closed, ReceiveAction::Stop)
        );
    }
}

#[test]
fn only_one_action_counts_and_acknowledges() {
    for action in [
        ReceiveAction::ReadChunks,
        ReceiveAction::DiscardStream,
        ReceiveAction::YieldThenAccept,
        ReceiveAction::DropAcknowledgment,
        ReceiveAction::Stop,
        ReceiveAction::Wait,
    ] {
        assert!(!action_counts_received(action));
        assert!(!action_attempts_acknowledgment(action));
    }
    assert!(action_counts_received(ReceiveAction::CountAndAcknowledge));
    assert!(action_attempts_acknowledgment(ReceiveAction::CountAndAcknowledge));
}

#[test]
fn received_once_per_drained_stream() {
    let mut events = Vec::new();
    events.extend(good_stream());
    events.extend(bad_stream());
    events.extend(good_stream());
    events.extend(bad_stream());
    events.extend(good_stream());
    let mut counters = CounterSet::new();
    let summary = replay_receive(ReceiveState::Accepting, &events, &mut counters);
    assert_eq!(counters.received(), 3);
    assert_eq!(counters.sent(), 0);
    assert_eq!(counters.received_responses(), 0);
    assert_eq!(summary.state, ReceiveState::Accepting);
}

#[test]
fn failed_stream_is_not_counted_and_connection_continues() {
    let mut events = bad_stream();
    let mut counters = CounterSet::new();
    let summary = replay_receive(ReceiveState::Accepting, &events, &mut counters);
    assert_eq!(counters.received(), 0);
    assert_eq!(summary.acknowledgments, 0);
    assert_eq!(summary.state, ReceiveState::Accepting);
    events.extend(good_stream());
    let mut counters = CounterSet::new();
    let summary = replay_receive(ReceiveState::Accepting, &events, &mut counters);
    assert_eq!(counters.received(), 1);
    assert_eq!(summary.acknowledgments, 1);
}

#[test]
fn one_acknowledgment_per_increment() {
    let mut events = Vec::new();
    for _ in 0..5 {
        events.extend(good_stream());
    }
    events.extend(bad_stream());
    let mut counters = CounterSet::new();
    let summary = replay_receive(ReceiveState::Accepting, &events, &mut counters);
    assert_eq!(counters.received(), 5);
    assert_eq!(summary.acknowledgments, 5);
}

#[test]
fn lost_acknowledgment_keeps_the_count() {
    let events = vec![
        ReceiveEvent::StreamAccepted,
        ReceiveEvent::Read(ReadOutcome::EndOfStream),
        ReceiveEvent::AckFailed,
        ReceiveEvent::StreamAccepted,
        ReceiveEvent::Read(ReadOutcome::EndOfStream),
        ReceiveEvent::AckSent,
    ];
    let mut counters = CounterSet::new();
    let summary = replay_receive(ReceiveState::Accepting, &events, &mut counters);
    assert_eq!(counters.received(), 2);
    assert_eq!(summary.acknowledgments, 2);
    assert_eq!(summary.state, ReceiveState::Accepting);
}

#[test]
fn accept_failure_ends_the_driver() {
    let mut events = good_stream();
    events.push(ReceiveEvent::AcceptFailed);
    events.extend(good_stream());
    let mut counters = CounterSet::new();
    let summary = replay_receive(ReceiveState::Accepting, &events, &mut counters);
    assert_eq!(summary.state, ReceiveState::Closed);
    assert_eq!(counters.received(), 1);
    assert_eq!(summary.acknowledgments, 1);
}

#[test]
fn replay_of_nothing_changes_nothing() {
    let mut counters = CounterSet::new();
    counters.record_received();
    let summary = replay_receive(ReceiveState::Draining, &Vec::new(), &mut counters);
    assert_eq!(summary.state, ReceiveState::Draining);
    assert_eq!(summary.acknowledgments, 0);
    assert_eq!(counters.received(), 1);
}

#[test]
fn each_state_awaits_one_operation() {
    assert_eq!(awaited_operation(ReceiveState::Accepting), Operation::AcceptStream);
    assert_eq!(awaited_operation(ReceiveState::Draining), Operation::ReadChunks);
    assert_eq!(awaited_operation(ReceiveState::Acknowledging), Operation::SendAcknowledgment);
    assert_eq!(awaited_operation(ReceiveState::Closed), Operation::Nothing);
}
