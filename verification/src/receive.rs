//! The stream receive driver of the server, one per connection.
//!
//! The driver accepts one inbound stream after another and drains each. A
//! stream that ends without a read error is counted as received and answered
//! with one acknowledgment datagram; a stream that fails is discarded and the
//! driver goes on to the next. Only a failed accept ends the driver.
use vstd::prelude::*;
use crate::counters::{bump_by, lemma_bump_by, CounterSet, Tally};
use crate::payload::usable_chunks;

verus! {

/// What one read of a stream gave.
#[derive(Clone, Copy, Debug, PartialEq, Eq, Structural)]
pub enum ReadOutcome {
    /// The read filled this many chunk buffers, as reported by the transport.
    Chunks(usize),
    /// The stream has ended.
    EndOfStream,
    /// The read failed.
    Failed,
}

/// How a drained stream is classified.
#[derive(Clone, Copy, Debug, PartialEq, Eq, Structural)]
pub enum Verdict {
    Success,
    Failure,
}

/// What follows one read while a stream is drained.
#[derive(Clone, Copy, Debug, PartialEq, Eq, Structural)]
pub enum DrainStep {
    /// There may be more: read again.
    ReadMore,
    /// The stream is finished, with this classification.
    Finished(Verdict),
}

/// Where the driver of one connection stands.
#[derive(Clone, Copy, Debug, PartialEq, Eq, Structural)]
pub enum ReceiveState {
    /// Waiting for the next inbound stream.
    Accepting,
    /// Reading the accepted stream.
    Draining,
    /// The stream was counted; its acknowledgment is on its way out.
    Acknowledging,
    /// The connection has ended.
    Closed,
}

/// What the transport reports to the driver.
#[derive(Clone, Copy, Debug, PartialEq, Eq, Structural)]
pub enum ReceiveEvent {
    /// An inbound stream was accepted.
    StreamAccepted,
    /// Accepting a stream failed: the connection is gone.
    AcceptFailed,
    /// A read of the current stream returned.
    Read(ReadOutcome),
    /// The acknowledgment was taken by the outbound queue.
    AckSent,
    /// The acknowledgment could not be sent.
    AckFailed,
}

/// What the driver asks for next.
#[derive(Clone, Copy, Debug, PartialEq, Eq, Structural)]
pub enum ReceiveAction {
    /// Read the next chunks of the current stream.
    ReadChunks,
    /// Add one to the received counter, then send one acknowledgment datagram.
    CountAndAcknowledge,
    /// The stream failed: report it, then accept the next stream.
    DiscardStream,
    /// The acknowledgment went out: let other tasks run, then accept the next
    /// stream.
    YieldThenAccept,
    /// The acknowledgment was lost: report it, then accept the next stream.
    DropAcknowledgment,
    /// The connection has ended: report it and stop.
    Stop,
    /// The event is not one the driver waits for in its state: keep waiting.
    Wait,
}

/// The operation on the transport whose outcome the driver waits for.
#[derive(Clone, Copy, Debug, PartialEq, Eq, Structural)]
pub enum Operation {
    /// Accept the next inbound stream.
    AcceptStream,
    /// Read the next chunks of the current stream.
    ReadChunks,
    /// Send one acknowledgment datagram and wait until the outbound queue has
    /// taken it.
    SendAcknowledgment,
    /// Nothing: the driver has ended.
    Nothing,
}

/// The operation that is outstanding in each state.
pub open spec fn operation_in(state: ReceiveState) -> Operation {
    match state {
        ReceiveState::Accepting => Operation::AcceptStream,
        ReceiveState::Draining => Operation::ReadChunks,
        ReceiveState::Acknowledging => Operation::SendAcknowledgment,
        ReceiveState::Closed => Operation::Nothing,
    }
}

/// The classification of one read: a read error fails the stream, the end of
/// the stream or a read without chunks completes it, anything else calls for
/// another read.
pub open spec fn drain_step(outcome: ReadOutcome) -> DrainStep {
    match outcome {
        ReadOutcome::Chunks(n) => if n == 0 {
            DrainStep::Finished(Verdict::Success)
        } else {
            DrainStep::ReadMore
        },
        ReadOutcome::EndOfStream => DrainStep::Finished(Verdict::Success),
        ReadOutcome::Failed => DrainStep::Finished(Verdict::Failure),
    }
}

/// The driver's transition: the state after `event` arrives in `state`, and
/// the action the driver asks for.
pub open spec fn receive_step(state: ReceiveState, event: ReceiveEvent) -> (
    ReceiveState,
    ReceiveAction,
) {
    match (state, event) {
        (ReceiveState::Closed, _) => (ReceiveState::Closed, ReceiveAction::Stop),
        (ReceiveState::Accepting, ReceiveEvent::StreamAccepted) => (
            ReceiveState::Draining,
            ReceiveAction::ReadChunks,
        ),
        (ReceiveState::Accepting, ReceiveEvent::AcceptFailed) => (
            ReceiveState::Closed,
            ReceiveAction::Stop,
        ),
        (ReceiveState::Draining, ReceiveEvent::Read(outcome)) => match drain_step(outcome) {
            DrainStep::ReadMore => (ReceiveState::Draining, ReceiveAction::ReadChunks),
            DrainStep::Finished(Verdict::Success) => (
                ReceiveState::Acknowledging,
                ReceiveAction::CountAndAcknowledge,
            ),
            DrainStep::Finished(Verdict::Failure) => (
                ReceiveState::Accepting,
                ReceiveAction::DiscardStream,
            ),
        },
        (ReceiveState::Acknowledging, ReceiveEvent::AckSent) => (
            ReceiveState::Accepting,
            ReceiveAction::YieldThenAccept,
        ),
        (ReceiveState::Acknowledging, ReceiveEvent::AckFailed) => (
            ReceiveState::Accepting,
            ReceiveAction::DropAcknowledgment,
        ),
        _ => (state, ReceiveAction::Wait),
    }
}

/// Whether the action adds one to the received counter.
pub open spec fn counts_received(action: ReceiveAction) -> bool {
    action == ReceiveAction::CountAndAcknowledge
}

/// Whether the action attempts to send an acknowledgment datagram.
pub open spec fn attempts_acknowledgment(action: ReceiveAction) -> bool {
    action == ReceiveAction::CountAndAcknowledge
}

/// Whether `event`, arriving in `state`, completes a stream without error.
pub open spec fn completes_stream(state: ReceiveState, event: ReceiveEvent) -> bool {
    state == ReceiveState::Draining && match event {
        ReceiveEvent::Read(outcome) => drain_step(outcome) == DrainStep::Finished(
            Verdict::Success,
        ),
        _ => false,
    }
}

/// The state of the driver after a sequence of events.
pub open spec fn receive_state_after(state: ReceiveState, events: Seq<ReceiveEvent>) -> ReceiveState
    decreases events.len(),
{
    if events.len() == 0 {
        state
    } else {
        receive_step(receive_state_after(state, events.drop_last()), events.last()).0
    }
}

/// The number of streams that a sequence of events completes without error.
pub open spec fn streams_completed(state: ReceiveState, events: Seq<ReceiveEvent>) -> nat
    decreases events.len(),
{
    if events.len() == 0 {
        0
    } else {
        let before = receive_state_after(state, events.drop_last());
        streams_completed(state, events.drop_last()) + if completes_stream(
            before,
            events.last(),
        ) {
            1nat
        } else {
            0nat
        }
    }
}

/// The number of increments of the received counter that the driver asks for
/// over a sequence of events.
pub open spec fn received_increments(state: ReceiveState, events: Seq<ReceiveEvent>) -> nat
    decreases events.len(),
{
    if events.len() == 0 {
        0
    } else {
        let before = receive_state_after(state, events.drop_last());
        received_increments(state, events.drop_last()) + if counts_received(
            receive_step(before, events.last()).1,
        ) {
            1nat
        } else {
            0nat
        }
    }
}

/// The number of acknowledgment sends that the driver asks for over a sequence
/// of events.
pub open spec fn acknowledgments_attempted(state: ReceiveState, events: Seq<ReceiveEvent>) -> nat
    decreases events.len(),
{
    if events.len() == 0 {
        0
    } else {
        let before = receive_state_after(state, events.drop_last());
        acknowledgments_attempted(state, events.drop_last()) + if attempts_acknowledgment(
            receive_step(before, events.last()).1,
        ) {
            1nat
        } else {
            0nat
        }
    }
}

/// The counters after the driver has worked through a sequence of events: the
/// received counter has gone up once for each increment asked for, the others
/// are untouched.
pub open spec fn tally_after_receive(
    tally: Tally,
    state: ReceiveState,
    events: Seq<ReceiveEvent>,
) -> Tally {
    Tally { received: bump_by(tally.received, received_increments(state, events)), ..tally }
}

/// Classifies one read of a stream.
pub fn classify_read(outcome: ReadOutcome) -> (step: DrainStep)
    ensures
        step == drain_step(outcome),
{
    match outcome {
        ReadOutcome::Chunks(reported) => {
            if usable_chunks(reported) == 0 {
                DrainStep::Finished(Verdict::Success)
            } else {
                DrainStep::ReadMore
            }
        },
        ReadOutcome::EndOfStream => DrainStep::Finished(Verdict::Success),
        ReadOutcome::Failed => DrainStep::Finished(Verdict::Failure),
    }
}

/// The driver's decision on one event: the next state and the action to take.
pub fn on_receive_event(state: ReceiveState, event: ReceiveEvent) -> (next: (
    ReceiveState,
    ReceiveAction,
))
    ensures
        next == receive_step(state, event),
        counts_received(next.1) <==> completes_stream(state, event),
        attempts_acknowledgment(next.1) ==> counts_received(next.1),
        attempts_acknowledgment(next.1) <==> state != ReceiveState::Acknowledging && operation_in(
            next.0,
        ) == Operation::SendAcknowledgment,
{
    match state {
        ReceiveState::Closed => (ReceiveState::Closed, ReceiveAction::Stop),
        ReceiveState::Accepting => match event {
            ReceiveEvent::StreamAccepted => (ReceiveState::Draining, ReceiveAction::ReadChunks),
            ReceiveEvent::AcceptFailed => (ReceiveState::Closed, ReceiveAction::Stop),
            _ => (state, ReceiveAction::Wait),
        },
        ReceiveState::Draining => match event {
            ReceiveEvent::Read(outcome) => match classify_read(outcome) {
                DrainStep::ReadMore => (ReceiveState::Draining, ReceiveAction::ReadChunks),
                DrainStep::Finished(Verdict::Success) => (
                    ReceiveState::Acknowledging,
                    ReceiveAction::CountAndAcknowledge,
                ),
                DrainStep::Finished(Verdict::Failure) => (
                    ReceiveState::Accepting,
                    ReceiveAction::DiscardStream,
                ),
            },
            _ => (state, ReceiveAction::Wait),
        },
        ReceiveState::Acknowledging => match event {
            ReceiveEvent::AckSent => (ReceiveState::Accepting, ReceiveAction::YieldThenAccept),
            ReceiveEvent::AckFailed => (ReceiveState::Accepting, ReceiveAction::DropAcknowledgment),
            _ => (state, ReceiveAction::Wait),
        },
    }
}

/// The operation to perform on the transport while the driver is in `state`.
pub fn awaited_operation(state: ReceiveState) -> (operation: Operation)
    ensures
        operation == operation_in(state),
{
    match state {
        ReceiveState::Accepting => Operation::AcceptStream,
        ReceiveState::Draining => Operation::ReadChunks,
        ReceiveState::Acknowledging => Operation::SendAcknowledgment,
        ReceiveState::Closed => Operation::Nothing,
    }
}

/// Whether the action adds one to the received counter.
pub fn action_counts_received(action: ReceiveAction) -> (b: bool)
    ensures
        b == counts_received(action),
{
    match action {
        ReceiveAction::CountAndAcknowledge => true,
        _ => false,
    }
}

/// Whether the action attempts to send an acknowledgment datagram.
pub fn action_attempts_acknowledgment(action: ReceiveAction) -> (b: bool)
    ensures
        b == attempts_acknowledgment(action),
{
    match action {
        ReceiveAction::CountAndAcknowledge => true,
        _ => false,
    }
}

/// What a replay of recorded events leaves behind.
#[derive(Clone, Copy, Debug, PartialEq, Eq, Structural)]
pub struct ReceiveSummary {
    /// The state of the driver after the last event.
    pub state: ReceiveState,
    /// The number of acknowledgment sends the driver asked for, counted like
    /// the counters of a run.
    pub acknowledgments: usize,
}

/// Works through recorded events from `state`, as the driver would have on a
/// live connection, and applies its counting to `counters`.
pub fn replay_receive(
    state: ReceiveState,
    events: &Vec<ReceiveEvent>,
    counters: &mut CounterSet,
) -> (summary: ReceiveSummary)
    ensures
        summary.state == receive_state_after(state, events@),
        summary.acknowledgments == bump_by(0, acknowledgments_attempted(state, events@)),
        final(counters)@ == tally_after_receive(old(counters)@, state, events@),
{
    let mut current = state;
    let mut acknowledgments: usize = 0;
    let mut i: usize = 0;
    assert(events@.take(0) =~= Seq::<ReceiveEvent>::empty());
    while i < events.len()
        invariant
            i <= events@.len(),
            current == receive_state_after(state, events@.take(i as int)),
            acknowledgments == bump_by(0, acknowledgments_attempted(state, events@.take(i as int))),
            counters@ == tally_after_receive(old(counters)@, state, events@.take(i as int)),
        decreases events@.len() - i,
    {
        let (next, action) = on_receive_event(current, events[i]);
        proof {
            let longer = events@.take(i + 1);
            assert(longer.drop_last() =~= events@.take(i as int));
            assert(longer.last() == events@[i as int]);
        }
        if action_counts_received(action) {
            counters.record_received();
        }
        if action_attempts_acknowledgment(action) {
            acknowledgments = crate::counters::next_count(acknowledgments);
        }
        current = next;
        i = i + 1;
    }
    assert(events@.take(i as int) =~= events@);
    ReceiveSummary { state: current, acknowledgments }
}

/// Over any sequence of events, from any state, the received counter is asked
/// to go up exactly once for each stream that was drained without error, and
/// never for a stream that failed.
pub proof fn lemma_received_once_per_drained_stream(
    state: ReceiveState,
    events: Seq<ReceiveEvent>,
)
    ensures
        received_increments(state, events) == streams_completed(state, events),
    decreases events.len(),
{
    if events.len() > 0 {
        lemma_received_once_per_drained_stream(state, events.drop_last());
    }
}

/// Over any sequence of events, from any state, the driver attempts exactly
/// one acknowledgment for each increment of the received counter, so never
/// more acknowledgments than increments.
pub proof fn lemma_one_acknowledgment_per_increment(state: ReceiveState, events: Seq<ReceiveEvent>)
    ensures
        acknowledgments_attempted(state, events) == received_increments(state, events),
        acknowledgments_attempted(state, events) <= received_increments(state, events),
    decreases events.len(),
{
    if events.len() > 0 {
        lemma_one_acknowledgment_per_increment(state, events.drop_last());
    }
}

/// The driver never asks for more increments than there were events, and none
/// at all once the connection has ended.
pub proof fn lemma_received_increments_bounded(state: ReceiveState, events: Seq<ReceiveEvent>)
    ensures
        received_increments(state, events) <= events.len(),
        state == ReceiveState::Closed ==> received_increments(state, events) == 0
            && receive_state_after(state, events) == ReceiveState::Closed,
    decreases events.len(),
{
    if events.len() > 0 {
        lemma_received_increments_bounded(state, events.drop_last());
    }
}

/// The life of one stream on a connection, as the transport reports it.
pub struct StreamRecord {
    /// The outcomes of the reads of the stream, in order.
    pub reads: Seq<ReadOutcome>,
    /// Whether the acknowledgment, where one was attempted, was taken by the
    /// outbound queue.
    pub ack_sent: bool,
}

/// Whether the record is one that the transport can report to a driver: the
/// stream is read at least once, and the read that finishes it is the last.
pub open spec fn record_complete(record: StreamRecord) -> bool {
    &&& record.reads.len() > 0
    &&& forall|i: int|
        0 <= i < record.reads.len() - 1 ==> drain_step(#[trigger] record.reads[i])
            == DrainStep::ReadMore
    &&& drain_step(record.reads.last()) != DrainStep::ReadMore
}

/// Whether the stream of the record was drained without error.
pub open spec fn record_drained(record: StreamRecord) -> bool {
    drain_step(record.reads.last()) == DrainStep::Finished(Verdict::Success)
}

/// The events of a stream up to and including its first `k` reads.
pub open spec fn events_through_read(record: StreamRecord, k: int) -> Seq<ReceiveEvent>
    decreases k,
{
    if k <= 0 {
        seq![ReceiveEvent::StreamAccepted]
    } else {
        events_through_read(record, k - 1).push(ReceiveEvent::Read(record.reads[k - 1]))
    }
}

/// The events that one stream brings to the driver: its accept, its reads,
/// and the outcome of its acknowledgment where it was drained without error.
pub open spec fn record_events(record: StreamRecord) -> Seq<ReceiveEvent> {
    let reads = events_through_read(record, record.reads.len() as int);
    if record_drained(record) {
        reads.push(
            if record.ack_sent {
                ReceiveEvent::AckSent
            } else {
                ReceiveEvent::AckFailed
            },
        )
    } else {
        reads
    }
}

/// The events that a succession of streams brings to the driver of their
/// connection.
pub open spec fn connection_events(records: Seq<StreamRecord>) -> Seq<ReceiveEvent>
    decreases records.len(),
{
    if records.len() == 0 {
        Seq::empty()
    } else {
        connection_events(records.drop_last()) + record_events(records.last())
    }
}

/// The number of streams in a succession that were drained without error.
pub open spec fn streams_drained(records: Seq<StreamRecord>) -> nat
    decreases records.len(),
{
    if records.len() == 0 {
        0
    } else {
        streams_drained(records.drop_last()) + if record_drained(records.last()) {
            1nat
        } else {
            0nat
        }
    }
}

/// One more event after a sequence of events: the driver takes one step from
/// where the sequence left it.
pub proof fn lemma_receive_one_more(state: ReceiveState, events: Seq<ReceiveEvent>, event: ReceiveEvent)
    ensures
        receive_state_after(state, events.push(event)) == receive_step(
            receive_state_after(state, events),
            event,
        ).0,
        received_increments(state, events.push(event)) == received_increments(state, events) + if counts_received(
            receive_step(receive_state_after(state, events), event).1,
        ) {
            1nat
        } else {
            0nat
        },
{
    assert(events.push(event).drop_last() =~= events);
    assert(events.push(event).last() == event);
}

/// Two sequences of events one after the other: the driver works through the
/// second from where the first left it, and the increments add up.
pub proof fn lemma_receive_in_sequence(
    state: ReceiveState,
    first: Seq<ReceiveEvent>,
    second: Seq<ReceiveEvent>,
)
    ensures
        receive_state_after(state, first + second) == receive_state_after(
            receive_state_after(state, first),
            second,
        ),
        received_increments(state, first + second) == received_increments(state, first)
            + received_increments(receive_state_after(state, first), second),
    decreases second.len(),
{
    if second.len() == 0 {
        assert(first + second =~= first);
    } else {
        lemma_receive_in_sequence(state, first, second.drop_last());
        assert((first + second).drop_last() =~= first + second.drop_last());
        assert((first + second).last() == second.last());
    }
}

/// While a stream is being read and no read finishes it, the driver stays with
/// the stream and counts nothing.
proof fn lemma_reading_counts_nothing(record: StreamRecord, k: int)
    requires
        record_complete(record),
        0 <= k < record.reads.len(),
    ensures
        receive_state_after(ReceiveState::Accepting, events_through_read(record, k))
            == ReceiveState::Draining,
        received_increments(ReceiveState::Accepting, events_through_read(record, k)) == 0,
    decreases k,
{
    if k == 0 {
        lemma_receive_one_more(
            ReceiveState::Accepting,
            Seq::empty(),
            ReceiveEvent::StreamAccepted,
        );
        assert(events_through_read(record, 0) =~= Seq::<ReceiveEvent>::empty().push(
            ReceiveEvent::StreamAccepted,
        ));
    } else {
        lemma_reading_counts_nothing(record, k - 1);
        assert(drain_step(record.reads[k - 1]) == DrainStep::ReadMore);
        lemma_receive_one_more(
            ReceiveState::Accepting,
            events_through_read(record, k - 1),
            ReceiveEvent::Read(record.reads[k - 1]),
        );
    }
}

/// One stream, from a driver that waits for a stream: the driver ends waiting
/// for the next stream, and has counted the stream once if it was drained
/// without error and not at all if it failed.
pub proof fn lemma_one_stream(record: StreamRecord)
    requires
        record_complete(record),
    ensures
        receive_state_after(ReceiveState::Accepting, record_events(record))
            == ReceiveState::Accepting,
        received_increments(ReceiveState::Accepting, record_events(record)) == if record_drained(
            record,
        ) {
            1nat
        } else {
            0nat
        },
{
    let n = record.reads.len() as int;
    lemma_reading_counts_nothing(record, n - 1);
    let before = events_through_read(record, n - 1);
    lemma_receive_one_more(ReceiveState::Accepting, before, ReceiveEvent::Read(record.reads[n - 1]));
    assert(record.reads.last() == record.reads[n - 1]);
    let reads = events_through_read(record, n);
    if record_drained(record) {
        let ack = if record.ack_sent {
            ReceiveEvent::AckSent
        } else {
            ReceiveEvent::AckFailed
        };
        lemma_receive_one_more(ReceiveState::Accepting, reads, ack);
    }
}

/// Over any succession of streams on a connection, the received counter is
/// asked to go up once for each stream that was drained without error, never
/// more, and never for a stream that failed; and the driver is then ready for
/// the next stream.
pub proof fn lemma_received_counts_drained_streams(records: Seq<StreamRecord>)
    requires
        forall|i: int| 0 <= i < records.len() ==> record_complete(#[trigger] records[i]),
    ensures
        receive_state_after(ReceiveState::Accepting, connection_events(records))
            == ReceiveState::Accepting,
        received_increments(ReceiveState::Accepting, connection_events(records))
            == streams_drained(records),
        acknowledgments_attempted(ReceiveState::Accepting, connection_events(records))
            == streams_drained(records),
    decreases records.len(),
{
    if records.len() > 0 {
        let earlier = records.drop_last();
        assert forall|i: int| 0 <= i < earlier.len() implies record_complete(
            #[trigger] earlier[i],
        ) by {
            assert(earlier[i] == records[i]);
        }
        lemma_received_counts_drained_streams(earlier);
        assert(record_complete(records[records.len() - 1]));
        lemma_one_stream(records.last());
        lemma_receive_in_sequence(
            ReceiveState::Accepting,
            connection_events(earlier),
            record_events(records.last()),
        );
    }
    lemma_one_acknowledgment_per_increment(ReceiveState::Accepting, connection_events(records));
}

/// With fewer increments than a counter has values, the received counter after
/// a replay is the old value plus the number of streams drained without error.
pub proof fn lemma_received_after_replay(tally: Tally, state: ReceiveState, events: Seq<ReceiveEvent>)
    requires
        tally.received + streams_completed(state, events) < crate::counters::counter_modulus(),
    ensures
        tally_after_receive(tally, state, events).received == tally.received + streams_completed(
            state,
            events,
        ),
        tally_after_receive(tally, state, events).sent == tally.sent,
        tally_after_receive(tally, state, events).received_responses == tally.received_responses,
{
    lemma_received_once_per_drained_stream(state, events);
    lemma_bump_by(tally.received, received_increments(state, events));
}

} // verus!
