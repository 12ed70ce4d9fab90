//! The datagram receive counter of the client, one per connection.
//!
//! The counter waits for one acknowledgment datagram after another and counts
//! each. The first failure ends it quietly: the connection is gone, the run
//! goes on.
use vstd::prelude::*;
use crate::counters::{bump_by, lemma_bump_by, counter_modulus, CounterSet, Tally};
use crate::receive::{
    acknowledgments_attempted, lemma_one_acknowledgment_per_increment, received_increments,
    ReceiveEvent, ReceiveState,
};

verus! {

/// What the datagram channel reports.
#[derive(Clone, Copy, Debug, PartialEq, Eq, Structural)]
pub enum DatagramEvent {
    /// A datagram arrived.
    Received,
    /// Reading failed: the peer closed the connection or the transport broke.
    Failed,
}

/// Where the counter of one connection stands.
#[derive(Clone, Copy, Debug, PartialEq, Eq, Structural)]
pub enum DatagramState {
    Listening,
    Closed,
}

/// What the counter asks for next.
#[derive(Clone, Copy, Debug, PartialEq, Eq, Structural)]
pub enum DatagramAction {
    /// Add one to the responses counter, then wait for the next datagram.
    CountAndReceive,
    /// Report the failure and stop.
    Stop,
}

/// The counter's transition.
pub open spec fn datagram_step(state: DatagramState, event: DatagramEvent) -> (
    DatagramState,
    DatagramAction,
) {
    if state == DatagramState::Listening && event == DatagramEvent::Received {
        (DatagramState::Listening, DatagramAction::CountAndReceive)
    } else {
        (DatagramState::Closed, DatagramAction::Stop)
    }
}

/// The state of the counter after a sequence of events.
pub open spec fn datagram_state_after(state: DatagramState, events: Seq<DatagramEvent>) -> DatagramState
    decreases events.len(),
{
    if events.len() == 0 {
        state
    } else {
        datagram_step(datagram_state_after(state, events.drop_last()), events.last()).0
    }
}

/// The number of datagrams that the counter counts over a sequence of events.
pub open spec fn responses_counted(state: DatagramState, events: Seq<DatagramEvent>) -> nat
    decreases events.len(),
{
    if events.len() == 0 {
        0
    } else {
        let before = datagram_state_after(state, events.drop_last());
        responses_counted(state, events.drop_last()) + if datagram_step(before, events.last()).1
            == DatagramAction::CountAndReceive {
            1nat
        } else {
            0nat
        }
    }
}

/// The number of datagrams that arrived in a sequence of events.
pub open spec fn datagrams_arrived(events: Seq<DatagramEvent>) -> nat
    decreases events.len(),
{
    if events.len() == 0 {
        0
    } else {
        datagrams_arrived(events.drop_last()) + if events.last() == DatagramEvent::Received {
            1nat
        } else {
            0nat
        }
    }
}

/// The counters after the datagram counter has worked through a sequence of
/// events: the responses counter has gone up once for each datagram counted,
/// the others are untouched.
pub open spec fn tally_after_datagrams(
    tally: Tally,
    state: DatagramState,
    events: Seq<DatagramEvent>,
) -> Tally {
    Tally {
        received_responses: bump_by(tally.received_responses, responses_counted(state, events)),
        ..tally
    }
}

/// The counter's decision on one event: the next state and the action to take.
pub fn on_datagram_event(state: DatagramState, event: DatagramEvent) -> (next: (
    DatagramState,
    DatagramAction,
))
    ensures
        next == datagram_step(state, event),
        next.1 == DatagramAction::CountAndReceive <==> state == DatagramState::Listening && event
            == DatagramEvent::Received,
{
    match (state, event) {
        (DatagramState::Listening, DatagramEvent::Received) => (
            DatagramState::Listening,
            DatagramAction::CountAndReceive,
        ),
        _ => (DatagramState::Closed, DatagramAction::Stop),
    }
}

/// Works through recorded events from `state`, as the counter would have on a
/// live connection, and applies its counting to `counters`.
pub fn replay_datagrams(
    state: DatagramState,
    events: &Vec<DatagramEvent>,
    counters: &mut CounterSet,
) -> (end: DatagramState)
    ensures
        end == datagram_state_after(state, events@),
        final(counters)@ == tally_after_datagrams(old(counters)@, state, events@),
{
    let mut current = state;
    let mut i: usize = 0;
    assert(events@.take(0) =~= Seq::<DatagramEvent>::empty());
    while i < events.len()
        invariant
            i <= events@.len(),
            current == datagram_state_after(state, events@.take(i as int)),
            counters@ == tally_after_datagrams(old(counters)@, state, events@.take(i as int)),
        decreases events@.len() - i,
    {
        let (next, action) = on_datagram_event(current, events[i]);
        proof {
            let longer = events@.take(i + 1);
            assert(longer.drop_last() =~= events@.take(i as int));
            assert(longer.last() == events@[i as int]);
        }
        match action {
            DatagramAction::CountAndReceive => {
                counters.record_response();
            },
            DatagramAction::Stop => {},
        }
        current = next;
        i = i + 1;
    }
    assert(events@.take(i as int) =~= events@);
    current
}

/// The counter never counts more datagrams than arrived, and none once it has
/// stopped.
pub proof fn lemma_responses_bounded_by_arrivals(state: DatagramState, events: Seq<DatagramEvent>)
    ensures
        responses_counted(state, events) <= datagrams_arrived(events),
        datagrams_arrived(events) <= events.len(),
        state == DatagramState::Closed ==> responses_counted(state, events) == 0
            && datagram_state_after(state, events) == DatagramState::Closed,
    decreases events.len(),
{
    if events.len() > 0 {
        lemma_responses_bounded_by_arrivals(state, events.drop_last());
    }
}

/// While nothing fails, every datagram that arrives is counted, and the
/// responses counter ends at the old value plus the number of arrivals where
/// that sum is a value of the counter.
pub proof fn lemma_every_arrival_counted(tally: Tally, events: Seq<DatagramEvent>)
    requires
        forall|i: int| 0 <= i < events.len() ==> events[i] == DatagramEvent::Received,
    ensures
        datagram_state_after(DatagramState::Listening, events) == DatagramState::Listening,
        responses_counted(DatagramState::Listening, events) == events.len(),
        tally.received_responses + events.len() < counter_modulus() ==> tally_after_datagrams(
            tally,
            DatagramState::Listening,
            events,
        ).received_responses == tally.received_responses + events.len(),
    decreases events.len(),
{
    if events.len() > 0 {
        lemma_every_arrival_counted(tally, events.drop_last());
    }
    if tally.received_responses + events.len() < counter_modulus() {
        lemma_bump_by(tally.received_responses, events.len());
    }
}

/// Datagrams may be lost on the way but none arrives that was not sent. So
/// where no more datagrams arrive at the client than the server attempted to
/// send, the client counts no more responses than the server attempted
/// acknowledgments, and no more than the server counted streams as received.
pub proof fn lemma_responses_never_exceed_acknowledgments(
    server_state: ReceiveState,
    server_events: Seq<ReceiveEvent>,
    client_state: DatagramState,
    client_events: Seq<DatagramEvent>,
)
    requires
        datagrams_arrived(client_events) <= acknowledgments_attempted(server_state, server_events),
    ensures
        responses_counted(client_state, client_events) <= acknowledgments_attempted(
            server_state,
            server_events,
        ),
        responses_counted(client_state, client_events) <= received_increments(
            server_state,
            server_events,
        ),
{
    lemma_responses_bounded_by_arrivals(client_state, client_events);
    lemma_one_acknowledgment_per_increment(server_state, server_events);
}

} // verus!
