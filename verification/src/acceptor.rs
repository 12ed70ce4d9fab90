//! The connection acceptor of the server, one per endpoint.
//!
//! The acceptor hands every inbound connection attempt to a driver of its own
//! and goes back to listening; it ends only when its endpoint is shut down.
//! What becomes of one attempt, a failed handshake included, is the business
//! of that attempt's driver alone.
use vstd::prelude::*;

verus! {

/// What the endpoint reports to the acceptor.
#[derive(Clone, Copy, Debug, PartialEq, Eq, Structural)]
pub enum AcceptEvent {
    /// A peer is trying to connect.
    Incoming,
    /// The endpoint was shut down: there will be no more attempts.
    EndpointClosed,
}

/// Where the acceptor stands.
#[derive(Clone, Copy, Debug, PartialEq, Eq, Structural)]
pub enum AcceptorState {
    Listening,
    Closed,
}

/// What the acceptor asks for next.
#[derive(Clone, Copy, Debug, PartialEq, Eq, Structural)]
pub enum AcceptAction {
    /// Start an independent driver for the attempt, then accept again.
    SpawnConnection,
    /// The accept loop is over.
    Stop,
}

/// How the handshake of one attempt ended.
#[derive(Clone, Copy, Debug, PartialEq, Eq, Structural)]
pub enum HandshakeOutcome {
    Established,
    Failed,
}

/// What the driver of one attempt does once the handshake is over.
#[derive(Clone, Copy, Debug, PartialEq, Eq, Structural)]
pub enum ConnectionAction {
    /// Run the stream receive driver on the connection.
    DriveStreams,
    /// Report the lost connection and end.
    Abandon,
}

/// The acceptor's transition.
pub open spec fn accept_step(state: AcceptorState, event: AcceptEvent) -> (
    AcceptorState,
    AcceptAction,
) {
    if state == AcceptorState::Listening && event == AcceptEvent::Incoming {
        (AcceptorState::Listening, AcceptAction::SpawnConnection)
    } else {
        (AcceptorState::Closed, AcceptAction::Stop)
    }
}

/// The state of the acceptor after a sequence of events.
pub open spec fn acceptor_state_after(state: AcceptorState, events: Seq<AcceptEvent>) -> AcceptorState
    decreases events.len(),
{
    if events.len() == 0 {
        state
    } else {
        accept_step(acceptor_state_after(state, events.drop_last()), events.last()).0
    }
}

/// The number of connection drivers the acceptor starts over a sequence of
/// events.
pub open spec fn connections_spawned(state: AcceptorState, events: Seq<AcceptEvent>) -> nat
    decreases events.len(),
{
    if events.len() == 0 {
        0
    } else {
        let before = acceptor_state_after(state, events.drop_last());
        connections_spawned(state, events.drop_last()) + if accept_step(before, events.last()).1
            == AcceptAction::SpawnConnection {
            1nat
        } else {
            0nat
        }
    }
}

/// What follows a handshake.
pub open spec fn after_handshake(outcome: HandshakeOutcome) -> ConnectionAction {
    match outcome {
        HandshakeOutcome::Established => ConnectionAction::DriveStreams,
        HandshakeOutcome::Failed => ConnectionAction::Abandon,
    }
}

/// The acceptor's decision on one event: the next state and the action to
/// take.
pub fn on_accept_event(state: AcceptorState, event: AcceptEvent) -> (next: (
    AcceptorState,
    AcceptAction,
))
    ensures
        next == accept_step(state, event),
{
    match (state, event) {
        (AcceptorState::Listening, AcceptEvent::Incoming) => (
            AcceptorState::Listening,
            AcceptAction::SpawnConnection,
        ),
        _ => (AcceptorState::Closed, AcceptAction::Stop),
    }
}

/// The decision of one attempt's driver once its handshake is over.
pub fn on_handshake(outcome: HandshakeOutcome) -> (action: ConnectionAction)
    ensures
        action == after_handshake(outcome),
{
    match outcome {
        HandshakeOutcome::Established => ConnectionAction::DriveStreams,
        HandshakeOutcome::Failed => ConnectionAction::Abandon,
    }
}

/// Works through recorded events from `state` and returns the state the
/// acceptor ends in and the number of connection drivers it started.
pub fn replay_acceptor(state: AcceptorState, events: &Vec<AcceptEvent>) -> (end: (
    AcceptorState,
    usize,
))
    ensures
        end.0 == acceptor_state_after(state, events@),
        end.1 == connections_spawned(state, events@),
{
    let mut current = state;
    let mut spawned: usize = 0;
    let mut i: usize = 0;
    assert(events@.take(0) =~= Seq::<AcceptEvent>::empty());
    while i < events.len()
        invariant
            i <= events@.len(),
            spawned <= i,
            current == acceptor_state_after(state, events@.take(i as int)),
            spawned == connections_spawned(state, events@.take(i as int)),
        decreases events@.len() - i,
    {
        let (next, action) = on_accept_event(current, events[i]);
        proof {
            let longer = events@.take(i + 1);
            assert(longer.drop_last() =~= events@.take(i as int));
            assert(longer.last() == events@[i as int]);
        }
        match action {
            AcceptAction::SpawnConnection => {
                spawned = spawned + 1;
            },
            AcceptAction::Stop => {},
        }
        current = next;
        i = i + 1;
    }
    assert(events@.take(i as int) =~= events@);
    (current, spawned)
}

/// While the endpoint stays up the acceptor keeps listening and starts one
/// driver for each attempt, whatever became of the attempts before.
pub proof fn lemma_every_attempt_spawned(events: Seq<AcceptEvent>)
    requires
        forall|i: int| 0 <= i < events.len() ==> events[i] == AcceptEvent::Incoming,
    ensures
        acceptor_state_after(AcceptorState::Listening, events) == AcceptorState::Listening,
        connections_spawned(AcceptorState::Listening, events) == events.len(),
    decreases events.len(),
{
    if events.len() > 0 {
        lemma_every_attempt_spawned(events.drop_last());
    }
}

/// Once closed the acceptor stays closed and starts nothing.
pub proof fn lemma_closed_is_terminal(events: Seq<AcceptEvent>)
    ensures
        acceptor_state_after(AcceptorState::Closed, events) == AcceptorState::Closed,
        connections_spawned(AcceptorState::Closed, events) == 0,
    decreases events.len(),
{
    if events.len() > 0 {
        lemma_closed_is_terminal(events.drop_last());
    }
}

} // verus!
