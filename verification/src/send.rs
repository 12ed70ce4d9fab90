//! The stream send driver of the client, one per connection.
//!
//! For a fixed number of packets the driver opens a stream and writes one
//! packet to it. A write that completes is counted as sent; a write that fails
//! is reported and not counted. Either way the driver goes on to the next
//! packet: nothing is retried and nothing stops the driver early.
use vstd::prelude::*;
use crate::counters::{bump_by, lemma_bump_by, lemma_bump_by_add, counter_modulus, CounterSet, Tally};

verus! {

/// How the exchange of one packet ended.
#[derive(Clone, Copy, Debug, PartialEq, Eq, Structural)]
pub enum WriteOutcome {
    /// The packet was written to its stream in full.
    Written,
    /// The stream could not be opened or the write failed.
    Failed,
}

/// What the driver does after an outcome.
#[derive(Clone, Copy, Debug, PartialEq, Eq, Structural)]
pub enum SendAction {
    /// Open a stream and write the next packet.
    WritePacket,
    /// Every packet has been issued: the driver ends.
    Finish,
}

/// The driver's decision on one outcome.
#[derive(Clone, Copy, Debug, PartialEq, Eq, Structural)]
pub struct SendDecision {
    /// The number of packets still to be issued.
    pub remaining: usize,
    /// Whether the sent counter goes up by one. Where it does, the driver also
    /// lets other tasks run before it continues.
    pub counted: bool,
    /// What the driver does next.
    pub action: SendAction,
}

/// The first action of a driver that has `packets` packets to issue.
pub open spec fn first_send_action(packets: usize) -> SendAction {
    if packets == 0 {
        SendAction::Finish
    } else {
        SendAction::WritePacket
    }
}

/// The driver's transition: with `remaining` packets to issue, one of them
/// outstanding, `outcome` concludes that one. With none outstanding the outcome
/// is disregarded.
pub open spec fn send_step(remaining: usize, outcome: WriteOutcome) -> SendDecision {
    if remaining == 0 {
        SendDecision { remaining: 0, counted: false, action: SendAction::Finish }
    } else {
        SendDecision {
            remaining: (remaining - 1) as usize,
            counted: outcome == WriteOutcome::Written,
            action: first_send_action((remaining - 1) as usize),
        }
    }
}

/// The number of outcomes in a sequence that are completed writes.
pub open spec fn written_count(outcomes: Seq<WriteOutcome>) -> nat
    decreases outcomes.len(),
{
    if outcomes.len() == 0 {
        0
    } else {
        written_count(outcomes.drop_last()) + if outcomes.last() == WriteOutcome::Written {
            1nat
        } else {
            0nat
        }
    }
}

/// The outcomes that a driver with `packets` packets to issue gets to see: one
/// for each packet and no more.
pub open spec fn outcomes_seen(packets: usize, outcomes: Seq<WriteOutcome>) -> Seq<WriteOutcome> {
    if outcomes.len() <= packets {
        outcomes
    } else {
        outcomes.take(packets as int)
    }
}

/// The counters after one driver has issued its packets: the sent counter has
/// gone up once for each completed write, the others are untouched.
pub open spec fn tally_after_send(tally: Tally, packets: usize, outcomes: Seq<WriteOutcome>) -> Tally {
    Tally { sent: bump_by(tally.sent, written_count(outcomes_seen(packets, outcomes))), ..tally }
}

/// The counters after the drivers of several connections, each with `packets`
/// packets to issue, have run; `runs` holds the outcomes of each connection.
pub open spec fn tally_after_client(tally: Tally, packets: usize, runs: Seq<Seq<WriteOutcome>>) -> Tally
    decreases runs.len(),
{
    if runs.len() == 0 {
        tally
    } else {
        tally_after_send(tally_after_client(tally, packets, runs.drop_last()), packets, runs.last())
    }
}

/// Whether a connection issued `packets` packets and every write completed.
pub open spec fn run_all_written(packets: usize, outcomes: Seq<WriteOutcome>) -> bool {
    outcomes.len() == packets && forall|j: int|
        0 <= j < outcomes.len() ==> outcomes[j] == WriteOutcome::Written
}

/// Whether every connection in `runs` issued `packets` packets and every write
/// completed.
pub open spec fn all_written(packets: usize, runs: Seq<Seq<WriteOutcome>>) -> bool {
    forall|i: int| 0 <= i < runs.len() ==> run_all_written(packets, #[trigger] runs[i])
}

/// The first action of a driver that has `packets` packets to issue.
pub fn begin_sending(packets: usize) -> (action: SendAction)
    ensures
        action == first_send_action(packets),
{
    if packets == 0 {
        SendAction::Finish
    } else {
        SendAction::WritePacket
    }
}

/// The driver's decision on the outcome of the outstanding packet.
pub fn on_write_outcome(remaining: usize, outcome: WriteOutcome) -> (decision: SendDecision)
    ensures
        decision == send_step(remaining, outcome),
        decision.counted ==> outcome == WriteOutcome::Written,
        decision.remaining <= remaining,
        remaining > 0 ==> decision.remaining == remaining - 1,
{
    if remaining == 0 {
        SendDecision { remaining: 0, counted: false, action: SendAction::Finish }
    } else {
        let left: usize = remaining - 1;
        let counted = match outcome {
            WriteOutcome::Written => true,
            WriteOutcome::Failed => false,
        };
        SendDecision { remaining: left, counted, action: begin_sending(left) }
    }
}

/// Works through the recorded outcomes of one connection, as a driver with
/// `packets` packets to issue would have, and applies its counting to
/// `counters`. Returns the number of packets that were not issued because the
/// record ended first.
pub fn replay_send(packets: usize, outcomes: &Vec<WriteOutcome>, counters: &mut CounterSet) -> (left: usize)
    ensures
        left == packets - outcomes_seen(packets, outcomes@).len(),
        final(counters)@ == tally_after_send(old(counters)@, packets, outcomes@),
{
    let mut remaining: usize = packets;
    let mut i: usize = 0;
    assert(outcomes@.take(0) =~= Seq::<WriteOutcome>::empty());
    while i < outcomes.len() && remaining > 0
        invariant
            i <= outcomes@.len(),
            i <= packets,
            remaining == packets - i,
            counters@ == (Tally {
                sent: bump_by(old(counters)@.sent, written_count(outcomes@.take(i as int))),
                ..old(counters)@
            }),
        decreases outcomes@.len() - i,
    {
        let decision = on_write_outcome(remaining, outcomes[i]);
        proof {
            let longer = outcomes@.take(i + 1);
            assert(longer.drop_last() =~= outcomes@.take(i as int));
            assert(longer.last() == outcomes@[i as int]);
        }
        if decision.counted {
            counters.record_sent();
        }
        remaining = decision.remaining;
        i = i + 1;
    }
    proof {
        if outcomes@.len() <= packets {
            assert(outcomes@.take(i as int) =~= outcomes@);
        }
    }
    remaining
}

/// Works through the recorded outcomes of every connection of a client, each
/// with `packets` packets to issue, and applies the counting to `counters`.
pub fn replay_client(packets: usize, runs: &Vec<Vec<WriteOutcome>>, counters: &mut CounterSet)
    ensures
        final(counters)@ == tally_after_client(
            old(counters)@,
            packets,
            Seq::new(runs@.len(), |i: int| runs@[i]@),
        ),
{
    let ghost all = Seq::new(runs@.len(), |i: int| runs@[i]@);
    let mut k: usize = 0;
    assert(all.take(0) =~= Seq::<Seq<WriteOutcome>>::empty());
    while k < runs.len()
        invariant
            k <= runs@.len(),
            all == Seq::new(runs@.len(), |i: int| runs@[i]@),
            counters@ == tally_after_client(old(counters)@, packets, all.take(k as int)),
        decreases runs@.len() - k,
    {
        proof {
            let longer = all.take(k + 1);
            assert(longer.drop_last() =~= all.take(k as int));
            assert(longer.last() == runs@[k as int]@);
        }
        let _ = replay_send(packets, &runs[k], counters);
        k = k + 1;
    }
    assert(all.take(k as int) =~= all);
}

/// A sequence of outcomes that are all completed writes counts in full.
pub proof fn lemma_written_count_full(outcomes: Seq<WriteOutcome>)
    requires
        forall|j: int| 0 <= j < outcomes.len() ==> outcomes[j] == WriteOutcome::Written,
    ensures
        written_count(outcomes) == outcomes.len(),
    decreases outcomes.len(),
{
    if outcomes.len() > 0 {
        lemma_written_count_full(outcomes.drop_last());
    }
}

/// No sequence of outcomes counts more completed writes than it has entries,
/// so a driver never counts more than the packets it was given.
pub proof fn lemma_written_count_bounded(packets: usize, outcomes: Seq<WriteOutcome>)
    ensures
        written_count(outcomes) <= outcomes.len(),
        written_count(outcomes_seen(packets, outcomes)) <= packets,
    decreases outcomes.len(),
{
    if outcomes.len() > 0 {
        lemma_written_count_bounded(packets, outcomes.drop_last());
    }
    if outcomes.len() > packets {
        lemma_written_count_bounded(packets, outcomes.take(packets as int));
    }
}

/// With `t` connections that each issue `p` packets and no write failing, the
/// sent counter goes up by `t * p`: it ends at the old value plus `t * p`,
/// reduced by the number of values a counter can take, and at exactly that sum
/// where the sum is a value of the counter.
pub proof fn lemma_sent_is_connections_times_packets(
    tally: Tally,
    packets: usize,
    runs: Seq<Seq<WriteOutcome>>,
)
    requires
        tally.sent < counter_modulus(),
        all_written(packets, runs),
    ensures
        tally_after_client(tally, packets, runs).sent == bump_by(tally.sent, runs.len() * (packets as nat)),
        tally_after_client(tally, packets, runs).sent == (tally.sent + runs.len() * (packets as nat))
            % counter_modulus(),
        tally.sent + runs.len() * (packets as nat) < counter_modulus() ==> tally_after_client(
            tally,
            packets,
            runs,
        ).sent == tally.sent + runs.len() * (packets as nat),
        tally_after_client(tally, packets, runs).received == tally.received,
        tally_after_client(tally, packets, runs).received_responses == tally.received_responses,
    decreases runs.len(),
{
    if runs.len() > 0 {
        let earlier = runs.drop_last();
        assert forall|i: int| 0 <= i < earlier.len() implies run_all_written(
            packets,
            #[trigger] earlier[i],
        ) by {
            assert(earlier[i] == runs[i]);
        }
        lemma_sent_is_connections_times_packets(tally, packets, earlier);
        let last = runs.last();
        assert(last == runs[runs.len() - 1]);
        lemma_written_count_full(last);
        lemma_bump_by_add(tally.sent, earlier.len() * (packets as nat), packets as nat);
        assert(earlier.len() * (packets as nat) + packets == runs.len() * (packets as nat)) by (nonlinear_arith)
            requires
                earlier.len() + 1 == runs.len(),
        ;
    } else {
        assert(runs.len() * (packets as nat) == 0) by (nonlinear_arith)
            requires
                runs.len() == 0,
        ;
    }
    lemma_bump_by(tally.sent, runs.len() * (packets as nat));
}

} // verus!
