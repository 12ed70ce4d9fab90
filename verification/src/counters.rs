//! The counter set of a run: how many streams were sent, how many were
//! received, and how many acknowledgment datagrams came back.
//!
//! Each counter is a machine word that goes up by one at a time and wraps to
//! zero after its largest value. The received counter can also be drained: read
//! and set back to zero in one operation.
use vstd::prelude::*;
use vstd::arithmetic::div_mod::{lemma_add_mod_noop, lemma_mod_self_0, lemma_small_mod};

verus! {

/// What a counter set holds, as mathematical numbers.
pub struct Tally {
    pub sent: nat,
    pub received: nat,
    pub received_responses: nat,
}

/// The number of values a counter can take.
pub open spec fn counter_modulus() -> nat {
    usize::MAX as nat + 1
}

/// The value a counter holds after one increment from `c`: one more, or zero
/// after the largest value.
pub open spec fn bump(c: nat) -> nat {
    (c + 1) % counter_modulus()
}

/// The value a counter holds after `n` increments from `c`.
pub open spec fn bump_by(c: nat, n: nat) -> nat
    decreases n,
{
    if n == 0 {
        c
    } else {
        bump(bump_by(c, (n - 1) as nat))
    }
}

/// The counters of one run.
pub struct CounterSet {
    sent: usize,
    received: usize,
    received_responses: usize,
}

impl View for CounterSet {
    type V = Tally;

    closed spec fn view(&self) -> Tally {
        Tally {
            sent: self.sent as nat,
            received: self.received as nat,
            received_responses: self.received_responses as nat,
        }
    }
}

impl CounterSet {
    /// A counter set with every counter at zero.
    pub fn new() -> (c: CounterSet)
        ensures
            c@ == (Tally { sent: 0, received: 0, received_responses: 0 }),
    {
        CounterSet { sent: 0, received: 0, received_responses: 0 }
    }

    /// Every counter fits a machine word.
    pub proof fn lemma_bounded(&self)
        ensures
            self@.sent < counter_modulus(),
            self@.received < counter_modulus(),
            self@.received_responses < counter_modulus(),
    {
    }

    /// Counts one stream that was written in full.
    pub fn record_sent(&mut self)
        ensures
            final(self)@ == (Tally { sent: bump(old(self)@.sent), ..old(self)@ }),
    {
        self.sent = next_count(self.sent);
    }

    /// Counts one stream that was drained without error.
    pub fn record_received(&mut self)
        ensures
            final(self)@ == (Tally { received: bump(old(self)@.received), ..old(self)@ }),
    {
        self.received = next_count(self.received);
    }

    /// Counts one acknowledgment datagram that arrived.
    pub fn record_response(&mut self)
        ensures
            final(self)@ == (Tally {
                received_responses: bump(old(self)@.received_responses),
                ..old(self)@
            }),
    {
        self.received_responses = next_count(self.received_responses);
    }

    /// Reads the received counter and sets it back to zero; the other counters
    /// stay as they are.
    pub fn drain_received(&mut self) -> (drained: usize)
        ensures
            drained == old(self)@.received,
            final(self)@ == (Tally { received: 0, ..old(self)@ }),
    {
        let drained: usize = self.received;
        self.received = 0;
        drained
    }

    /// The number of streams sent so far.
    pub fn sent(&self) -> (n: usize)
        ensures
            n == self@.sent,
    {
        self.sent
    }

    /// The number of streams received since the last drain.
    pub fn received(&self) -> (n: usize)
        ensures
            n == self@.received,
    {
        self.received
    }

    /// The number of acknowledgment datagrams received so far.
    pub fn received_responses(&self) -> (n: usize)
        ensures
            n == self@.received_responses,
    {
        self.received_responses
    }
}

/// One increment of a machine-word counter, wrapping to zero after the largest
/// value.
pub fn next_count(c: usize) -> (n: usize)
    ensures
        n == bump(c as nat),
{
    proof {
        if c == usize::MAX {
            lemma_mod_self_0(counter_modulus() as int);
        } else {
            lemma_small_mod((c + 1) as nat, counter_modulus());
        }
    }
    if c == usize::MAX {
        0
    } else {
        c + 1
    }
}

/// `n` increments from `c` leave the counter at `c + n`, reduced by the number
/// of values a counter can take.
pub proof fn lemma_bump_by(c: nat, n: nat)
    requires
        c < counter_modulus(),
    ensures
        bump_by(c, n) == (c + n) % counter_modulus(),
        c + n < counter_modulus() ==> bump_by(c, n) == c + n,
    decreases n,
{
    let m = counter_modulus() as int;
    if n == 0 {
        if c < counter_modulus() {
            lemma_small_mod(c, counter_modulus());
        }
    } else {
        let k = (n - 1) as nat;
        lemma_bump_by(c, k);
        lemma_add_mod_noop((c + k) as int, 1, m);
        lemma_small_mod(1, counter_modulus());
        lemma_small_mod(((c + k) % counter_modulus()) as nat, counter_modulus());
        if c + n < counter_modulus() {
            lemma_small_mod(c + n, counter_modulus());
        }
    }
}

/// Increments add up: `b` increments after `a` increments are `a + b`
/// increments.
pub proof fn lemma_bump_by_add(c: nat, a: nat, b: nat)
    requires
        c < counter_modulus(),
    ensures
        bump_by(bump_by(c, a), b) == bump_by(c, a + b),
        bump_by(c, a) < counter_modulus(),
    decreases b,
{
    lemma_bump_by(c, a);
    if b > 0 {
        lemma_bump_by_add(c, a, (b - 1) as nat);
        assert((a + b - 1) as nat == a + (b - 1) as nat);
    }
}

} // verus!
