//! The stats reporter of the server.
//!
//! Once in every period the reporter drains the received counter, reading it
//! and setting it to zero in one operation, and reports what it read as the
//! throughput of the interval. Between reports it sleeps.
use vstd::prelude::*;
use crate::counters::{bump_by, lemma_bump_by, counter_modulus, CounterSet, Tally};

verus! {

/// The length of a reporting interval in seconds.
pub const REPORT_PERIOD_SECS: u64 = 5;

/// The length of a reporting interval in milliseconds.
pub const REPORT_PERIOD_MILLIS: u64 = REPORT_PERIOD_SECS * 1000;

/// What the reporter does when it wakes up.
#[derive(Clone, Copy, Debug, PartialEq, Eq, Structural)]
pub struct WakeDecision {
    /// Whether to drain the received counter, report it and start a new
    /// interval.
    pub report: bool,
    /// The milliseconds to sleep afterwards: until the interval that is then
    /// running ends.
    pub sleep_millis: u64,
}

/// Whether a report is due `elapsed_millis` milliseconds after the last one:
/// once a whole interval has passed.
pub open spec fn report_due(elapsed_millis: u64) -> bool {
    elapsed_millis >= REPORT_PERIOD_MILLIS
}

/// The decision of a reporter that wakes up `elapsed_millis` milliseconds
/// after the last report.
pub open spec fn wake_decision(elapsed_millis: u64) -> WakeDecision {
    if report_due(elapsed_millis) {
        WakeDecision { report: true, sleep_millis: REPORT_PERIOD_MILLIS }
    } else {
        WakeDecision {
            report: false,
            sleep_millis: (REPORT_PERIOD_MILLIS - elapsed_millis) as u64,
        }
    }
}

/// The figure that a drain of `tally` reports.
pub open spec fn drained_figure(tally: Tally) -> nat {
    tally.received
}

/// The counters after a drain.
pub open spec fn drained(tally: Tally) -> Tally {
    Tally { received: 0, ..tally }
}

/// What one wake-up of the reporter reports: the drained figure where a report
/// is due, nothing otherwise.
pub open spec fn tick_report(elapsed_millis: u64, tally: Tally) -> Option<nat> {
    if report_due(elapsed_millis) {
        Some(drained_figure(tally))
    } else {
        None
    }
}

/// The counters after one wake-up of the reporter.
pub open spec fn tally_after_tick(elapsed_millis: u64, tally: Tally) -> Tally {
    if report_due(elapsed_millis) {
        drained(tally)
    } else {
        tally
    }
}

/// Decides what a reporter does that wakes up `elapsed_millis` milliseconds
/// after the last report. It never asks for a sleep of no length, so it never
/// polls.
pub fn on_reporter_wake(elapsed_millis: u64) -> (decision: WakeDecision)
    ensures
        decision == wake_decision(elapsed_millis),
        decision.report <==> elapsed_millis >= REPORT_PERIOD_MILLIS,
        0 < decision.sleep_millis <= REPORT_PERIOD_MILLIS,
{
    if elapsed_millis >= REPORT_PERIOD_MILLIS {
        WakeDecision { report: true, sleep_millis: REPORT_PERIOD_MILLIS }
    } else {
        WakeDecision { report: false, sleep_millis: REPORT_PERIOD_MILLIS - elapsed_millis }
    }
}

/// One wake-up of the reporter on `counters`: where a report is due, the
/// received counter is drained and its value returned.
pub fn report_tick(elapsed_millis: u64, counters: &mut CounterSet) -> (report: Option<usize>)
    ensures
        report is Some <==> report_due(elapsed_millis),
        report is Some ==> tick_report(elapsed_millis, old(counters)@) == Some(
            report->Some_0 as nat,
        ),
        final(counters)@ == tally_after_tick(elapsed_millis, old(counters)@),
{
    if on_reporter_wake(elapsed_millis).report {
        Some(counters.drain_received())
    } else {
        None
    }
}

/// A drain right after a drain reports zero and changes nothing: nothing is
/// counted twice.
pub proof fn lemma_second_drain_reports_zero(tally: Tally)
    ensures
        drained_figure(drained(tally)) == 0,
        drained(drained(tally)) == drained(tally),
{
}

/// With nothing received a due report is zero, and the counters are as they
/// were.
pub proof fn lemma_idle_interval_reports_zero(elapsed_millis: u64, tally: Tally)
    requires
        tally.received == 0,
        report_due(elapsed_millis),
    ensures
        tick_report(elapsed_millis, tally) == Some(0nat),
        tally_after_tick(elapsed_millis, tally) == tally,
{
}

/// A report is what was received since the drain before it, no more and no
/// less: after a drain and `n` increments, with `n` a value of the counter,
/// the next drain reports `n`.
pub proof fn lemma_report_is_interval_count(tally: Tally, n: nat)
    requires
        n < counter_modulus(),
    ensures
        drained_figure(
            Tally { received: bump_by(drained(tally).received, n), ..drained(tally) },
        ) == n,
{
    lemma_bump_by(0, n);
}

/// Draining touches neither the sent counter nor the responses counter.
pub proof fn lemma_drain_keeps_cumulative_counters(tally: Tally)
    ensures
        drained(tally).sent == tally.sent,
        drained(tally).received_responses == tally.received_responses,
{
}

} // verus!
