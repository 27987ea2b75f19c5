//! Tallies kept by the runtime and the test harnesses: outcomes of a
//! reconciliation batch, security test results and node runtime counters.
use vstd::prelude::*;

verus! {

/// What reconciling one event came to.
#[derive(Debug, Clone, Copy, PartialEq, Eq, Structural)]
pub enum EventOutcome {
    /// Applied to the state.
    Applied,
    /// Merged into existing state.
    Merged,
    /// Arrived late and was corrected.
    LateCorrected,
    /// Buffered until its dependencies arrive.
    Buffered,
    /// Already seen; not counted.
    Duplicate,
    /// Rejected.
    Rejected,
}

/// Number of outcomes in `s` equal to `o`.
pub open spec fn count_outcome(s: Seq<EventOutcome>, o: EventOutcome) -> nat
    decreases s.len(),
{
    if s.len() == 0 {
        0
    } else {
        count_outcome(s.drop_last(), o) + if s.last() == o {
            1nat
        } else {
            0nat
        }
    }
}

/// Reconciliation result for a batch of events.
#[derive(Debug, Clone, Copy, PartialEq, Eq)]
pub struct ReconciliationResult {
    pub applied: u32,
    pub merged: u32,
    pub late_corrected: u32,
    pub buffered: u32,
    pub rejected: u32,
}

impl Default for ReconciliationResult {
    fn default() -> (r: Self)
        ensures
            r.applied == 0 && r.merged == 0 && r.late_corrected == 0 && r.buffered == 0
                && r.rejected == 0,
    {
        ReconciliationResult { applied: 0, merged: 0, late_corrected: 0, buffered: 0, rejected: 0 }
    }
}

proof fn lemma_count_le_len(s: Seq<EventOutcome>, o: EventOutcome)
    ensures
        count_outcome(s, o) <= s.len(),
    decreases s.len(),
{
    if s.len() > 0 {
        lemma_count_le_len(s.drop_last(), o);
    }
}

impl ReconciliationResult {
    /// Tallies the outcomes of a batch: one count per kind of outcome, with
    /// duplicates not counted.
    pub fn tally(outcomes: &Vec<EventOutcome>) -> (r: Self)
        requires
            outcomes@.len() <= u32::MAX,
        ensures
            r.applied == count_outcome(outcomes@, EventOutcome::Applied),
            r.merged == count_outcome(outcomes@, EventOutcome::Merged),
            r.late_corrected == count_outcome(outcomes@, EventOutcome::LateCorrected),
            r.buffered == count_outcome(outcomes@, EventOutcome::Buffered),
            r.rejected == count_outcome(outcomes@, EventOutcome::Rejected),
    {
        let mut r = ReconciliationResult::default();
        let mut i: usize = 0;
        while i < outcomes.len()
            invariant
                0 <= i <= outcomes@.len() <= u32::MAX,
                r.applied == count_outcome(outcomes@.subrange(0, i as int), EventOutcome::Applied),
                r.merged == count_outcome(outcomes@.subrange(0, i as int), EventOutcome::Merged),
                r.late_corrected == count_outcome(
                    outcomes@.subrange(0, i as int),
                    EventOutcome::LateCorrected,
                ),
                r.buffered == count_outcome(outcomes@.subrange(0, i as int), EventOutcome::Buffered),
                r.rejected == count_outcome(outcomes@.subrange(0, i as int), EventOutcome::Rejected),
            decreases outcomes@.len() - i,
        {
            let ghost pre = outcomes@.subrange(0, i as int);
            let ghost next = outcomes@.subrange(0, i + 1);
            proof {
                assert(next.drop_last() =~= pre);
                lemma_count_le_len(pre, EventOutcome::Applied);
                lemma_count_le_len(pre, EventOutcome::Merged);
                lemma_count_le_len(pre, EventOutcome::LateCorrected);
                lemma_count_le_len(pre, EventOutcome::Buffered);
                lemma_count_le_len(pre, EventOutcome::Rejected);
            }
            match outcomes[i] {
                EventOutcome::Applied => r.applied = r.applied + 1,
                EventOutcome::Merged => r.merged = r.merged + 1,
                EventOutcome::LateCorrected => r.late_corrected = r.late_corrected + 1,
                EventOutcome::Buffered => r.buffered = r.buffered + 1,
                EventOutcome::Duplicate => {},
                EventOutcome::Rejected => r.rejected = r.rejected + 1,
            }
            i = i + 1;
        }
        assert(outcomes@.subrange(0, outcomes@.len() as int) =~= outcomes@);
        r
    }
}

/// Number of `true` entries in `s`.
pub open spec fn count_true(s: Seq<bool>) -> nat
    decreases s.len(),
{
    if s.len() == 0 {
        0
    } else {
        count_true(s.drop_last()) + if s.last() {
            1nat
        } else {
            0nat
        }
    }
}

proof fn lemma_count_true_le_len(s: Seq<bool>)
    ensures
        count_true(s) <= s.len(),
    decreases s.len(),
{
    if s.len() > 0 {
        lemma_count_true_le_len(s.drop_last());
    }
}

/// Summary of security test results.
#[derive(Debug, Clone, Copy, PartialEq, Eq)]
pub struct SecurityTestSummary {
    pub total: usize,
    pub passed: usize,
    pub failed: usize,
}

impl SecurityTestSummary {
    /// Summarises test results given whether each one passed: how many there
    /// were, how many passed and how many failed.
    pub fn from_results(passed: &Vec<bool>) -> (r: Self)
        ensures
            r.total == passed@.len(),
            r.passed == count_true(passed@),
            r.failed == passed@.len() - count_true(passed@),
    {
        let mut n: usize = 0;
        let mut i: usize = 0;
        while i < passed.len()
            invariant
                0 <= i <= passed@.len(),
                n == count_true(passed@.subrange(0, i as int)),
                n <= i,
            decreases passed@.len() - i,
        {
            assert(passed@.subrange(0, i + 1).drop_last() =~= passed@.subrange(0, i as int));
            if passed[i] {
                n = n + 1;
            }
            i = i + 1;
        }
        assert(passed@.subrange(0, passed@.len() as int) =~= passed@);
        SecurityTestSummary { total: passed.len(), passed: n, failed: passed.len() - n }
    }
}

/// Counters of a running node.
#[derive(Debug, Clone, Copy, PartialEq, Eq)]
pub struct RuntimeStats {
    pub ticks: u64,
    pub incoming_queued: u64,
    pub outgoing_popped: u64,
    pub local_events_queued: u64,
    pub events_signed: u64,
    pub packets_in: u64,
    pub packets_out: u64,
    /// Duration of the last tick, in nanoseconds.
    pub last_tick_duration_ns: u64,
}

impl Default for RuntimeStats {
    fn default() -> (r: Self)
        ensures
            r.ticks == 0 && r.incoming_queued == 0 && r.outgoing_popped == 0
                && r.local_events_queued == 0 && r.events_signed == 0 && r.packets_in == 0
                && r.packets_out == 0 && r.last_tick_duration_ns == 0,
    {
        RuntimeStats {
            ticks: 0,
            incoming_queued: 0,
            outgoing_popped: 0,
            local_events_queued: 0,
            events_signed: 0,
            packets_in: 0,
            packets_out: 0,
            last_tick_duration_ns: 0,
        }
    }
}

/// The smallest and largest of timing measurements, `(0, 0)` when there are none.
pub fn measurement_range(measurements: &[u64]) -> (r: (u64, u64))
    ensures
        measurements@.len() == 0 ==> r == (0u64, 0u64),
        measurements@.len() > 0 ==> {
            &&& exists|i: int| 0 <= i < measurements@.len() && measurements@[i] == r.0
            &&& exists|i: int| 0 <= i < measurements@.len() && measurements@[i] == r.1
            &&& forall|i: int| 0 <= i < measurements@.len() ==> r.0 <= #[trigger] measurements@[i] <= r.1
        },
{
    let n = measurements.len();
    if n == 0 {
        return (0, 0);
    }
    let mut lo = measurements[0];
    let mut hi = measurements[0];
    let mut lo_at: usize = 0;
    let mut hi_at: usize = 0;
    let mut i: usize = 1;
    while i < n
        invariant
            n == measurements@.len(),
            1 <= i <= n,
            lo_at < i && measurements@[lo_at as int] == lo,
            hi_at < i && measurements@[hi_at as int] == hi,
            forall|j: int| 0 <= j < i ==> lo <= #[trigger] measurements@[j] <= hi,
        decreases n - i,
    {
        let x = measurements[i];
        if x < lo {
            lo = x;
            lo_at = i;
        }
        if x > hi {
            hi = x;
            hi_at = i;
        }
        i = i + 1;
    }
    (lo, hi)
}

} // verus!
