//! Batch-wide progress aggregation.
//!
//! One counter per batch sums the bytes received across every file of the
//! batch; each update appends a `(cumulative, total)` observation for the
//! caller-supplied progress observer. The counter never decreases.

use vstd::prelude::*;

verus! {

/// The cumulative byte counter of one batch, together with the precomputed
/// batch-wide total expected size.
pub struct ProgressAggregator {
    pub received: u64,
    pub total: u64,
}

impl ProgressAggregator {
    /// A fresh counter for a batch expected to deliver `total` bytes.
    pub fn new(total: u64) -> (r: ProgressAggregator)
        ensures
            r.received == 0,
            r.total == total,
    {
        ProgressAggregator { received: 0, total }
    }

    /// Adds a chunk's byte count and appends the new `(cumulative, total)`
    /// observation. The cumulative counter is monotonically non-decreasing.
    pub fn record(&mut self, delta: u64, reports: &mut Vec<(u64, u64)>)
        requires
            old(self).received + delta <= u64::MAX,
        ensures
            final(self).received == old(self).received + delta,
            final(self).received >= old(self).received,
            final(self).total == old(self).total,
            final(reports)@ == old(reports)@ + seq![(final(self).received, final(self).total)],
    {
        self.received = self.received + delta;
        reports.push((self.received, self.total));
    }
}

} // verus!
