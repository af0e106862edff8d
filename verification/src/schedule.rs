//! The configured interval table of the review engine.

use vstd::prelude::*;

verus! {

/// A usable interval table: non-empty, starting at zero (a fresh or
/// freshly failed card is due the same day) and never decreasing along
/// tiers.
pub open spec fn table_ok(s: Seq<u16>) -> bool {
    &&& s.len() >= 1
    &&& s[0] == 0
    &&& forall|i: int, j: int| 0 <= i <= j < s.len() ==> s[i] <= s[j]
}

/// The interval table: `intervals[t]` is the number of days a card at
/// tier `t` waits until its next review.  The table is a calibration
/// parameter of the engine, not a constant of it.
pub struct Schedule {
    pub intervals: Vec<u16>,
}

impl Schedule {
    pub open spec fn wf(self) -> bool {
        table_ok(self.intervals@)
    }

    /// The largest tier the table defines.
    pub open spec fn spec_max_tier(self) -> int {
        self.intervals@.len() - 1
    }

    /// The waiting time of tier `t`, reading tiers beyond the table at
    /// its last entry.
    pub open spec fn spec_interval(self, t: int) -> u16 {
        if 0 <= t < self.intervals@.len() {
            self.intervals@[t]
        } else {
            self.intervals@[self.intervals@.len() - 1]
        }
    }

    /// The tier an Easy review moves tier `t` to: one step up, capped at
    /// the table's last tier.
    pub open spec fn spec_next_tier(self, t: int) -> int {
        if t + 1 < self.intervals@.len() {
            t + 1
        } else {
            self.intervals@.len() - 1
        }
    }

    /// Accepts exactly the usable tables: non-empty, first entry zero,
    /// never decreasing.
    pub fn new(intervals: Vec<u16>) -> (r: Option<Schedule>)
        ensures
            r is Some <==> table_ok(intervals@),
            r matches Some(s) ==> s.intervals@ == intervals@ && s.wf(),
    {
        if intervals.len() == 0 {
            return None;
        }
        if intervals[0] != 0 {
            return None;
        }
        let mut i: usize = 1;
        while i < intervals.len()
            invariant
                1 <= i <= intervals@.len(),
                forall|p: int, q: int| 0 <= p <= q < i ==> intervals@[p] <= intervals@[q],
            decreases intervals@.len() - i,
        {
            if intervals[i - 1] > intervals[i] {
                return None;
            }
            proof {
                assert forall|p: int, q: int| 0 <= p <= q < i + 1 implies intervals@[p]
                    <= intervals@[q] by {
                    if q == i && p < i {
                        assert(intervals@[p] <= intervals@[i - 1]);
                    }
                }
            }
            i = i + 1;
        }
        Some(Schedule { intervals })
    }

    /// The waiting time of `tier`, clamped to the table.
    pub fn interval(&self, tier: usize) -> (r: u16)
        requires
            self.wf(),
        ensures
            r == self.spec_interval(tier as int),
    {
        if tier < self.intervals.len() {
            self.intervals[tier]
        } else {
            self.intervals[self.intervals.len() - 1]
        }
    }

    /// The largest tier the table defines.
    pub fn max_tier(&self) -> (r: usize)
        requires
            self.wf(),
        ensures
            r as int == self.spec_max_tier(),
    {
        self.intervals.len() - 1
    }

    /// Along tiers the configured waiting times never shrink.
    pub proof fn lemma_interval_monotone(self, t1: int, t2: int)
        requires
            self.wf(),
            0 <= t1 <= t2,
        ensures
            self.spec_interval(t1) <= self.spec_interval(t2),
    {
    }
}

} // verus!
