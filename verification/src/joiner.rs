use vstd::prelude::*;

verus! {

/// How one worker unit's execution context ended: it ran to completion and
/// sent its result, or it terminated abnormally without sending one.
#[derive(PartialEq, Eq, Structural, Clone, Copy, Debug)]
pub enum UnitOutcome {
    Completed,
    Faulted,
}

/// Records, one worker unit at a time, that its execution context has
/// terminated and how. A fault is kept against the unit's identifier instead
/// of ending the batch. Unit `i` is the one whose outcome was recorded `i`-th:
/// the driver joins the units in dispatch order.
pub struct Joiner {
    pub total: usize,
    pub outcomes: Vec<UnitOutcome>,
}

/// The identifiers, in increasing order, of the first `k` units whose recorded
/// outcome is a fault.
pub open spec fn spec_faulted_ids(k: nat, outcomes: Seq<UnitOutcome>) -> Seq<u32>
    decreases k,
{
    if k == 0 {
        Seq::empty()
    } else {
        let prev = spec_faulted_ids((k - 1) as nat, outcomes);
        if outcomes[k - 1] == UnitOutcome::Faulted {
            prev.push((k - 1) as u32)
        } else {
            prev
        }
    }
}

impl Joiner {
    /// Starts a join over `total` spawned units, none terminated yet.
    pub fn new(total: usize) -> (j: Joiner)
        ensures
            j.total == total,
            j.outcomes@ == Seq::<UnitOutcome>::empty(),
    {
        Joiner { total, outcomes: Vec::new() }
    }

    /// Records that one more unit's execution context has terminated.
    pub fn record(&mut self, outcome: UnitOutcome)
        requires
            old(self).outcomes@.len() < old(self).total,
        ensures
            final(self).total == old(self).total,
            final(self).outcomes@ == old(self).outcomes@.push(outcome),
    {
        self.outcomes.push(outcome);
    }

    /// True exactly when a termination has been recorded for every spawned
    /// unit: only then may reconciliation begin.
    pub fn all_terminated(&self) -> (b: bool)
        ensures
            b == (self.outcomes@.len() == self.total),
    {
        self.outcomes.len() == self.total
    }

    /// The identifiers of the units that terminated abnormally, in increasing
    /// order.
    pub fn faulted_ids(&self) -> (f: Vec<u32>)
        requires
            self.outcomes@.len() <= u32::MAX,
        ensures
            f@ == spec_faulted_ids(self.outcomes@.len(), self.outcomes@),
    {
        let mut f: Vec<u32> = Vec::new();
        let mut i: usize = 0;
        while i < self.outcomes.len()
            invariant
                i <= self.outcomes@.len() <= u32::MAX,
                f@ == spec_faulted_ids(i as nat, self.outcomes@),
            decreases self.outcomes@.len() - i,
        {
            if self.outcomes[i] == UnitOutcome::Faulted {
                f.push(i as u32);
            }
            i = i + 1;
        }
        f
    }
}

} // verus!
