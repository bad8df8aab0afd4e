//! A one-shot differentially private counter using randomized response.
//!
//! A peer of the continual-release mechanisms.  The counter itself only
//! tallies the (already randomized) records it is given; producing a
//! randomized record from a truthful one — a draw against the lie
//! probability `q = 1 / (1 + e^epsilon)` — is irreducibly floating-point
//! work and lives with the caller.

use vstd::prelude::*;
use crate::Epsilon;

verus! {

/// A one-shot randomized-response counter.
pub struct DPCounterRR {
    /// The privacy budget.
    pub epsilon: Epsilon,
    /// The number of true records received.
    pub count: u32,
}

impl DPCounterRR {
    /// A fresh counter with budget `eps`.
    pub fn new(eps: Epsilon) -> (r: Self)
        requires
            eps.wf(),
        ensures
            r.epsilon == eps,
            r.count == 0,
    {
        DPCounterRR { epsilon: eps, count: 0 }
    }

    /// Record one (randomized) boolean; only true records advance the count.
    pub fn process_record(&mut self, r: bool)
        requires
            old(self).count < 4294967295,
        ensures
            final(self).count == old(self).count + if r {
                1int
            } else {
                0int
            },
            final(self).epsilon == old(self).epsilon,
    {
        if r {
            self.count = self.count + 1;
        }
    }

    /// The privacy budget.
    pub fn get_epsilon(&self) -> (r: Epsilon)
        ensures
            r == self.epsilon,
    {
        self.epsilon
    }

    /// The raw tally of true records.
    pub fn get_count(&self) -> (r: u32)
        ensures
            r == self.count,
    {
        self.count
    }
}

} // verus!
