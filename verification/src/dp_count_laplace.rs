//! A one-shot differentially private counter using the Laplace mechanism.
//!
//! A peer of the continual-release mechanisms: it answers a single query
//! over the records collected so far.  Noise is sampled lazily on a read
//! and re-sampled only when the count changed since the last read, so
//! repeated reads of an unchanged count return the identical value.

use vstd::prelude::*;
use crate::noise::NoiseSource;
use crate::{Epsilon, UNIT, NOISE_BOUND, MAX_HORIZON};

verus! {

/// A one-shot Laplace counter.
pub struct DPCounterLP<N: NoiseSource> {
    /// The privacy budget.
    pub epsilon: Epsilon,
    /// The exact number of true records seen.
    pub count: u64,
    /// The noise used by the last read.
    pub noise: i64,
    /// Whether the count changed since the last read.
    pub count_updated: bool,
    /// The noise source, consulted once per read of a changed count.
    pub source: N,
}

impl<N: NoiseSource> DPCounterLP<N> {
    /// The internal invariant.
    pub open spec fn wf(self) -> bool {
        &&& self.epsilon.wf()
        &&& self.count <= MAX_HORIZON
        &&& -NOISE_BOUND <= self.noise <= NOISE_BOUND
    }

    /// A fresh counter with budget `eps`.
    pub fn new(eps: Epsilon, source: N) -> (r: Self)
        requires
            eps.wf(),
        ensures
            r.wf(),
            r.epsilon == eps,
            r.count == 0,
            r.noise == 0,
            r.count_updated,
    {
        DPCounterLP { epsilon: eps, count: 0, noise: 0, count_updated: true, source }
    }

    /// Record one boolean event; only true events advance the count, and
    /// only an advanced count makes the next read draw fresh noise.
    pub fn process_record(&mut self, r: bool)
        requires
            old(self).wf(),
            old(self).count < MAX_HORIZON,
        ensures
            final(self).wf(),
            final(self).count == old(self).count + if r {
                1int
            } else {
                0int
            },
            final(self).count_updated == (old(self).count_updated || r),
            final(self).epsilon == old(self).epsilon,
            final(self).noise == old(self).noise,
    {
        if r {
            self.count = self.count + 1;
            self.count_updated = true;
        }
    }

    /// The privacy budget.
    pub fn get_epsilon(&self) -> (r: Epsilon)
        ensures
            r == self.epsilon,
    {
        self.epsilon
    }

    /// The exact count, without noise.
    pub fn get_true_count(&self) -> (r: u64)
        ensures
            r == self.count,
    {
        self.count
    }

    /// The noisy count, in `UNIT`-scaled fixed point.
    ///
    /// Fresh noise is drawn only if the count changed since the last read;
    /// otherwise the previous noise is reused and the same value returned.
    pub fn get_count(&mut self) -> (r: i64)
        requires
            old(self).wf(),
        ensures
            final(self).wf(),
            final(self).count == old(self).count,
            final(self).epsilon == old(self).epsilon,
            !final(self).count_updated,
            r == final(self).count * UNIT + final(self).noise,
            !old(self).count_updated ==> final(self).noise == old(self).noise,
    {
        if self.count_updated {
            self.noise = self.source.checkpoint_noise(self.epsilon);
        }
        self.count_updated = false;
        assert(self.count as int * UNIT <= 1048576 * 1000000);
        (self.count as i64) * UNIT + self.noise
    }
}

} // verus!
