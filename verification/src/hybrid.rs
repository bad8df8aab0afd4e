//! The hybrid mechanism.
//!
//! A logarithmic mechanism on half the budget supplies a coarse long-term
//! anchor; a binary mechanism on the other half refines it inside the
//! current power-of-two epoch.  At every power-of-two step after the first
//! the binary instance is discarded whole and a fresh one is constructed
//! with horizon equal to the current step index; for that boundary step the
//! logarithmic output alone is returned.

use vstd::prelude::*;
use crate::bits::{
    is_pow2, pow2_floor, lemma_pow2_floor_bounds, lemma_pow2_floor_step, lemma_pow2_floor_exact,
    is_power_of_two,
};
use crate::bin_mech::BinaryMechanism;
use crate::log_mech::LogarithmicMechanism;
use crate::noise::NoiseSource;
use crate::{Epsilon, MAX_HORIZON};

verus! {

/// The hybrid mechanism: a logarithmic mechanism plus one binary-mechanism
/// epoch at a time, each on half the budget.
pub struct HybridMechanism<N: NoiseSource> {
    /// The coarse component, running for the whole stream.
    pub l: LogarithmicMechanism<N>,
    /// The fine component of the current epoch; replaced wholesale at every
    /// power-of-two boundary after the first step.
    pub b: BinaryMechanism<N>,
    /// The total budget; each component runs on half of it.
    pub eps: Epsilon,
    /// The 1-based index of the next step.
    pub t: u64,
    /// The source that seeds each fresh epoch's mechanism.
    pub source: N,
}

impl<N: NoiseSource> HybridMechanism<N> {
    /// The internal invariant: both components are well formed on half the
    /// budget, the logarithmic component has seen every step, and the
    /// binary component covers exactly the current epoch — its horizon is
    /// the largest power of two at most `t - 1` and it has consumed the
    /// steps since that boundary.
    pub open spec fn wf(self) -> bool {
        &&& self.eps.wf()
        &&& self.eps.den <= 9223372036854775807
        &&& self.l.wf()
        &&& self.b.wf()
        &&& self.l.eps == self.eps.half_spec()
        &&& self.b.eps == self.eps.half_spec()
        &&& 1 <= self.t <= MAX_HORIZON + 1
        &&& self.l.t == self.t
        &&& self.t == 1 ==> self.b.horizon == 2 && self.b.t == 1
        &&& self.t == 2 ==> self.b.horizon == 2 && self.b.t == 2
        &&& self.t >= 3 ==> self.b.horizon == pow2_floor((self.t - 1) as nat) && self.b.t
            == self.t - self.b.horizon
    }

    /// A fresh mechanism with total budget `eps`, split in half between the
    /// two components.
    pub fn new(eps: Epsilon, source: N) -> (r: Self)
        requires
            eps.wf(),
            eps.den <= 9223372036854775807,
        ensures
            r.wf(),
            r.eps == eps,
            r.t == 1,
            r.l.events@ == Seq::<bool>::empty(),
            r.l.prev_output == 0,
            r.b.previous_output == 0,
    {
        let mut source = source;
        let half = eps.halved();
        let ls = source.fork();
        let bs = source.fork();
        HybridMechanism {
            l: LogarithmicMechanism::new(half, ls),
            b: BinaryMechanism::new(2, half, bs),
            eps,
            t: 1,
            source,
        }
    }

    /// Consume one event and return the combined noisy count.
    ///
    /// The event always goes to the logarithmic component.  At a
    /// power-of-two step after the first, the binary epoch is replaced by a
    /// fresh instance with horizon `t` and the logarithmic output alone is
    /// returned; anywhere else the event also goes to the binary component
    /// and the two outputs are added.
    pub fn step_forward(&mut self, element: bool) -> (r: i64)
        requires
            old(self).wf(),
            old(self).t <= MAX_HORIZON,
        ensures
            final(self).wf(),
            final(self).t == old(self).t + 1,
            final(self).eps == old(self).eps,
            final(self).l.events@ == old(self).l.events@.push(element),
            (old(self).t > 1 && is_pow2(old(self).t as nat)) ==> {
                &&& r == final(self).l.prev_output
                &&& final(self).b.t == 1
                &&& final(self).b.horizon == old(self).t
            },
            !(old(self).t > 1 && is_pow2(old(self).t as nat)) ==> {
                &&& r == final(self).l.prev_output + final(self).b.previous_output
                &&& final(self).b.events@ == old(self).b.events@.push(element)
            },
    {
        let l_out = self.l.step_forward(element);
        let pow = is_power_of_two(self.t);
        if self.t > 1 && pow {
            // Epoch boundary: discard the old binary instance whole and
            // start a fresh epoch with horizon t on the same half budget.
            let bs = self.source.fork();
            let nb = BinaryMechanism::new(self.t, self.eps.halved(), bs);
            self.b = nb;
            self.t = self.t + 1;
            proof {
                lemma_pow2_floor_exact((self.t - 1) as nat);
            }
            return l_out;
        }
        proof {
            assert(is_pow2(1nat));
            assert(is_pow2(2nat));
            if self.t >= 3 {
                lemma_pow2_floor_bounds((self.t - 1) as nat);
            }
            // The binary epoch is never exhausted between boundaries.
            assert(self.b.t <= self.b.horizon);
        }
        let b_out = self.b.step_forward(element);
        self.t = self.t + 1;
        proof {
            if self.t >= 4 {
                lemma_pow2_floor_step((self.t - 1) as nat);
            }
        }
        l_out + b_out
    }
}

} // verus!
