//! The logarithmic mechanism.
//!
//! One running accumulator follows the true count; a noisy checkpoint is
//! released only when the step index is an exact power of two, so a stream
//! of length `n` sees exactly `floor(log2 n) + 1` noise draws.  Between
//! checkpoints the previously released value is repeated unchanged.

use vstd::prelude::*;
use crate::bits::{
    bitlen, checkpoints_upto, is_pow2, lemma_checkpoints_bitlen, lemma_bitlen_mono,
    lemma_levels_bound, is_power_of_two,
};
use crate::bin_mech::{count_trues, lemma_count_trues_push, lemma_count_trues_le};
use crate::noise::NoiseSource;
use crate::{Epsilon, UNIT, NOISE_BOUND, MAX_HORIZON, OUT_BOUND};

verus! {

/// The logarithmic mechanism: a noisy running count refreshed only at
/// power-of-two steps.
pub struct LogarithmicMechanism<N: NoiseSource> {
    /// The running accumulator: the true count plus every noise draw so far.
    pub beta: i64,
    /// The 1-based index of the next step.
    pub t: u64,
    /// The last released value, repeated between checkpoints.
    pub prev_output: i64,
    /// The privacy budget of this instance.
    pub eps: Epsilon,
    /// The noise source, consulted once per checkpoint.
    pub source: N,
    /// The events processed so far.
    pub events: Ghost<Seq<bool>>,
    /// The sum of all noise drawn so far.
    pub noise_acc: Ghost<int>,
    /// How many checkpoint releases have happened.
    pub releases: Ghost<nat>,
}

impl<N: NoiseSource> LogarithmicMechanism<N> {
    /// How many steps have been processed.
    pub open spec fn steps(self) -> nat {
        (self.t - 1) as nat
    }

    /// The internal invariant: the accumulator is the true count plus the
    /// accumulated noise, and noise was drawn exactly once per power-of-two
    /// step index seen so far.
    pub open spec fn wf(self) -> bool {
        &&& self.eps.wf()
        &&& 1 <= self.t <= MAX_HORIZON + 1
        &&& self.events@.len() == self.steps()
        &&& self.beta == count_trues(self.events@) * UNIT + self.noise_acc@
        &&& self.releases@ == checkpoints_upto(self.steps())
        // The literal is NOISE_BOUND, spelled out to keep the bound linear
        // for the solver.
        &&& -(self.releases@ as int) * 4503599627370496 <= self.noise_acc@ <= (
        self.releases@ as int) * 4503599627370496
        &&& -OUT_BOUND <= self.prev_output <= OUT_BOUND
        &&& -OUT_BOUND <= self.beta <= OUT_BOUND
    }

    /// A fresh mechanism with budget `eps`.
    pub fn new(eps: Epsilon, source: N) -> (r: Self)
        requires
            eps.wf(),
        ensures
            r.wf(),
            r.eps == eps,
            r.t == 1,
            r.beta == 0,
            r.prev_output == 0,
            r.events@ == Seq::<bool>::empty(),
            r.releases@ == 0,
    {
        LogarithmicMechanism {
            beta: 0,
            t: 1,
            prev_output: 0,
            eps,
            source,
            events: Ghost(Seq::empty()),
            noise_acc: Ghost(0int),
            releases: Ghost(0nat),
        }
    }

    /// Consume one event and return the current released value.
    ///
    /// The accumulator always advances by the event; noise is drawn, added
    /// into the accumulator and released only when the current step index
    /// is an exact power of two.  Anywhere else the previously released
    /// value is returned unchanged.
    pub fn step_forward(&mut self, element: bool) -> (r: i64)
        requires
            old(self).wf(),
            old(self).steps() < MAX_HORIZON,
        ensures
            final(self).wf(),
            final(self).t == old(self).t + 1,
            final(self).eps == old(self).eps,
            final(self).events@ == old(self).events@.push(element),
            r == final(self).prev_output,
            !is_pow2(old(self).t as nat) ==> {
                &&& final(self).prev_output == old(self).prev_output
                &&& final(self).releases@ == old(self).releases@
                &&& final(self).noise_acc@ == old(self).noise_acc@
            },
            is_pow2(old(self).t as nat) ==> {
                &&& final(self).releases@ == old(self).releases@ + 1
                &&& r == final(self).beta
                &&& -NOISE_BOUND <= final(self).noise_acc@ - old(self).noise_acc@ <= NOISE_BOUND
            },
    {
        proof {
            // The accumulator stays far inside i64: the count contributes at
            // most MAX_HORIZON * UNIT and at most 21 noise draws ever happen.
            lemma_count_trues_le(self.events@);
            lemma_checkpoints_bitlen(self.steps());
            lemma_bitlen_mono(self.steps(), 1048576);
            lemma_levels_bound(1048576);
            assert(self.releases@ <= 21);
            assert(count_trues(self.events@) * UNIT <= 1048576 * 1000000);
            lemma_count_trues_push(self.events@, element);
        }
        self.beta = self.beta + if element {
            UNIT
        } else {
            0
        };
        self.events = Ghost(self.events@.push(element));
        let pow = is_power_of_two(self.t);
        if !pow {
            self.t = self.t + 1;
            return self.prev_output;
        }
        // The current step index is a power of two: refresh the checkpoint.
        let noise = self.source.checkpoint_noise(self.eps);
        self.beta = self.beta + noise;
        self.noise_acc = Ghost(self.noise_acc@ + noise);
        self.releases = Ghost(self.releases@ + 1);
        self.prev_output = self.beta;
        self.t = self.t + 1;
        proof {
            lemma_count_trues_le(self.events@);
            lemma_checkpoints_bitlen(self.steps());
            lemma_bitlen_mono(self.steps(), 1048576);
            assert(self.releases@ <= 21);
            assert(count_trues(self.events@) * UNIT <= 1048576 * 1000000);
            assert(OUT_BOUND == 21 * 4504648203370496);
        }
        self.beta
    }
}

/// Checkpoint-only release: after `n` processed steps the number of noise
/// draws (and so of distinct releasable values) is exactly
/// `floor(log2 n) + 1` — `bitlen(n)` — however long the stream.
pub proof fn lemma_release_count<N: NoiseSource>(m: LogarithmicMechanism<N>)
    requires
        m.wf(),
    ensures
        m.releases@ == bitlen(m.steps()),
{
    lemma_checkpoints_bitlen(m.steps());
}

} // verus!
