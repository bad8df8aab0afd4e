//! Noise sources.
//!
//! Every mechanism samples its Laplace noise through a caller-supplied
//! [`NoiseSource`] handed over at construction, so determinism is a caller
//! choice rather than a hidden default.  The verified code never inspects a
//! draw beyond its clamp to [`NOISE_BOUND`]: every contract downstream holds
//! for every value a source can return.

use vstd::prelude::*;
use crate::{Epsilon, NOISE_BOUND};

verus! {

/// A source of zero-mean Laplace noise in `UNIT`-scaled fixed point.
///
/// `psum_noise` is one draw of scale `log2(horizon) / epsilon` (the
/// per-level scale of the binary mechanism); `checkpoint_noise` is one draw
/// of scale `1 / epsilon` (the checkpoint scale of the logarithmic
/// mechanism and the one-shot Laplace counter).  Draws must be clamped to
/// `NOISE_BOUND`; nothing else is assumed of them.
pub trait NoiseSource: Sized {
    /// One draw for a noisy partial sum of the binary mechanism.
    fn psum_noise(&mut self, horizon: u64, eps: Epsilon) -> (r: i64)
        requires
            horizon >= 1,
            eps.wf(),
        ensures
            -NOISE_BOUND <= r <= NOISE_BOUND,
    ;

    /// One draw for a checkpoint release.
    fn checkpoint_noise(&mut self, eps: Epsilon) -> (r: i64)
        requires
            eps.wf(),
        ensures
            -NOISE_BOUND <= r <= NOISE_BOUND,
    ;

    /// A source for a freshly constructed sub-mechanism.
    fn fork(&mut self) -> (r: Self);
}

/// A deterministic source: the draws are `start, start + 1, start + 2, ...`
/// clamped to the legal range.
///
/// Successive draws are pairwise distinct (until the clamp), which is what
/// reproducible tests need; it adds no privacy.
pub struct SequentialNoise {
    pub next: i64,
}

impl SequentialNoise {
    /// A source whose first draw is `start` (after clamping).
    pub fn new(start: i64) -> (r: SequentialNoise)
        ensures
            r.next == start,
    {
        SequentialNoise { next: start }
    }

    /// The next draw, clamped to the legal range.
    fn advance(&mut self) -> (r: i64)
        ensures
            -NOISE_BOUND <= r <= NOISE_BOUND,
    {
        let r: i64 = if self.next > NOISE_BOUND {
            NOISE_BOUND
        } else if self.next < -NOISE_BOUND {
            -NOISE_BOUND
        } else {
            self.next
        };
        if self.next < NOISE_BOUND {
            self.next = self.next + 1;
        }
        r
    }
}

impl NoiseSource for SequentialNoise {
    fn psum_noise(&mut self, horizon: u64, eps: Epsilon) -> (r: i64) {
        self.advance()
    }

    fn checkpoint_noise(&mut self, eps: Epsilon) -> (r: i64) {
        self.advance()
    }

    fn fork(&mut self) -> (r: SequentialNoise) {
        SequentialNoise { next: self.next }
    }
}

} // verus!
