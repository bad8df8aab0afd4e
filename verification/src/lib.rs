//! Differentially private streaming counters under continual observation.
//!
//! A mechanism consumes one boolean event per time step and returns, after
//! every event, a noisy estimate of the cumulative count so far.  Three
//! continual-release mechanisms are provided: the binary mechanism (a sparse
//! hierarchy of noisy partial sums over a fixed horizon), the logarithmic
//! mechanism (one running checkpoint, refreshed only at power-of-two steps),
//! and the hybrid mechanism (a composition of the two).  Two one-shot
//! counters, a Laplace counter and a randomized-response counter, round out
//! the family.
//!
//! All released values are fixed-point numbers: one true event contributes
//! [`UNIT`], and noise is expressed in the same units.  Noise is drawn
//! through the caller-supplied [`NoiseSource`], so determinism is a caller
//! choice rather than a hidden default.

use vstd::prelude::*;

pub mod bits;
pub mod noise;
pub mod bin_mech;
pub mod log_mech;
pub mod hybrid;
pub mod dp_count_laplace;
pub mod dp_count_rr;

pub use noise::NoiseSource;
pub use noise::SequentialNoise;
pub use bin_mech::BinaryMechanism;
pub use log_mech::LogarithmicMechanism;
pub use hybrid::HybridMechanism;
pub use dp_count_laplace::DPCounterLP;
pub use dp_count_rr::DPCounterRR;

verus! {

/// Fixed-point scale of every released value: one true event counts as
/// `UNIT`, and noise is expressed in the same units.
pub const UNIT: i64 = 1000000;

/// Largest magnitude a single noise draw may have, in `UNIT`-scaled units.
/// A noise source must clamp its draws to this range; it is wide enough
/// (2^52 units) that clamping never matters in practice.
pub const NOISE_BOUND: i64 = 4503599627370496;

/// Largest supported horizon and stream length (2^20 steps).  Together with
/// [`NOISE_BOUND`] this keeps every intermediate fixed-point value well
/// inside `i64`.
pub const MAX_HORIZON: u64 = 1048576;

/// Bound on the magnitude of one stored noisy partial sum:
/// `MAX_HORIZON * UNIT + NOISE_BOUND`.
pub const ELEM_BOUND: i64 = 1048576 * 1000000 + 4503599627370496;

/// Bound on the magnitude of any released value: at most 21 noisy partial
/// sums (one per level for a horizon of up to 2^20) ever contribute.
pub const OUT_BOUND: i64 = 21 * (1048576 * 1000000 + 4503599627370496);

/// A privacy budget: the positive rational `num / den`.
///
/// The mechanisms never evaluate the quotient; they hand the pair to the
/// [`NoiseSource`], which chooses the Laplace scale from it.
#[derive(Clone, Copy, Debug, PartialEq, Eq, Structural)]
pub struct Epsilon {
    pub num: u64,
    pub den: u64,
}

impl Epsilon {
    /// A valid budget is a positive rational.
    pub open spec fn wf(self) -> bool {
        self.num >= 1 && self.den >= 1
    }

    /// Half of this budget, as a spec value.
    pub open spec fn half_spec(self) -> Epsilon {
        Epsilon { num: self.num, den: (2 * self.den) as u64 }
    }

    /// Half of this budget: the 50/50 split used by the hybrid mechanism.
    pub fn halved(&self) -> (r: Epsilon)
        requires
            self.wf(),
            self.den <= 9223372036854775807,
        ensures
            r == self.half_spec(),
            r.wf(),
    {
        Epsilon { num: self.num, den: 2 * self.den }
    }
}

} // verus!
