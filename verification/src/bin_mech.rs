//! The binary mechanism for a finite horizon.
//!
//! For a horizon `T` the mechanism keeps one slot per level `0..bitlen(T)`.
//! At step `t` the level `lowbit(t)` is completed: the incoming event is
//! merged with every lower live level into one exact partial sum, the lower
//! levels are deleted, the merged sum is noised once, and the output is the
//! sum of the noisy partial sums of the levels that are live afterwards —
//! exactly the set bits of `t`, which tile `[1, t]`.

use vstd::prelude::*;
use vstd::pervasive::VecAdditionalExecFns;
use crate::bits::{
    nbit, bitlen, lowbit, lemma_nbit_zero, lemma_lowbit, lemma_nbit_bitlen, lemma_bitlen_mono,
    lemma_levels_bound, lemma_succ_bits, bit_length, lowest_set_bit,
};
use crate::noise::NoiseSource;
use crate::{Epsilon, UNIT, NOISE_BOUND, MAX_HORIZON, ELEM_BOUND, OUT_BOUND};

verus! {

/// The value of an optional exact partial sum: absent levels contribute 0.
pub open spec fn opt_u64(o: Option<u64>) -> int {
    match o {
        Some(v) => v as int,
        None => 0,
    }
}

/// The value of an optional noisy partial sum: absent levels contribute 0.
pub open spec fn opt_i64(o: Option<i64>) -> int {
    match o {
        Some(v) => v as int,
        None => 0,
    }
}

/// The sum of the exact partial sums at levels `0..n`.
pub open spec fn sum_exact_to(s: Seq<Option<u64>>, n: int) -> int
    decreases n,
{
    if n <= 0 {
        0
    } else {
        sum_exact_to(s, n - 1) + opt_u64(s[n - 1])
    }
}

/// The sum of the noisy partial sums at levels `0..n`.
pub open spec fn sum_noisy_to(s: Seq<Option<i64>>, n: int) -> int
    decreases n,
{
    if n <= 0 {
        0
    } else {
        sum_noisy_to(s, n - 1) + opt_i64(s[n - 1])
    }
}

/// How many events of a stream are true.
pub open spec fn count_trues(s: Seq<bool>) -> nat
    decreases s.len(),
{
    if s.len() == 0 {
        0
    } else {
        count_trues(s.drop_last()) + if s.last() { 1nat } else { 0nat }
    }
}

/// How many levels among `0..n` are live.
pub open spec fn live_count_to(s: Seq<Option<u64>>, n: int) -> nat
    decreases n,
{
    if n <= 0 {
        0
    } else {
        live_count_to(s, n - 1) + if s[n - 1].is_some() { 1nat } else { 0nat }
    }
}

pub proof fn lemma_count_trues_push(s: Seq<bool>, b: bool)
    ensures
        count_trues(s.push(b)) == count_trues(s) + if b { 1nat } else { 0nat },
{
    assert(s.push(b).drop_last() =~= s);
}

pub proof fn lemma_count_trues_le(s: Seq<bool>)
    ensures
        count_trues(s) <= s.len(),
    decreases s.len(),
{
    if s.len() > 0 {
        lemma_count_trues_le(s.drop_last());
    }
}

/// Exact partial sums are nonnegative, so prefix sums are monotone.
pub proof fn lemma_sum_exact_mono(s: Seq<Option<u64>>, a: int, b: int)
    requires
        0 <= a <= b,
    ensures
        sum_exact_to(s, a) <= sum_exact_to(s, b),
    decreases b,
{
    if a < b {
        lemma_sum_exact_mono(s, a, b - 1);
    }
}

/// Two level maps that agree on `[a, n)` differ in their prefix sums only
/// below `a`.
pub proof fn lemma_sum_exact_suffix(s1: Seq<Option<u64>>, s2: Seq<Option<u64>>, a: int, n: int)
    requires
        0 <= a <= n,
        forall|k: int| a <= k < n ==> s1[k] == s2[k],
    ensures
        sum_exact_to(s1, n) - sum_exact_to(s1, a) == sum_exact_to(s2, n) - sum_exact_to(s2, a),
    decreases n,
{
    if a < n {
        lemma_sum_exact_suffix(s1, s2, a, n - 1);
    }
}

/// A prefix of absent levels sums to zero.
pub proof fn lemma_sum_exact_none(s: Seq<Option<u64>>, n: int)
    requires
        forall|k: int| 0 <= k < n ==> s[k].is_none(),
    ensures
        sum_exact_to(s, n) == 0,
    decreases n,
{
    if n > 0 {
        lemma_sum_exact_none(s, n - 1);
    }
}

/// A prefix of absent noisy levels sums to zero.
pub proof fn lemma_sum_noisy_none(s: Seq<Option<i64>>, n: int)
    requires
        forall|k: int| 0 <= k < n ==> s[k].is_none(),
    ensures
        sum_noisy_to(s, n) == 0,
    decreases n,
{
    if n > 0 {
        lemma_sum_noisy_none(s, n - 1);
    }
}

/// At most `n` of the levels `0..n` are live.
pub proof fn lemma_live_count_le(s: Seq<Option<u64>>, n: int)
    requires
        0 <= n,
    ensures
        live_count_to(s, n) <= n,
    decreases n,
{
    if n > 0 {
        lemma_live_count_le(s, n - 1);
    }
}

/// The binary mechanism: noisy running counts over a fixed horizon.
pub struct BinaryMechanism<N: NoiseSource> {
    /// Exact partial sum per level; `None` for levels not in use.
    pub exact_sums: Vec<Option<u64>>,
    /// Noisy partial sum per level, sampled once when the level is created.
    pub noisy_sums: Vec<Option<i64>>,
    /// The horizon `T`: events after the first `T` are ignored.
    pub horizon: u64,
    /// The 1-based index of the next step.
    pub t: u64,
    /// The total privacy budget of this instance.
    pub eps: Epsilon,
    /// The noise source, consulted once per processed step.
    pub source: N,
    /// The last returned output, frozen once the horizon is exhausted.
    pub previous_output: i64,
    /// The events processed so far (at most `horizon` of them).
    pub events: Ghost<Seq<bool>>,
}

impl<N: NoiseSource> BinaryMechanism<N> {
    /// How many steps have been processed.
    pub open spec fn steps(self) -> nat {
        (self.t - 1) as nat
    }

    /// The number of levels: `floor(log2 horizon) + 1`.
    pub open spec fn levels(self) -> nat {
        bitlen(self.horizon as nat)
    }

    /// Whether the horizon is exhausted: further events are ignored and the
    /// previous output is repeated.
    pub open spec fn exhausted(self) -> bool {
        self.t > self.horizon
    }

    /// The internal invariant.
    ///
    /// The live levels are exactly the set bits of the step count (the
    /// partial-sum tiling), the exact sums add up to the number of true
    /// events seen, each noisy sum is its exact sum plus one bounded noise
    /// draw, and the previous output is the sum of the live noisy sums.
    pub open spec fn wf(self) -> bool {
        &&& 1 <= self.horizon <= MAX_HORIZON
        &&& self.eps.wf()
        &&& 1 <= self.t <= self.horizon + 1
        &&& self.exact_sums@.len() == self.levels()
        &&& self.noisy_sums@.len() == self.levels()
        &&& self.events@.len() == self.steps()
        &&& forall|k: int|
            0 <= k < self.levels() ==> (self.exact_sums@[k].is_some() <==> nbit(
                self.steps(),
                k as nat,
            ))
        &&& forall|k: int|
            0 <= k < self.levels() ==> (self.noisy_sums@[k].is_some()
                <==> self.exact_sums@[k].is_some())
        &&& forall|k: int| 0 <= k < self.levels() ==> opt_u64(self.exact_sums@[k]) <= self.steps()
        &&& forall|k: int|
            0 <= k < self.levels() ==> (self.noisy_sums@[k].is_some() ==> -NOISE_BOUND <= opt_i64(
                self.noisy_sums@[k],
            ) - opt_u64(self.exact_sums@[k]) * UNIT <= NOISE_BOUND)
        &&& sum_exact_to(self.exact_sums@, self.levels() as int) == count_trues(self.events@)
        &&& self.previous_output == sum_noisy_to(self.noisy_sums@, self.levels() as int)
        &&& -OUT_BOUND <= self.previous_output <= OUT_BOUND
    }

    /// A fresh mechanism for up to `horizon` steps with budget `eps`.
    pub fn new(horizon: u64, eps: Epsilon, source: N) -> (r: Self)
        requires
            1 <= horizon <= MAX_HORIZON,
            eps.wf(),
        ensures
            r.wf(),
            r.horizon == horizon,
            r.eps == eps,
            r.t == 1,
            r.previous_output == 0,
            r.events@ == Seq::<bool>::empty(),
    {
        let levels = bit_length(horizon);
        let mut exact: Vec<Option<u64>> = Vec::new();
        let mut noisy: Vec<Option<i64>> = Vec::new();
        while exact.len() < levels
            invariant
                forall|k: int| 0 <= k < exact@.len() ==> exact@[k].is_none(),
                exact@.len() <= levels,
            decreases levels - exact.len(),
        {
            exact.push(None);
        }
        while noisy.len() < levels
            invariant
                forall|k: int| 0 <= k < noisy@.len() ==> noisy@[k].is_none(),
                noisy@.len() <= levels,
            decreases levels - noisy.len(),
        {
            noisy.push(None);
        }
        let r = BinaryMechanism {
            exact_sums: exact,
            noisy_sums: noisy,
            horizon,
            t: 1,
            eps,
            source,
            previous_output: 0,
            events: Ghost(Seq::empty()),
        };
        proof {
            assert forall|k: int|
                0 <= k < r.levels() implies (r.exact_sums@[k].is_some() <==> nbit(
                r.steps(),
                k as nat,
            )) by {
                lemma_nbit_zero(k as nat);
            }
            lemma_sum_exact_none(r.exact_sums@, r.levels() as int);
            lemma_sum_noisy_none(r.noisy_sums@, r.levels() as int);
        }
        r
    }

    /// Whether the horizon is exhausted, observably.
    pub fn is_exhausted(&self) -> (r: bool)
        ensures
            r == self.exhausted(),
    {
        self.t > self.horizon
    }

    /// Consume one event and return the new noisy cumulative count.
    ///
    /// Past the horizon the state is untouched and the previous output is
    /// repeated.  Otherwise level `lowbit(t)` is merged, noised once, and
    /// the output is the sum of the noisy sums of the live levels.  The
    /// noisy sums of the surviving levels are reused bit for bit: only the
    /// levels below `lowbit(t)` are deleted and only level `lowbit(t)` is
    /// written.
    #[verifier::loop_isolation(false)]
    #[verifier::rlimit(60)]
    pub fn step_forward(&mut self, element: bool) -> (r: i64)
        requires
            old(self).wf(),
        ensures
            final(self).wf(),
            final(self).horizon == old(self).horizon,
            final(self).eps == old(self).eps,
            r == final(self).previous_output,
            old(self).exhausted() ==> *final(self) == *old(self),
            !old(self).exhausted() ==> {
                let i = lowbit(old(self).t as nat) as int;
                &&& final(self).t == old(self).t + 1
                &&& final(self).events@ == old(self).events@.push(element)
                &&& r == sum_noisy_to(final(self).noisy_sums@, final(self).levels() as int)
                &&& forall|k: int|
                    i < k < final(self).levels() ==> final(self).noisy_sums@[k] == old(
                        self,
                    ).noisy_sums@[k] && final(self).exact_sums@[k] == old(self).exact_sums@[k]
                &&& forall|k: int| 0 <= k < i ==> final(self).noisy_sums@[k].is_none()
                &&& final(self).exact_sums@[i] == Some(
                    (sum_exact_to(old(self).exact_sums@, i) + if element {
                        1int
                    } else {
                        0int
                    }) as u64,
                )
            },
    {
        if self.t > self.horizon {
            return self.previous_output;
        }
        let ghost sp_old = old(self).steps();
        let ghost sp_new = old(self).t as nat;
        let ghost len = old(self).levels() as int;
        proof {
            lemma_succ_bits(sp_old);
            lemma_lowbit(sp_new);
            lemma_nbit_bitlen(sp_new, lowbit(sp_new));
            lemma_bitlen_mono(self.t as nat, self.horizon as nat);
            lemma_levels_bound(self.horizon as nat);
            lemma_count_trues_le(self.events@);
        }
        // The level completed by this step.
        let i = lowest_set_bit(self.t);
        assert(i < len);

        // Merge the incoming event with every lower live level.
        let mut value: u64 = if element {
            1
        } else {
            0
        };
        let mut j: usize = 0;
        while j < i
            invariant
                0 <= j <= i,
                value == sum_exact_to(self.exact_sums@, j as int) + if element {
                    1int
                } else {
                    0int
                },
                value <= self.steps() + 1,
            decreases i - j,
        {
            proof {
                lemma_sum_exact_mono(self.exact_sums@, j as int + 1, len);
            }
            value = value + self.exact_sums[j].unwrap();
            j = j + 1;
        }
        let ghost merged = value;

        // Store the merged exact sum at level i.
        self.exact_sums.set(i, Some(value));

        // Delete the levels now subsumed by level i.
        let mut j: usize = 0;
        while j < i
            invariant
                0 <= j <= i,
                self.exact_sums@.len() == len,
                self.noisy_sums@.len() == len,
                forall|k: int| 0 <= k < j ==> self.exact_sums@[k].is_none(),
                forall|k: int| 0 <= k < j ==> self.noisy_sums@[k].is_none(),
                forall|k: int|
                    j <= k < len && k != i ==> self.exact_sums@[k] == old(self).exact_sums@[k],
                self.exact_sums@[i as int] == Some(merged),
                forall|k: int| j <= k < len ==> self.noisy_sums@[k] == old(self).noisy_sums@[k],
                self.t == old(self).t,
                self.horizon == old(self).horizon,
                self.eps == old(self).eps,
                self.previous_output == old(self).previous_output,
                self.events == old(self).events,
                self.source == old(self).source,
            decreases i - j,
        {
            self.exact_sums.set(j, None);
            self.noisy_sums.set(j, None);
            j = j + 1;
        }

        // Noise the new partial sum; this is the only moment level i's noise
        // is ever drawn.
        let noise = self.source.psum_noise(self.horizon, self.eps);
        assert(value <= MAX_HORIZON);
        assert(value as int * UNIT <= 1048576 * 1000000);
        let nv: i64 = (value as i64) * UNIT + noise;
        self.noisy_sums.set(i, Some(nv));

        // The output is the sum of the noisy sums of the live levels.
        let ghost cur_exact = self.exact_sums@;
        let ghost cur_noisy = self.noisy_sums@;
        proof {
            assert forall|k: int|
                0 <= k < len implies -ELEM_BOUND <= #[trigger] opt_i64(cur_noisy[k])
                <= ELEM_BOUND by {
                if cur_noisy[k].is_some() {
                    if k == i {
                        assert(opt_u64(cur_exact[k]) <= MAX_HORIZON);
                    } else {
                        assert(opt_u64(cur_exact[k]) <= sp_old);
                    }
                    assert(opt_u64(cur_exact[k]) * UNIT <= 1048576 * 1000000);
                }
            }
        }
        let mut output: i64 = 0;
        let mut j: usize = 0;
        let levels = self.noisy_sums.len();
        while j < levels
            invariant
                0 <= j <= len,
                levels == len,
                self.noisy_sums@ == cur_noisy,
                output == sum_noisy_to(cur_noisy, j as int),
                // The literal is ELEM_BOUND, spelled out to keep the bound
                // linear for the solver.
                -(j as int) * 4504648203370496 <= output <= (j as int) * 4504648203370496,
                forall|k: int| 0 <= k < len ==> -ELEM_BOUND <= #[trigger] opt_i64(cur_noisy[k])
                    <= ELEM_BOUND,
            decreases levels - j,
        {
            proof {
                assert(-ELEM_BOUND <= opt_i64(cur_noisy[j as int]) <= ELEM_BOUND);
                assert(ELEM_BOUND == 4504648203370496);
            }
            if let Some(w) = self.noisy_sums[j] {
                output = output + w;
            }
            j = j + 1;
        }
        assert(-OUT_BOUND <= output <= OUT_BOUND) by {
            assert(len <= 21);
            assert(OUT_BOUND == 21 * 4504648203370496);
        }

        // Advance time, cache and return the output.
        self.t = self.t + 1;
        self.previous_output = output;
        self.events = Ghost(self.events@.push(element));

        proof {
            lemma_count_trues_push(old(self).events@, element);
            // The live levels afterwards are exactly the set bits of the new
            // step count.
            assert forall|k: int|
                0 <= k < len implies ((#[trigger] self.exact_sums@[k]).is_some() <==> nbit(
                sp_new,
                k as nat,
            )) by {
                if k < i {
                } else if k == i {
                } else {
                    assert(nbit(sp_new, k as nat) == nbit(sp_old, k as nat));
                }
            }
            // The exact sums still add up to the true count.
            let old_seq = old(self).exact_sums@;
            let new_seq = self.exact_sums@;
            lemma_sum_exact_suffix(new_seq, old_seq, i as int + 1, len);
            lemma_sum_exact_none(new_seq, i as int);
            assert(!nbit(sp_old, lowbit(sp_new)));
            assert(old_seq[i as int].is_none());
            assert(sum_exact_to(new_seq, i as int + 1) == merged);
            assert(sum_exact_to(old_seq, i as int + 1) == sum_exact_to(old_seq, i as int));
            assert(sum_exact_to(new_seq, len) == count_trues(self.events@));
        }
        output
    }
}

/// Partial-sum tiling: at any time the levels present in storage are
/// exactly the set bits of the number of steps processed.
pub proof fn lemma_partial_sum_tiling<N: NoiseSource>(m: BinaryMechanism<N>, k: int)
    requires
        m.wf(),
        0 <= k < m.levels(),
    ensures
        m.exact_sums@[k].is_some() <==> nbit(m.steps(), k as nat),
        m.noisy_sums@[k].is_some() <==> nbit(m.steps(), k as nat),
{
}

/// Exact-sum correctness: the exact partial sums over the live levels add
/// up to the true count of events seen so far.
pub proof fn lemma_exact_sum_correct<N: NoiseSource>(m: BinaryMechanism<N>)
    requires
        m.wf(),
    ensures
        sum_exact_to(m.exact_sums@, m.levels() as int) == count_trues(m.events@),
{
}

/// The noisy sums track the exact sums: over any prefix of levels the two
/// sums differ by at most one noise draw per live level.
pub proof fn lemma_noisy_tracks_exact(es: Seq<Option<u64>>, ns: Seq<Option<i64>>, n: int)
    requires
        0 <= n <= es.len(),
        n <= ns.len(),
        forall|k: int| 0 <= k < n ==> (ns[k].is_some() <==> es[k].is_some()),
        forall|k: int|
            0 <= k < n ==> (ns[k].is_some() ==> -NOISE_BOUND <= opt_i64(ns[k]) - opt_u64(es[k])
                * UNIT <= NOISE_BOUND),
    ensures
        -(live_count_to(es, n) as int) * 4503599627370496 <= sum_noisy_to(ns, n) - sum_exact_to(
            es,
            n,
        ) * UNIT <= (live_count_to(es, n) as int) * 4503599627370496,
    decreases n,
{
    if n > 0 {
        lemma_noisy_tracks_exact(es, ns, n - 1);
        assert((sum_exact_to(es, n - 1) + opt_u64(es[n - 1])) * UNIT == sum_exact_to(es, n - 1)
            * UNIT + opt_u64(es[n - 1]) * UNIT) by (nonlinear_arith);
        assert(NOISE_BOUND == 4503599627370496);
        if !es[n - 1].is_some() {
            assert(opt_u64(es[n - 1]) == 0);
            assert(opt_u64(es[n - 1]) * UNIT == 0) by (nonlinear_arith)
                requires
                    opt_u64(es[n - 1]) == 0,
            ;
        }
    }
}

/// Output accuracy shape: every output differs from `UNIT` times the true
/// count by at most one `NOISE_BOUND` per level — `floor(log2 horizon) + 1`
/// independent noise terms, never one per step.
pub proof fn lemma_output_accuracy<N: NoiseSource>(m: BinaryMechanism<N>)
    requires
        m.wf(),
    ensures
        -(bitlen(m.horizon as nat) as int) * NOISE_BOUND <= m.previous_output - count_trues(
            m.events@,
        ) * UNIT <= (bitlen(m.horizon as nat) as int) * NOISE_BOUND,
{
    let len = m.levels() as int;
    lemma_noisy_tracks_exact(m.exact_sums@, m.noisy_sums@, len);
    lemma_live_count_le(m.exact_sums@, len);
    assert(NOISE_BOUND == 4503599627370496);
}

/// Memory boundedness: at most `floor(log2 horizon) + 1` partial sums are
/// ever live, whatever the stream length.
pub proof fn lemma_memory_bound<N: NoiseSource>(m: BinaryMechanism<N>)
    requires
        m.wf(),
    ensures
        live_count_to(m.exact_sums@, m.levels() as int) <= bitlen(m.horizon as nat),
{
    lemma_live_count_le(m.exact_sums@, m.levels() as int);
}

} // verus!

