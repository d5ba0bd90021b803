//! Accumulator of one measured quantity: count, sum, sum of squares, minimum
//! and maximum of the samples recorded so far, in constant space.

use vstd::prelude::*;

verus! {

/// `v` clamped to the largest `u64`.
pub open spec fn sat64(v: int) -> u64 {
    if v > u64::MAX {
        u64::MAX
    } else if v < 0 {
        0
    } else {
        v as u64
    }
}

/// `v` clamped to the largest `u128`.
pub open spec fn sat128(v: int) -> u128 {
    if v > u128::MAX {
        u128::MAX
    } else if v < 0 {
        0
    } else {
        v as u128
    }
}

/// Sum of the samples.
pub open spec fn total(samples: Seq<u64>) -> int
    decreases samples.len(),
{
    if samples.len() == 0 {
        0
    } else {
        total(samples.drop_last()) + samples.last()
    }
}

/// Sum of the squares of the samples.
pub open spec fn total_squares(samples: Seq<u64>) -> int
    decreases samples.len(),
{
    if samples.len() == 0 {
        0
    } else {
        total_squares(samples.drop_last()) + samples.last() * samples.last()
    }
}

/// Sum over the samples of the squared distance to `c`.
pub open spec fn squared_distances(samples: Seq<u64>, c: int) -> int
    decreases samples.len(),
{
    if samples.len() == 0 {
        0
    } else {
        squared_distances(samples.drop_last(), c) + (samples.last() - c) * (samples.last() - c)
    }
}

/// Count, sum, sum of squares, minimum and maximum of a stream of samples.
/// The counters saturate at the largest value of their type instead of
/// wrapping, so they never decrease.
#[derive(Clone, Copy, Debug, PartialEq, Eq, Structural)]
pub struct QuantityStats {
    pub count: u64,
    pub sum: u64,
    pub sum_of_squares: u128,
    pub min: u64,
    pub max: u64,
}

impl QuantityStats {
    /// The accumulator that has seen no sample.
    pub open spec fn empty() -> QuantityStats {
        QuantityStats { count: 0, sum: 0, sum_of_squares: 0, min: u64::MAX, max: 0 }
    }

    /// The accumulator after one more sample `x`.
    pub open spec fn recorded(self, x: u64) -> QuantityStats {
        QuantityStats {
            count: sat64(self.count + 1),
            sum: sat64(self.sum + x),
            sum_of_squares: sat128(self.sum_of_squares + x * x),
            min: if x < self.min { x } else { self.min },
            max: if x > self.max { x } else { self.max },
        }
    }

    /// The accumulator that has seen exactly `samples`, in order.
    pub open spec fn of(samples: Seq<u64>) -> QuantityStats
        decreases samples.len(),
    {
        if samples.len() == 0 {
            QuantityStats::empty()
        } else {
            QuantityStats::of(samples.drop_last()).recorded(samples.last())
        }
    }

    /// Once a sample was recorded, the minimum is not above the maximum.
    pub open spec fn wf(self) -> bool {
        self.count > 0 ==> self.min <= self.max
    }

    /// Mean of the samples rounded down, 0 when there is none.
    pub open spec fn mean_floor_spec(self) -> u64 {
        if self.count == 0 {
            0
        } else {
            self.sum / self.count
        }
    }

    pub fn new() -> (r: QuantityStats)
        ensures
            r == QuantityStats::empty(),
            r.wf(),
    {
        QuantityStats { count: 0, sum: 0, sum_of_squares: 0, min: u64::MAX, max: 0 }
    }

    /// Records one sample. Every value is accepted.
    pub fn update(&mut self, x: u64)
        ensures
            *final(self) == old(self).recorded(x),
            final(self).count >= old(self).count,
            final(self).min <= x <= final(self).max,
            final(self).min <= old(self).min && old(self).max <= final(self).max,
            old(self).wf() ==> final(self).wf(),
    {
        let square: u128 = square_of(x);
        self.count = self.count.saturating_add(1);
        self.sum = self.sum.saturating_add(x);
        self.sum_of_squares = self.sum_of_squares.saturating_add(square);
        if x < self.min {
            self.min = x;
        }
        if x > self.max {
            self.max = x;
        }
    }

    /// Mean of the samples rounded down, 0 when there is none.
    pub fn mean_floor(&self) -> (r: u64)
        ensures
            r == self.mean_floor_spec(),
    {
        if self.count == 0 {
            0
        } else {
            self.sum / self.count
        }
    }
}

/// The square of `x`, which always fits in 128 bits.
pub fn square_of(x: u64) -> (r: u128)
    ensures
        r == x * x,
{
    assert(x * x <= u64::MAX * u64::MAX) by (nonlinear_arith)
        requires
            0 <= x <= u64::MAX,
    ;
    let wide: u128 = x as u128;
    wide * wide
}

/// The count is the number of samples, up to saturation.
pub proof fn law_count_is_number_of_samples(samples: Seq<u64>)
    ensures
        QuantityStats::of(samples).count == sat64(samples.len() as int),
    decreases samples.len(),
{
    if samples.len() > 0 {
        law_count_is_number_of_samples(samples.drop_last());
    }
}

/// The sum and the sum of squares are those of the samples, up to saturation.
pub proof fn law_sums_are_totals(samples: Seq<u64>)
    ensures
        total(samples) >= 0,
        total_squares(samples) >= 0,
        QuantityStats::of(samples).sum == sat64(total(samples)),
        QuantityStats::of(samples).sum_of_squares == sat128(total_squares(samples)),
    decreases samples.len(),
{
    if samples.len() > 0 {
        law_sums_are_totals(samples.drop_last());
        let x = samples.last();
        assert(x * x >= 0) by (nonlinear_arith);
    }
}

/// Every sample lies between the minimum and the maximum.
pub proof fn law_samples_within_bounds(samples: Seq<u64>)
    ensures
        forall|i: int|
            0 <= i < samples.len() ==> QuantityStats::of(samples).min <= #[trigger] samples[i]
                <= QuantityStats::of(samples).max,
    decreases samples.len(),
{
    if samples.len() > 0 {
        let head = samples.drop_last();
        law_samples_within_bounds(head);
        assert forall|i: int| 0 <= i < samples.len() implies QuantityStats::of(samples).min
            <= #[trigger] samples[i] <= QuantityStats::of(samples).max by {
            if i < head.len() {
                assert(head[i] == samples[i]);
            }
        }
    }
}

/// The minimum and the maximum are samples themselves, so the minimum is not
/// above the maximum once there is a sample.
pub proof fn law_bounds_are_samples(samples: Seq<u64>)
    requires
        samples.len() > 0,
    ensures
        samples.contains(QuantityStats::of(samples).min),
        samples.contains(QuantityStats::of(samples).max),
        QuantityStats::of(samples).min <= QuantityStats::of(samples).max,
        QuantityStats::of(samples).wf(),
    decreases samples.len(),
{
    let head = samples.drop_last();
    let last = samples.len() - 1;
    assert(samples[last] == samples.last());
    if head.len() > 0 {
        law_bounds_are_samples(head);
        let i = choose|i: int| 0 <= i < head.len() && head[i] == QuantityStats::of(head).min;
        let j = choose|j: int| 0 <= j < head.len() && head[j] == QuantityStats::of(head).max;
        assert(samples[i] == head[i]);
        assert(samples[j] == head[j]);
    } else {
        assert(QuantityStats::of(head) == QuantityStats::empty());
    }
    law_samples_within_bounds(samples);
}

/// Samples that all lie between `lo` and `hi` sum to between the count times
/// `lo` and the count times `hi`.
pub proof fn lemma_total_between(samples: Seq<u64>, lo: int, hi: int)
    requires
        forall|i: int| 0 <= i < samples.len() ==> lo <= #[trigger] samples[i] <= hi,
    ensures
        samples.len() * lo <= total(samples) <= samples.len() * hi,
    decreases samples.len(),
{
    if samples.len() > 0 {
        let head = samples.drop_last();
        assert forall|i: int| 0 <= i < head.len() implies lo <= #[trigger] head[i] <= hi by {
            assert(head[i] == samples[i]);
        }
        lemma_total_between(head, lo, hi);
        let x = samples[samples.len() - 1];
        let n = head.len() as int;
        assert((n + 1) * lo == n * lo + lo) by (nonlinear_arith);
        assert((n + 1) * hi == n * hi + hi) by (nonlinear_arith);
    } else {
        assert(0 * lo == 0 && 0 * hi == 0) by (nonlinear_arith);
    }
}

/// While neither the count nor the sum has saturated, the mean rounded down
/// is the sum of the samples divided by their number, and it lies between
/// the minimum and the maximum.
pub proof fn law_mean_is_arithmetic_mean(samples: Seq<u64>)
    requires
        0 < samples.len() <= u64::MAX,
        total(samples) <= u64::MAX,
    ensures
        QuantityStats::of(samples).mean_floor_spec() == total(samples) / (samples.len() as int),
        QuantityStats::of(samples).min <= QuantityStats::of(samples).mean_floor_spec()
            <= QuantityStats::of(samples).max,
{
    let q = QuantityStats::of(samples);
    law_count_is_number_of_samples(samples);
    law_sums_are_totals(samples);
    law_samples_within_bounds(samples);
    lemma_total_between(samples, q.min as int, q.max as int);
    let n = samples.len() as int;
    let t = total(samples);
    let lo = q.min as int;
    let hi = q.max as int;
    assert(lo <= t / n <= hi) by (nonlinear_arith)
        requires
            n > 0,
            n * lo <= t <= n * hi,
    ;
}

/// The squared distances to `c` sum to the sum of squares, less twice `c`
/// times the sum, plus the count times the square of `c`; that is never
/// negative.
pub proof fn lemma_squared_distances(samples: Seq<u64>, c: int)
    ensures
        squared_distances(samples, c) >= 0,
        squared_distances(samples, c) == total_squares(samples) - 2 * c * total(samples)
            + samples.len() * c * c,
    decreases samples.len(),
{
    if samples.len() > 0 {
        let head = samples.drop_last();
        lemma_squared_distances(head, c);
        let x = samples.last() as int;
        let n = head.len() as int;
        let q = total_squares(head);
        let t = total(head);
        assert((x - c) * (x - c) >= 0) by (nonlinear_arith);
        assert(q - 2 * c * t + n * c * c + (x - c) * (x - c) == (q + x * x) - 2 * c * (t + x) + (n
            + 1) * c * c) by (nonlinear_arith);
    } else {
        assert(0 * c * c == 0) by (nonlinear_arith);
    }
}

/// The variance of the samples, taken exactly, is never negative: the count
/// times the sum of squares is at least the square of the sum.
pub proof fn law_variance_is_not_negative(samples: Seq<u64>)
    ensures
        samples.len() * total_squares(samples) >= total(samples) * total(samples),
    decreases samples.len(),
{
    if samples.len() > 0 {
        let head = samples.drop_last();
        law_variance_is_not_negative(head);
        let x = samples.last() as int;
        lemma_squared_distances(head, x);
        let n = head.len() as int;
        let q = total_squares(head);
        let t = total(head);
        assert((n + 1) * (q + x * x) - (t + x) * (t + x) == (n * q - t * t) + (q - 2 * x * t + n
            * x * x)) by (nonlinear_arith);
    } else {
        assert(0 * total_squares(samples) == 0) by (nonlinear_arith);
    }
}

} // verus!
