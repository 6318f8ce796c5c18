//! Exact arithmetic means of collected samples.
//!
//! A mean is kept as the pair of the samples' sum and their count, so that no
//! precision is lost before the value is rounded for transmission.

use vstd::prelude::*;
use crate::decimal::round_half_away;
use crate::decimal::lemma_round_is_nearest;
use crate::decimal::lemma_round_of_multiple;

verus! {

/// The sum of a sequence of samples.
pub open spec fn sum(values: Seq<i32>) -> int
    decreases values.len(),
{
    if values.len() == 0 {
        0
    } else {
        sum(values.drop_last()) + values.last()
    }
}

/// Where every sample lies between `low` and `high`, so does their mean: the
/// sum lies between `low` and `high` times the number of samples.
pub proof fn lemma_sum_between(values: Seq<i32>, low: int, high: int)
    requires
        forall|i: int| 0 <= i < values.len() ==> low <= #[trigger] values[i] <= high,
    ensures
        low * values.len() <= sum(values) <= high * values.len(),
    decreases values.len(),
{
    if values.len() > 0 {
        let rest = values.drop_last();
        lemma_sum_between(rest, low, high);
        assert(low * values.len() == low * rest.len() + low && high * values.len() == high
            * rest.len() + high) by (nonlinear_arith)
            requires
                values.len() == rest.len() + 1,
        ;
    } else {
        assert(low * values.len() == 0 && high * values.len() == 0) by (nonlinear_arith)
            requires
                values.len() == 0,
        ;
    }
}

/// The sum of `count` samples that all equal `value` is `count` times
/// `value`: the mean of equal samples is that sample.
pub proof fn lemma_sum_of_equal(values: Seq<i32>, value: i32)
    requires
        forall|i: int| 0 <= i < values.len() ==> #[trigger] values[i] == value,
    ensures
        sum(values) == value * values.len(),
{
    lemma_sum_between(values, value as int, value as int);
}

/// The arithmetic mean of one or more samples, each in tenths of a unit.
///
/// The mean is `total / samples` tenths, exactly.
#[derive(Clone, Copy, Debug)]
pub struct Mean {
    total: i128,
    samples: usize,
}

/// The means of one full window, in real units.
#[derive(Clone, Copy, Debug)]
pub struct AggregateReading {
    /// Mean temperature, in tenths of a degree Celsius.
    pub temperature: Mean,
    /// Mean relative humidity, in tenths of a percent.
    pub humidity: Mean,
}

/// Whether `total` can be the sum of `samples` values, one at least.
pub open spec fn is_sum_of(total: int, samples: int) -> bool {
    &&& samples >= 1
    &&& i32::MIN * samples <= total <= i32::MAX * samples
}

impl Mean {
    /// The sum of the samples, in tenths.
    pub closed spec fn total(self) -> int {
        self.total as int
    }

    /// The number of samples.
    pub closed spec fn samples(self) -> int {
        self.samples as int
    }

    /// A mean has at least one sample and lies in the range of a sample.
    #[verifier::type_invariant]
    pub closed spec fn wf(self) -> bool {
        is_sum_of(self.total as int, self.samples as int)
    }

    /// What well-formedness says of the sum and the count.
    pub proof fn lemma_wf(self)
        requires
            self.wf(),
        ensures
            is_sum_of(self.total(), self.samples()),
    {
    }

    /// The mean in thousandths of a unit, rounded to the nearest thousandth,
    /// a half going away from zero.
    pub open spec fn thousandths(self) -> int {
        round_half_away(100 * self.total(), self.samples())
    }

    /// The mean with the given sum and count, if they can be those of samples.
    pub fn new(total: i128, samples: usize) -> (mean: Option<Mean>)
        ensures
            mean is Some <==> is_sum_of(total as int, samples as int),
            mean matches Some(m) ==> m.wf() && m.total() == total && m.samples() == samples,
    {
        if samples == 0 {
            return None;
        }
        let count: i128 = samples as i128;
        if total < -2147483648i128 * count || total > 2147483647i128 * count {
            return None;
        }
        Some(Mean { total, samples })
    }

    /// The mean of a single sample.
    pub fn of_sample(value: i32) -> (mean: Mean)
        ensures
            mean.wf(),
            mean.total() == value,
            mean.samples() == 1,
    {
        Mean { total: value as i128, samples: 1 }
    }

    /// The mean of `values`, unless there are none.
    pub fn of(values: &[i32]) -> (mean: Option<Mean>)
        ensures
            mean is Some <==> values@.len() >= 1,
            mean matches Some(m) ==> m.wf() && m.total() == sum(values@) && m.samples()
                == values@.len(),
    {
        let n: usize = values.len();
        if n == 0 {
            return None;
        }
        let mut total: i128 = 0;
        let mut i: usize = 0;
        while i < n
            invariant
                n == values@.len(),
                i <= n,
                total == sum(values@.take(i as int)),
                i32::MIN * i <= total <= i32::MAX * i,
            decreases n - i,
        {
            assert(values@.take(i + 1).drop_last() =~= values@.take(i as int));
            total = total + values[i] as i128;
            i = i + 1;
        }
        assert(values@.take(n as int) =~= values@);
        Some(Mean { total, samples: n })
    }

    /// The sum of the samples, in tenths.
    pub fn sum_of_samples(&self) -> (total: i128)
        ensures
            total == self.total(),
    {
        self.total
    }

    /// The number of samples.
    pub fn sample_count(&self) -> (samples: usize)
        ensures
            samples == self.samples(),
            samples >= 1,
    {
        proof {
            use_type_invariant(self);
        }
        self.samples
    }

    /// The mean in thousandths of a unit, rounded to the nearest thousandth.
    pub fn to_thousandths(&self) -> (rounded: i64)
        ensures
            rounded == self.thousandths(),
    {
        proof {
            use_type_invariant(self);
        }
        let count: u128 = self.samples as u128;
        let negative: bool = self.total < 0;
        let size: u128 = if negative {
            (-self.total) as u128
        } else {
            self.total as u128
        };
        let doubled: u128 = 200 * size + count;
        let quotient: u128 = doubled / (2 * count);
        assert(quotient <= 214748364800) by (nonlinear_arith)
            requires
                quotient == (doubled as int) / (2 * count),
                count >= 1,
                doubled <= 429496729601 * count,
        ;
        if negative {
            -(quotient as i64)
        } else {
            quotient as i64
        }
    }
}

/// The rounded value of a mean is within half a thousandth of the mean.
pub proof fn lemma_thousandths_nearest(mean: Mean)
    requires
        mean.wf(),
    ensures
        -mean.samples() <= 2 * (mean.thousandths() * mean.samples() - 100 * mean.total())
            <= mean.samples(),
{
    lemma_round_is_nearest(100 * mean.total(), mean.samples());
}

/// Where the number of samples divides a hundred, as ten does, nothing is
/// lost to rounding: the rounded value is the mean itself.
pub proof fn lemma_thousandths_exact(mean: Mean)
    requires
        mean.wf(),
        100int % mean.samples() == 0,
    ensures
        mean.thousandths() == (100int / mean.samples()) * mean.total(),
        mean.thousandths() * mean.samples() == 100 * mean.total(),
{
    mean.lemma_wf();
    let count = mean.samples();
    let exact = (100int / count) * mean.total();
    assert(exact * count == 100 * mean.total()) by (nonlinear_arith)
        requires
            count >= 1,
            100int % count == 0,
            exact == (100int / count) * mean.total(),
    ;
    lemma_round_of_multiple(exact, count);
}

} // verus!
