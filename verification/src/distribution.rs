//! A discrete probability distribution over a fixed number of outcomes.
//!
//! Probabilities are whole millionths: the value [`SCALE`] stands for
//! certainty. A sample `s` between 1 and `SCALE` stands for a uniform draw
//! from the interval between `(s - 1) / SCALE` and `s / SCALE`.

use crate::random::random_in;
use vstd::prelude::*;

verus! {

/// The number that stands for probability one.
pub const SCALE: i64 = 1_000_000;

/// Why a configuration was refused.
#[derive(Debug, PartialEq, Eq, Clone, Copy, Structural)]
pub enum ConfigError {
    /// A value of a distribution lies below zero or above [`SCALE`].
    ValueOutOfRange,
    /// The values of a distribution do not add up to [`SCALE`].
    SumNotOne,
    /// The chance of a promotional card lies below zero or above [`SCALE`].
    ChanceOutOfRange,
}

/// The sum of the first `n` values.
pub open spec fn prefix_sum(values: Seq<i64>, n: int) -> int
    decreases n,
{
    if n <= 0 {
        0
    } else {
        prefix_sum(values, n - 1) + values[n - 1]
    }
}

/// Every value is a probability.
pub open spec fn all_in_range(values: Seq<i64>) -> bool {
    forall|i: int| 0 <= i < values.len() ==> 0 <= #[trigger] values[i] <= SCALE
}

/// The values are probabilities that add up to one.
pub open spec fn is_distribution(values: Seq<i64>) -> bool {
    all_in_range(values) && prefix_sum(values, values.len() as int) == SCALE
}

/// `index` is the outcome that `sample` selects: the first one whose
/// cumulative sum reaches the sample, or the last outcome if none does.
pub open spec fn selects(values: Seq<i64>, sample: int, index: int) -> bool {
    &&& 0 <= index < values.len()
    &&& forall|j: int| 0 <= j < index ==> #[trigger] prefix_sum(values, j + 1) < sample
    &&& (prefix_sum(values, index + 1) >= sample || index == values.len() - 1)
}

/// A sample that can come out of the random source.
pub open spec fn is_sample(sample: int) -> bool {
    1 <= sample <= SCALE
}

/// Among probabilities the cumulative sums never decrease.
pub proof fn lemma_prefix_sum_monotone(values: Seq<i64>, i: int, j: int)
    requires
        all_in_range(values),
        0 <= i <= j <= values.len(),
    ensures
        0 <= prefix_sum(values, i) <= prefix_sum(values, j),
    decreases j,
{
    if i < j {
        lemma_prefix_sum_monotone(values, i, j - 1);
        assert(0 <= values[j - 1]);
    } else if 0 < i {
        lemma_prefix_sum_monotone(values, i - 1, i - 1);
        assert(0 <= values[i - 1]);
    }
}

/// A sample selects one outcome and no other.
pub proof fn lemma_selects_unique(values: Seq<i64>, sample: int, a: int, b: int)
    requires
        selects(values, sample, a),
        selects(values, sample, b),
    ensures
        a == b,
{
    if a < b {
        assert(prefix_sum(values, a + 1) < sample);
    } else if b < a {
        assert(prefix_sum(values, b + 1) < sample);
    }
}

/// Where one outcome has probability one, every sample selects it.
pub proof fn lemma_certain_outcome(values: Seq<i64>, certain: int, sample: int, index: int)
    requires
        is_distribution(values),
        0 <= certain < values.len(),
        values[certain] == SCALE,
        is_sample(sample),
        selects(values, sample, index),
    ensures
        index == certain,
{
    lemma_prefix_sum_monotone(values, certain, certain);
    lemma_prefix_sum_monotone(values, certain + 1, values.len() as int);
    assert(prefix_sum(values, certain) == 0);
    assert forall|j: int| 0 <= j < certain implies #[trigger] prefix_sum(values, j + 1) < sample by {
        lemma_prefix_sum_monotone(values, j + 1, certain);
    }
    assert(prefix_sum(values, certain + 1) >= sample);
    assert(selects(values, sample, certain));
    lemma_selects_unique(values, sample, index, certain);
}

/// Under a distribution the samples that select an outcome are those above
/// the cumulative sum before it and up to the cumulative sum with it. There
/// are as many of them as the probability of the outcome says, so a sample
/// drawn evenly selects each outcome with its probability.
pub proof fn lemma_selected_by_its_share(values: Seq<i64>, sample: int, index: int)
    requires
        is_distribution(values),
        is_sample(sample),
        0 <= index < values.len(),
    ensures
        selects(values, sample, index) <==> prefix_sum(values, index) < sample <= prefix_sum(
            values,
            index + 1,
        ),
        prefix_sum(values, index + 1) - prefix_sum(values, index) == values[index],
{
    if selects(values, sample, index) {
        if index > 0 {
            assert(prefix_sum(values, (index - 1) + 1) < sample);
        }
    }
    if prefix_sum(values, index) < sample <= prefix_sum(values, index + 1) {
        assert forall|j: int| 0 <= j < index implies #[trigger] prefix_sum(values, j + 1)
            < sample by {
            lemma_prefix_sum_monotone(values, j + 1, index);
        }
    }
}

/// Under a distribution the cumulative sum of the selected outcome reaches
/// the sample: the last outcome is never chosen for want of a better one.
pub proof fn lemma_selected_reaches_sample(values: Seq<i64>, sample: int, index: int)
    requires
        is_distribution(values),
        sample <= SCALE,
        selects(values, sample, index),
    ensures
        prefix_sum(values, index + 1) >= sample,
{
}

/// An outcome of probability zero is selected by no sample.
pub proof fn lemma_impossible_outcome(values: Seq<i64>, sample: int, index: int)
    requires
        is_distribution(values),
        is_sample(sample),
        selects(values, sample, index),
    ensures
        values[index] > 0,
{
    if index > 0 {
        assert(prefix_sum(values, (index - 1) + 1) < sample);
    }
    assert(prefix_sum(values, index + 1) == prefix_sum(values, index) + values[index]);
}

/// A distribution over `SIZE` outcomes.
#[derive(Debug)]
pub struct Distribution<const SIZE: usize> {
    values: [i64; SIZE],
}

impl<const SIZE: usize> View for Distribution<SIZE> {
    type V = Seq<i64>;

    closed spec fn view(&self) -> Seq<i64> {
        self.values@
    }
}

impl<const SIZE: usize> Distribution<SIZE> {
    #[verifier::type_invariant]
    spec fn valid(&self) -> bool {
        is_distribution(self.values@)
    }

    /// Accepts the values if each is a probability and they add up to one.
    pub fn new(values: [i64; SIZE]) -> (r: Result<Distribution<SIZE>, ConfigError>)
        ensures
            !all_in_range(values@) ==> r == Err::<Distribution<SIZE>, ConfigError>(
                ConfigError::ValueOutOfRange,
            ),
            all_in_range(values@) && !is_distribution(values@) ==> r == Err::<
                Distribution<SIZE>,
                ConfigError,
            >(ConfigError::SumNotOne),
            is_distribution(values@) ==> r is Ok && r->Ok_0@ == values@,
    {
        let mut i: usize = 0;
        while i < SIZE
            invariant
                i <= SIZE,
                values@.len() == SIZE,
                forall|j: int| 0 <= j < i ==> 0 <= #[trigger] values@[j] <= SCALE,
            decreases SIZE - i,
        {
            if values[i] < 0 || values[i] > SCALE {
                return Err(ConfigError::ValueOutOfRange);
            }
            i += 1;
        }
        let mut sum: i64 = 0;
        let mut k: usize = 0;
        while k < SIZE
            invariant
                k <= SIZE,
                values@.len() == SIZE,
                all_in_range(values@),
                sum == prefix_sum(values@, k as int),
                0 <= sum <= SCALE,
            decreases SIZE - k,
        {
            sum = sum + values[k];
            k += 1;
            if sum > SCALE {
                proof {
                    lemma_prefix_sum_monotone(values@, k as int, SIZE as int);
                }
                return Err(ConfigError::SumNotOne);
            }
        }
        if sum != SCALE {
            return Err(ConfigError::SumNotOne);
        }
        Ok(Distribution { values })
    }

    /// The probabilities, in the order of their outcomes.
    pub fn values(&self) -> (values: &[i64; SIZE])
        ensures
            values@ == self@,
            is_distribution(self@),
    {
        proof {
            use_type_invariant(self);
        }
        &self.values
    }

    /// The outcome that a given sample selects.
    pub fn pick(&self, sample: i64) -> (index: usize)
        ensures
            selects(self@, sample as int, index as int),
    {
        proof {
            use_type_invariant(self);
        }
        let mut sum: i64 = 0;
        let mut i: usize = 0;
        while i < SIZE
            invariant
                i <= SIZE,
                self.values@.len() == SIZE,
                is_distribution(self.values@),
                sum == prefix_sum(self.values@, i as int),
                forall|j: int| 0 <= j < i ==> #[trigger] prefix_sum(self.values@, j + 1) < sample,
            decreases SIZE - i,
        {
            proof {
                lemma_prefix_sum_monotone(self.values@, i as int, i as int);
                lemma_prefix_sum_monotone(self.values@, i as int + 1, SIZE as int);
            }
            sum = sum + self.values[i];
            if sample <= sum {
                return i;
            }
            i += 1;
        }
        proof {
            lemma_prefix_sum_monotone(self.values@, 0, 0);
        }
        SIZE - 1
    }

    /// Draws a sample and returns the outcome that it selects: a number
    /// below `SIZE`, and the certain outcome where there is one.
    pub fn generate(&self) -> (index: usize)
        ensures
            index < SIZE,
            exists|sample: int| is_sample(sample) && selects(self@, sample, index as int),
            forall|certain: int|
                0 <= certain < SIZE && self@[certain] == SCALE ==> index == certain,
            self@[index as int] > 0,
    {
        proof {
            use_type_invariant(self);
        }
        let mut rng = rand::rng();
        let sample = random_in(&mut rng, 1, SCALE);
        let index = self.pick(sample);
        proof {
            assert(is_sample(sample as int));
            assert forall|certain: int|
                0 <= certain < SIZE && self@[certain] == SCALE implies index == certain by {
                lemma_certain_outcome(self@, certain, sample as int, index as int);
            }
            lemma_impossible_outcome(self@, sample as int, index as int);
        }
        index
    }
}

} // verus!
