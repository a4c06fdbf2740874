//! Aggregating settled dice into a roll result.

use vstd::prelude::*;

verus! {

/// The sum of a sequence of face values.
pub open spec fn sum_of(values: Seq<u32>) -> int
    decreases values.len(),
{
    if values.len() == 0 {
        0
    } else {
        sum_of(values.drop_last()) + values.last()
    }
}

/// Extending a prefix of `values` by one element adds that element to its sum.
proof fn lemma_sum_of_prefix_step(values: Seq<u32>, k: int)
    requires
        0 <= k < values.len(),
    ensures
        sum_of(values.subrange(0, k + 1)) == sum_of(values.subrange(0, k)) + values[k],
{
    let extended = values.subrange(0, k + 1);
    assert(extended.drop_last() =~= values.subrange(0, k));
}

/// The sum of a prefix never exceeds the sum of the whole sequence.
proof fn lemma_sum_of_prefix_le(values: Seq<u32>, k: int)
    requires
        0 <= k <= values.len(),
    ensures
        sum_of(values.subrange(0, k)) <= sum_of(values),
    decreases values.len() - k,
{
    if k == values.len() {
        assert(values.subrange(0, k) =~= values);
    } else {
        lemma_sum_of_prefix_step(values, k);
        lemma_sum_of_prefix_le(values, k + 1);
    }
}

/// The result of a dice roll.
pub struct DiceResult {
    /// The individual dice results, in the order the dice settled.
    pub results: Vec<u32>,
}

impl DiceResult {
    /// Returns the sum total of all dice rolls in this result.
    pub fn total(&self) -> (r: u32)
        requires
            sum_of(self.results@) <= u32::MAX,
        ensures
            r == sum_of(self.results@),
    {
        let mut acc: u32 = 0;
        let mut k: usize = 0;
        while k < self.results.len()
            invariant
                k <= self.results@.len(),
                acc == sum_of(self.results@.subrange(0, k as int)),
                sum_of(self.results@) <= u32::MAX,
            decreases self.results@.len() - k,
        {
            proof {
                lemma_sum_of_prefix_step(self.results@, k as int);
                lemma_sum_of_prefix_le(self.results@, k as int + 1);
            }
            acc = acc + self.results[k];
            k = k + 1;
        }
        proof {
            assert(self.results@.subrange(0, self.results@.len() as int) =~= self.results@);
        }
        acc
    }

    /// Returns the number of dice rolled for this result.
    pub fn number_of_dice(&self) -> (n: usize)
        ensures
            n == self.results@.len(),
    {
        self.results.len()
    }
}

/// Collects the face values of one roll request as its dice settle, and
/// hands out the completed result once every requested die has settled.
pub struct RollBatch {
    expected: usize,
    settled: Vec<u32>,
}

impl RollBatch {
    /// The number of dice the batch waits for.
    pub closed spec fn spec_expected(&self) -> int {
        self.expected as int
    }

    /// The face values recorded so far, in settlement order.
    pub closed spec fn spec_settled(&self) -> Seq<u32> {
        self.settled@
    }

    /// A batch never records more values than it has dice.
    pub open spec fn well_formed(&self) -> bool {
        self.spec_settled().len() <= self.spec_expected()
    }

    /// Starts an empty batch for a roll of `expected` dice.
    pub fn new(expected: usize) -> (batch: RollBatch)
        ensures
            batch.well_formed(),
            batch.spec_expected() == expected,
            batch.spec_settled().len() == 0,
    {
        RollBatch { expected, settled: Vec::new() }
    }

    /// Records the resolved face value of one newly settled die.
    pub fn record(&mut self, value: u32)
        requires
            old(self).well_formed(),
            old(self).spec_settled().len() < old(self).spec_expected(),
        ensures
            final(self).well_formed(),
            final(self).spec_expected() == old(self).spec_expected(),
            final(self).spec_settled() == old(self).spec_settled().push(value),
    {
        self.settled.push(value);
    }

    /// Whether every requested die has settled and been recorded.
    pub fn is_complete(&self) -> (complete: bool)
        ensures
            complete == (self.spec_settled().len() == self.spec_expected()),
    {
        self.settled.len() == self.expected
    }

    /// Hands out the completed roll result.
    pub fn finish(self) -> (result: DiceResult)
        requires
            self.spec_settled().len() == self.spec_expected(),
        ensures
            result.results@ == self.spec_settled(),
    {
        DiceResult { results: self.settled }
    }
}

} // verus!
