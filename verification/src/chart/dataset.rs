//! The labelled counts that both chart layouts consume.

use vstd::prelude::*;

verus! {

/// The largest total a dataset may carry: the largest multiple of one
/// thousand that a `u64` holds, so that rounding an axis bound up never
/// leaves the type.
pub const MAX_TOTAL: u64 = 18_446_744_073_709_551_000;

/// Why no chart geometry was produced.
#[derive(Debug, Clone, Copy, PartialEq, Eq)]
pub enum ChartError {
    /// The dataset holds no counted record.
    EmptyDataset,
    /// The container cannot hold the bars and the gaps between them.
    ContainerTooSmall,
}

/// One labelled count.
#[derive(Debug)]
pub struct Bucket {
    pub label: String,
    pub value: u64,
}

impl View for Bucket {
    type V = (Seq<char>, nat);

    open spec fn view(&self) -> (Seq<char>, nat) {
        (self.label@, self.value as nat)
    }
}

impl Clone for Bucket {
    fn clone(&self) -> (r: Self)
        ensures
            r == *self,
    {
        Bucket { label: self.label.clone(), value: self.value }
    }
}

/// The sum of the values of `buckets`.
pub open spec fn bucket_sum(buckets: Seq<Bucket>) -> nat
    decreases buckets.len(),
{
    if buckets.len() == 0 {
        0
    } else {
        bucket_sum(buckets.drop_last()) + buckets.last().value as nat
    }
}

/// The largest value among `buckets`, zero when there is none.
pub open spec fn bucket_max(buckets: Seq<Bucket>) -> nat
    decreases buckets.len(),
{
    if buckets.len() == 0 {
        0
    } else if bucket_max(buckets.drop_last()) >= buckets.last().value as nat {
        bucket_max(buckets.drop_last())
    } else {
        buckets.last().value as nat
    }
}

/// The views of `buckets`, in order.
pub open spec fn bucket_views(buckets: Seq<Bucket>) -> Seq<(Seq<char>, nat)> {
    buckets.map_values(|b: Bucket| b@)
}

/// Adding a bucket adds its value to the sum.
pub proof fn lemma_bucket_sum_push(buckets: Seq<Bucket>, b: Bucket)
    ensures
        bucket_sum(buckets.push(b)) == bucket_sum(buckets) + b.value as nat,
{
    assert(buckets.push(b).drop_last() =~= buckets);
}

/// Extending a prefix by one bucket adds that bucket's value to its sum.
pub proof fn lemma_bucket_sum_step(buckets: Seq<Bucket>, j: int)
    requires
        0 <= j < buckets.len(),
    ensures
        bucket_sum(buckets.take(j + 1)) == bucket_sum(buckets.take(j)) + buckets[j].value as nat,
{
    assert(buckets.take(j + 1).drop_last() =~= buckets.take(j));
}

/// The sum of a prefix grows with the prefix and never exceeds the whole.
pub proof fn lemma_bucket_sum_take(buckets: Seq<Bucket>, i: int, j: int)
    requires
        0 <= i <= j <= buckets.len(),
    ensures
        bucket_sum(buckets.take(i)) <= bucket_sum(buckets.take(j)),
        bucket_sum(buckets.take(j)) <= bucket_sum(buckets),
        bucket_sum(buckets.take(0)) == 0,
        bucket_sum(buckets.take(buckets.len() as int)) == bucket_sum(buckets),
    decreases buckets.len() - i,
{
    assert(buckets.take(buckets.len() as int) =~= buckets);
    if i < buckets.len() {
        lemma_bucket_sum_step(buckets, i);
        if i < j {
            lemma_bucket_sum_take(buckets, i + 1, j);
        } else {
            lemma_bucket_sum_take(buckets, i + 1, i + 1);
        }
    }
}

/// Every value is at most the largest, which is at most the sum.
pub proof fn lemma_bucket_max_bounds(buckets: Seq<Bucket>)
    ensures
        bucket_max(buckets) <= bucket_sum(buckets),
        forall|i: int| 0 <= i < buckets.len() ==> (#[trigger] buckets[i]).value <= bucket_max(buckets),
        buckets.len() > 0 ==> exists|i: int| 0 <= i < buckets.len() && (#[trigger] buckets[i]).value
            == bucket_max(buckets),
    decreases buckets.len(),
{
    if buckets.len() > 0 {
        let front = buckets.drop_last();
        lemma_bucket_max_bounds(front);
        assert forall|i: int| 0 <= i < buckets.len() implies (#[trigger] buckets[i]).value
            <= bucket_max(buckets) by {
            if i < front.len() {
                assert(front[i] == buckets[i]);
            }
        }
        if bucket_max(front) >= buckets.last().value as nat && front.len() > 0 {
            let i = choose|i: int| 0 <= i < front.len() && (#[trigger] front[i]).value == bucket_max(front);
            assert(buckets[i] == front[i]);
        } else {
            assert(buckets[buckets.len() - 1].value == bucket_max(buckets));
        }
    }
}

/// The sum of `counts`.
pub open spec fn count_sum(counts: Seq<u64>) -> nat
    decreases counts.len(),
{
    if counts.len() == 0 {
        0
    } else {
        count_sum(counts.drop_last()) + counts.last() as nat
    }
}

/// Adding a count adds it to the sum.
pub proof fn lemma_count_sum_push(counts: Seq<u64>, v: u64)
    ensures
        count_sum(counts.push(v)) == count_sum(counts) + v,
{
    assert(counts.push(v).drop_last() =~= counts);
}

/// Replacing a count changes the sum by the difference.
pub proof fn lemma_count_sum_update(counts: Seq<u64>, i: int, v: u64)
    requires
        0 <= i < counts.len(),
    ensures
        count_sum(counts.update(i, v)) == count_sum(counts) - counts[i] + v,
    decreases counts.len(),
{
    let updated = counts.update(i, v);
    if i == counts.len() - 1 {
        assert(updated.drop_last() =~= counts.drop_last());
    } else {
        assert(updated.drop_last() =~= counts.drop_last().update(i, v));
        lemma_count_sum_update(counts.drop_last(), i, v);
    }
}

/// Extending a prefix by one count adds that count to its sum; the empty
/// prefix sums to zero and the whole prefix to the whole sum.
pub proof fn lemma_count_sum_step(counts: Seq<u64>, i: int)
    requires
        0 <= i <= counts.len(),
    ensures
        i < counts.len() ==> count_sum(counts.take(i + 1)) == count_sum(counts.take(i))
            + counts[i] as nat,
        count_sum(counts.take(0)) == 0,
        count_sum(counts.take(counts.len() as int)) == count_sum(counts),
{
    if i < counts.len() {
        assert(counts.take(i + 1).drop_last() =~= counts.take(i));
    }
    assert(counts.take(counts.len() as int) =~= counts);
}

/// An ordered sequence of labelled counts with their total.
#[derive(Debug)]
pub struct ChartDataset {
    pub buckets: Vec<Bucket>,
    pub total: u64,
}

impl View for ChartDataset {
    type V = Seq<(Seq<char>, nat)>;

    open spec fn view(&self) -> Seq<(Seq<char>, nat)> {
        bucket_views(self.buckets@)
    }
}

impl ChartDataset {
    /// The total is the sum of the values and is at most `MAX_TOTAL`.
    pub open spec fn well_formed(&self) -> bool {
        &&& self.total as nat == bucket_sum(self.buckets@)
        &&& self.total <= MAX_TOTAL
    }

    /// Builds a dataset from buckets, in their order. There is none when
    /// the values sum to more than `MAX_TOTAL`.
    pub fn from_buckets(buckets: Vec<Bucket>) -> (r: Option<ChartDataset>)
        ensures
            r is Some <==> bucket_sum(buckets@) <= MAX_TOTAL,
            r matches Some(ds) ==> ds.buckets == buckets && ds.well_formed(),
    {
        let mut total: u64 = 0;
        let mut i: usize = 0;
        while i < buckets.len()
            invariant
                i <= buckets.len(),
                total as nat == bucket_sum(buckets@.take(i as int)),
                total <= MAX_TOTAL,
            decreases buckets.len() - i,
        {
            proof {
                lemma_bucket_sum_step(buckets@, i as int);
                lemma_bucket_sum_take(buckets@, i as int + 1, i as int + 1);
            }
            let v = buckets[i].value;
            if v > MAX_TOTAL - total {
                return None;
            }
            total = total + v;
            i = i + 1;
        }
        proof {
            assert(buckets@.take(i as int) =~= buckets@);
        }
        Some(ChartDataset { buckets, total })
    }

    /// Whether the total is the sum of the values and at most `MAX_TOTAL`.
    pub fn is_well_formed(&self) -> (ok: bool)
        ensures
            ok == self.well_formed(),
    {
        let mut sum: u64 = 0;
        let mut i: usize = 0;
        while i < self.buckets.len()
            invariant
                i <= self.buckets@.len(),
                sum as nat == bucket_sum(self.buckets@.take(i as int)),
                sum <= MAX_TOTAL,
            decreases self.buckets.len() - i,
        {
            proof {
                lemma_bucket_sum_step(self.buckets@, i as int);
                lemma_bucket_sum_take(self.buckets@, i as int + 1, i as int + 1);
            }
            let v = self.buckets[i].value;
            if v > MAX_TOTAL - sum {
                return false;
            }
            sum = sum + v;
            i = i + 1;
        }
        proof {
            assert(self.buckets@.take(i as int) =~= self.buckets@);
        }
        sum == self.total
    }

    /// The number of buckets.
    pub fn len(&self) -> (n: usize)
        ensures
            n == self.buckets@.len(),
    {
        self.buckets.len()
    }

    /// The largest value, zero when there is no bucket.
    pub fn max_value(&self) -> (m: u64)
        ensures
            m as nat == bucket_max(self.buckets@),
    {
        let mut m: u64 = 0;
        let mut i: usize = 0;
        while i < self.buckets.len()
            invariant
                i <= self.buckets.len(),
                m as nat == bucket_max(self.buckets@.take(i as int)),
            decreases self.buckets.len() - i,
        {
            proof {
                assert(self.buckets@.take(i as int + 1).drop_last() =~= self.buckets@.take(i as int));
            }
            if self.buckets[i].value > m {
                m = self.buckets[i].value;
            }
            i = i + 1;
        }
        proof {
            assert(self.buckets@.take(i as int) =~= self.buckets@);
        }
        m
    }
}

} // verus!
