//! Counting numbers into ordered ranges.
//!
//! A range is a pair of an inclusive lower and an inclusive upper bound; an
//! upper bound of `UNBOUNDED` leaves the range open above. A number is
//! counted in the first range of the list that holds it, and in none when no
//! range does.

use vstd::prelude::*;
use vstd::string::*;
use crate::chart::dataset::{
    Bucket, ChartDataset, MAX_TOTAL, bucket_sum, bucket_views, count_sum, lemma_bucket_sum_push,
    lemma_count_sum_push, lemma_count_sum_step, lemma_count_sum_update,
};
use crate::text::{decimal, format_i64};

verus! {

/// The upper bound of a range that is open above.
pub const UNBOUNDED: i64 = i64::MAX;

/// The default width of a period of founding years.
pub const DEFAULT_YEAR_PERIOD: i64 = 20;

/// The earliest year assumed when there is no record.
pub const FALLBACK_MIN_YEAR: i64 = 1800;

/// The latest year assumed when there is no record.
pub const FALLBACK_MAX_YEAR: i64 = 2023;

/// `value` lies within `range`, bounds included.
pub open spec fn in_range(value: i64, range: (i64, i64)) -> bool {
    range.0 <= value <= range.1
}

/// `value` is counted in range `i`: that range holds it and none before does.
pub open spec fn falls_in(value: i64, ranges: Seq<(i64, i64)>, i: int) -> bool {
    &&& 0 <= i < ranges.len()
    &&& in_range(value, ranges[i])
    &&& forall|j: int| 0 <= j < i ==> !in_range(value, #[trigger] ranges[j])
}

/// `value` is counted in some range.
pub open spec fn is_matched(value: i64, ranges: Seq<(i64, i64)>) -> bool {
    exists|i: int| 0 <= i < ranges.len() && in_range(value, #[trigger] ranges[i])
}

/// The test for being counted in range `i`.
pub open spec fn falls_in_test(ranges: Seq<(i64, i64)>, i: int) -> spec_fn(i64) -> bool {
    |v: i64| falls_in(v, ranges, i)
}

/// The test for being counted at all.
pub open spec fn is_matched_test(ranges: Seq<(i64, i64)>) -> spec_fn(i64) -> bool {
    |v: i64| is_matched(v, ranges)
}

/// The number of `values` counted in range `i`.
pub open spec fn range_count(values: Seq<i64>, ranges: Seq<(i64, i64)>, i: int) -> nat {
    values.filter(falls_in_test(ranges, i)).len()
}

/// The number of `values` counted in some range.
pub open spec fn matched_count(values: Seq<i64>, ranges: Seq<(i64, i64)>) -> nat {
    values.filter(is_matched_test(ranges)).len()
}

/// The label of a range: its bounds joined by a hyphen, or its lower bound
/// followed by a plus sign when it is open above.
pub open spec fn range_label(range: (i64, i64)) -> Seq<char> {
    if range.1 == UNBOUNDED {
        decimal(range.0 as int) + "+"@
    } else {
        decimal(range.0 as int) + "-"@ + decimal(range.1 as int)
    }
}

/// The dataset of `values` counted into `ranges`: one bucket for each range,
/// in order.
pub open spec fn spec_range_dataset(values: Seq<i64>, ranges: Seq<(i64, i64)>) -> Seq<
    (Seq<char>, nat),
> {
    Seq::new(ranges.len(), |i: int| (range_label(ranges[i]), range_count(values, ranges, i)))
}

/// Counting one more value raises the count of the range it falls in by
/// one, leaves the other counts as they were, and raises the number of
/// matched values by one exactly when some range holds the value.
pub proof fn lemma_count_one_more(values: Seq<i64>, ranges: Seq<(i64, i64)>, v: i64)
    ensures
        forall|i: int|
            0 <= i < ranges.len() ==> #[trigger] range_count(values.push(v), ranges, i)
                == range_count(values, ranges, i) + if falls_in(v, ranges, i) {
                1nat
            } else {
                0nat
            },
        matched_count(values.push(v), ranges) == matched_count(values, ranges) + if is_matched(
            v,
            ranges,
        ) {
            1nat
        } else {
            0nat
        },
{
    assert forall|i: int| 0 <= i < ranges.len() implies #[trigger] range_count(
        values.push(v),
        ranges,
        i,
    ) == range_count(values, ranges, i) + if falls_in(v, ranges, i) {
        1nat
    } else {
        0nat
    } by {
        values.lemma_filter_push(v, falls_in_test(ranges, i));
    }
    values.lemma_filter_push(v, is_matched_test(ranges));
}

/// No count exceeds the number of values.
pub proof fn lemma_counts_bounded(values: Seq<i64>, ranges: Seq<(i64, i64)>)
    ensures
        matched_count(values, ranges) <= values.len(),
        forall|i: int| #[trigger] range_count(values, ranges, i) <= values.len(),
{
    values.lemma_filter_len(is_matched_test(ranges));
    assert forall|i: int| #[trigger] range_count(values, ranges, i) <= values.len() by {
        values.lemma_filter_len(falls_in_test(ranges, i));
    }
}

/// The wealth ranges that charts use unless told otherwise.
pub fn default_wealth_ranges() -> (ranges: Vec<(i64, i64)>)
    ensures
        ranges@ == seq![
            (0i64, 1000i64),
            (1001i64, 5000i64),
            (5001i64, 10000i64),
            (10001i64, 50000i64),
            (50001i64, UNBOUNDED),
        ],
{
    let mut ranges: Vec<(i64, i64)> = Vec::new();
    ranges.push((0, 1000));
    ranges.push((1001, 5000));
    ranges.push((5001, 10000));
    ranges.push((10001, 50000));
    ranges.push((50001, UNBOUNDED));
    assert(ranges@ =~= seq![
        (0i64, 1000i64),
        (1001i64, 5000i64),
        (5001i64, 10000i64),
        (10001i64, 50000i64),
        (50001i64, UNBOUNDED),
    ]);
    ranges
}

/// The supporter ranges that charts use unless told otherwise.
pub fn default_supporter_ranges() -> (ranges: Vec<(i64, i64)>)
    ensures
        ranges@ == seq![
            (0i64, 10000i64),
            (10001i64, 50000i64),
            (50001i64, 100000i64),
            (100001i64, 500000i64),
            (500001i64, UNBOUNDED),
        ],
{
    let mut ranges: Vec<(i64, i64)> = Vec::new();
    ranges.push((0, 10000));
    ranges.push((10001, 50000));
    ranges.push((50001, 100000));
    ranges.push((100001, 500000));
    ranges.push((500001, UNBOUNDED));
    assert(ranges@ =~= seq![
        (0i64, 10000i64),
        (10001i64, 50000i64),
        (50001i64, 100000i64),
        (100001i64, 500000i64),
        (500001i64, UNBOUNDED),
    ]);
    ranges
}

/// The text of a range's label.
pub fn format_range(range: (i64, i64)) -> (label: String)
    ensures
        label@ == range_label(range),
{
    let mut label = format_i64(range.0);
    if range.1 == UNBOUNDED {
        label.append("+");
    } else {
        label.append("-");
        let upper = format_i64(range.1);
        label.append(upper.as_str());
    }
    label
}

/// The range in which `value` is counted, if any.
pub fn find_range(value: i64, ranges: &Vec<(i64, i64)>) -> (found: Option<usize>)
    ensures
        found matches Some(i) ==> falls_in(value, ranges@, i as int),
        found is None ==> !is_matched(value, ranges@),
{
    let mut i: usize = 0;
    while i < ranges.len()
        invariant
            i <= ranges.len(),
            forall|j: int| 0 <= j < i ==> !in_range(value, #[trigger] ranges@[j]),
        decreases ranges.len() - i,
    {
        let range = ranges[i];
        if range.0 <= value && value <= range.1 {
            return Some(i);
        }
        i = i + 1;
    }
    None
}

/// Counts `values` into `ranges`. The dataset has one bucket for each range,
/// in order, labelled by the range; its total is the number of values that
/// some range holds, and the others are left out.
pub fn aggregate_ranges(values: &Vec<i64>, ranges: &Vec<(i64, i64)>) -> (ds: ChartDataset)
    requires
        values@.len() <= MAX_TOTAL,
    ensures
        ds.well_formed(),
        ds@ == spec_range_dataset(values@, ranges@),
        ds.total == matched_count(values@, ranges@),
        ds.total <= values@.len(),
        values@.len() == 0 ==> ds.total == 0,
{
    let mut counts: Vec<u64> = Vec::new();
    let mut r: usize = 0;
    while r < ranges.len()
        invariant
            r <= ranges.len(),
            counts@.len() == r,
            forall|i: int| 0 <= i < r ==> #[trigger] counts@[i] == 0,
            count_sum(counts@) == 0,
        decreases ranges.len() - r,
    {
        proof {
            lemma_count_sum_push(counts@, 0);
        }
        counts.push(0);
        r = r + 1;
    }
    let mut matched: u64 = 0;
    let mut k: usize = 0;
    proof {
        reveal(Seq::filter);
        assert(values@.take(0) =~= Seq::<i64>::empty());
        assert(matched_count(values@.take(0), ranges@) == 0);
        assert forall|i: int| 0 <= i < ranges@.len() implies #[trigger] range_count(
            values@.take(0),
            ranges@,
            i,
        ) == 0 by {}
    }
    while k < values.len()
        invariant
            k <= values@.len(),
            values@.len() <= MAX_TOTAL,
            counts@.len() == ranges@.len(),
            forall|i: int|
                0 <= i < ranges@.len() ==> #[trigger] counts@[i] as nat == range_count(
                    values@.take(k as int),
                    ranges@,
                    i,
                ),
            matched as nat == matched_count(values@.take(k as int), ranges@),
            count_sum(counts@) == matched as nat,
        decreases values.len() - k,
    {
        let value = values[k];
        proof {
            assert(values@.take(k as int + 1) =~= values@.take(k as int).push(value));
            lemma_count_one_more(values@.take(k as int), ranges@, value);
            lemma_counts_bounded(values@.take(k as int + 1), ranges@);
        }
        match find_range(value, ranges) {
            Some(idx) => {
                let count = counts[idx];
                proof {
                    lemma_count_sum_update(counts@, idx as int, (count + 1) as u64);
                    assert(range_count(values@.take(k as int + 1), ranges@, idx as int)
                        <= MAX_TOTAL);
                }
                counts.set(idx, count + 1);
                matched = matched + 1;
                assert forall|i: int| 0 <= i < ranges@.len() implies #[trigger] counts@[i] as nat
                    == range_count(values@.take(k as int + 1), ranges@, i) by {
                    if i != idx {
                        assert(!falls_in(value, ranges@, i));
                    }
                }
            },
            None => {
                assert forall|i: int| 0 <= i < ranges@.len() implies #[trigger] counts@[i] as nat
                    == range_count(values@.take(k as int + 1), ranges@, i) by {
                    assert(!falls_in(value, ranges@, i));
                }
            },
        }
        k = k + 1;
    }
    proof {
        assert(values@.take(k as int) =~= values@);
        lemma_counts_bounded(values@, ranges@);
    }
    let mut buckets: Vec<Bucket> = Vec::new();
    let mut i: usize = 0;
    proof {
        lemma_count_sum_step(counts@, 0);
    }
    while i < ranges.len()
        invariant
            i <= ranges@.len(),
            counts@.len() == ranges@.len(),
            buckets@.len() == i,
            forall|j: int|
                0 <= j < ranges@.len() ==> #[trigger] counts@[j] as nat == range_count(
                    values@,
                    ranges@,
                    j,
                ),
            forall|j: int|
                0 <= j < i ==> (#[trigger] buckets@[j])@ == (
                    range_label(ranges@[j]),
                    range_count(values@, ranges@, j),
                ),
            bucket_sum(buckets@) == count_sum(counts@.take(i as int)),
        decreases ranges.len() - i,
    {
        proof {
            lemma_count_sum_step(counts@, i as int);
        }
        let bucket = Bucket { label: format_range(ranges[i]), value: counts[i] };
        proof {
            lemma_bucket_sum_push(buckets@, bucket);
        }
        buckets.push(bucket);
        i = i + 1;
    }
    proof {
        lemma_count_sum_step(counts@, 0);
        assert(bucket_views(buckets@) =~= spec_range_dataset(values@, ranges@));
    }
    ChartDataset { buckets, total: matched }
}

} // verus!
