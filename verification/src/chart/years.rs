//! Periods of founding years.
//!
//! The years of the records are covered by periods of equal width. The first
//! period starts at the largest multiple of the width that is not above the
//! earliest year; the last is the one that holds the latest year.

use vstd::prelude::*;
use vstd::arithmetic::div_mod::lemma_fundamental_div_mod_converse;
use crate::chart::buckets::{
    FALLBACK_MAX_YEAR, FALLBACK_MIN_YEAR, UNBOUNDED, aggregate_ranges, in_range, is_matched,
    matched_count, spec_range_dataset,
};
use crate::chart::dataset::{ChartDataset, MAX_TOTAL};

verus! {

/// The earliest of `years`, which must not be empty.
pub open spec fn earliest(years: Seq<i64>) -> int
    decreases years.len(),
{
    if years.len() <= 1 {
        years[0] as int
    } else if (years.last() as int) < earliest(years.drop_last()) {
        years.last() as int
    } else {
        earliest(years.drop_last())
    }
}

/// The latest of `years`, which must not be empty.
pub open spec fn latest(years: Seq<i64>) -> int
    decreases years.len(),
{
    if years.len() <= 1 {
        years[0] as int
    } else if (years.last() as int) > latest(years.drop_last()) {
        years.last() as int
    } else {
        latest(years.drop_last())
    }
}

/// The earliest and the latest of `years`, or the fallback pair when there
/// is no year.
pub open spec fn spec_year_span(years: Seq<i64>) -> (int, int) {
    if years.len() == 0 {
        (FALLBACK_MIN_YEAR as int, FALLBACK_MAX_YEAR as int)
    } else {
        (earliest(years), latest(years))
    }
}

/// The start of the first period.
pub open spec fn spec_period_start(min_year: int, period: int) -> int {
    min_year - min_year % period
}

/// The number of periods from the one that holds `min_year` to the one that
/// holds `max_year`.
pub open spec fn spec_period_count(min_year: int, max_year: int, period: int) -> int {
    (max_year - spec_period_start(min_year, period)) / period + 1
}

/// The periods that cover `min_year` to `max_year`, as ranges.
pub open spec fn spec_year_ranges(min_year: int, max_year: int, period: int) -> Seq<(i64, i64)> {
    let start = spec_period_start(min_year, period);
    Seq::new(
        spec_period_count(min_year, max_year, period) as nat,
        |k: int| ((start + k * period) as i64, (start + k * period + period - 1) as i64),
    )
}

/// Every year lies between the earliest and the latest, and both occur.
pub proof fn lemma_year_span(years: Seq<i64>)
    requires
        years.len() > 0,
    ensures
        forall|i: int| 0 <= i < years.len() ==> earliest(years) <= #[trigger] years[i] <= latest(years),
        exists|i: int| 0 <= i < years.len() && #[trigger] years[i] == earliest(years),
        exists|i: int| 0 <= i < years.len() && #[trigger] years[i] == latest(years),
    decreases years.len(),
{
    if years.len() > 1 {
        let front = years.drop_last();
        lemma_year_span(front);
        assert forall|i: int| 0 <= i < years.len() implies earliest(years) <= #[trigger] years[i]
            <= latest(years) by {
            if i < front.len() {
                assert(front[i] == years[i]);
            }
        }
        let lo = choose|i: int| 0 <= i < front.len() && #[trigger] front[i] == earliest(front);
        let hi = choose|i: int| 0 <= i < front.len() && #[trigger] front[i] == latest(front);
        assert(years[lo] == front[lo] && years[hi] == front[hi]);
        let end = years.len() - 1;
        assert(years[end] == years.last());
        assert(years[lo] == earliest(years) || years[end] == earliest(years));
        assert(years[hi] == latest(years) || years[end] == latest(years));
    } else {
        assert(years[0] == earliest(years) && years[0] == latest(years));
    }
}

/// The remainder of `year` by `period` that is never negative.
fn floor_mod(year: i64, period: i64) -> (r: i64)
    requires
        0 < period,
    ensures
        r as int == year as int % period as int,
        0 <= r < period,
{
    if year >= 0 {
        year % period
    } else {
        let below: i64 = -(year + 1);
        let m: i64 = below % period;
        proof {
            let q = below as int / period as int;
            assert(below as int == period as int * q + m as int) by (nonlinear_arith)
                requires
                    q == below as int / period as int,
                    m as int == below as int % period as int,
                    period > 0,
            ;
            assert(year as int == (-q - 1) * period as int + (period as int - 1 - m as int))
                by (nonlinear_arith)
                requires
                    below as int == period as int * q + m as int,
                    below as int == -(year as int + 1),
            ;
            lemma_fundamental_div_mod_converse(
                year as int,
                period as int,
                -q - 1,
                period as int - 1 - m as int,
            );
        }
        period - 1 - m
    }
}

/// The earliest and the latest of `years`, or the fallback pair.
pub fn year_span(years: &Vec<i64>) -> (span: (i64, i64))
    ensures
        (span.0 as int, span.1 as int) == spec_year_span(years@),
        span.0 <= span.1,
{
    if years.len() == 0 {
        return (FALLBACK_MIN_YEAR, FALLBACK_MAX_YEAR);
    }
    let mut lo: i64 = years[0];
    let mut hi: i64 = years[0];
    let mut i: usize = 1;
    assert(years@.take(1).len() == 1 && years@.take(1)[0] == years@[0]);
    while i < years.len()
        invariant
            1 <= i <= years@.len(),
            lo as int == earliest(years@.take(i as int)),
            hi as int == latest(years@.take(i as int)),
            lo <= hi,
        decreases years.len() - i,
    {
        proof {
            assert(years@.take(i as int + 1).drop_last() =~= years@.take(i as int));
        }
        let y = years[i];
        if y < lo {
            lo = y;
        }
        if y > hi {
            hi = y;
        }
        i = i + 1;
    }
    proof {
        assert(years@.take(i as int) =~= years@);
    }
    (lo, hi)
}

/// The periods of width `period` that cover `min_year` to `max_year`.
pub fn year_ranges(min_year: i64, max_year: i64, period: i64) -> (ranges: Vec<(i64, i64)>)
    requires
        0 < period,
        i64::MIN + period <= min_year <= max_year <= i64::MAX - period,
    ensures
        ranges@ == spec_year_ranges(min_year as int, max_year as int, period as int),
        ranges@.len() > 0,
        forall|y: i64| min_year <= y <= max_year ==> is_matched(y, ranges@),
        forall|i: int| 0 <= i < ranges@.len() ==> (#[trigger] ranges@[i]).1 != UNBOUNDED,
{
    let start: i64 = min_year - floor_mod(min_year, period);
    let mut ranges: Vec<(i64, i64)> = Vec::new();
    let mut current: i64 = start;
    while current <= max_year
        invariant
            0 < period,
            start <= min_year <= max_year <= i64::MAX - period,
            current == start + ranges@.len() * period,
            current <= max_year + period,
            forall|k: int|
                0 <= k < ranges@.len() ==> (#[trigger] ranges@[k]).0 == start + k * period
                    && ranges@[k].1 == start + k * period + period - 1 && ranges@[k].0
                    <= max_year,
        decreases max_year + period - current,
    {
        proof {
            let n = ranges@.len() as int;
            assert((n + 1) * period == n * period + period) by (nonlinear_arith);
        }
        ranges.push((current, current + period - 1));
        current = current + period;
    }
    proof {
        let n = ranges@.len() as int;
        let p = period as int;
        assert(n > 0) by {
            if n == 0 {
                assert(0 * p == 0) by (nonlinear_arith);
            }
        }
        assert((n - 1) * p == n * p - p) by (nonlinear_arith);
        lemma_fundamental_div_mod_converse(
            max_year - start,
            p,
            n - 1,
            max_year - start - (n - 1) * p,
        );
        assert(ranges@ =~= spec_year_ranges(min_year as int, max_year as int, period as int));
        assert forall|y: i64| min_year <= y <= max_year implies is_matched(y, ranges@) by {
            let k = (y - start) / p;
            let r = (y - start) % p;
            assert(y - start == p * k + r && 0 <= r < p && 0 <= k) by (nonlinear_arith)
                requires
                    k == (y - start) / p,
                    r == (y - start) % p,
                    p > 0,
                    y - start >= 0,
            ;
            assert(k < n) by (nonlinear_arith)
                requires
                    y - start == p * k + r,
                    0 <= r,
                    y - start < n * p,
                    p > 0,
            ;
            assert(p * k == k * p) by (nonlinear_arith);
            assert(in_range(y, ranges@[k]));
        }
    }
    ranges
}

/// Every value is counted when some range holds each of them.
pub proof fn lemma_all_matched(values: Seq<i64>, ranges: Seq<(i64, i64)>)
    requires
        forall|i: int| 0 <= i < values.len() ==> is_matched(#[trigger] values[i], ranges),
    ensures
        matched_count(values, ranges) == values.len(),
    decreases values.len(),
{
    reveal(Seq::filter);
    if values.len() > 0 {
        let front = values.drop_last();
        assert forall|i: int| 0 <= i < front.len() implies is_matched(
            #[trigger] front[i],
            ranges,
        ) by {
            assert(front[i] == values[i]);
        }
        lemma_all_matched(front, ranges);
        assert(is_matched(values[values.len() - 1], ranges));
    }
}

/// Counts `years` into periods of width `period` that cover them all, or
/// that cover the fallback pair when there is no year. Every year is
/// counted.
pub fn aggregate_years(years: &Vec<i64>, period: i64) -> (ds: ChartDataset)
    requires
        years@.len() <= MAX_TOTAL,
        0 < period <= i64::MAX - FALLBACK_MAX_YEAR,
        forall|i: int|
            0 <= i < years@.len() ==> i64::MIN + period <= #[trigger] years@[i] <= i64::MAX
                - period,
    ensures
        ds.well_formed(),
        ds@ == spec_range_dataset(
            years@,
            spec_year_ranges(spec_year_span(years@).0, spec_year_span(years@).1, period as int),
        ),
        ds.total == years@.len(),
{
    let span = year_span(years);
    proof {
        if years@.len() > 0 {
            lemma_year_span(years@);
        }
    }
    let ranges = year_ranges(span.0, span.1, period);
    proof {
        lemma_all_matched(years@, ranges@);
    }
    aggregate_ranges(years, &ranges)
}

} // verus!
