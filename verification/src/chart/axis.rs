//! Vertical axis scaling for bar charts.

use vstd::prelude::*;

verus! {

/// The number of intervals between tick lines on the vertical axis.
pub const DEFAULT_TICK_COUNT: u64 = 5;

/// The upper bound of the vertical axis for a largest count `raw_max`:
/// one more than the count below ten, else the count rounded up to the next
/// multiple of ten, of a hundred or of a thousand, by its magnitude.
pub open spec fn spec_nice_max(raw_max: int) -> int {
    if raw_max < 10 {
        raw_max + 1
    } else if raw_max < 100 {
        ((raw_max + 9) / 10) * 10
    } else if raw_max < 1000 {
        ((raw_max + 99) / 100) * 100
    } else {
        ((raw_max + 999) / 1000) * 1000
    }
}

/// The `i`-th of the evenly spaced tick values from zero to `nice_max`.
pub open spec fn spec_tick_value(nice_max: int, tick_count: int, i: int) -> int {
    nice_max * i / tick_count
}

/// Computes the axis upper bound for the largest count.
pub fn nice_max(raw_max: u64) -> (r: u64)
    requires
        spec_nice_max(raw_max as int) <= u64::MAX,
    ensures
        r as int == spec_nice_max(raw_max as int),
{
    if raw_max < 10 {
        raw_max + 1
    } else if raw_max < 100 {
        ((raw_max + 9) / 10) * 10
    } else if raw_max < 1000 {
        ((raw_max + 99) / 100) * 100
    } else {
        let thousands: u64 = raw_max / 1000;
        if raw_max % 1000 == 0 {
            thousands * 1000
        } else {
            (thousands + 1) * 1000
        }
    }
}

/// Axis scale monotonicity: the axis bound is never below the count it was
/// computed for, and a larger count never gets a smaller bound.
pub proof fn lemma_nice_max_monotone(x: int, y: int)
    requires
        0 <= x <= y,
    ensures
        spec_nice_max(x) >= x,
        spec_nice_max(x) <= spec_nice_max(y),
{
}

/// The axis bound of a positive count is positive and a multiple of one
/// thousand once the count reaches one thousand, so it stays within any
/// multiple of one thousand that bounds the count.
pub proof fn lemma_nice_max_bounded(x: int, limit: int)
    requires
        0 <= x <= limit,
        limit >= 1000,
        limit % 1000 == 0,
    ensures
        0 < spec_nice_max(x) <= limit,
{
}

/// The tick values from zero to `nice_max`: `tick_count + 1` evenly spaced
/// values, each rounded down to a whole number.
pub fn tick_values(nice_max: u64, tick_count: usize) -> (ticks: Vec<u64>)
    requires
        0 < tick_count < usize::MAX,
    ensures
        ticks@.len() == tick_count + 1,
        forall|i: int|
            0 <= i <= tick_count ==> #[trigger] ticks@[i] as int == spec_tick_value(
                nice_max as int,
                tick_count as int,
                i,
            ),
        ticks@[0] == 0,
        ticks@[tick_count as int] == nice_max,
{
    let mut ticks: Vec<u64> = Vec::new();
    let mut i: usize = 0;
    while i <= tick_count
        invariant
            0 < tick_count < usize::MAX,
            i <= tick_count + 1,
            ticks@.len() == i,
            forall|j: int|
                0 <= j < i ==> #[trigger] ticks@[j] as int == spec_tick_value(
                    nice_max as int,
                    tick_count as int,
                    j,
                ),
        decreases tick_count + 1 - i,
    {
        ticks.push(tick_value(nice_max, tick_count, i));
        i = i + 1;
    }
    proof {
        let m = nice_max as int;
        let c = tick_count as int;
        assert(m * 0 / c == 0) by (nonlinear_arith)
            requires
                c > 0,
        ;
        assert(m * c / c == m) by (nonlinear_arith)
            requires
                c > 0,
        ;
    }
    ticks
}

/// The `i`-th tick value of an axis from zero to `nice_max`.
pub fn tick_value(nice_max: u64, tick_count: usize, i: usize) -> (v: u64)
    requires
        0 < tick_count,
        i <= tick_count,
    ensures
        v as int == spec_tick_value(nice_max as int, tick_count as int, i as int),
        v <= nice_max,
{
    assert(nice_max as int * i as int <= 0xffff_ffff_ffff_ffff * 0xffff_ffff_ffff_ffff)
        by (nonlinear_arith)
        requires
            0 <= nice_max as int <= 0xffff_ffff_ffff_ffff,
            0 <= i as int <= 0xffff_ffff_ffff_ffff,
    ;
    let product: u128 = nice_max as u128 * i as u128;
    let q: u128 = product / (tick_count as u128);
    proof {
        let m = nice_max as int;
        let c = tick_count as int;
        let k = i as int;
        assert(m * k / c <= m) by (nonlinear_arith)
            requires
                0 <= k <= c,
                c > 0,
                m >= 0,
        ;
    }
    q as u64
}

} // verus!
