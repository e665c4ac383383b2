//! Pie chart layout: slice angles, small-slice detection and label hints.
//!
//! Angles are whole micro-radians measured from the positive x axis. The
//! boundary after the first `k` buckets lies at the fraction of the full turn
//! that their summed values are of the total, rounded down to a whole
//! micro-radian, so neighbouring slices share their boundary and the last
//! slice ends exactly at the full turn.

use vstd::prelude::*;
use crate::chart::dataset::{
    Bucket, ChartDataset, ChartError, bucket_sum, lemma_bucket_sum_step, lemma_bucket_sum_take,
};
use crate::text::{decimal, push_decimal};
use vstd::string::*;

verus! {

/// The full turn, two pi, in micro-radians.
pub const FULL_TURN: u64 = 6_283_185;

/// The default span, in micro-radians, below which a slice is small.
pub const DEFAULT_SMALL_SLICE_THRESHOLD: u64 = 50_000;

/// The number of colours that pie slices cycle through.
pub const PIE_PALETTE_SIZE: usize = 12;

/// The distance of a leader line's outer end from the centre, in hundredths
/// of the radius.
pub const LEADER_REACH_PERCENT: u64 = 105;

/// A position in the host's coordinates.
#[derive(Debug, Clone, Copy, PartialEq, Eq)]
pub struct Point {
    pub x: i32,
    pub y: i32,
}

/// The side on which a label's text is anchored.
#[derive(Debug, Clone, Copy, PartialEq, Eq)]
pub enum LabelAlign {
    Left,
    Right,
}

/// Where the label of a slice goes when it is drawn beside the slice.
#[derive(Debug, Clone, Copy, PartialEq, Eq)]
pub struct InlineLabel {
    /// The angle of the ray that carries the leader line.
    pub mid_angle: u64,
    /// The distance of the leader line's outer end from the centre.
    pub leader_radius: u64,
    /// The anchoring of the text at the leader line's outer end.
    pub align: LabelAlign,
}

/// One slice of a pie.
#[derive(Debug)]
pub struct Slice {
    pub start_angle: u64,
    pub end_angle: u64,
    pub value: u64,
    pub label: String,
    /// The slice's share of the total in tenths of a percent.
    pub percentage: u64,
    pub color_index: usize,
    pub is_small: bool,
    /// The label hint; a small slice has none and is listed in the legend.
    pub inline_label: Option<InlineLabel>,
}

impl Clone for Slice {
    fn clone(&self) -> (r: Self)
        ensures
            r == *self,
    {
        Slice {
            start_angle: self.start_angle,
            end_angle: self.end_angle,
            value: self.value,
            label: self.label.clone(),
            percentage: self.percentage,
            color_index: self.color_index,
            is_small: self.is_small,
            inline_label: self.inline_label,
        }
    }
}

/// The geometry of a pie chart.
#[derive(Debug)]
pub struct PieGeometry {
    pub center: Point,
    pub radius: u32,
    /// One slice for each bucket, in bucket order.
    pub slices: Vec<Slice>,
    /// The small slices, in bucket order.
    pub legend: Vec<Slice>,
}

/// The angle at which the first buckets end whose values sum to `partial`.
pub open spec fn angle_at(partial: nat, total: nat) -> nat {
    (FULL_TURN as nat * partial / total) as nat
}

/// The angle at which slice `i` starts.
pub open spec fn slice_start(buckets: Seq<Bucket>, i: int) -> nat {
    angle_at(bucket_sum(buckets.take(i)), bucket_sum(buckets))
}

/// The angle at which slice `i` ends.
pub open spec fn slice_end(buckets: Seq<Bucket>, i: int) -> nat {
    angle_at(bucket_sum(buckets.take(i + 1)), bucket_sum(buckets))
}

/// The summed spans of the first `count` slices.
pub open spec fn span_sum(buckets: Seq<Bucket>, count: int) -> int
    decreases count,
{
    if count <= 0 {
        0
    } else {
        span_sum(buckets, count - 1) + (slice_end(buckets, count - 1) - slice_start(
            buckets,
            count - 1,
        ))
    }
}

/// A share of `total` in tenths of a percent, rounded to the nearest tenth
/// with halves rounded up; zero when the total is zero.
pub open spec fn spec_percent_tenths(value: nat, total: nat) -> nat {
    if total == 0 {
        0
    } else {
        ((value * 2000 + total) / (2 * total)) as nat
    }
}

/// A share of `total` in whole percent, rounded down; zero when the total is
/// zero.
pub open spec fn spec_percent_whole(value: nat, total: nat) -> nat {
    if total == 0 {
        0
    } else {
        (value * 100 / total) as nat
    }
}

/// The label hint of a slice that is not small.
pub open spec fn spec_inline_label(start: nat, end: nat, radius: nat) -> InlineLabel {
    InlineLabel {
        mid_angle: ((start + end) / 2) as u64,
        leader_radius: (radius * LEADER_REACH_PERCENT as nat / 100) as u64,
        align: if start + end < FULL_TURN {
            LabelAlign::Left
        } else {
            LabelAlign::Right
        },
    }
}

/// Slice `i` of the pie laid out for `buckets`.
pub open spec fn spec_slice(buckets: Seq<Bucket>, radius: u32, threshold: u64, i: int) -> Slice {
    let start = slice_start(buckets, i);
    let end = slice_end(buckets, i);
    let small = end - start < threshold;
    Slice {
        start_angle: start as u64,
        end_angle: end as u64,
        value: buckets[i].value,
        label: buckets[i].label,
        percentage: spec_percent_tenths(buckets[i].value as nat, bucket_sum(buckets)) as u64,
        color_index: (i % PIE_PALETTE_SIZE as int) as usize,
        is_small: small,
        inline_label: if small {
            None
        } else {
            Some(spec_inline_label(start, end, radius as nat))
        },
    }
}

/// The slices of `slices` that are small, in order.
pub open spec fn small_slices(slices: Seq<Slice>) -> Seq<Slice> {
    slices.filter(|s: Slice| s.is_small)
}

/// A boundary angle lies within the full turn, and boundaries keep the
/// order of the partial sums.
pub proof fn lemma_angle_at_monotone(a: nat, b: nat, total: nat)
    requires
        a <= b <= total,
        total > 0,
    ensures
        angle_at(a, total) <= angle_at(b, total) <= FULL_TURN,
        angle_at(0, total) == 0,
        angle_at(total, total) == FULL_TURN,
{
    let f = FULL_TURN as int;
    let t = total as int;
    assert(f * a <= f * b <= f * t) by (nonlinear_arith)
        requires
            0 <= a <= b <= t,
            f >= 0,
    ;
    assert(f * a / t <= f * b / t) by (nonlinear_arith)
        requires
            f * a <= f * b,
            t > 0,
    ;
    assert(f * b / t <= f * t / t) by (nonlinear_arith)
        requires
            f * b <= f * t,
            t > 0,
    ;
    assert(f * t / t == f) by (nonlinear_arith)
        requires
            t > 0,
    ;
    assert(f * 0 / t == 0) by (nonlinear_arith)
        requires
            t > 0,
    ;
}

/// Angle closure: the first slice starts at zero, each slice starts where
/// the one before it ends, no slice ends before it starts, the last slice
/// ends at the full turn, and the spans of all slices sum to the full turn.
pub proof fn lemma_angle_closure(buckets: Seq<Bucket>)
    requires
        bucket_sum(buckets) > 0,
    ensures
        buckets.len() > 0,
        slice_start(buckets, 0) == 0,
        forall|i: int|
            0 <= i < buckets.len() - 1 ==> #[trigger] slice_end(buckets, i) == slice_start(
                buckets,
                i + 1,
            ),
        forall|i: int|
            0 <= i < buckets.len() ==> slice_start(buckets, i) <= #[trigger] slice_end(buckets, i)
                <= FULL_TURN,
        slice_end(buckets, buckets.len() - 1) == FULL_TURN,
        span_sum(buckets, buckets.len() as int) == FULL_TURN,
{
    let total = bucket_sum(buckets);
    lemma_bucket_sum_take(buckets, 0, 0);
    lemma_angle_at_monotone(0, 0, total);
    assert forall|i: int| 0 <= i < buckets.len() implies slice_start(buckets, i)
        <= #[trigger] slice_end(buckets, i) <= FULL_TURN by {
        lemma_bucket_sum_take(buckets, i, i + 1);
        lemma_angle_at_monotone(
            bucket_sum(buckets.take(i)),
            bucket_sum(buckets.take(i + 1)),
            total,
        );
    }
    lemma_span_sum_telescopes(buckets, buckets.len() as int);
    lemma_angle_at_monotone(total, total, total);
}

/// The spans of the first `count` slices sum to the angle at which the last
/// of them ends.
pub proof fn lemma_span_sum_telescopes(buckets: Seq<Bucket>, count: int)
    requires
        bucket_sum(buckets) > 0,
        0 <= count <= buckets.len(),
    ensures
        span_sum(buckets, count) == slice_start(buckets, count),
    decreases count,
{
    let total = bucket_sum(buckets);
    if count == 0 {
        lemma_bucket_sum_take(buckets, 0, 0);
        lemma_angle_at_monotone(0, 0, total);
    } else {
        lemma_span_sum_telescopes(buckets, count - 1);
    }
}

/// The share of `value` in `total` in tenths of a percent.
pub fn percent_tenths(value: u64, total: u64) -> (r: u64)
    requires
        value <= total,
    ensures
        r as nat == spec_percent_tenths(value as nat, total as nat),
        r <= 1000,
{
    if total == 0 {
        0
    } else {
        let numerator: u128 = value as u128 * 2000 + total as u128;
        let denominator: u128 = 2 * (total as u128);
        let q: u128 = numerator / denominator;
        assert(q <= 1000) by (nonlinear_arith)
            requires
                q == numerator / denominator,
                numerator <= 2001 * total,
                denominator == 2 * total,
                total > 0,
        ;
        q as u64
    }
}

/// The share of `value` in `total` in whole percent, rounded down.
pub fn percent_whole(value: u64, total: u64) -> (r: u64)
    requires
        value <= total,
    ensures
        r as nat == spec_percent_whole(value as nat, total as nat),
        r <= 100,
{
    if total == 0 {
        0
    } else {
        let numerator: u128 = value as u128 * 100;
        let q: u128 = numerator / (total as u128);
        assert(q <= 100) by (nonlinear_arith)
            requires
                q == numerator / (total as u128),
                numerator <= 100 * total,
                total > 0,
        ;
        q as u64
    }
}

/// The boundary angle after buckets whose values sum to `partial`.
fn boundary_angle(partial: u64, total: u64) -> (r: u64)
    requires
        partial <= total,
        total > 0,
    ensures
        r as nat == angle_at(partial as nat, total as nat),
        r <= FULL_TURN,
{
    proof {
        lemma_angle_at_monotone(partial as nat, partial as nat, total as nat);
    }
    let product: u128 = FULL_TURN as u128 * partial as u128;
    (product / (total as u128)) as u64
}

/// `g` is the pie laid out for `dataset`: one slice for each bucket as
/// `spec_slice` gives it, each small exactly when it spans less than the
/// threshold and without an inline label exactly when it is small, and a
/// legend that lists the small slices in order.
pub open spec fn is_layout_of(
    g: PieGeometry,
    dataset: ChartDataset,
    center: Point,
    radius: u32,
    small_slice_threshold: u64,
) -> bool {
    &&& g.center == center
    &&& g.radius == radius
    &&& g.slices@.len() == dataset.buckets@.len()
    &&& forall|i: int|
        0 <= i < g.slices@.len() ==> #[trigger] g.slices@[i] == spec_slice(
            dataset.buckets@,
            radius,
            small_slice_threshold,
            i,
        )
    &&& forall|i: int|
        0 <= i < g.slices@.len() ==> ((#[trigger] g.slices@[i]).is_small <==> g.slices@[i].end_angle
            - g.slices@[i].start_angle < small_slice_threshold)
    &&& forall|i: int|
        0 <= i < g.slices@.len() ==> ((#[trigger] g.slices@[i]).inline_label is None
            <==> g.slices@[i].is_small)
    &&& g.legend@ == small_slices(g.slices@)
}

/// Lays out a pie for `dataset`: one slice for each bucket, in order, from
/// angle zero, each spanning its value's share of the full turn. A slice
/// that spans less than `small_slice_threshold` is small: it has no inline
/// label and is listed in the legend. There is no geometry for a dataset
/// whose total is zero.
pub fn layout(
    dataset: &ChartDataset,
    center: Point,
    radius: u32,
    small_slice_threshold: u64,
) -> (r: Result<PieGeometry, ChartError>)
    requires
        dataset.well_formed(),
    ensures
        r is Err <==> dataset.total == 0,
        r matches Err(e) ==> e == ChartError::EmptyDataset,
        r matches Ok(g) ==> is_layout_of(g, *dataset, center, radius, small_slice_threshold),
{
    let total = dataset.total;
    if total == 0 {
        return Err(ChartError::EmptyDataset);
    }
    let n = dataset.buckets.len();
    let mut slices: Vec<Slice> = Vec::new();
    let mut legend: Vec<Slice> = Vec::new();
    let mut partial: u64 = 0;
    let mut start: u64 = 0;
    let mut i: usize = 0;
    proof {
        lemma_bucket_sum_take(dataset.buckets@, 0, 0);
        lemma_angle_at_monotone(0, 0, total as nat);
        reveal(Seq::filter);
        assert(small_slices(slices@) =~= legend@);
    }
    while i < n
        invariant
            dataset.well_formed(),
            total == dataset.total,
            total > 0,
            n == dataset.buckets@.len(),
            i <= n,
            partial as nat == bucket_sum(dataset.buckets@.take(i as int)),
            partial <= total,
            start as nat == angle_at(partial as nat, total as nat),
            slices@.len() == i,
            forall|j: int|
                0 <= j < i ==> #[trigger] slices@[j] == spec_slice(
                    dataset.buckets@,
                    radius,
                    small_slice_threshold,
                    j,
                ),
            legend@ == small_slices(slices@),
        decreases n - i,
    {
        let bucket = &dataset.buckets[i];
        proof {
            lemma_bucket_sum_step(dataset.buckets@, i as int);
            lemma_bucket_sum_take(dataset.buckets@, i as int + 1, i as int + 1);
            lemma_angle_at_monotone(
                partial as nat,
                (partial + bucket.value) as nat,
                total as nat,
            );
        }
        let next_partial: u64 = partial + bucket.value;
        let end: u64 = boundary_angle(next_partial, total);
        let is_small: bool = end - start < small_slice_threshold;
        let inline_label = if is_small {
            None
        } else {
            Some(
                InlineLabel {
                    mid_angle: (start + end) / 2,
                    leader_radius: radius as u64 * LEADER_REACH_PERCENT / 100,
                    align: if start + end < FULL_TURN {
                        LabelAlign::Left
                    } else {
                        LabelAlign::Right
                    },
                },
            )
        };
        let slice = Slice {
            start_angle: start,
            end_angle: end,
            value: bucket.value,
            label: bucket.label.clone(),
            percentage: percent_tenths(bucket.value, total),
            color_index: i % PIE_PALETTE_SIZE,
            is_small,
            inline_label,
        };
        assert(slice == spec_slice(dataset.buckets@, radius, small_slice_threshold, i as int));
        proof {
            slices@.lemma_filter_push(slice, |s: Slice| s.is_small);
        }
        if is_small {
            legend.push(slice.clone());
        }
        slices.push(slice);
        partial = next_partial;
        start = end;
        i = i + 1;
    }
    proof {
        lemma_angle_closure(dataset.buckets@);
    }
    Ok(PieGeometry { center, radius, slices, legend })
}

/// The caption of a slice: its label, its value and its share of `total` in
/// whole percent.
pub fn caption(label: &str, value: u64, total: u64) -> (s: String)
    requires
        value <= total,
    ensures
        s@ == label@ + ": "@ + decimal(value as int) + " ("@ + decimal(
            spec_percent_whole(value as nat, total as nat) as int,
        ) + "%)"@,
{
    let mut s = String::new();
    s.append(label);
    s.append(": ");
    push_decimal(&mut s, value);
    s.append(" (");
    push_decimal(&mut s, percent_whole(value, total));
    s.append("%)");
    assert(s@ =~= label@ + ": "@ + decimal(value as int) + " ("@ + decimal(
        spec_percent_whole(value as nat, total as nat) as int,
    ) + "%)"@);
    s
}

/// Small-slice routing: a slice of a laid-out pie that spans less than the
/// threshold has no inline label and is listed in the legend; any other
/// slice has an inline label and is not listed in the legend.
pub proof fn lemma_small_slice_routing(
    g: PieGeometry,
    dataset: ChartDataset,
    center: Point,
    radius: u32,
    small_slice_threshold: u64,
    i: int,
)
    requires
        is_layout_of(g, dataset, center, radius, small_slice_threshold),
        0 <= i < g.slices@.len(),
    ensures
        g.slices@[i].end_angle - g.slices@[i].start_angle < small_slice_threshold ==> g.legend@.contains(
            g.slices@[i],
        ) && g.slices@[i].inline_label is None,
        g.slices@[i].end_angle - g.slices@[i].start_angle >= small_slice_threshold
            ==> !g.legend@.contains(g.slices@[i]) && g.slices@[i].inline_label is Some,
        forall|k: int| 0 <= k < g.legend@.len() ==> (#[trigger] g.legend@[k]).is_small,
{
    let test = |s: Slice| s.is_small;
    assert forall|k: int| 0 <= k < g.legend@.len() implies (#[trigger] g.legend@[k]).is_small by {
        g.slices@.lemma_filter_pred(test, k);
    }
    if g.slices@[i].is_small {
        g.slices@.lemma_filter_contains(test, i);
    } else {
        if g.legend@.contains(g.slices@[i]) {
            let k = choose|k: int| 0 <= k < g.legend@.len() && g.legend@[k] == g.slices@[i];
            assert(g.legend@[k].is_small);
        }
    }
}

} // verus!
