//! Bar chart layout: bar rectangles, axis scale and tick lines.
//!
//! Lengths are whole pixels. The origin is the container's top left corner
//! and `y` grows downwards. The label band lies at the bottom of the
//! container; the chart area above it holds the tick lines and the bars,
//! which stand on its lower edge and leave a fixed margin free at its top.

use vstd::prelude::*;
use crate::chart::axis::{
    DEFAULT_TICK_COUNT, lemma_nice_max_bounded, lemma_nice_max_monotone, nice_max, spec_nice_max,
    spec_tick_value, tick_value,
};
use crate::chart::dataset::{
    Bucket, ChartDataset, ChartError, MAX_TOTAL, bucket_max, lemma_bucket_max_bounds,
};

verus! {

/// The margin kept free above the tallest possible bar.
pub const TOP_MARGIN: u32 = 20;

/// The height that a bar must exceed for its value to be written on it.
pub const MIN_LEGIBLE_HEIGHT: u64 = 20;

/// The number of colours that bars cycle through.
pub const BAR_PALETTE_SIZE: usize = 6;

/// The height of the label band for `bucket_count` bars: doubled when there
/// are more than eight, so that their labels can be turned.
pub open spec fn spec_label_band_height(bucket_count: int) -> int {
    if bucket_count > 8 {
        60
    } else {
        30
    }
}

/// The gap between neighbouring bars, before the first and after the last:
/// halved when there are more than ten bars.
pub open spec fn spec_bar_spacing(bucket_count: int) -> int {
    if bucket_count > 10 {
        5
    } else {
        10
    }
}

/// The container is wide enough for the gaps around `bucket_count` bars and
/// high enough for the label band and the top margin.
pub open spec fn spec_fits(bucket_count: int, width: int, height: int, band: int) -> bool {
    &&& (bucket_count + 1) * spec_bar_spacing(bucket_count) <= width
    &&& band + TOP_MARGIN <= height
}

/// The width of each of `bucket_count` bars in a container of `width`.
pub open spec fn spec_bar_width(bucket_count: int, width: int) -> int {
    (width - (bucket_count + 1) * spec_bar_spacing(bucket_count)) / bucket_count
}

/// The height available to the tallest possible bar.
pub open spec fn spec_plot_height(height: int, band: int) -> int {
    height - band - TOP_MARGIN
}

/// The height of a bar for `value` on an axis that ends at `display_max`.
pub open spec fn spec_bar_height(value: int, display_max: int, plot_height: int) -> int {
    value * plot_height / display_max
}

/// The axis bound for `buckets`.
pub open spec fn spec_display_max(buckets: Seq<Bucket>) -> int {
    spec_nice_max(bucket_max(buckets) as int)
}

/// A rectangle by its top left corner and its size.
#[derive(Debug, Clone, Copy, PartialEq, Eq)]
pub struct Rect {
    pub x: u64,
    pub y: u64,
    pub width: u64,
    pub height: u64,
}

/// A horizontal tick line with the value written beside it.
#[derive(Debug, Clone, Copy, PartialEq, Eq)]
pub struct Tick {
    pub value: u64,
    pub y: u64,
}

/// One bar.
#[derive(Debug)]
pub struct Bar {
    pub rect: Rect,
    pub value: u64,
    pub label: String,
    pub color_index: usize,
    /// Whether the bar is high enough for its value to be written on it.
    pub value_legible: bool,
}

/// The geometry of a bar chart.
#[derive(Debug)]
pub struct BarGeometry {
    /// The chart area, above the label band.
    pub container: Rect,
    /// The label band, below the chart area.
    pub label_band: Rect,
    pub plot_height: u64,
    pub bar_width: u64,
    pub bar_spacing: u64,
    pub display_max: u64,
    /// The tick lines from zero to `display_max`, lowest first.
    pub ticks: Vec<Tick>,
    /// One bar for each bucket, in bucket order.
    pub bars: Vec<Bar>,
}

/// Bar `i` of the chart laid out for `buckets`.
pub open spec fn spec_bar(buckets: Seq<Bucket>, width: int, height: int, band: int, i: int) -> Bar {
    let count = buckets.len() as int;
    let bar_width = spec_bar_width(count, width);
    let spacing = spec_bar_spacing(count);
    let bar_height = spec_bar_height(
        buckets[i].value as int,
        spec_display_max(buckets),
        spec_plot_height(height, band),
    );
    Bar {
        rect: Rect {
            x: (spacing + i * (bar_width + spacing)) as u64,
            y: (height - band - bar_height) as u64,
            width: bar_width as u64,
            height: bar_height as u64,
        },
        value: buckets[i].value,
        label: buckets[i].label,
        color_index: (i % BAR_PALETTE_SIZE as int) as usize,
        value_legible: bar_height > MIN_LEGIBLE_HEIGHT,
    }
}

/// Tick line `i` of a chart area of `chart_height` whose axis ends at
/// `display_max`.
pub open spec fn spec_tick(display_max: int, chart_height: int, i: int) -> Tick {
    Tick {
        value: spec_tick_value(display_max, DEFAULT_TICK_COUNT as int, i) as u64,
        y: (chart_height - chart_height * i / DEFAULT_TICK_COUNT as int) as u64,
    }
}

/// Bar height bound: a bar for a value within the axis bound is at most as
/// high as the plot.
pub proof fn lemma_bar_height_bound(value: int, display_max: int, plot_height: int)
    requires
        0 <= value <= display_max,
        0 < display_max,
        0 <= plot_height,
    ensures
        0 <= spec_bar_height(value, display_max, plot_height) <= plot_height,
{
    assert(0 <= value * plot_height <= display_max * plot_height) by (nonlinear_arith)
        requires
            0 <= value <= display_max,
            0 <= plot_height,
    ;
    assert(0 <= value * plot_height / display_max) by (nonlinear_arith)
        requires
            0 <= value * plot_height,
            0 < display_max,
    ;
    assert(value * plot_height / display_max <= plot_height) by (nonlinear_arith)
        requires
            value * plot_height <= display_max * plot_height,
            0 < display_max,
    ;
}

/// Every bar of a chart for counted buckets is between zero and the plot
/// height high.
pub proof fn lemma_bars_within_plot(buckets: Seq<Bucket>, plot_height: int, i: int)
    requires
        0 <= i < buckets.len(),
        0 <= plot_height,
    ensures
        0 <= spec_bar_height(buckets[i].value as int, spec_display_max(buckets), plot_height)
            <= plot_height,
{
    lemma_bucket_max_bounds(buckets);
    lemma_nice_max_monotone(buckets[i].value as int, bucket_max(buckets) as int);
    lemma_nice_max_monotone(0, bucket_max(buckets) as int);
    lemma_bar_height_bound(buckets[i].value as int, spec_display_max(buckets), plot_height);
}

/// The bars and the gaps around them lie side by side within the container.
pub proof fn lemma_bars_within_width(count: int, width: int, i: int)
    requires
        0 <= i < count,
        (count + 1) * spec_bar_spacing(count) <= width,
    ensures
        0 <= spec_bar_width(count, width),
        spec_bar_spacing(count) + i * (spec_bar_width(count, width) + spec_bar_spacing(count))
            + spec_bar_width(count, width) + spec_bar_spacing(count) <= width,
        0 <= i * (spec_bar_width(count, width) + spec_bar_spacing(count)),
{
    let s = spec_bar_spacing(count);
    let free = width - (count + 1) * s;
    let w = free / count;
    assert(0 <= w && w * count <= free) by (nonlinear_arith)
        requires
            w == free / count,
            0 <= free,
            0 < count,
    ;
    assert(0 <= i * (w + s) && (i + 1) * (w + s) <= count * (w + s)) by (nonlinear_arith)
        requires
            0 <= i < count,
            0 <= w,
            0 < s,
    ;
    assert(count * (w + s) == w * count + count * s) by (nonlinear_arith);
    assert((i + 1) * (w + s) == i * (w + s) + w + s) by (nonlinear_arith);
    assert((count + 1) * s == count * s + s) by (nonlinear_arith);
}

/// The height of the label band that fits `bucket_count` bars.
pub fn label_band_height(bucket_count: usize) -> (band: u32)
    ensures
        band as int == spec_label_band_height(bucket_count as int),
{
    if bucket_count > 8 {
        60
    } else {
        30
    }
}

/// The gap between bars that fits `bucket_count` bars.
pub fn bar_spacing(bucket_count: usize) -> (spacing: u32)
    ensures
        spacing as int == spec_bar_spacing(bucket_count as int),
{
    if bucket_count > 10 {
        5
    } else {
        10
    }
}

/// `g` is the bar chart laid out for `dataset` in a container of the
/// given size: the chart area and the label band, the axis bound and its
/// tick lines, and one bar for each bucket as `spec_bar` gives it, none
/// higher than the plot and none reaching beyond the container.
pub open spec fn is_layout_of(
    g: BarGeometry,
    dataset: ChartDataset,
    container_width: u32,
    container_height: u32,
    label_band_height: u32,
) -> bool {
    &&& g.container == Rect {
        x: 0,
        y: 0,
        width: container_width as u64,
        height: (container_height - label_band_height) as u64,
    }
    &&& g.label_band == Rect {
        x: 0,
        y: (container_height - label_band_height) as u64,
        width: container_width as u64,
        height: label_band_height as u64,
    }
    &&& g.plot_height as int == spec_plot_height(
        container_height as int,
        label_band_height as int,
    )
    &&& g.bar_width as int == spec_bar_width(
        dataset.buckets@.len() as int,
        container_width as int,
    )
    &&& g.bar_spacing as int == spec_bar_spacing(dataset.buckets@.len() as int)
    &&& g.display_max as int == spec_display_max(dataset.buckets@)
    &&& g.ticks@.len() == DEFAULT_TICK_COUNT + 1
    &&& forall|i: int|
        0 <= i <= DEFAULT_TICK_COUNT ==> #[trigger] g.ticks@[i] == spec_tick(
            g.display_max as int,
            container_height - label_band_height,
            i,
        )
    &&& g.bars@.len() == dataset.buckets@.len()
    &&& forall|i: int|
        0 <= i < g.bars@.len() ==> #[trigger] g.bars@[i] == spec_bar(
            dataset.buckets@,
            container_width as int,
            container_height as int,
            label_band_height as int,
            i,
        )
    &&& forall|i: int|
        0 <= i < g.bars@.len() ==> (#[trigger] g.bars@[i]).rect.height <= g.plot_height
    &&& forall|i: int|
        0 <= i < g.bars@.len() ==> (#[trigger] g.bars@[i]).rect.x + g.bars@[i].rect.width
            <= container_width
}

/// Lays out a bar chart for `dataset` in a container of the given size, of
/// which `label_band_height` at the bottom is kept for the labels.
///
/// There is no geometry for a dataset whose total is zero. A container that
/// is narrower than the gaps around the bars, or lower than the label band
/// and the top margin together, is too small; a container in which the bars
/// get no width of their own beside the gaps is accepted.
pub fn layout(
    dataset: &ChartDataset,
    container_width: u32,
    container_height: u32,
    label_band_height: u32,
) -> (r: Result<BarGeometry, ChartError>)
    requires
        dataset.well_formed(),
    ensures
        r matches Err(e) ==> (e == ChartError::EmptyDataset || e == ChartError::ContainerTooSmall),
        r == Err::<BarGeometry, ChartError>(ChartError::EmptyDataset) <==> dataset.total == 0,
        r == Err::<BarGeometry, ChartError>(ChartError::ContainerTooSmall) <==> dataset.total > 0
            && !spec_fits(
            dataset.buckets@.len() as int,
            container_width as int,
            container_height as int,
            label_band_height as int,
        ),
        r matches Ok(g) ==> is_layout_of(
            g,
            *dataset,
            container_width,
            container_height,
            label_band_height,
        ),
{
    if dataset.total == 0 {
        return Err(ChartError::EmptyDataset);
    }
    let n = dataset.buckets.len();
    let spacing = bar_spacing(n);
    let gaps: u128 = (n as u128 + 1) * (spacing as u128);
    if gaps > container_width as u128 || (label_band_height as u64) + (TOP_MARGIN as u64)
        > container_height as u64 {
        return Err(ChartError::ContainerTooSmall);
    }
    proof {
        lemma_bucket_max_bounds(dataset.buckets@);
        lemma_nice_max_bounded(bucket_max(dataset.buckets@) as int, MAX_TOTAL as int);
    }
    assert(n > 0) by {
        if n == 0 {
            assert(bucket_max(dataset.buckets@) == 0);
        }
    }
    let width: u64 = container_width as u64;
    let spacing: u64 = spacing as u64;
    let count: u64 = n as u64;
    let bar_width: u64 = (width - gaps as u64) / count;
    let chart_height: u64 = (container_height - label_band_height) as u64;
    let plot_height: u64 = chart_height - TOP_MARGIN as u64;
    let display_max: u64 = nice_max(dataset.max_value());

    let mut ticks: Vec<Tick> = Vec::new();
    let mut t: usize = 0;
    while t <= DEFAULT_TICK_COUNT as usize
        invariant
            t <= DEFAULT_TICK_COUNT + 1,
            ticks@.len() == t,
            chart_height <= u32::MAX,
            forall|j: int|
                0 <= j < t ==> #[trigger] ticks@[j] == spec_tick(
                    display_max as int,
                    chart_height as int,
                    j,
                ),
        decreases DEFAULT_TICK_COUNT + 1 - t,
    {
        let value = tick_value(display_max, DEFAULT_TICK_COUNT as usize, t);
        proof {
            let h = chart_height as int;
            let k = t as int;
            assert(0 <= h * k <= h * 5 && h * k / 5 <= h) by (nonlinear_arith)
                requires
                    0 <= h,
                    0 <= k <= 5,
            ;
        }
        let rise: u64 = chart_height * (t as u64) / DEFAULT_TICK_COUNT;
        ticks.push(Tick { value, y: chart_height - rise });
        t = t + 1;
    }

    let mut bars: Vec<Bar> = Vec::new();
    let mut i: usize = 0;
    while i < n
        invariant
            dataset.well_formed(),
            n == dataset.buckets@.len(),
            n > 0,
            count == n,
            i <= n,
            width == container_width,
            spacing as int == spec_bar_spacing(n as int),
            (n + 1) * spec_bar_spacing(n as int) <= width,
            bar_width as int == spec_bar_width(n as int, width as int),
            chart_height == container_height - label_band_height,
            plot_height as int == spec_plot_height(
                container_height as int,
                label_band_height as int,
            ),
            0 < display_max,
            display_max as int == spec_display_max(dataset.buckets@),
            bars@.len() == i,
            forall|j: int|
                0 <= j < i ==> #[trigger] bars@[j] == spec_bar(
                    dataset.buckets@,
                    container_width as int,
                    container_height as int,
                    label_band_height as int,
                    j,
                ),
            forall|j: int| 0 <= j < i ==> (#[trigger] bars@[j]).rect.height <= plot_height,
            forall|j: int|
                0 <= j < i ==> (#[trigger] bars@[j]).rect.x + bars@[j].rect.width
                    <= container_width,
        decreases n - i,
    {
        let bucket = &dataset.buckets[i];
        proof {
            lemma_bars_within_plot(dataset.buckets@, plot_height as int, i as int);
            lemma_bars_within_width(n as int, width as int, i as int);
            assert(bucket.value as int * plot_height as int <= 0xffff_ffff_ffff_ffff
                * 0xffff_ffff) by (nonlinear_arith)
                requires
                    0 <= bucket.value as int <= 0xffff_ffff_ffff_ffff,
                    0 <= plot_height as int <= 0xffff_ffff,
            ;
        }
        let scaled: u128 = bucket.value as u128 * plot_height as u128;
        let bar_height: u64 = (scaled / (display_max as u128)) as u64;
        let step: u64 = bar_width + spacing;
        let x: u64 = spacing + (i as u64) * step;
        let bar = Bar {
            rect: Rect { x, y: chart_height - bar_height, width: bar_width, height: bar_height },
            value: bucket.value,
            label: bucket.label.clone(),
            color_index: i % BAR_PALETTE_SIZE,
            value_legible: bar_height > MIN_LEGIBLE_HEIGHT,
        };
        bars.push(bar);
        i = i + 1;
    }
    Ok(
        BarGeometry {
            container: Rect { x: 0, y: 0, width, height: chart_height },
            label_band: Rect { x: 0, y: chart_height, width, height: label_band_height as u64 },
            plot_height,
            bar_width,
            bar_spacing: spacing,
            display_max,
            ticks,
            bars,
        },
    )
}

} // verus!
