use team_editor::chart::axis::{nice_max, tick_value, tick_values, DEFAULT_TICK_COUNT};
use team_editor::chart::bar::{
    bar_spacing, label_band_height, layout as bar_layout, BAR_PALETTE_SIZE, MIN_LEGIBLE_HEIGHT,
    TOP_MARGIN,
};
use team_editor::chart::buckets::{
    aggregate_ranges, default_supporter_ranges, default_wealth_ranges, find_range, format_range,
    UNBOUNDED,
};
use team_editor::chart::categories::{
    aggregate_categories, count_categories, fold_top, rank_categories, rank_groups,
    DEFAULT_CATEGORY_CAP,
};
use team_editor::chart::dataset::{Bucket, ChartDataset, ChartError, MAX_TOTAL};
use team_editor::chart::pie::{
    caption, layout as pie_layout, percent_tenths, percent_whole, LabelAlign, Point,
    DEFAULT_SMALL_SLICE_THRESHOLD, FULL_TURN, PIE_PALETTE_SIZE,
};
use team_editor::chart::years::{aggregate_years, year_ranges, year_span};

fn bucket(label: &str, value: u64) -> Bucket {
    Bucket { label: label.to_string(), value }
}

fn dataset(pairs: &[(&str, u64)]) -> ChartDataset {
    let buckets: Vec<Bucket> = pairs.iter().map(|(l, v)| bucket(l, *v)).collect();
    ChartDataset::from_buckets(buckets).unwrap()
}

fn pairs(ds: &ChartDataset) -> Vec<(String, u64)> {
    ds.buckets.iter().map(|b| (b.label.clone(), b.value)).collect()
}

fn named(pairs: &[(&str, u64)]) -> Vec<(String, u64)> {
    pairs.iter().map(|(l, v)| (l.to_string(), *v)).collect()
}

#[test]
fn wealth_values_fall_into_default_ranges() {
    let values = vec![500, 1500, 7000, 60000];
    let ds = aggregate_ranges(&values, &default_wealth_ranges());
    assert_eq!(
        pairs(&ds),
        named(&[
            ("0-1000", 1),
            ("1001-5000", 1),
            ("5001-10000", 1),
            ("10001-50000", 0),
            ("50001+", 1)
        ])
    );
    assert_eq!(ds.total, 4);
}

#[test]
fn twelve_locations_fold_into_other() {
    let counts = [20usize, 18, 15, 12, 10, 8, 6, 5, 4, 3, 2, 1];
    let mut keys: Vec<String> = Vec::new();
    // the rarest locations are met first, so that only the counts decide
    for round in 0..20 {
        for (i, count) in counts.iter().enumerate().rev() {
            if round < *count {
                keys.push(format!("L{}", i + 1));
            }
        }
    }
    assert_eq!(keys.len(), 104);
    let ds = aggregate_categories(&keys, DEFAULT_CATEGORY_CAP);
    assert_eq!(
        pairs(&ds),
        named(&[
            ("L1", 20),
            ("L2", 18),
            ("L3", 15),
            ("L4", 12),
            ("L5", 10),
            ("L6", 8),
            ("L7", 6),
            ("L8", 5),
            ("L9", 4),
            ("L10", 3),
            ("Other", 3)
        ])
    );
    assert_eq!(ds.total, 104);
    assert_eq!(ds.buckets.iter().filter(|b| b.label == "Other").count(), 1);
}

#[test]
fn one_percent_slice_is_not_small() {
    let ds = dataset(&[("A", 1), ("B", 99)]);
    assert_eq!(ds.total, 100);
    let g = pie_layout(&ds, Point { x: 200, y: 180 }, 100, DEFAULT_SMALL_SLICE_THRESHOLD).unwrap();
    assert_eq!(g.slices.len(), 2);
    let a = &g.slices[0];
    let b = &g.slices[1];
    assert_eq!((a.start_angle, a.end_angle), (0, 62_831));
    assert_eq!((b.start_angle, b.end_angle), (62_831, FULL_TURN));
    let span_a = (a.end_angle - a.start_angle) as f64 / 1e6;
    let span_b = (b.end_angle - b.start_angle) as f64 / 1e6;
    assert!((span_a - 0.0628).abs() < 1e-4);
    assert!((span_b - 6.22).abs() < 1e-2);
    assert!(!a.is_small && !b.is_small);
    assert!(a.inline_label.is_some() && b.inline_label.is_some());
    assert!(g.legend.is_empty());
}

#[test]
fn tiny_slices_go_to_the_legend_in_order() {
    let ds = dataset(&[("A", 1), ("B", 1), ("C", 1), ("D", 9997)]);
    assert_eq!(ds.total, 10000);
    let g = pie_layout(&ds, Point { x: 0, y: 0 }, 50, DEFAULT_SMALL_SLICE_THRESHOLD).unwrap();
    let spans: Vec<u64> = g.slices.iter().map(|s| s.end_angle - s.start_angle).collect();
    assert_eq!(spans, vec![628, 628, 628, FULL_TURN - 1884]);
    for s in &g.slices[0..3] {
        assert!(s.is_small);
        assert!(s.inline_label.is_none());
        assert!(((s.end_angle - s.start_angle) as f64 / 1e6 - 0.00063).abs() < 1e-5);
    }
    assert!(!g.slices[3].is_small);
    assert!(g.slices[3].inline_label.is_some());
    let legend: Vec<&str> = g.legend.iter().map(|s| s.label.as_str()).collect();
    assert_eq!(legend, vec!["A", "B", "C"]);
}

#[test]
fn no_records_give_no_geometry() {
    let values: Vec<i64> = Vec::new();
    let ds = aggregate_ranges(&values, &default_wealth_ranges());
    assert_eq!(ds.total, 0);
    assert_eq!(ds.buckets.len(), 5);
    assert!(ds.buckets.iter().all(|b| b.value == 0));
    assert_eq!(
        pie_layout(&ds, Point { x: 0, y: 0 }, 10, DEFAULT_SMALL_SLICE_THRESHOLD).err(),
        Some(ChartError::EmptyDataset)
    );
    assert_eq!(bar_layout(&ds, 400, 400, 30).err(), Some(ChartError::EmptyDataset));
    let keys: Vec<String> = Vec::new();
    let ds = aggregate_categories(&keys, DEFAULT_CATEGORY_CAP);
    assert_eq!(ds.total, 0);
    assert!(ds.buckets.is_empty());
    assert_eq!(bar_layout(&ds, 400, 400, 30).err(), Some(ChartError::EmptyDataset));
}

#[test]
fn nice_max_rounds_up_by_magnitude() {
    assert_eq!(nice_max(7), 8);
    assert_eq!(nice_max(47), 50);
    assert_eq!(nice_max(123), 200);
    assert_eq!(nice_max(4501), 5000);
}

#[test]
fn nice_max_at_the_edges_of_its_cases() {
    assert_eq!(nice_max(0), 1);
    assert_eq!(nice_max(9), 10);
    assert_eq!(nice_max(10), 10);
    assert_eq!(nice_max(11), 20);
    assert_eq!(nice_max(99), 100);
    assert_eq!(nice_max(100), 100);
    assert_eq!(nice_max(101), 200);
    assert_eq!(nice_max(999), 1000);
    assert_eq!(nice_max(1000), 1000);
    assert_eq!(nice_max(1001), 2000);
    assert_eq!(nice_max(MAX_TOTAL), MAX_TOTAL);
}

#[test]
fn nice_max_never_falls() {
    let mut previous = nice_max(0);
    for x in 1..5000u64 {
        let current = nice_max(x);
        assert!(current >= x);
        assert!(current >= previous);
        previous = current;
    }
}

#[test]
fn ticks_are_evenly_spaced() {
    assert_eq!(tick_values(50, 5), vec![0, 10, 20, 30, 40, 50]);
    assert_eq!(tick_values(8, 5), vec![0, 1, 3, 4, 6, 8]);
    assert_eq!(tick_values(2, 5), vec![0, 0, 0, 1, 1, 2]);
    assert_eq!(tick_values(7, 1), vec![0, 7]);
    assert_eq!(tick_value(u64::MAX, 5, 5), u64::MAX);
    assert_eq!(DEFAULT_TICK_COUNT, 5);
}

#[test]
fn bar_layout_of_five_buckets() {
    let ds = dataset(&[("a", 1), ("b", 1), ("c", 1), ("d", 0), ("e", 1)]);
    let g = bar_layout(&ds, 400, 400, 30).unwrap();
    assert_eq!(g.display_max, 2);
    assert_eq!(g.bar_spacing, 10);
    assert_eq!(g.bar_width, 68);
    assert_eq!(g.plot_height, 350);
    assert_eq!((g.container.x, g.container.y, g.container.width, g.container.height), (0, 0, 400, 370));
    assert_eq!(
        (g.label_band.x, g.label_band.y, g.label_band.width, g.label_band.height),
        (0, 370, 400, 30)
    );
    let rects: Vec<(u64, u64, u64, u64)> =
        g.bars.iter().map(|b| (b.rect.x, b.rect.y, b.rect.width, b.rect.height)).collect();
    assert_eq!(
        rects,
        vec![
            (10, 195, 68, 175),
            (88, 195, 68, 175),
            (166, 195, 68, 175),
            (244, 370, 68, 0),
            (322, 195, 68, 175)
        ]
    );
    let ticks: Vec<(u64, u64)> = g.ticks.iter().map(|t| (t.value, t.y)).collect();
    assert_eq!(ticks, vec![(0, 370), (0, 296), (0, 222), (1, 148), (1, 74), (2, 0)]);
    let legible: Vec<bool> = g.bars.iter().map(|b| b.value_legible).collect();
    assert_eq!(legible, vec![true, true, true, false, true]);
    let labels: Vec<&str> = g.bars.iter().map(|b| b.label.as_str()).collect();
    assert_eq!(labels, vec!["a", "b", "c", "d", "e"]);
    let values: Vec<u64> = g.bars.iter().map(|b| b.value).collect();
    assert_eq!(values, vec![1, 1, 1, 0, 1]);
}

#[test]
fn bar_heights_stay_within_the_plot() {
    let ds = dataset(&[("a", 47), ("b", 3), ("c", 0), ("d", 12), ("e", 30), ("f", 47), ("g", 1)]);
    let g = bar_layout(&ds, 640, 300, 30).unwrap();
    assert_eq!(g.display_max, 50);
    assert_eq!(g.plot_height, 250);
    for bar in &g.bars {
        assert!(bar.rect.height <= g.plot_height);
        assert_eq!(bar.rect.height, bar.value * 250 / 50);
        assert_eq!(bar.rect.y + bar.rect.height, 270);
        assert_eq!(bar.value_legible, bar.rect.height > MIN_LEGIBLE_HEIGHT);
        assert!(bar.rect.x + bar.rect.width <= 640);
    }
    let colors: Vec<usize> = g.bars.iter().map(|b| b.color_index).collect();
    assert_eq!(colors, vec![0, 1, 2, 3, 4, 5, 0]);
    assert_eq!(BAR_PALETTE_SIZE, 6);
    assert_eq!(TOP_MARGIN, 20);
}

#[test]
fn bar_spacing_and_label_band_follow_the_count() {
    assert_eq!(bar_spacing(10), 10);
    assert_eq!(bar_spacing(11), 5);
    assert_eq!(label_band_height(8), 30);
    assert_eq!(label_band_height(9), 60);
    let many: Vec<(String, u64)> = (0..11).map(|i| (format!("b{}", i), 1u64)).collect();
    let buckets: Vec<Bucket> = many.iter().map(|(l, v)| bucket(l, *v)).collect();
    let ds = ChartDataset::from_buckets(buckets).unwrap();
    let g = bar_layout(&ds, 500, 400, label_band_height(11)).unwrap();
    assert_eq!(g.bar_spacing, 5);
    assert_eq!(g.bar_width, (500 - 12 * 5) / 11);
    assert_eq!(g.plot_height, 400 - 60 - 20);
    assert_eq!(g.bars[1].rect.x, 5 + (40 + 5));
}

#[test]
fn container_too_small_is_signalled() {
    let ds = dataset(&[("a", 1), ("b", 2), ("c", 3)]);
    // four gaps of ten need forty
    assert_eq!(bar_layout(&ds, 39, 400, 30).err(), Some(ChartError::ContainerTooSmall));
    let g = bar_layout(&ds, 40, 400, 30).unwrap();
    assert_eq!(g.bar_width, 0);
    let g = bar_layout(&ds, 42, 400, 30).unwrap();
    assert_eq!(g.bar_width, 0);
    let g = bar_layout(&ds, 43, 400, 30).unwrap();
    assert_eq!(g.bar_width, 1);
    // the label band and the top margin need fifty
    assert_eq!(bar_layout(&ds, 400, 49, 30).err(), Some(ChartError::ContainerTooSmall));
    let g = bar_layout(&ds, 400, 50, 30).unwrap();
    assert_eq!(g.plot_height, 0);
    assert!(g.bars.iter().all(|b| b.rect.height == 0));
}

#[test]
fn pie_angles_close_the_circle() {
    let ds = dataset(&[("a", 3), ("b", 0), ("c", 7), ("d", 11), ("e", 1), ("f", 5)]);
    let g = pie_layout(&ds, Point { x: 10, y: 20 }, 80, DEFAULT_SMALL_SLICE_THRESHOLD).unwrap();
    assert_eq!(g.center, Point { x: 10, y: 20 });
    assert_eq!(g.radius, 80);
    assert_eq!(g.slices[0].start_angle, 0);
    for pair in g.slices.windows(2) {
        assert_eq!(pair[0].end_angle, pair[1].start_angle);
    }
    assert_eq!(g.slices.last().unwrap().end_angle, FULL_TURN);
    let sum: u64 = g.slices.iter().map(|s| s.end_angle - s.start_angle).sum();
    assert_eq!(sum, FULL_TURN);
    assert!((sum as f64 / 1e6 - 2.0 * std::f64::consts::PI).abs() < 1e-6);
    // the second boundary lies at ten twenty-sevenths of the turn
    assert_eq!(g.slices[2].end_angle, FULL_TURN * 10 / 27);
    // the empty slice is small and listed
    assert!(g.slices[1].is_small);
    let legend: Vec<&str> = g.legend.iter().map(|s| s.label.as_str()).collect();
    assert_eq!(legend, vec!["b"]);
}

#[test]
fn pie_slices_carry_share_colour_and_label_hint() {
    let ds = dataset(&[("A", 1), ("B", 99)]);
    let g = pie_layout(&ds, Point { x: 0, y: 0 }, 100, DEFAULT_SMALL_SLICE_THRESHOLD).unwrap();
    assert_eq!(g.slices[0].percentage, 10);
    assert_eq!(g.slices[1].percentage, 990);
    assert_eq!(g.slices[0].color_index, 0);
    assert_eq!(g.slices[1].color_index, 1);
    assert_eq!(g.slices[0].value, 1);
    assert_eq!(g.slices[1].label, "B");
    let a = g.slices[0].inline_label.unwrap();
    assert_eq!(a.mid_angle, 31_415);
    assert_eq!(a.leader_radius, 105);
    assert_eq!(a.align, LabelAlign::Left);
    let b = g.slices[1].inline_label.unwrap();
    assert_eq!(b.mid_angle, (62_831 + FULL_TURN) / 2);
    assert_eq!(b.align, LabelAlign::Right);
    assert_eq!(PIE_PALETTE_SIZE, 12);
}

#[test]
fn pie_colours_cycle() {
    let many: Vec<Bucket> = (0..14).map(|i| bucket(&format!("s{}", i), 1)).collect();
    let ds = ChartDataset::from_buckets(many).unwrap();
    let g = pie_layout(&ds, Point { x: 0, y: 0 }, 10, DEFAULT_SMALL_SLICE_THRESHOLD).unwrap();
    assert_eq!(g.slices[11].color_index, 11);
    assert_eq!(g.slices[12].color_index, 0);
    assert_eq!(g.slices[13].color_index, 1);
}

#[test]
fn threshold_decides_what_is_small() {
    let ds = dataset(&[("A", 1), ("B", 99)]);
    let g = pie_layout(&ds, Point { x: 0, y: 0 }, 100, 62_831).unwrap();
    assert!(!g.slices[0].is_small);
    let g = pie_layout(&ds, Point { x: 0, y: 0 }, 100, 62_832).unwrap();
    assert!(g.slices[0].is_small);
    assert!(g.slices[0].inline_label.is_none());
    assert_eq!(g.legend.len(), 1);
    assert_eq!(g.legend[0].label, "A");
    assert_eq!(g.legend[0].value, 1);
    let g = pie_layout(&ds, Point { x: 0, y: 0 }, 100, 0).unwrap();
    assert!(g.legend.is_empty());
}

#[test]
fn shares_round_to_the_nearest_tenth() {
    assert_eq!(percent_tenths(1, 3), 333);
    assert_eq!(percent_tenths(2, 3), 667);
    assert_eq!(percent_tenths(1, 8), 125);
    assert_eq!(percent_tenths(1, 2000), 1);
    assert_eq!(percent_tenths(1, 2001), 0);
    assert_eq!(percent_tenths(5, 5), 1000);
    assert_eq!(percent_tenths(0, 0), 0);
    assert_eq!(percent_whole(2, 3), 66);
    assert_eq!(percent_whole(0, 0), 0);
    assert_eq!(percent_whole(99, 100), 99);
}

#[test]
fn caption_names_value_and_share() {
    assert_eq!(caption("A", 1, 100), "A: 1 (1%)");
    assert_eq!(caption("Madrid", 2, 3), "Madrid: 2 (66%)");
    assert_eq!(caption("", 0, 0), ": 0 (0%)");
}

#[test]
fn dataset_total_is_the_sum() {
    let ds = dataset(&[("a", 3), ("b", 4)]);
    assert_eq!(ds.total, 7);
    assert_eq!(ds.len(), 2);
    assert_eq!(ds.max_value(), 4);
    let empty = ChartDataset::from_buckets(Vec::new()).unwrap();
    assert_eq!(empty.total, 0);
    assert_eq!(empty.max_value(), 0);
    assert!(ChartDataset::from_buckets(vec![bucket("a", MAX_TOTAL), bucket("b", 1)]).is_none());
    assert!(ChartDataset::from_buckets(vec![bucket("a", MAX_TOTAL)]).is_some());
    assert!(ChartDataset::from_buckets(vec![bucket("a", u64::MAX), bucket("b", u64::MAX)]).is_none());
}

#[test]
fn first_matching_range_wins_and_others_are_dropped() {
    let ranges = vec![(0, 10), (5, 20), (30, UNBOUNDED)];
    assert_eq!(find_range(7, &ranges), Some(0));
    assert_eq!(find_range(10, &ranges), Some(0));
    assert_eq!(find_range(11, &ranges), Some(1));
    assert_eq!(find_range(25, &ranges), None);
    assert_eq!(find_range(-1, &ranges), None);
    assert_eq!(find_range(i64::MAX, &ranges), Some(2));
    let ds = aggregate_ranges(&vec![7, 7, 11, 25, -1, 30, 5], &ranges);
    assert_eq!(pairs(&ds), named(&[("0-10", 3), ("5-20", 1), ("30+", 1)]));
    assert_eq!(ds.total, 5);
}

#[test]
fn range_labels() {
    assert_eq!(format_range((0, 1000)), "0-1000");
    assert_eq!(format_range((50001, UNBOUNDED)), "50001+");
    assert_eq!(format_range((-5, -1)), "-5--1");
    assert_eq!(default_supporter_ranges()[4], (500001, i64::MAX));
    assert_eq!(default_supporter_ranges().len(), 5);
    assert_eq!(default_wealth_ranges()[1], (1001, 5000));
}

#[test]
fn categories_rank_by_count_then_by_first_meeting() {
    let keys: Vec<String> = ["b", "a", "a", "b", "c", "d", "d"].iter().map(|s| s.to_string()).collect();
    let groups = count_categories(&keys);
    let grouped: Vec<(String, u64)> = groups.iter().map(|b| (b.label.clone(), b.value)).collect();
    assert_eq!(grouped, named(&[("b", 2), ("a", 2), ("c", 1), ("d", 2)]));
    let ranking = rank_categories(&keys);
    let ranked: Vec<(String, u64)> = ranking.iter().map(|b| (b.label.clone(), b.value)).collect();
    assert_eq!(ranked, named(&[("b", 2), ("a", 2), ("d", 2), ("c", 1)]));
    let again = rank_groups(&groups);
    let again: Vec<(String, u64)> = again.iter().map(|b| (b.label.clone(), b.value)).collect();
    assert_eq!(again, ranked);
}

#[test]
fn categorical_total_is_the_number_of_records() {
    for cap in [0usize, 1, 2, 3, 10] {
        let keys: Vec<String> =
            ["x", "y", "x", "z", "w", "x", "y", "v"].iter().map(|s| s.to_string()).collect();
        let ds = aggregate_categories(&keys, cap);
        let sum: u64 = ds.buckets.iter().map(|b| b.value).sum();
        assert_eq!(sum, 8);
        assert_eq!(ds.total, 8);
    }
}

#[test]
fn folding_keeps_the_top_and_sums_the_rest() {
    let keys: Vec<String> =
        ["x", "y", "x", "z", "w", "x", "y", "v"].iter().map(|s| s.to_string()).collect();
    let ds = aggregate_categories(&keys, 2);
    assert_eq!(pairs(&ds), named(&[("x", 3), ("y", 2), ("Other", 3)]));
    let ds = aggregate_categories(&keys, 5);
    assert_eq!(pairs(&ds), named(&[("x", 3), ("y", 2), ("z", 1), ("w", 1), ("v", 1)]));
    let ds = aggregate_categories(&keys, 0);
    assert_eq!(pairs(&ds), named(&[("Other", 8)]));
    let ds = fold_top(vec![bucket("p", 5), bucket("q", 4), bucket("r", 1)], 1);
    assert_eq!(pairs(&ds), named(&[("p", 5), ("Other", 5)]));
    assert_eq!(ds.total, 10);
}

#[test]
fn a_category_called_other_stands_beside_the_folded_bucket() {
    let keys: Vec<String> = ["Other", "Other", "a", "b"].iter().map(|s| s.to_string()).collect();
    let ds = aggregate_categories(&keys, 1);
    assert_eq!(pairs(&ds), named(&[("Other", 2), ("Other", 2)]));
}

#[test]
fn year_periods_cover_the_years() {
    assert_eq!(year_span(&vec![1905, 1888, 1999]), (1888, 1999));
    assert_eq!(year_span(&Vec::new()), (1800, 2023));
    assert_eq!(
        year_ranges(1888, 1925, 20),
        vec![(1880, 1899), (1900, 1919), (1920, 1939)]
    );
    assert_eq!(year_ranges(1900, 1900, 20), vec![(1900, 1919)]);
    assert_eq!(year_ranges(1919, 1920, 20), vec![(1900, 1919), (1920, 1939)]);
    assert_eq!(year_ranges(-5, 3, 20), vec![(-20, -1), (0, 19)]);
    assert_eq!(year_ranges(-20, -20, 20), vec![(-20, -1)]);
    let ds = aggregate_years(&vec![1888, 1905, 1999, 1900, 1919], 20);
    assert_eq!(
        pairs(&ds),
        named(&[
            ("1880-1899", 1),
            ("1900-1919", 3),
            ("1920-1939", 0),
            ("1940-1959", 0),
            ("1960-1979", 0),
            ("1980-1999", 1)
        ])
    );
    assert_eq!(ds.total, 5);
}

#[test]
fn no_years_give_the_fallback_periods() {
    let ds = aggregate_years(&Vec::new(), 20);
    assert_eq!(ds.total, 0);
    assert_eq!(ds.buckets.len(), 12);
    assert_eq!(ds.buckets[0].label, "1800-1819");
    assert_eq!(ds.buckets[11].label, "2020-2039");
    assert!(ds.buckets.iter().all(|b| b.value == 0));
}

#[test]
fn the_cap_itself_is_not_folded() {
    let ten: Vec<String> = (0..10).map(|i| format!("c{}", i)).collect();
    let ds = aggregate_categories(&ten, DEFAULT_CATEGORY_CAP);
    assert_eq!(ds.buckets.len(), 10);
    assert!(ds.buckets.iter().all(|b| b.label != "Other" && b.value == 1));
    let labels: Vec<&str> = ds.buckets.iter().map(|b| b.label.as_str()).collect();
    assert_eq!(labels, vec!["c0", "c1", "c2", "c3", "c4", "c5", "c6", "c7", "c8", "c9"]);
    let eleven: Vec<String> = (0..11).map(|i| format!("c{}", i)).collect();
    let ds = aggregate_categories(&eleven, DEFAULT_CATEGORY_CAP);
    assert_eq!(ds.buckets.len(), 11);
    assert_eq!(ds.buckets[10].label, "Other");
    assert_eq!(ds.buckets[10].value, 1);
    assert_eq!(ds.buckets[9].label, "c9");
    assert_eq!(ds.total, 11);
}
