//! From teams and a chart request to a dataset and its geometry.

use vstd::prelude::*;
use vstd::string::*;
use crate::chart::bar::{BarGeometry, label_band_height, spec_fits, spec_label_band_height};
use crate::chart::buckets::{aggregate_ranges, spec_range_dataset};
use crate::chart::categories::{
    DEFAULT_CATEGORY_CAP, aggregate_categories, spec_category_dataset, string_views,
};
use crate::chart::dataset::{Bucket, ChartDataset, ChartError, MAX_TOTAL, bucket_sum};
use crate::chart::pie::{
    DEFAULT_SMALL_SLICE_THRESHOLD, PieGeometry, Point, percent_tenths, spec_percent_tenths,
};
use crate::chart::years::{aggregate_years, spec_year_ranges, spec_year_span};
use crate::chart::buckets::DEFAULT_YEAR_PERIOD;
use crate::data::team::{Team, push_i64};
use crate::text::{decimal, decimal_nat, push_decimal};

verus! {

/// What a chart counts the teams by.
#[derive(Debug, Clone, Copy, PartialEq, Eq)]
pub enum ChartType {
    WealthDistribution,
    SupporterDistribution,
    LocationDistribution,
    LeagueDistribution,
    FoundYearDistribution,
}

/// How a chart is drawn.
#[derive(Debug, Clone, Copy, PartialEq, Eq)]
pub enum ChartStyle {
    BarChart,
    PieChart,
}

/// What the caller asks to be shown.
#[derive(Debug, Clone, Copy, PartialEq, Eq)]
pub struct ChartRequest {
    pub dimension: ChartType,
    pub style: ChartStyle,
    pub show_table: bool,
    pub show_percentage: bool,
}

/// The geometry of a chart of either style.
#[derive(Debug)]
pub enum ChartGeometry {
    Bar(BarGeometry),
    Pie(PieGeometry),
}

/// Where the computation of a chart stands. Geometry is computed anew, as
/// a whole, whenever the teams, the request or the container change.
#[derive(Debug)]
pub enum ChartState {
    /// Nothing has been asked for.
    Idle,
    /// A request is being worked on.
    Computing,
    /// The geometry is there to be drawn.
    Ready(ChartGeometry),
    /// There is nothing to draw; the caller shows a message instead.
    NoData,
}

/// The margin between the top of the container and a pie.
pub const PIE_TOP_MARGIN: u32 = 20;

impl ChartType {
    /// The title of the chart.
    pub fn as_str(&self) -> (title: &'static str)
        ensures
            title@ == match *self {
                ChartType::WealthDistribution => "球队财富分布"@,
                ChartType::SupporterDistribution => "球迷数量分布"@,
                ChartType::LocationDistribution => "地区分布"@,
                ChartType::LeagueDistribution => "联赛分布"@,
                ChartType::FoundYearDistribution => "成立年份分布"@,
            },
    {
        match self {
            ChartType::WealthDistribution => "球队财富分布",
            ChartType::SupporterDistribution => "球迷数量分布",
            ChartType::LocationDistribution => "地区分布",
            ChartType::LeagueDistribution => "联赛分布",
            ChartType::FoundYearDistribution => "成立年份分布",
        }
    }

    /// Whether the chart counts by category, so that every team is counted.
    pub open spec fn is_categorical(&self) -> bool {
        *self is LocationDistribution || *self is LeagueDistribution
    }
}

impl ChartStyle {
    /// The name of the style.
    pub fn as_str(&self) -> (name: &'static str)
        ensures
            name@ == match *self {
                ChartStyle::BarChart => "条形图"@,
                ChartStyle::PieChart => "饼图"@,
            },
    {
        match self {
            ChartStyle::BarChart => "条形图",
            ChartStyle::PieChart => "饼图",
        }
    }
}

/// The wealth of each team.
pub open spec fn wealth_of(teams: Seq<Team>) -> Seq<i64> {
    teams.map_values(|t: Team| t.wealth)
}

/// The number of supporters of each team.
pub open spec fn supporters_of(teams: Seq<Team>) -> Seq<i64> {
    teams.map_values(|t: Team| t.supporter_count)
}

/// The founding year of each team.
pub open spec fn years_of(teams: Seq<Team>) -> Seq<i64> {
    teams.map_values(|t: Team| t.found_year)
}

/// The location of each team.
pub open spec fn locations_of(teams: Seq<Team>) -> Seq<Seq<char>> {
    teams.map_values(|t: Team| t.location@)
}

/// The label of a league.
pub open spec fn league_label(league_id: int) -> Seq<char> {
    "League "@ + decimal(league_id)
}

/// The label of the league of each team.
pub open spec fn league_labels_of(teams: Seq<Team>) -> Seq<Seq<char>> {
    teams.map_values(|t: Team| league_label(t.league_id as int))
}

/// Every founding year leaves room for a period below and above it.
pub open spec fn years_in_reach(teams: Seq<Team>) -> bool {
    forall|i: int|
        0 <= i < teams.len() ==> i64::MIN + DEFAULT_YEAR_PERIOD <= (#[trigger] teams[i]).found_year
            <= i64::MAX - DEFAULT_YEAR_PERIOD
}

/// Whether every founding year leaves room for a period below and above
/// it.
pub fn years_fit(teams: &Vec<Team>) -> (r: bool)
    ensures
        r == years_in_reach(teams@),
{
    let mut i: usize = 0;
    while i < teams.len()
        invariant
            i <= teams@.len(),
            forall|j: int|
                0 <= j < i ==> i64::MIN + DEFAULT_YEAR_PERIOD <= (#[trigger] teams@[j]).found_year
                    <= i64::MAX - DEFAULT_YEAR_PERIOD,
        decreases teams.len() - i,
    {
        let year = teams[i].found_year;
        if year < i64::MIN + DEFAULT_YEAR_PERIOD || year > i64::MAX - DEFAULT_YEAR_PERIOD {
            return false;
        }
        i = i + 1;
    }
    true
}

/// The dataset of `teams` counted by `dimension`: wealth and supporters in
/// the given ranges, locations and leagues by category with the default
/// cap, founding years in periods of the default width.
pub open spec fn spec_aggregate(
    teams: Seq<Team>,
    dimension: ChartType,
    wealth_ranges: Seq<(i64, i64)>,
    supporter_ranges: Seq<(i64, i64)>,
) -> Seq<(Seq<char>, nat)> {
    match dimension {
        ChartType::WealthDistribution => spec_range_dataset(wealth_of(teams), wealth_ranges),
        ChartType::SupporterDistribution => spec_range_dataset(
            supporters_of(teams),
            supporter_ranges,
        ),
        ChartType::LocationDistribution => spec_category_dataset(
            locations_of(teams),
            DEFAULT_CATEGORY_CAP as int,
        ),
        ChartType::LeagueDistribution => spec_category_dataset(
            league_labels_of(teams),
            DEFAULT_CATEGORY_CAP as int,
        ),
        ChartType::FoundYearDistribution => spec_range_dataset(
            years_of(teams),
            spec_year_ranges(
                spec_year_span(years_of(teams)).0,
                spec_year_span(years_of(teams)).1,
                DEFAULT_YEAR_PERIOD as int,
            ),
        ),
    }
}

/// Builds the label of a league.
pub fn format_league(league_id: i64) -> (label: String)
    ensures
        label@ == league_label(league_id as int),
{
    let mut label = "League ".to_owned();
    push_i64(&mut label, league_id);
    label
}

/// The wealth of each team, in order.
pub fn wealth_values(teams: &Vec<Team>) -> (values: Vec<i64>)
    ensures
        values@ == wealth_of(teams@),
{
    let mut values: Vec<i64> = Vec::new();
    let mut i: usize = 0;
    while i < teams.len()
        invariant
            i <= teams@.len(),
            values@ == wealth_of(teams@.take(i as int)),
        decreases teams.len() - i,
    {
        values.push(teams[i].wealth);
        assert(values@ =~= wealth_of(teams@.take(i as int + 1)));
        i = i + 1;
    }
    assert(teams@.take(i as int) =~= teams@);
    values
}

/// The number of supporters of each team, in order.
pub fn supporter_values(teams: &Vec<Team>) -> (values: Vec<i64>)
    ensures
        values@ == supporters_of(teams@),
{
    let mut values: Vec<i64> = Vec::new();
    let mut i: usize = 0;
    while i < teams.len()
        invariant
            i <= teams@.len(),
            values@ == supporters_of(teams@.take(i as int)),
        decreases teams.len() - i,
    {
        values.push(teams[i].supporter_count);
        assert(values@ =~= supporters_of(teams@.take(i as int + 1)));
        i = i + 1;
    }
    assert(teams@.take(i as int) =~= teams@);
    values
}

/// The founding year of each team, in order.
pub fn year_values(teams: &Vec<Team>) -> (values: Vec<i64>)
    ensures
        values@ == years_of(teams@),
{
    let mut values: Vec<i64> = Vec::new();
    let mut i: usize = 0;
    while i < teams.len()
        invariant
            i <= teams@.len(),
            values@ == years_of(teams@.take(i as int)),
        decreases teams.len() - i,
    {
        values.push(teams[i].found_year);
        assert(values@ =~= years_of(teams@.take(i as int + 1)));
        i = i + 1;
    }
    assert(teams@.take(i as int) =~= teams@);
    values
}

/// The location of each team, in order.
pub fn location_keys(teams: &Vec<Team>) -> (keys: Vec<String>)
    ensures
        string_views(keys@) == locations_of(teams@),
        keys@.len() == teams@.len(),
{
    let mut keys: Vec<String> = Vec::new();
    let mut i: usize = 0;
    assert(string_views(keys@) =~= locations_of(teams@.take(0)));
    while i < teams.len()
        invariant
            i <= teams@.len(),
            keys@.len() == i,
            string_views(keys@) == locations_of(teams@.take(i as int)),
        decreases teams.len() - i,
    {
        let ghost before = keys@;
        keys.push(teams[i].location.clone());
        assert(string_views(keys@) =~= locations_of(teams@.take(i as int + 1))) by {
            assert forall|j: int| 0 <= j < i implies string_views(keys@)[j] == locations_of(
                teams@.take(i as int + 1),
            )[j] by {
                assert(string_views(before)[j] == locations_of(teams@.take(i as int))[j]);
                assert(keys@[j] == before[j]);
            }
        }
        i = i + 1;
    }
    assert(teams@.take(i as int) =~= teams@);
    keys
}

/// The label of the league of each team, in order.
pub fn league_keys(teams: &Vec<Team>) -> (keys: Vec<String>)
    ensures
        string_views(keys@) == league_labels_of(teams@),
        keys@.len() == teams@.len(),
{
    let mut keys: Vec<String> = Vec::new();
    let mut i: usize = 0;
    assert(string_views(keys@) =~= league_labels_of(teams@.take(0)));
    while i < teams.len()
        invariant
            i <= teams@.len(),
            keys@.len() == i,
            string_views(keys@) == league_labels_of(teams@.take(i as int)),
        decreases teams.len() - i,
    {
        let ghost before = keys@;
        keys.push(format_league(teams[i].league_id));
        assert(string_views(keys@) =~= league_labels_of(teams@.take(i as int + 1))) by {
            assert forall|j: int| 0 <= j < i implies string_views(keys@)[j] == league_labels_of(
                teams@.take(i as int + 1),
            )[j] by {
                assert(string_views(before)[j] == league_labels_of(teams@.take(i as int))[j]);
                assert(keys@[j] == before[j]);
            }
        }
        i = i + 1;
    }
    assert(teams@.take(i as int) =~= teams@);
    keys
}

/// Counts `teams` by `dimension`. Counting by location, by league or by
/// founding year counts every team; counting by wealth or by supporters
/// leaves out the teams that no range holds.
pub fn aggregate(
    teams: &Vec<Team>,
    dimension: ChartType,
    wealth_ranges: &Vec<(i64, i64)>,
    supporter_ranges: &Vec<(i64, i64)>,
) -> (ds: ChartDataset)
    requires
        teams@.len() <= MAX_TOTAL,
        dimension is FoundYearDistribution ==> years_in_reach(teams@),
    ensures
        ds.well_formed(),
        ds@ == spec_aggregate(teams@, dimension, wealth_ranges@, supporter_ranges@),
        ds.total <= teams@.len(),
        dimension.is_categorical() || dimension is FoundYearDistribution ==> ds.total
            == teams@.len(),
{
    match dimension {
        ChartType::WealthDistribution => {
            let values = wealth_values(teams);
            aggregate_ranges(&values, wealth_ranges)
        },
        ChartType::SupporterDistribution => {
            let values = supporter_values(teams);
            aggregate_ranges(&values, supporter_ranges)
        },
        ChartType::LocationDistribution => {
            let keys = location_keys(teams);
            aggregate_categories(&keys, DEFAULT_CATEGORY_CAP)
        },
        ChartType::LeagueDistribution => {
            let keys = league_keys(teams);
            aggregate_categories(&keys, DEFAULT_CATEGORY_CAP)
        },
        ChartType::FoundYearDistribution => {
            let values = year_values(teams);
            assert forall|i: int| 0 <= i < values@.len() implies i64::MIN + DEFAULT_YEAR_PERIOD
                <= #[trigger] values@[i] <= i64::MAX - DEFAULT_YEAR_PERIOD by {
                assert(values@[i] == teams@[i].found_year);
            }
            aggregate_years(&values, DEFAULT_YEAR_PERIOD)
        },
    }
}

/// The radius of the pie that a container of the given size holds: four
/// tenths of the lesser of its width and its height.
pub open spec fn spec_pie_radius(width: int, height: int) -> int {
    if width <= height {
        width * 8 / 10 / 2
    } else {
        height * 8 / 10 / 2
    }
}

/// The centre of the pie: half way across the container, a radius and the
/// top margin below its top.
pub open spec fn spec_pie_center(width: int, height: int) -> Point {
    Point { x: (width / 2) as i32, y: (spec_pie_radius(width, height) + PIE_TOP_MARGIN) as i32 }
}

/// The radius of the pie in a container.
pub fn pie_radius(width: u32, height: u32) -> (radius: u32)
    ensures
        radius as int == spec_pie_radius(width as int, height as int),
        radius <= 1_717_986_918,
{
    let side: u64 = if width <= height {
        width as u64
    } else {
        height as u64
    };
    (side * 8 / 10 / 2) as u32
}

/// The centre of the pie in a container.
pub fn pie_center(width: u32, height: u32) -> (center: Point)
    ensures
        center == spec_pie_center(width as int, height as int),
{
    let radius = pie_radius(width, height);
    Point { x: (width / 2) as i32, y: (radius + PIE_TOP_MARGIN) as i32 }
}

/// `g` is the chart of `dataset` in the given style in a container of the
/// given size.
pub open spec fn is_chart_of(
    g: ChartGeometry,
    dataset: ChartDataset,
    style: ChartStyle,
    width: u32,
    height: u32,
) -> bool {
    match g {
        ChartGeometry::Bar(b) => style is BarChart && crate::chart::bar::is_layout_of(
            b,
            dataset,
            width,
            height,
            spec_label_band_height(dataset.buckets@.len() as int) as u32,
        ),
        ChartGeometry::Pie(p) => style is PieChart && crate::chart::pie::is_layout_of(
            p,
            dataset,
            spec_pie_center(width as int, height as int),
            spec_pie_radius(width as int, height as int) as u32,
            DEFAULT_SMALL_SLICE_THRESHOLD,
        ),
    }
}

/// `r` is what computing the chart of `dataset` comes to: no data for a
/// total of zero, the geometry when it can be laid out, and else the word
/// that the container is too small, which only a bar chart can give.
pub open spec fn is_outcome_of(
    r: Result<ChartState, ChartError>,
    dataset: ChartDataset,
    style: ChartStyle,
    width: u32,
    height: u32,
) -> bool {
    match r {
        Ok(ChartState::Ready(g)) => dataset.total > 0 && is_chart_of(
            g,
            dataset,
            style,
            width,
            height,
        ),
        Ok(ChartState::NoData) => dataset.total == 0,
        Ok(_) => false,
        Err(e) => e == ChartError::ContainerTooSmall && dataset.total > 0 && style is BarChart
            && !spec_fits(
            dataset.buckets@.len() as int,
            width as int,
            height as int,
            spec_label_band_height(dataset.buckets@.len() as int),
        ),
    }
}

/// Lays out `dataset` in the given style in a container of the given size.
/// A bar chart keeps the label band that fits the number of its bars; a pie
/// takes the centre and the radius that fit the container and the default
/// threshold for small slices.
pub fn layout_chart(dataset: &ChartDataset, style: ChartStyle, width: u32, height: u32) -> (r:
    Result<ChartGeometry, ChartError>)
    requires
        dataset.well_formed(),
    ensures
        r == Err::<ChartGeometry, ChartError>(ChartError::EmptyDataset) <==> dataset.total == 0,
        r == Err::<ChartGeometry, ChartError>(ChartError::ContainerTooSmall) <==> dataset.total
            > 0 && style is BarChart && !spec_fits(
            dataset.buckets@.len() as int,
            width as int,
            height as int,
            spec_label_band_height(dataset.buckets@.len() as int),
        ),
        r matches Err(e) ==> e == ChartError::EmptyDataset || e == ChartError::ContainerTooSmall,
        r matches Ok(g) ==> is_chart_of(g, *dataset, style, width, height),
{
    match style {
        ChartStyle::BarChart => {
            let band = label_band_height(dataset.buckets.len());
            match crate::chart::bar::layout(dataset, width, height, band) {
                Ok(g) => Ok(ChartGeometry::Bar(g)),
                Err(e) => Err(e),
            }
        },
        ChartStyle::PieChart => {
            let center = pie_center(width, height);
            let radius = pie_radius(width, height);
            match crate::chart::pie::layout(dataset, center, radius, DEFAULT_SMALL_SLICE_THRESHOLD) {
                Ok(g) => Ok(ChartGeometry::Pie(g)),
                Err(e) => Err(e),
            }
        },
    }
}

impl ChartState {
    /// The state that follows `Computing` on the outcome of a layout:
    /// `Ready` with the geometry, or `NoData` for an empty dataset. A
    /// container that is too small is handed back to the caller, who
    /// enlarges the container and asks again.
    pub fn settle(outcome: Result<ChartGeometry, ChartError>) -> (r: Result<ChartState, ChartError>)
        ensures
            match outcome {
                Ok(g) => r == Ok::<ChartState, ChartError>(ChartState::Ready(g)),
                Err(ChartError::EmptyDataset) => r == Ok::<ChartState, ChartError>(
                    ChartState::NoData,
                ),
                Err(ChartError::ContainerTooSmall) => r == Err::<ChartState, ChartError>(
                    ChartError::ContainerTooSmall,
                ),
            },
    {
        match outcome {
            Ok(g) => Ok(ChartState::Ready(g)),
            Err(ChartError::EmptyDataset) => Ok(ChartState::NoData),
            Err(ChartError::ContainerTooSmall) => Err(ChartError::ContainerTooSmall),
        }
    }
}

/// Computes the chart of `dataset` anew: lays it out and settles the state.
pub fn compute_chart(dataset: &ChartDataset, style: ChartStyle, width: u32, height: u32) -> (r:
    Result<ChartState, ChartError>)
    requires
        dataset.well_formed(),
    ensures
        is_outcome_of(r, *dataset, style, width, height),
{
    ChartState::settle(layout_chart(dataset, style, width, height))
}

/// One row of the table that goes with a chart.
#[derive(Debug)]
pub struct TableRow {
    pub label: String,
    pub value: u64,
    /// The share of the total to one decimal place, when asked for.
    pub percentage: Option<String>,
}

/// The text of a share given in tenths of a percent.
pub open spec fn spec_percent_text(tenths: nat) -> Seq<char> {
    decimal_nat(tenths / 10) + "."@ + decimal_nat(tenths % 10) + "%"@
}

/// Writes a share given in tenths of a percent with one decimal place.
pub fn format_percent(tenths: u64) -> (text: String)
    ensures
        text@ == spec_percent_text(tenths as nat),
{
    let mut text = String::new();
    push_decimal(&mut text, tenths / 10);
    text.append(".");
    push_decimal(&mut text, tenths % 10);
    text.append("%");
    assert(text@ =~= spec_percent_text(tenths as nat));
    text
}

/// Row `i` of the table for `buckets`.
pub open spec fn spec_table_row(buckets: Seq<Bucket>, show_percentage: bool, i: int) -> (
    Seq<char>,
    nat,
    Option<Seq<char>>,
) {
    (
        buckets[i].label@,
        buckets[i].value as nat,
        if show_percentage {
            Some(
                spec_percent_text(
                    spec_percent_tenths(buckets[i].value as nat, bucket_sum(buckets)),
                ),
            )
        } else {
            None
        },
    )
}

/// The plain values of a table row.
pub open spec fn row_view(row: TableRow) -> (Seq<char>, nat, Option<Seq<char>>) {
    (
        row.label@,
        row.value as nat,
        match row.percentage {
            Some(text) => Some(text@),
            None => None,
        },
    )
}

/// `rows` is the table of `dataset`: one row for each bucket, in order.
pub open spec fn is_table_of(rows: Seq<TableRow>, dataset: ChartDataset, show_percentage: bool) -> bool {
    &&& rows.len() == dataset.buckets@.len()
    &&& forall|i: int|
        0 <= i < rows.len() ==> row_view(#[trigger] rows[i]) == spec_table_row(
            dataset.buckets@,
            show_percentage,
            i,
        )
}

/// The table that goes with a chart: one row for each bucket, in order,
/// with its label, its value and, when asked for, its share of the total.
pub fn table_rows(dataset: &ChartDataset, show_percentage: bool) -> (rows: Vec<TableRow>)
    requires
        dataset.well_formed(),
    ensures
        is_table_of(rows@, *dataset, show_percentage),
{
    let mut rows: Vec<TableRow> = Vec::new();
    let mut i: usize = 0;
    while i < dataset.buckets.len()
        invariant
            dataset.well_formed(),
            i <= dataset.buckets@.len(),
            rows@.len() == i,
            forall|j: int|
                0 <= j < i ==> row_view(#[trigger] rows@[j]) == spec_table_row(
                    dataset.buckets@,
                    show_percentage,
                    j,
                ),
        decreases dataset.buckets.len() - i,
    {
        let bucket = &dataset.buckets[i];
        proof {
            crate::chart::dataset::lemma_bucket_max_bounds(dataset.buckets@);
        }
        let percentage = if show_percentage {
            Some(format_percent(percent_tenths(bucket.value, dataset.total)))
        } else {
            None
        };
        rows.push(TableRow { label: bucket.label.clone(), value: bucket.value, percentage });
        i = i + 1;
    }
    rows
}

} // verus!
