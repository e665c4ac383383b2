//! The state of the chart panel.

use vstd::prelude::*;
use vstd::string::*;
use crate::chart::buckets::{default_supporter_ranges, default_wealth_ranges, UNBOUNDED};
use crate::chart::categories::{count_categories, spec_groups};
use crate::chart::dataset::{Bucket, ChartDataset, ChartError, MAX_TOTAL, bucket_views};
use crate::chart::engine::{
    ChartRequest, ChartState, TableRow, aggregate, compute_chart, is_outcome_of, is_table_of,
    league_keys, league_labels_of, location_keys, locations_of, spec_aggregate, table_rows,
    years_fit, years_in_reach,
};
pub use crate::chart::engine::{ChartStyle, ChartType};
use crate::data::team::Team;

verus! {

/// The teams to chart and how to chart them.
#[derive(Debug)]
pub struct VisualizationView {
    pub teams: Vec<Team>,
    pub chart_type: ChartType,
    pub chart_style: ChartStyle,
    pub wealth_ranges: Vec<(i64, i64)>,
    pub supporter_ranges: Vec<(i64, i64)>,
    /// Each location with the number of its teams, in the order in which
    /// the locations are first met.
    pub location_counts: Vec<Bucket>,
    /// Each league, by its label, with the number of its teams, in the
    /// order in which the leagues are first met.
    pub league_counts: Vec<Bucket>,
    pub selected_location: Option<String>,
    pub show_data_table: bool,
    pub show_percentage: bool,
}

impl VisualizationView {
    /// The counts by location and by league are those of the teams.
    pub open spec fn statistics_current(&self) -> bool {
        &&& bucket_views(self.location_counts@) == spec_groups(locations_of(self.teams@))
        &&& bucket_views(self.league_counts@) == spec_groups(league_labels_of(self.teams@))
    }

    /// A panel without teams that shows the wealth distribution as a bar
    /// chart, with the table and its percentages.
    pub fn new() -> (view: Self)
        ensures
            view.teams@.len() == 0,
            view.chart_type == ChartType::WealthDistribution,
            view.chart_style == ChartStyle::BarChart,
            view.wealth_ranges@ == seq![
                (0i64, 1000i64),
                (1001i64, 5000i64),
                (5001i64, 10000i64),
                (10001i64, 50000i64),
                (50001i64, UNBOUNDED),
            ],
            view.supporter_ranges@ == seq![
                (0i64, 10000i64),
                (10001i64, 50000i64),
                (50001i64, 100000i64),
                (100001i64, 500000i64),
                (500001i64, UNBOUNDED),
            ],
            view.location_counts@.len() == 0,
            view.league_counts@.len() == 0,
            view.selected_location is None,
            view.show_data_table,
            view.show_percentage,
    {
        VisualizationView {
            teams: Vec::new(),
            chart_type: ChartType::WealthDistribution,
            chart_style: ChartStyle::BarChart,
            wealth_ranges: default_wealth_ranges(),
            supporter_ranges: default_supporter_ranges(),
            location_counts: Vec::new(),
            league_counts: Vec::new(),
            selected_location: None,
            show_data_table: true,
            show_percentage: true,
        }
    }

    /// Takes `teams` as the teams to chart and counts them by location and
    /// by league.
    pub fn set_teams(&mut self, teams: Vec<Team>)
        requires
            teams@.len() <= MAX_TOTAL,
        ensures
            final(self).teams == teams,
            final(self).statistics_current(),
            final(self).chart_type == old(self).chart_type,
            final(self).chart_style == old(self).chart_style,
            final(self).wealth_ranges == old(self).wealth_ranges,
            final(self).supporter_ranges == old(self).supporter_ranges,
            final(self).selected_location == old(self).selected_location,
            final(self).show_data_table == old(self).show_data_table,
            final(self).show_percentage == old(self).show_percentage,
    {
        self.teams = teams;
        self.update_statistics();
    }

    /// Counts the teams by location and by league anew.
    pub fn update_statistics(&mut self)
        requires
            old(self).teams@.len() <= MAX_TOTAL,
        ensures
            final(self).statistics_current(),
            final(self).teams == old(self).teams,
            final(self).chart_type == old(self).chart_type,
            final(self).chart_style == old(self).chart_style,
            final(self).wealth_ranges == old(self).wealth_ranges,
            final(self).supporter_ranges == old(self).supporter_ranges,
            final(self).selected_location == old(self).selected_location,
            final(self).show_data_table == old(self).show_data_table,
            final(self).show_percentage == old(self).show_percentage,
    {
        let locations = location_keys(&self.teams);
        self.location_counts = count_categories(&locations);
        let leagues = league_keys(&self.teams);
        self.league_counts = count_categories(&leagues);
    }

    /// What the panel asks to be shown.
    pub fn request(&self) -> (request: ChartRequest)
        ensures
            request == (ChartRequest {
                dimension: self.chart_type,
                style: self.chart_style,
                show_table: self.show_data_table,
                show_percentage: self.show_percentage,
            }),
    {
        ChartRequest {
            dimension: self.chart_type,
            style: self.chart_style,
            show_table: self.show_data_table,
            show_percentage: self.show_percentage,
        }
    }

    /// The teams can be counted by the chart type that is set.
    pub open spec fn countable(&self) -> bool {
        &&& self.teams@.len() <= MAX_TOTAL
        &&& self.chart_type is FoundYearDistribution ==> years_in_reach(self.teams@)
    }

    /// Whether the teams can be counted by the chart type that is set.
    pub fn is_countable(&self) -> (r: bool)
        ensures
            r == self.countable(),
    {
        if self.teams.len() as u64 > MAX_TOTAL {
            return false;
        }
        match self.chart_type {
            ChartType::FoundYearDistribution => years_fit(&self.teams),
            _ => true,
        }
    }

    /// The dataset of the teams counted by the chart type that is set.
    pub fn dataset(&self) -> (ds: ChartDataset)
        requires
            self.countable(),
        ensures
            ds.well_formed(),
            ds@ == spec_aggregate(
                self.teams@,
                self.chart_type,
                self.wealth_ranges@,
                self.supporter_ranges@,
            ),
            ds.total <= self.teams@.len(),
            self.chart_type.is_categorical() || self.chart_type is FoundYearDistribution
                ==> ds.total == self.teams@.len(),
    {
        aggregate(&self.teams, self.chart_type, &self.wealth_ranges, &self.supporter_ranges)
    }

    /// Computes the chart anew for a container of the given size: the
    /// dataset of the teams, laid out in the style that is set. Without a
    /// counted team there is no data to show.
    pub fn chart(&self, width: u32, height: u32) -> (r: Result<ChartState, ChartError>)
        requires
            self.countable(),
        ensures
            exists|ds: ChartDataset|
                ds.well_formed() && ds@ == spec_aggregate(
                    self.teams@,
                    self.chart_type,
                    self.wealth_ranges@,
                    self.supporter_ranges@,
                ) && #[trigger] is_outcome_of(r, ds, self.chart_style, width, height),
            self.teams@.len() == 0 ==> r matches Ok(ChartState::NoData),
            self.teams@.len() > 0 && (self.chart_type.is_categorical() || self.chart_type
                is FoundYearDistribution) ==> !(r matches Ok(ChartState::NoData)),
    {
        let ds = self.dataset();
        let r = compute_chart(&ds, self.chart_style, width, height);
        assert(is_outcome_of(r, ds, self.chart_style, width, height));
        r
    }

    /// The table that goes with the chart, when it is to be shown.
    pub fn table(&self) -> (rows: Option<Vec<TableRow>>)
        requires
            self.countable(),
        ensures
            rows is Some <==> self.show_data_table,
            rows matches Some(table) ==> exists|ds: ChartDataset|
                ds.well_formed() && ds@ == spec_aggregate(
                    self.teams@,
                    self.chart_type,
                    self.wealth_ranges@,
                    self.supporter_ranges@,
                ) && #[trigger] is_table_of(table@, ds, self.show_percentage),
    {
        if self.show_data_table {
            let ds = self.dataset();
            let table = table_rows(&ds, self.show_percentage);
            let rows = Some(table);
            assert(is_table_of(rows->0@, ds, self.show_percentage));
            rows
        } else {
            None
        }
    }
}

} // verus!
