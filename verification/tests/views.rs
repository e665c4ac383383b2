use std::collections::HashMap;
use team_editor::chart::dataset::{Bucket, ChartDataset, ChartError};
use team_editor::chart::engine::{
    aggregate, compute_chart, format_league, format_percent, layout_chart, pie_center, pie_radius,
    table_rows, ChartGeometry, ChartRequest, ChartState,
};
use team_editor::chart::pie::Point;
use team_editor::data::sponsor::{Sponsor, FA};
use team_editor::data::staff::Staff;
use team_editor::data::team::Team;
use team_editor::error::AppError;
use team_editor::ui::dialogs::{
    apply_modifier, scale_by_percent, BulkEditDialog, ConfirmDialog, MessageDialog,
    StaffEditDialog, WealthModifierType,
};
use team_editor::ui::sponsor_editor::{SponsorEditorMode, SponsorEditorView};
use team_editor::ui::staff_list::StaffListView;
use team_editor::text::number_or_zero;
use team_editor::ui::team_details::{EditableTeamFields, TeamDetailsView};
use team_editor::ui::team_list::{
    matches_search, parse_range, sorted_unique_leagues, sorted_unique_texts, FilterField,
    TeamListView,
};
use team_editor::ui::visualization::{ChartStyle, ChartType, VisualizationView};

fn team(id: i64, name: &str, wealth: i64, year: i64, location: &str, supporters: i64, league: i64) -> Team {
    Team {
        id,
        name: name.to_string(),
        wealth,
        found_year: year,
        location: location.to_string(),
        supporter_count: supporters,
        stadium_name: format!("{} Park", name),
        nickname: format!("The {}", name),
        league_id: league,
    }
}

fn teams() -> Vec<Team> {
    vec![
        team(1, "Arsenal", 500, 1886, "London", 60000, 1),
        team(2, "Chelsea", 1500, 1905, "London", 9000, 1),
        team(3, "Everton", 7000, 1878, "Liverpool", 40000, 2),
        team(4, "Burnley", 60000, 1882, "Burnley", 700000, 3),
    ]
}

fn staff(id: i64, team_id: i64, json: &str) -> Staff {
    Staff { id, name: format!("S{}", id), ability_json: json.to_string(), fame: 5, team_id }
}

fn pairs(ds: &ChartDataset) -> Vec<(String, u64)> {
    ds.buckets.iter().map(|b| (b.label.clone(), b.value)).collect()
}

fn named(pairs: &[(&str, u64)]) -> Vec<(String, u64)> {
    pairs.iter().map(|(l, v)| (l.to_string(), *v)).collect()
}

fn ids(teams: &[Team]) -> Vec<i64> {
    teams.iter().map(|t| t.id).collect()
}

#[test]
fn chart_panel_starts_with_the_wealth_bars() {
    let view = VisualizationView::new();
    assert!(view.teams.is_empty());
    assert!(view.chart_type == ChartType::WealthDistribution);
    assert!(view.chart_style == ChartStyle::BarChart);
    assert_eq!(
        view.wealth_ranges,
        vec![(0, 1000), (1001, 5000), (5001, 10000), (10001, 50000), (50001, i64::MAX)]
    );
    assert_eq!(
        view.supporter_ranges,
        vec![(0, 10000), (10001, 50000), (50001, 100000), (100001, 500000), (500001, i64::MAX)]
    );
    assert!(view.location_counts.is_empty() && view.league_counts.is_empty());
    assert!(view.selected_location.is_none());
    assert!(view.show_data_table && view.show_percentage);
    assert_eq!(
        view.request(),
        ChartRequest {
            dimension: ChartType::WealthDistribution,
            style: ChartStyle::BarChart,
            show_table: true,
            show_percentage: true
        }
    );
}

#[test]
fn chart_titles_and_style_names() {
    assert_eq!(ChartType::WealthDistribution.as_str(), "球队财富分布");
    assert_eq!(ChartType::SupporterDistribution.as_str(), "球迷数量分布");
    assert_eq!(ChartType::LocationDistribution.as_str(), "地区分布");
    assert_eq!(ChartType::LeagueDistribution.as_str(), "联赛分布");
    assert_eq!(ChartType::FoundYearDistribution.as_str(), "成立年份分布");
    assert_eq!(ChartStyle::BarChart.as_str(), "条形图");
    assert_eq!(ChartStyle::PieChart.as_str(), "饼图");
    assert_eq!(FilterField::Name.as_str(), "球队名称");
    assert_eq!(FilterField::Location.as_str(), "地区");
    assert_eq!(FilterField::League.as_str(), "联赛");
    assert_eq!(FilterField::All.as_str(), "全部字段");
    assert_eq!(WealthModifierType::Absolute.as_str(), "绝对值");
    assert_eq!(WealthModifierType::Percentage.as_str(), "百分比");
}

#[test]
fn statistics_count_locations_and_leagues_as_met() {
    let mut view = VisualizationView::new();
    view.set_teams(teams());
    assert_eq!(view.teams.len(), 4);
    let locations: Vec<(String, u64)> =
        view.location_counts.iter().map(|b| (b.label.clone(), b.value)).collect();
    assert_eq!(locations, named(&[("London", 2), ("Liverpool", 1), ("Burnley", 1)]));
    let leagues: Vec<(String, u64)> =
        view.league_counts.iter().map(|b| (b.label.clone(), b.value)).collect();
    assert_eq!(leagues, named(&[("League 1", 2), ("League 2", 1), ("League 3", 1)]));
    view.teams.pop();
    view.update_statistics();
    assert_eq!(view.location_counts.len(), 2);
    assert_eq!(view.league_counts.len(), 2);
}

#[test]
fn datasets_of_each_chart_type() {
    let mut view = VisualizationView::new();
    view.set_teams(teams());
    assert_eq!(
        pairs(&view.dataset()),
        named(&[("0-1000", 1), ("1001-5000", 1), ("5001-10000", 1), ("10001-50000", 0), ("50001+", 1)])
    );
    view.chart_type = ChartType::SupporterDistribution;
    assert_eq!(
        pairs(&view.dataset()),
        named(&[("0-10000", 1), ("10001-50000", 1), ("50001-100000", 1), ("100001-500000", 0), ("500001+", 1)])
    );
    view.chart_type = ChartType::LocationDistribution;
    assert_eq!(pairs(&view.dataset()), named(&[("London", 2), ("Liverpool", 1), ("Burnley", 1)]));
    view.chart_type = ChartType::LeagueDistribution;
    assert_eq!(pairs(&view.dataset()), named(&[("League 1", 2), ("League 2", 1), ("League 3", 1)]));
    view.chart_type = ChartType::FoundYearDistribution;
    assert_eq!(pairs(&view.dataset()), named(&[("1860-1879", 1), ("1880-1899", 2), ("1900-1919", 1)]));
    assert_eq!(view.dataset().total, 4);
    let ds = aggregate(&teams(), ChartType::LeagueDistribution, &Vec::new(), &Vec::new());
    assert_eq!(ds.total, 4);
    let ds = aggregate(&teams(), ChartType::WealthDistribution, &vec![(0, 600)], &Vec::new());
    assert_eq!(pairs(&ds), named(&[("0-600", 1)]));
    assert_eq!(format_league(-3), "League -3");
}

#[test]
fn chart_states() {
    let mut view = VisualizationView::new();
    assert!(matches!(view.chart(400, 400), Ok(ChartState::NoData)));
    view.chart_style = ChartStyle::PieChart;
    assert!(matches!(view.chart(400, 400), Ok(ChartState::NoData)));
    view.set_teams(teams());
    match view.chart(500, 400) {
        Ok(ChartState::Ready(ChartGeometry::Pie(g))) => {
            assert_eq!(g.radius, 160);
            assert_eq!(g.center, Point { x: 250, y: 180 });
            assert_eq!(g.slices.len(), 5);
        }
        _ => panic!("a pie was expected"),
    }
    view.chart_style = ChartStyle::BarChart;
    match view.chart(500, 400) {
        Ok(ChartState::Ready(ChartGeometry::Bar(g))) => {
            assert_eq!(g.bars.len(), 5);
            assert_eq!(g.label_band.height, 30);
            assert_eq!(g.display_max, 2);
        }
        _ => panic!("bars were expected"),
    }
    assert!(matches!(view.chart(10, 400), Err(ChartError::ContainerTooSmall)));
    // teams that no range holds leave nothing to show
    view.set_teams(vec![team(9, "Debt", -5, 1900, "X", -1, 1)]);
    assert!(matches!(view.chart(500, 400), Ok(ChartState::NoData)));
    view.chart_type = ChartType::LocationDistribution;
    assert!(matches!(view.chart(500, 400), Ok(ChartState::Ready(_))));
}

#[test]
fn layout_and_settling() {
    let ds = ChartDataset::from_buckets(vec![Bucket { label: "a".to_string(), value: 2 }]).unwrap();
    assert!(matches!(layout_chart(&ds, ChartStyle::BarChart, 100, 100), Ok(ChartGeometry::Bar(_))));
    assert!(matches!(layout_chart(&ds, ChartStyle::PieChart, 100, 100), Ok(ChartGeometry::Pie(_))));
    assert!(matches!(layout_chart(&ds, ChartStyle::PieChart, 0, 0), Ok(ChartGeometry::Pie(_))));
    assert!(matches!(
        layout_chart(&ds, ChartStyle::BarChart, 19, 100),
        Err(ChartError::ContainerTooSmall)
    ));
    assert!(matches!(compute_chart(&ds, ChartStyle::BarChart, 100, 100), Ok(ChartState::Ready(_))));
    assert!(matches!(
        compute_chart(&ds, ChartStyle::BarChart, 100, 49),
        Err(ChartError::ContainerTooSmall)
    ));
    let empty = ChartDataset::from_buckets(Vec::new()).unwrap();
    assert!(matches!(compute_chart(&empty, ChartStyle::BarChart, 100, 100), Ok(ChartState::NoData)));
    assert!(matches!(ChartState::settle(Err(ChartError::EmptyDataset)), Ok(ChartState::NoData)));
    assert!(matches!(
        ChartState::settle(Err(ChartError::ContainerTooSmall)),
        Err(ChartError::ContainerTooSmall)
    ));
    assert_eq!(pie_radius(500, 400), 160);
    assert_eq!(pie_radius(300, 400), 120);
    assert_eq!(pie_center(500, 400), Point { x: 250, y: 180 });
    assert_eq!(pie_radius(u32::MAX, u32::MAX), 1_717_986_918);
}

#[test]
fn table_rows_show_value_and_share() {
    let mut view = VisualizationView::new();
    view.set_teams(teams());
    let rows = view.table().unwrap();
    let shown: Vec<(String, u64, Option<String>)> =
        rows.iter().map(|r| (r.label.clone(), r.value, r.percentage.clone())).collect();
    assert_eq!(shown[0], ("0-1000".to_string(), 1, Some("25.0%".to_string())));
    assert_eq!(shown[3], ("10001-50000".to_string(), 0, Some("0.0%".to_string())));
    assert_eq!(shown.len(), 5);
    view.show_percentage = false;
    assert!(view.table().unwrap().iter().all(|r| r.percentage.is_none()));
    view.show_data_table = false;
    assert!(view.table().is_none());
    let ds = ChartDataset::from_buckets(vec![
        Bucket { label: "a".to_string(), value: 1 },
        Bucket { label: "b".to_string(), value: 2 },
    ])
    .unwrap();
    let rows = table_rows(&ds, true);
    assert_eq!(rows[0].percentage.as_deref(), Some("33.3%"));
    assert_eq!(rows[1].percentage.as_deref(), Some("66.7%"));
    assert_eq!(format_percent(125), "12.5%");
    assert_eq!(format_percent(1000), "100.0%");
    assert_eq!(format_percent(0), "0.0%");
    assert_eq!(format_percent(7), "0.7%");
}

#[test]
fn filter_options_are_sorted_and_unique() {
    let mut view = TeamListView::new();
    assert!(view.filter_field == FilterField::All);
    view.set_teams(teams());
    assert_eq!(view.unique_locations, vec!["Burnley", "Liverpool", "London"]);
    assert_eq!(view.unique_leagues, vec![1, 2, 3]);
    assert_eq!(ids(&view.filtered_teams), vec![1, 2, 3, 4]);
    let keys: Vec<String> = ["b", "a", "", "b", "é", "Z", "a"].iter().map(|s| s.to_string()).collect();
    let mut expected = keys.clone();
    expected.sort();
    expected.dedup();
    assert_eq!(sorted_unique_texts(&keys), expected);
    let mixed = vec![
        team(1, "a", 0, 0, "", 0, 5),
        team(2, "b", 0, 0, "", 0, -1),
        team(3, "c", 0, 0, "", 0, 5),
        team(4, "d", 0, 0, "", 0, 0),
    ];
    assert_eq!(sorted_unique_leagues(&mixed), vec![-1, 0, 5]);
}

#[test]
fn search_looks_in_lower_case() {
    let mut view = TeamListView::new();
    view.set_teams(teams());
    view.search_text = "ARS".to_string();
    view.filter_field = FilterField::Name;
    view.apply_filter();
    assert_eq!(ids(&view.filtered_teams), vec![1]);
    view.search_text = "LON".to_string();
    view.filter_field = FilterField::Location;
    view.apply_filter();
    assert_eq!(ids(&view.filtered_teams), vec![1, 2]);
    view.search_text = "3".to_string();
    view.filter_field = FilterField::League;
    view.apply_filter();
    assert_eq!(ids(&view.filtered_teams), vec![4]);
    view.search_text = "1878liver".to_string();
    view.filter_field = FilterField::All;
    view.apply_filter();
    assert_eq!(ids(&view.filtered_teams), vec![3]);
    view.search_text = "nothing".to_string();
    view.apply_filter();
    assert!(view.filtered_teams.is_empty());
    view.clear_search();
    assert_eq!(view.search_text, "");
    assert_eq!(ids(&view.filtered_teams), vec![1, 2, 3, 4]);
    let t = team(1, "Arsenal", 0, 0, "", 0, 12);
    assert!(matches_search(&t, FilterField::Name, "arsenal"));
    assert!(!matches_search(&t, FilterField::Name, "Arsenal"));
    assert!(matches_search(&t, FilterField::League, "12"));
}

#[test]
fn filters_combine() {
    let mut view = TeamListView::new();
    view.set_teams(teams());
    view.selected_location = Some("London".to_string());
    view.apply_filter();
    assert_eq!(ids(&view.filtered_teams), vec![1, 2]);
    view.min_wealth = Some(1000);
    view.apply_filter();
    assert_eq!(ids(&view.filtered_teams), vec![2]);
    view.selected_location = None;
    view.max_wealth = Some(7000);
    view.apply_filter();
    assert_eq!(ids(&view.filtered_teams), vec![2, 3]);
    view.selected_league = Some(2);
    view.apply_filter();
    assert_eq!(ids(&view.filtered_teams), vec![3]);
    view.selected_league = None;
    view.min_wealth = None;
    view.max_wealth = None;
    view.min_year = Some(1882);
    view.max_year = Some(1886);
    view.apply_filter();
    assert_eq!(ids(&view.filtered_teams), vec![1, 4]);
    view.search_text = "x".to_string();
    view.wealth_filter_text = "1".to_string();
    view.year_filter_text = "2".to_string();
    view.reset_filters();
    assert_eq!(ids(&view.filtered_teams), vec![1, 2, 3, 4]);
    assert!(view.min_year.is_none() && view.max_year.is_none());
    assert_eq!(view.wealth_filter_text, "");
    assert_eq!(view.year_filter_text, "");
}

#[test]
fn range_filters_are_read_from_text() {
    let kept = (Some(1), Some(2));
    assert_eq!(parse_range("", kept), (None, None));
    assert_eq!(parse_range("   ", kept), (None, None));
    assert_eq!(parse_range("1000", kept), (Some(1000), None));
    assert_eq!(parse_range(" 1000 ", kept), (Some(1000), None));
    assert_eq!(parse_range("1000-5000", kept), (Some(1000), Some(5000)));
    assert_eq!(parse_range(" 1000 - 5000 ", kept), (Some(1000), Some(5000)));
    assert_eq!(parse_range("-5", kept), (None, Some(5)));
    assert_eq!(parse_range("5-", kept), (Some(5), None));
    assert_eq!(parse_range("-", kept), (None, None));
    assert_eq!(parse_range("a-b", kept), (None, None));
    assert_eq!(parse_range("1-2-3", kept), kept);
    assert_eq!(parse_range("--", kept), kept);
    assert_eq!(parse_range("abc", kept), kept);
    assert_eq!(parse_range("+7", kept), (Some(7), None));
    let mut view = TeamListView::new();
    view.wealth_filter_text = "1000-5000".to_string();
    view.parse_wealth_filter();
    assert_eq!((view.min_wealth, view.max_wealth), (Some(1000), Some(5000)));
    view.wealth_filter_text = "oops".to_string();
    view.parse_wealth_filter();
    assert_eq!((view.min_wealth, view.max_wealth), (Some(1000), Some(5000)));
    view.year_filter_text = "1900".to_string();
    view.parse_year_filter();
    assert_eq!((view.min_year, view.max_year), (Some(1900), None));
    view.year_filter_text = "".to_string();
    view.parse_year_filter();
    assert_eq!((view.min_year, view.max_year), (None, None));
    assert_eq!((view.min_wealth, view.max_wealth), (Some(1000), Some(5000)));
}

#[test]
fn selection_in_the_team_list() {
    let mut view = TeamListView::new();
    assert!(view.get_selected_team().is_none());
    view.set_teams(teams());
    view.select_team_by_id(3);
    assert_eq!(view.selected_index, Some(2));
    assert_eq!(view.get_selected_team().map(|t| t.name.as_str()), Some("Everton"));
    assert_eq!(view.get_selected_team_id(), Some(3));
    view.select_team_by_id(99);
    assert_eq!(view.selected_index, None);
    assert_eq!(view.get_selected_team_id(), None);
    view.selected_index = Some(10);
    assert!(view.get_selected_team().is_none());
    assert_eq!(view.get_selected_team_id(), None);
}

#[test]
fn staff_list_shows_one_team() {
    let mut view = StaffListView::new();
    assert!(view.get_selected_staff().is_none());
    view.set_all_staff(vec![staff(1, 7, "{}"), staff(2, 8, "{}"), staff(3, 7, "{}")]);
    view.selected_index = Some(0);
    view.update_team_staff(7);
    let shown: Vec<i64> = view.team_staff.iter().map(|s| s.id).collect();
    assert_eq!(shown, vec![1, 3]);
    assert!(view.selected_index.is_none());
    view.select(1);
    assert_eq!(view.get_selected_staff().map(|s| s.id), Some(3));
    view.select(2);
    assert!(view.get_selected_staff().is_none());
    view.update_team_staff(9);
    assert!(view.team_staff.is_empty());
    assert_eq!(view.all_staff.len(), 3);
}

#[test]
fn staff_dialog_opens_on_a_member() {
    let mut dialog = StaffEditDialog::new();
    assert!(!dialog.open && dialog.staff.is_none());
    assert!(dialog.open(staff(4, 7, "{\"rawAbility\":81}")).is_ok());
    assert!(dialog.open && !dialog.confirmed && dialog.error_message.is_none());
    assert_eq!(dialog.name, "S4");
    assert_eq!(dialog.ability, "81");
    assert_eq!(dialog.fame, "5");
    assert_eq!(dialog.staff.as_ref().map(|s| s.id), Some(4));
    assert!(dialog.open(staff(5, 7, "broken")).is_ok());
    assert_eq!(dialog.ability, "0");
}

#[test]
fn staff_dialog_checks_its_numbers() {
    let mut dialog = StaffEditDialog::new();
    dialog.ability = " 10 ".to_string();
    dialog.fame = "0".to_string();
    assert!(dialog.validate_numeric_inputs().is_ok());
    let faults = [
        ("-1", "3", "能力值必须为正数"),
        ("x", "3", "能力值必须为有效的整数"),
        ("", "-3", "能力值必须为有效的整数"),
        ("1", "-3", "知名度必须为正数"),
        ("1", "1.5", "知名度必须为有效的整数"),
    ];
    for (ability, fame, message) in faults {
        dialog.ability = ability.to_string();
        dialog.fame = fame.to_string();
        match dialog.validate_numeric_inputs() {
            Err(AppError::InvalidInput(m)) => assert_eq!(m, message),
            _ => panic!("an invalid input was expected"),
        }
    }
}

#[test]
fn staff_dialog_hands_back_the_edited_member() {
    let mut dialog = StaffEditDialog::new();
    match dialog.get_updated_staff() {
        Err(AppError::Unknown(m)) => assert_eq!(m, "没有员工数据"),
        _ => panic!("an error was expected"),
    }
    dialog.open(staff(4, 7, "{\"rawAbility\":81}")).unwrap();
    dialog.name = "New".to_string();
    dialog.ability = " 90".to_string();
    dialog.fame = "-2 ".to_string();
    let updated = dialog.get_updated_staff().unwrap();
    assert_eq!((updated.id, updated.team_id, updated.fame), (4, 7, -2));
    assert_eq!(updated.name, "New");
    assert_eq!(updated.ability_json, "{\"rawAbility\":90}");
    dialog.ability = "x".to_string();
    match dialog.get_updated_staff() {
        Err(AppError::InvalidInput(m)) => assert_eq!(m, "无效的能力值"),
        _ => panic!("an error was expected"),
    }
    dialog.ability = "1".to_string();
    dialog.fame = "".to_string();
    match dialog.get_updated_staff() {
        Err(AppError::InvalidInput(m)) => assert_eq!(m, "无效的知名度"),
        _ => panic!("an error was expected"),
    }
}

#[test]
fn staff_dialog_save_button() {
    let mut dialog = StaffEditDialog::new();
    dialog.open(staff(4, 7, "{\"rawAbility\":81}")).unwrap();
    assert!(dialog.submit());
    assert!(dialog.error_message.is_none());
    dialog.name = "  ".to_string();
    assert!(!dialog.submit());
    assert_eq!(dialog.error_message.as_deref(), Some("姓名不能为空"));
    dialog.name = "A".to_string();
    dialog.fame = "-1".to_string();
    assert!(!dialog.submit());
    assert_eq!(dialog.error_message.as_deref(), Some("无效输入: 知名度必须为正数"));
    assert!(!dialog.finish(false, false));
    assert!(dialog.open);
    assert!(!dialog.finish(true, false));
    assert!(!dialog.open);
    dialog.open = true;
    assert!(dialog.finish(true, true));
    assert!(dialog.open && dialog.confirmed);
}

#[test]
fn message_and_confirm_dialogs() {
    let mut message = MessageDialog::new();
    assert!(!message.open);
    message.show_message("T", "M");
    assert!(message.open);
    assert_eq!((message.title.as_str(), message.message.as_str()), ("T", "M"));
    message.dismiss();
    assert!(!message.open);
    let mut confirm = ConfirmDialog::new();
    assert!(!confirm.open && !confirm.confirmed);
    confirm.confirmed = true;
    confirm.show_confirm("Q", "Sure?");
    assert!(confirm.open && !confirm.confirmed);
    assert_eq!((confirm.title.as_str(), confirm.message.as_str()), ("Q", "Sure?"));
    assert!(!confirm.finish(false, false));
    assert!(confirm.open);
    assert!(confirm.finish(true, true));
    assert!(!confirm.open && confirm.confirmed);
    confirm.show_confirm("Q", "Sure?");
    assert!(!confirm.finish(true, false));
    assert!(!confirm.open && !confirm.confirmed);
}

#[test]
fn bulk_dialog_selection() {
    let mut dialog = BulkEditDialog::new();
    assert!(!dialog.open && dialog.teams.is_empty());
    dialog.edit_location = true;
    dialog.location = "x".to_string();
    dialog.error_message = Some("old".to_string());
    dialog.open(teams());
    assert!(dialog.open && !dialog.confirmed && dialog.error_message.is_none());
    assert_eq!(dialog.selected_teams, vec![false; 4]);
    assert_eq!(dialog.selected_count, 0);
    assert!(!dialog.edit_location && dialog.location.is_empty());
    assert!(dialog.wealth_modifier_type == WealthModifierType::Absolute);
    dialog.select_all(true);
    assert_eq!(dialog.selected_teams, vec![true; 4]);
    assert_eq!(dialog.selected_count, 4);
    dialog.selected_teams[1] = false;
    dialog.recount();
    assert_eq!(dialog.selected_count, 3);
    dialog.select_all(false);
    assert_eq!(dialog.selected_teams, vec![false; 4]);
    assert_eq!(dialog.selected_count, 0);
}

#[test]
fn bulk_dialog_checks_its_fields() {
    let mut dialog = BulkEditDialog::new();
    dialog.open(teams());
    assert!(!dialog.submit());
    assert_eq!(dialog.error_message.as_deref(), Some("请至少选择一个球队"));
    dialog.select_all(true);
    assert!(!dialog.submit());
    assert_eq!(dialog.error_message.as_deref(), Some("请至少选择一项要修改的属性"));
    dialog.edit_league = true;
    assert!(!dialog.validate_inputs());
    assert_eq!(dialog.error_message.as_deref(), Some("联赛ID不能为空"));
    dialog.league_id = "x".to_string();
    assert!(!dialog.submit());
    assert_eq!(dialog.error_message.as_deref(), Some("联赛ID必须是有效的整数"));
    dialog.league_id = " 4 ".to_string();
    dialog.edit_wealth_modifier = true;
    dialog.wealth_modifier = " ".to_string();
    assert!(!dialog.validate_inputs());
    assert_eq!(dialog.error_message.as_deref(), Some("财富修改值不能为空"));
    dialog.wealth_modifier = "1e3".to_string();
    assert!(!dialog.validate_inputs());
    assert_eq!(dialog.error_message.as_deref(), Some("财富修改值必须是有效的整数"));
    dialog.wealth_modifier = "10".to_string();
    dialog.edit_supporter_modifier = true;
    assert!(!dialog.validate_inputs());
    assert_eq!(dialog.error_message.as_deref(), Some("球迷数量修改值不能为空"));
    dialog.supporter_modifier = "ten".to_string();
    assert!(!dialog.validate_inputs());
    assert_eq!(dialog.error_message.as_deref(), Some("球迷数量修改值必须是有效的整数"));
    dialog.supporter_modifier = "-10".to_string();
    assert!(dialog.validate_inputs());
    assert!(dialog.submit());
    assert!(dialog.finish(true, true));
    assert!(dialog.open && dialog.confirmed);
    assert!(!dialog.finish(true, false));
    assert!(!dialog.open);
}

#[test]
fn bulk_dialog_edits_the_selected_teams() {
    let mut dialog = BulkEditDialog::new();
    dialog.open(teams());
    dialog.selected_teams = vec![true, false, true, false, true];
    dialog.edit_location = true;
    dialog.location = "Leeds".to_string();
    dialog.edit_league = true;
    dialog.league_id = " 9".to_string();
    dialog.edit_wealth_modifier = true;
    dialog.wealth_modifier = "10".to_string();
    dialog.wealth_modifier_type = WealthModifierType::Percentage;
    dialog.edit_supporter_modifier = true;
    dialog.supporter_modifier = "123".to_string();
    let modified = dialog.get_modified_teams();
    assert_eq!(ids(&modified), vec![1, 3]);
    assert_eq!(modified[0].location, "Leeds");
    assert_eq!(modified[0].league_id, 9);
    assert_eq!(modified[0].wealth, 550);
    assert_eq!(modified[1].wealth, 7700);
    assert_eq!(modified[0].supporter_count, 123);
    assert_eq!(modified[0].name, "Arsenal");
    assert_eq!(modified[0].found_year, 1886);
    dialog.league_id = "x".to_string();
    dialog.wealth_modifier = "y".to_string();
    dialog.edit_location = false;
    dialog.edit_supporter_modifier = false;
    let modified = dialog.get_modified_teams();
    assert_eq!(modified[1].league_id, 2);
    assert_eq!(modified[1].wealth, 7000);
    assert_eq!(modified[1].location, "Liverpool");
    assert_eq!(modified[1].supporter_count, 40000);
    assert_eq!(dialog.teams[0].wealth, 500);
}

#[test]
fn percentages_scale_towards_zero_and_stay_in_range() {
    assert_eq!(scale_by_percent(1000, 10), 1100);
    assert_eq!(scale_by_percent(1000, -10), 900);
    assert_eq!(scale_by_percent(3, -50), 1);
    assert_eq!(scale_by_percent(-3, 50), -4);
    assert_eq!(scale_by_percent(-3, -50), -1);
    assert_eq!(scale_by_percent(7, -100), 0);
    assert_eq!(scale_by_percent(7, -200), -7);
    assert_eq!(scale_by_percent(100, 15), 115);
    assert_eq!(scale_by_percent(i64::MAX, 100), i64::MAX);
    assert_eq!(scale_by_percent(i64::MIN, 100), i64::MIN);
    assert_eq!(scale_by_percent(i64::MAX, i64::MIN), i64::MIN);
    assert_eq!(scale_by_percent(i64::MAX, 0), i64::MAX);
    assert_eq!(apply_modifier(5, " 8 ", WealthModifierType::Absolute), 8);
    assert_eq!(apply_modifier(5, "x", WealthModifierType::Absolute), 5);
    assert_eq!(apply_modifier(50, "100", WealthModifierType::Percentage), 100);
}

#[test]
fn detail_panel_edits_a_team() {
    let mut view = TeamDetailsView::new();
    assert!(view.team.is_none() && !view.has_changes);
    assert!(view.get_edited_team().is_none());
    assert!(view.league_text().is_none());
    view.note_changes(true);
    view.set_team(team(3, "Everton", 7000, 1878, "Liverpool", 40000, 2));
    assert!(!view.has_changes);
    assert_eq!(view.edited_fields.name, "Everton");
    assert_eq!(view.edited_fields.wealth, "7000");
    assert_eq!(view.edited_fields.found_year, "1878");
    assert_eq!(view.edited_fields.location, "Liverpool");
    assert_eq!(view.edited_fields.supporter_count, "40000");
    assert_eq!(view.edited_fields.stadium_name, "Everton Park");
    assert_eq!(view.edited_fields.nickname, "The Everton");
    assert_eq!(view.league_text().as_deref(), Some("未知联赛 (ID: 2)"));
    let mut leagues = HashMap::new();
    leagues.insert(2, "Second".to_string());
    view.set_leagues(leagues);
    assert_eq!(view.league_text().as_deref(), Some("Second (ID: 2)"));
    view.edited_fields.name = "Toffees".to_string();
    view.edited_fields.wealth = "12".to_string();
    view.edited_fields.found_year = " 1900".to_string();
    view.edited_fields.supporter_count = "many".to_string();
    view.note_changes(false);
    assert!(!view.has_changes);
    view.note_changes(true);
    view.note_changes(false);
    assert!(view.has_changes);
    let edited = view.get_edited_team().unwrap();
    assert_eq!((edited.id, edited.league_id), (3, 2));
    assert_eq!(edited.name, "Toffees");
    assert_eq!(edited.wealth, 12);
    assert_eq!(edited.found_year, 0);
    assert_eq!(edited.supporter_count, 0);
    assert_eq!(edited.location, "Liverpool");
    assert_eq!(number_or_zero("-4"), -4);
    assert_eq!(number_or_zero(""), 0);
    let fields = EditableTeamFields::default();
    assert!(fields.name.is_empty() && fields.nickname.is_empty());
    assert_eq!(view.edited_fields.clone().name, "Toffees");
}

fn sponsor(name: &str, industry: &str) -> Sponsor {
    let mut s = Sponsor::new();
    s.sponsor_name = name.to_string();
    s.industry = industry.to_string();
    s
}

fn fa(id: i64, title: &str, location: &str) -> FA {
    let mut f = FA::new();
    f.id = id;
    f.title = title.to_string();
    f.location = location.to_string();
    f
}

#[test]
fn sponsor_editor_searches_in_lower_case() {
    let mut view = SponsorEditorView::new();
    assert!(view.mode == SponsorEditorMode::Sponsor);
    view.set_sponsors(vec![sponsor("Acme", "Steel"), sponsor("Bolt", "Cars"), sponsor("Steelers", "Food")]);
    view.set_fas(vec![fa(1, "North", "Oslo"), fa(2, "South", "Rome")]);
    assert_eq!(view.displayed_sponsors.len(), 3);
    assert_eq!(view.displayed_fas.len(), 2);
    view.search("STEEL");
    let names: Vec<&str> = view.displayed_sponsors.iter().map(|s| s.sponsor_name.as_str()).collect();
    assert_eq!(names, vec!["Acme", "Steelers"]);
    assert!(view.displayed_fas.is_empty());
    view.search("o");
    let names: Vec<&str> = view.displayed_sponsors.iter().map(|s| s.sponsor_name.as_str()).collect();
    assert_eq!(names, vec!["Bolt", "Steelers"]);
    let titles: Vec<&str> = view.displayed_fas.iter().map(|f| f.title.as_str()).collect();
    assert_eq!(titles, vec!["North", "South"]);
    view.search("");
    assert_eq!(view.displayed_sponsors.len(), 3);
    assert_eq!(view.search_query, "");
}

#[test]
fn sponsor_editor_selects_and_toggles() {
    let mut view = SponsorEditorView::new();
    view.set_sponsors(vec![sponsor("Acme", "Steel"), sponsor("Bolt", "Cars")]);
    view.set_fas(vec![fa(1, "North", "Oslo")]);
    assert!(view.get_edited_sponsor().is_none() && view.get_edited_fa().is_none());
    view.select_sponsor(1);
    assert_eq!(view.selected_sponsor_idx, Some(1));
    assert_eq!(view.get_edited_sponsor().map(|s| s.sponsor_name), Some("Bolt".to_string()));
    view.select_sponsor(5);
    assert_eq!(view.selected_sponsor_idx, Some(1));
    view.select_fa(0);
    assert_eq!(view.get_edited_fa().map(|f| f.id), Some(1));
    view.select_fa(1);
    assert_eq!(view.selected_fa_idx, Some(0));
    view.toggle_mode();
    assert!(view.mode == SponsorEditorMode::FA);
    assert!(view.selected_sponsor_idx.is_none() && view.selected_fa_idx.is_none());
    assert!(view.edited_sponsor.is_none() && view.edited_fa.is_none());
    view.toggle_mode();
    assert!(view.mode == SponsorEditorMode::Sponsor);
    assert_eq!(view.sponsors.len(), 2);
}

#[test]
fn sponsor_editor_creates_from_the_last_sponsor() {
    let mut view = SponsorEditorView::new();
    assert!(view.draft_new_sponsor().is_none());
    view.set_sponsors(vec![sponsor("Acme", "Steel"), sponsor("Bolt", "Cars")]);
    let draft = view.draft_new_sponsor().unwrap();
    assert_eq!(draft.sponsor_name, "赞助商3");
    assert_eq!(draft.industry, "Cars");
    assert_eq!(draft.sponsor_type, "Generic");
    view.adopt_sponsor(draft);
    assert_eq!(view.sponsors.len(), 3);
    assert_eq!(view.displayed_sponsors.len(), 3);
    assert_eq!(view.selected_sponsor_idx, Some(2));
    assert_eq!(view.get_edited_sponsor().map(|s| s.sponsor_name), Some("赞助商3".to_string()));
    view.search("acme");
    view.select_sponsor(0);
    let draft = view.draft_new_sponsor().unwrap();
    assert_eq!(draft.sponsor_name, "赞助商4");
    view.adopt_sponsor(draft);
    // the search does not find the new sponsor, so the selection stays
    assert_eq!(view.displayed_sponsors.len(), 1);
    assert_eq!(view.selected_sponsor_idx, Some(0));
    assert_eq!(view.get_edited_sponsor().map(|s| s.sponsor_name), Some("Acme".to_string()));
}

#[test]
fn sponsor_editor_takes_a_logo() {
    let mut view = SponsorEditorView::new();
    let path = std::path::PathBuf::from("logos/a.png");
    view.set_logo_path(path.clone());
    assert!(view.edited_sponsor.is_none());
    view.set_sponsors(vec![sponsor("Acme", "Steel"), sponsor("Bolt", "Cars")]);
    view.search("bolt");
    view.select_sponsor(0);
    view.set_logo_path(path.clone());
    assert_eq!(view.edited_sponsor.as_ref().and_then(|s| s.logo_path.clone()), Some(path.clone()));
    assert_eq!(view.displayed_sponsors[0].logo_path, Some(path.clone()));
    assert_eq!(view.sponsors[1].logo_path, Some(path));
    assert!(view.sponsors[0].logo_path.is_none());
    assert_eq!(view.sponsors[1].sponsor_name, "Bolt");
}
