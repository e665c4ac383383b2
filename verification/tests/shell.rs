use team_editor::chart::palette::{bar_color, palette, pie_color, Color};
use team_editor::data::sponsor::{FaNumbers, Sponsor, SponsorNumbers, FA};
use team_editor::data::team::Team;
use team_editor::ui::shell::{export_csv, ActiveTab, AutoSave, AUTO_SAVE_INTERVAL};
use team_editor::ui::team_list::TeamListView;
use team_editor::utils::{named_png, numbered_png};

fn team(id: i64, name: &str) -> Team {
    Team {
        id,
        name: name.to_string(),
        wealth: 10,
        found_year: 1900,
        location: "Here".to_string(),
        supporter_count: -3,
        stadium_name: "Park".to_string(),
        nickname: "Nick".to_string(),
        league_id: 2,
    }
}

#[test]
fn tabs_have_titles() {
    assert_eq!(ActiveTab::TeamDetails.as_str(), "球队详情");
    assert_eq!(ActiveTab::Visualization.as_str(), "数据可视化");
    assert_eq!(ActiveTab::SponsorEditor.as_str(), "杂项编辑器");
}

#[test]
fn auto_save_counts_down_while_there_is_something_to_save() {
    let mut state = AutoSave::new();
    assert_eq!(AUTO_SAVE_INTERVAL, 30);
    assert_eq!(state, AutoSave { enabled: true, has_unsaved_changes: false, countdown: 30 });
    state.tick(100);
    assert_eq!(state.countdown, 30);
    assert!(!state.is_due(true));
    state.note_change();
    state.tick(12);
    assert_eq!(state.countdown, 18);
    assert!(!state.is_due(true));
    state.tick(29);
    assert_eq!(state.countdown, 1);
    state.tick(30);
    assert_eq!(state.countdown, 0);
    assert!(state.is_due(true));
    assert!(!state.is_due(false));
    state.tick(u64::MAX);
    assert_eq!(state.countdown, 0);
    assert!(!state.toggle());
    assert!(!state.is_due(true));
    state.tick(3);
    assert_eq!(state.countdown, 0);
    assert!(state.toggle());
    state.note_saved();
    assert_eq!(state, AutoSave { enabled: true, has_unsaved_changes: false, countdown: 30 });
    state.note_change();
    state.note_clean();
    assert!(!state.has_unsaved_changes);
}

#[test]
fn team_list_is_exported_as_lines() {
    assert_eq!(
        export_csv(&Vec::new()),
        "ID,球队名称,球队财富,成立年份,所在地区,支持者数量,主场名称,球队昵称,联赛ID\n"
    );
    assert_eq!(
        export_csv(&vec![team(1, "A"), team(-2, "B,C")]),
        "ID,球队名称,球队财富,成立年份,所在地区,支持者数量,主场名称,球队昵称,联赛ID\n\
         1,A,10,1900,Here,-3,Park,Nick,2\n-2,B,C,10,1900,Here,-3,Park,Nick,2\n"
    );
}

#[test]
fn teams_are_found_by_number() {
    let mut view = TeamListView::new();
    assert!(view.find_team(1).is_none());
    view.set_teams(vec![team(1, "A"), team(2, "B"), team(2, "C")]);
    assert_eq!(view.find_team(2).map(|t| t.name.as_str()), Some("B"));
    assert!(view.find_team(3).is_none());
}

#[test]
fn picture_files_are_named() {
    assert_eq!(numbered_png(12), "12.png");
    assert_eq!(numbered_png(-1), "-1.png");
    assert_eq!(named_png("Acme"), "Acme.png");
}

#[test]
fn colours_cycle_through_the_palette() {
    let colors = palette();
    assert_eq!(colors.len(), 12);
    assert_eq!(colors[0], Color { r: 100, g: 150, b: 250 });
    assert_eq!(colors[11], Color { r: 200, g: 250, b: 100 });
    assert_eq!(bar_color(0), colors[0]);
    assert_eq!(bar_color(5), Color { r: 150, g: 250, b: 100 });
    assert_eq!(bar_color(6), colors[0]);
    assert_eq!(pie_color(6), Color { r: 100, g: 200, b: 250 });
    assert_eq!(pie_color(12), colors[0]);
    assert_eq!(pie_color(25), colors[1]);
}

#[test]
fn sponsor_columns_go_both_ways() {
    let numbers = SponsorNumbers {
        unlocked: 1,
        brand_offer: 20,
        chest_offer: -3,
        back_offer: 0,
        sleeve_offer: 5,
        billboard_offer: 6,
        bib_offer: 7,
        banner_offer: 8,
    };
    let s = Sponsor::from_columns(
        "Acme".to_string(),
        "Local".to_string(),
        "D".to_string(),
        "HQ".to_string(),
        "Steel".to_string(),
        "None".to_string(),
        numbers,
    );
    assert_eq!(s.sponsor_name, "Acme");
    assert_eq!(s.sponsor_type, "Local");
    assert_eq!(s.description, "D");
    assert_eq!(s.headquarter_location, "HQ");
    assert_eq!(s.industry, "Steel");
    assert_eq!(s.location_restriction, "None");
    assert_eq!(s.unlocked, "1");
    assert_eq!(s.brand_offer, "20");
    assert_eq!(s.chest_offer, "-3");
    assert!(s.logo_path.is_none());
    assert_eq!(s.numbers(), numbers);
    let mut edited = s.clone();
    edited.brand_offer = "x".to_string();
    edited.bib_offer = " 7".to_string();
    assert_eq!(edited.numbers(), SponsorNumbers { brand_offer: 0, bib_offer: 0, ..numbers });
}

#[test]
fn association_columns_go_both_ways() {
    let numbers = FaNumbers {
        subsidy_level: 1,
        youth_development: 2,
        youth_operator_relation: 3,
        youth_operator_ability: 4,
        competition_operator_relation: 5,
        competition_operator_ability: 6,
        main_operator_relation: 7,
        main_operator_ability: 8,
        main_operator_fame: 9,
        youth_operator_fame: 10,
        competition_operator_fame: -11,
    };
    let fa = FA::from_columns(
        4,
        "T".to_string(),
        "L".to_string(),
        "M".to_string(),
        "Y".to_string(),
        "C".to_string(),
        numbers,
    );
    assert_eq!(fa.id, 4);
    assert_eq!((fa.title.as_str(), fa.location.as_str()), ("T", "L"));
    assert_eq!(fa.main_operator_name, "M");
    assert_eq!(fa.youth_operator_name, "Y");
    assert_eq!(fa.competition_operator_name, "C");
    assert_eq!(fa.competition_operator_fame, "-11");
    assert_eq!(fa.subsidy_level, "1");
    assert_eq!(fa.numbers(), numbers);
    let mut edited = fa.clone();
    edited.main_operator_fame = "".to_string();
    assert_eq!(edited.numbers(), FaNumbers { main_operator_fame: 0, ..numbers });
}
