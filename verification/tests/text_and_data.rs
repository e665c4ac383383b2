use team_editor::data::sponsor::{Sponsor, FA};
use team_editor::data::staff::{ability_of, AbilityData, Staff};
use team_editor::data::team::{display_text, League, Team};
use team_editor::error::AppError;
use team_editor::text::{
    chars_of, contains_text, format_i64, format_u64, is_whitespace_char, order_text, parse_i64,
    trim, TextOrder,
};
use team_editor::utils::{logo_file_name, validate_number};

fn staff(json: &str) -> Staff {
    Staff { id: 3, name: "Ann".to_string(), ability_json: json.to_string(), fame: 12, team_id: 7 }
}

fn team() -> Team {
    Team {
        id: 1,
        name: "Arsenal".to_string(),
        wealth: 5000,
        found_year: 1886,
        location: "London".to_string(),
        supporter_count: 60000,
        stadium_name: "Emirates".to_string(),
        nickname: "Gunners".to_string(),
        league_id: -2,
    }
}

#[test]
fn numbers_are_written_in_decimal() {
    assert_eq!(format_i64(0), "0");
    assert_eq!(format_i64(7), "7");
    assert_eq!(format_i64(-7), "-7");
    assert_eq!(format_i64(1000), "1000");
    assert_eq!(format_i64(i64::MAX), "9223372036854775807");
    assert_eq!(format_i64(i64::MIN), "-9223372036854775808");
    assert_eq!(format_u64(u64::MAX), "18446744073709551615");
    assert_eq!(format_u64(10), "10");
}

#[test]
fn numbers_are_read_as_the_standard_library_reads_them() {
    let cases = [
        "0", "7", "-7", "+7", "007", "-0", "+", "-", "", " 7", "7 ", "7a", "a", "--7", "+-7",
        "9223372036854775807", "9223372036854775808", "-9223372036854775808",
        "-9223372036854775809", "99999999999999999999999999", "-99999999999999999999999999",
        "1_000", "1.5", "１２", "0x10",
    ];
    for case in cases {
        assert_eq!(parse_i64(case), case.parse::<i64>().ok(), "{:?}", case);
    }
    assert_eq!(parse_i64("-9223372036854775808"), Some(i64::MIN));
    assert_eq!(parse_i64("+12"), Some(12));
    assert_eq!(parse_i64("--1"), None);
}

#[test]
fn trimming_cuts_white_space_at_both_ends() {
    let cases = [
        "", " ", "a", " a", "a ", "  a b  ", "\t\n a \r\n", "\u{a0}x\u{3000}", "\u{2003}",
        "a\u{85}", "\u{200b}a", "\u{1680}\u{2028}\u{2029}\u{202f}\u{205f}q", "\u{180e}a",
        "é là ",
    ];
    for case in cases {
        assert_eq!(trim(case), case.trim(), "{:?}", case);
    }
    for code in 0u32..0x3100 {
        if let Some(c) = char::from_u32(code) {
            assert_eq!(is_whitespace_char(c), c.is_whitespace(), "{:x}", code);
        }
    }
}

#[test]
fn texts_are_searched_and_ordered_by_character() {
    assert_eq!(chars_of("aé"), vec!['a', 'é']);
    assert!(contains_text("Arsenal", "sen"));
    assert!(contains_text("Arsenal", ""));
    assert!(contains_text("", ""));
    assert!(contains_text("Arsenal", "Arsenal"));
    assert!(contains_text("Arsenal", "al"));
    assert!(!contains_text("Arsenal", "Arsenals"));
    assert!(!contains_text("Arsenal", "san"));
    assert!(!contains_text("", "a"));
    assert_eq!(order_text("a", "b"), TextOrder::Before);
    assert_eq!(order_text("b", "a"), TextOrder::After);
    assert_eq!(order_text("a", "a"), TextOrder::Same);
    assert_eq!(order_text("", ""), TextOrder::Same);
    assert_eq!(order_text("", "a"), TextOrder::Before);
    assert_eq!(order_text("ab", "a"), TextOrder::After);
    assert_eq!(order_text("Z", "a"), TextOrder::Before);
    assert_eq!(order_text("z", "é"), TextOrder::Before);
    for (a, b) in [("abc", "abd"), ("", "x"), ("é", "z"), ("上海", "北京"), ("a", "a")] {
        let expected = match a.cmp(b) {
            std::cmp::Ordering::Less => TextOrder::Before,
            std::cmp::Ordering::Equal => TextOrder::Same,
            std::cmp::Ordering::Greater => TextOrder::After,
        };
        assert_eq!(order_text(a, b), expected);
    }
}

#[test]
fn validate_number_sets_white_space_aside() {
    assert!(matches!(validate_number(" 42 "), Ok(42)));
    assert!(matches!(validate_number("-1"), Ok(-1)));
    match validate_number(" x1 ") {
        Err(AppError::InvalidInput(m)) => assert_eq!(m, "无效的数字输入:  x1 "),
        _ => panic!("an invalid input was expected"),
    }
    match validate_number("") {
        Err(e) => assert_eq!(e.message(), "无效输入: 无效的数字输入: "),
        _ => panic!("an invalid input was expected"),
    }
}

#[test]
fn logo_files_are_named_by_team() {
    assert_eq!(logo_file_name(12), "L12.png");
    assert_eq!(logo_file_name(-3), "L-3.png");
}

#[test]
fn search_string_joins_all_fields() {
    assert_eq!(team().search_string(), "1Arsenal50001886London60000EmiratesGunners-2");
    assert_eq!(team().display_text(), "Arsenal (ID: 1)");
    assert_eq!(display_text("x", -4), "x (ID: -4)");
    let copy = team().clone();
    assert_eq!(copy.name, "Arsenal");
    assert_eq!(copy.league_id, -2);
    let league = League { id: 4, name: "First".to_string() };
    assert_eq!(league.clone().name, "First");
}

#[test]
fn ability_is_read_from_json() {
    assert!(matches!(staff("{\"rawAbility\":42}").get_ability(), Ok(42)));
    assert!(matches!(staff(" { \"rawAbility\" : -5 , \"x\": [1] } ").get_ability(), Ok(-5)));
    assert!(matches!(staff("{\"other\":1}").get_ability(), Ok(0)));
    assert!(matches!(staff("{\"rawAbility\":\"9\"}").get_ability(), Ok(0)));
    assert!(matches!(staff("{\"rawAbility\":1.5}").get_ability(), Ok(0)));
    assert!(matches!(staff("{\"rawAbility\":18446744073709551615}").get_ability(), Ok(0)));
    assert!(matches!(staff("[1,2]").get_ability(), Ok(0)));
    assert!(matches!(staff("17").get_ability(), Ok(0)));
    assert!(matches!(staff("{\"rawAbility\":42").get_ability(), Err(AppError::JsonError(_))));
    assert!(matches!(staff("").get_ability(), Err(AppError::JsonError(_))));
    assert!(matches!(staff("rawAbility").get_ability(), Err(AppError::JsonError(_))));
    let value: serde_json::Value = serde_json::from_str("{\"rawAbility\":3,\"fame\":9}").unwrap();
    assert_eq!(ability_of(&value), 3);
    let value: serde_json::Value = serde_json::from_str("{\"fame\":9}").unwrap();
    assert_eq!(ability_of(&value), 0);
    let value: serde_json::Value = serde_json::from_str("[3]").unwrap();
    assert_eq!(ability_of(&value), 0);
    let value: serde_json::Value = serde_json::from_str("3").unwrap();
    assert_eq!(ability_of(&value), 0);
    assert_eq!(AbilityData { raw_ability: 2 }.raw_ability, 2);
}

#[test]
fn ability_is_written_as_json() {
    let mut s = staff("{}");
    assert!(s.update_ability(77).is_ok());
    assert_eq!(s.ability_json, "{\"rawAbility\":77}");
    assert!(matches!(s.get_ability(), Ok(77)));
    assert!(s.update_ability(-1).is_ok());
    assert_eq!(s.ability_json, "{\"rawAbility\":-1}");
    assert!(matches!(s.get_ability(), Ok(-1)));
    assert_eq!((s.id, s.fame, s.team_id), (3, 12, 7));
    assert_eq!(s.name, "Ann");
    assert_eq!(s.display_text(), "Ann (ID: 3)");
}

#[test]
fn error_messages_name_the_kind() {
    assert_eq!(AppError::DatabaseError("x".to_string()).message(), "数据库错误: x");
    assert_eq!(AppError::InvalidInput("y".to_string()).message(), "无效输入: y");
    assert_eq!(AppError::NotFound("z".to_string()).message(), "未找到记录: z");
    assert_eq!(AppError::DatabaseNotLoaded.message(), "未加载数据库");
    assert_eq!(AppError::TeamNotSelected.message(), "未选择球队");
    assert_eq!(AppError::Unknown("u".to_string()).message(), "未知错误: u");
    match staff("{").get_ability() {
        Err(e) => {
            let message = e.message();
            assert!(message.starts_with("JSON解析错误: "));
            assert!(message.len() > "JSON解析错误: ".len());
        }
        Ok(_) => panic!("an error was expected"),
    }
}

#[test]
fn new_sponsor_and_association_have_their_defaults() {
    let s = Sponsor::new();
    assert_eq!(s.sponsor_name, "");
    assert_eq!(s.sponsor_type, "Generic");
    assert_eq!(s.unlocked, "0");
    assert_eq!(s.description, "");
    for offer in [
        &s.brand_offer, &s.chest_offer, &s.back_offer, &s.sleeve_offer, &s.billboard_offer,
        &s.bib_offer, &s.banner_offer,
    ] {
        assert_eq!(offer, "0");
    }
    assert_eq!(s.headquarter_location, "");
    assert_eq!(s.industry, "");
    assert_eq!(s.location_restriction, "");
    assert!(s.logo_path.is_none());
    let mut with_logo = Sponsor::new();
    with_logo.logo_path = Some(std::path::PathBuf::from("a/b.png"));
    assert_eq!(with_logo.clone().logo_path, Some(std::path::PathBuf::from("a/b.png")));
    let fa = FA::new();
    assert_eq!(fa.id, 0);
    assert_eq!(fa.title, "");
    assert_eq!(fa.location, "");
    for level in [
        &fa.subsidy_level, &fa.youth_development, &fa.youth_operator_relation,
        &fa.youth_operator_ability, &fa.competition_operator_relation,
        &fa.competition_operator_ability, &fa.main_operator_relation, &fa.main_operator_ability,
        &fa.main_operator_fame, &fa.youth_operator_fame, &fa.competition_operator_fame,
    ] {
        assert_eq!(level, "0");
    }
    assert_eq!(fa.main_operator_name, "");
    assert_eq!(fa.youth_operator_name, "");
    assert_eq!(fa.competition_operator_name, "");
    assert_eq!(fa.clone().subsidy_level, "0");
}
