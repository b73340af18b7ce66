use storecore::settings::{parse_i32, thresholds_from_settings, SettingItem};
use storecore::tier::{resolve_tier, Tier, TierThresholds};

fn defaults() -> TierThresholds {
    TierThresholds {
        silver: 1000,
        gold: 5000,
        diamond: 10000,
    }
}

#[test]
fn resolver_picks_the_highest_reached_threshold() {
    let t = defaults();
    assert_eq!(resolve_tier(0, &t), Tier::Bronze);
    assert_eq!(resolve_tier(999, &t), Tier::Bronze);
    assert_eq!(resolve_tier(1000, &t), Tier::Silver);
    assert_eq!(resolve_tier(4999, &t), Tier::Silver);
    assert_eq!(resolve_tier(5000, &t), Tier::Gold);
    assert_eq!(resolve_tier(9999, &t), Tier::Gold);
    assert_eq!(resolve_tier(10000, &t), Tier::Diamond);
    assert_eq!(resolve_tier(-5, &t), Tier::Bronze);
}

#[test]
fn tier_names_match_the_stored_levels() {
    assert_eq!(Tier::Bronze.as_text(), "BRONZE");
    assert_eq!(Tier::Silver.as_text(), "SILVER");
    assert_eq!(Tier::Gold.as_text(), "GOLD");
    assert_eq!(Tier::Diamond.as_text(), "DIAMOND");
}

#[test]
fn integer_parsing_follows_the_standard_syntax() {
    assert_eq!(parse_i32("123"), Some(123));
    assert_eq!(parse_i32("+7"), Some(7));
    assert_eq!(parse_i32("-42"), Some(-42));
    assert_eq!(parse_i32("0"), Some(0));
    assert_eq!(parse_i32("-0"), Some(0));
    assert_eq!(parse_i32("00001"), Some(1));
    assert_eq!(parse_i32("2147483647"), Some(i32::MAX));
    assert_eq!(parse_i32("-2147483648"), Some(i32::MIN));
    assert_eq!(parse_i32("2147483648"), None);
    assert_eq!(parse_i32("-2147483649"), None);
    assert_eq!(parse_i32("99999999999999999999"), None);
    assert_eq!(parse_i32(""), None);
    assert_eq!(parse_i32("+"), None);
    assert_eq!(parse_i32("-"), None);
    assert_eq!(parse_i32("12a"), None);
    assert_eq!(parse_i32(" 12"), None);
    assert_eq!(parse_i32("1 2"), None);
    assert_eq!(parse_i32("+-3"), None);
}

fn row(id: &str, value: Option<&str>) -> SettingItem {
    SettingItem {
        id: id.to_string(),
        value: value.map(|v| v.to_string()),
    }
}

#[test]
fn missing_configuration_falls_back_to_the_defaults() {
    let t = thresholds_from_settings(&Vec::new());
    assert_eq!(t, defaults());
}

#[test]
fn configured_thresholds_replace_the_defaults() {
    let rows = vec![
        row("level_silver", Some("500")),
        row("level_gold", Some("2000")),
        row("level_diamond", Some("9000")),
    ];
    let t = thresholds_from_settings(&rows);
    assert_eq!(
        t,
        TierThresholds {
            silver: 500,
            gold: 2000,
            diamond: 9000
        }
    );
}

#[test]
fn unparsable_or_foreign_rows_change_nothing() {
    let rows = vec![
        row("level_gold", Some("not a number")),
        row("level_silver", None),
        row("site_name", Some("ElectroShop")),
    ];
    let t = thresholds_from_settings(&rows);
    assert_eq!(t, defaults());
}

#[test]
fn a_later_row_for_the_same_key_wins() {
    let rows = vec![
        row("level_gold", Some("2000")),
        row("level_gold", Some("3000")),
    ];
    let t = thresholds_from_settings(&rows);
    assert_eq!(t.gold, 3000);
}
