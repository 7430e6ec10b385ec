use smart_hedge::market_hours::{
    days_from_civil, nth_sunday_of_month, regular_market_state, regular_market_state_checked, weekday_sunday0,
    year_of_day,
};

// Unix seconds of the UTC instants used below.
const TUE_2026_07_14_1500: i64 = 1_784_041_200;
const TUE_2026_01_13_1600: i64 = 1_768_320_000;
const SAT_2026_07_18_1500: i64 = 1_784_386_800;
const SUN_2026_07_19_1500: i64 = 1_784_473_200;
const TUE_2026_07_14_1200: i64 = 1_784_030_400;
const TUE_2026_07_14_2100: i64 = 1_784_062_800;
const TUE_2026_07_14_1330: i64 = 1_784_035_800;
const TUE_2026_07_14_2000: i64 = 1_784_059_200;

#[test]
fn nth_sunday_of_month_actually_lands_on_a_sunday() {
    for year in [2024, 2025, 2026, 2030] {
        let start_days = nth_sunday_of_month(year, 3, 2);
        assert_eq!(weekday_sunday0(start_days), 0, "2nd Sunday of March {year} wasn't a Sunday");
        let end_days = nth_sunday_of_month(year, 11, 1);
        assert_eq!(weekday_sunday0(end_days), 0, "1st Sunday of November {year} wasn't a Sunday");
    }
}

#[test]
fn a_midweek_midday_utc_instant_in_july_is_open_edt() {
    assert_eq!(regular_market_state(TUE_2026_07_14_1500), "open");
}

#[test]
fn a_midweek_midday_utc_instant_in_january_is_open_est() {
    assert_eq!(regular_market_state(TUE_2026_01_13_1600), "open");
}

#[test]
fn a_saturday_is_always_closed_regardless_of_hour() {
    assert_eq!(regular_market_state(SAT_2026_07_18_1500), "closed");
}

#[test]
fn a_sunday_is_always_closed_regardless_of_hour() {
    assert_eq!(regular_market_state(SUN_2026_07_19_1500), "closed");
}

#[test]
fn before_the_open_on_a_weekday_is_closed() {
    assert_eq!(regular_market_state(TUE_2026_07_14_1200), "closed");
}

#[test]
fn after_the_close_on_a_weekday_is_closed() {
    assert_eq!(regular_market_state(TUE_2026_07_14_2100), "closed");
}

#[test]
fn exactly_at_the_open_boundary_is_open() {
    assert_eq!(regular_market_state(TUE_2026_07_14_1330), "open");
}

#[test]
fn exactly_at_the_close_boundary_is_closed() {
    assert_eq!(regular_market_state(TUE_2026_07_14_2000), "closed");
}

#[test]
fn just_before_the_spring_forward_transition_uses_the_est_offset() {
    let year = 2026;
    let start_days = nth_sunday_of_month(year, 3, 2);
    let transition_secs = start_days * 86_400 + 7 * 3_600;
    assert_eq!(regular_market_state(transition_secs - 1), "closed");
    assert_eq!(regular_market_state(transition_secs), "closed");
}

#[test]
fn the_daylight_saving_window_of_2026_is_march_8_to_november_1() {
    assert_eq!(nth_sunday_of_month(2026, 3, 2), days_from_civil(2026, 3, 8));
    assert_eq!(nth_sunday_of_month(2026, 11, 1), days_from_civil(2026, 11, 1));
    // Monday 2026-03-09 13:30 UTC is 09:30 EDT: open.
    assert_eq!(regular_market_state(1_773_063_000), "open");
    // Monday 2026-11-02 14:00 UTC is 09:00 EST: closed; 14:30 UTC is 09:30 EST: open.
    assert_eq!(regular_market_state(1_793_628_000), "closed");
    assert_eq!(regular_market_state(1_793_629_800), "open");
}

#[test]
fn civil_days_count_from_the_epoch() {
    assert_eq!(days_from_civil(1970, 1, 1), 0);
    assert_eq!(days_from_civil(2000, 3, 1), 11_017);
    assert_eq!(days_from_civil(1969, 12, 31), -1);
    assert_eq!(year_of_day(0), 1970);
    assert_eq!(year_of_day(-1), 1969);
    assert_eq!(year_of_day(days_from_civil(2024, 12, 31)), 2024);
    assert_eq!(year_of_day(days_from_civil(2025, 1, 1)), 2025);
    assert_eq!(weekday_sunday0(0), 4);
}

#[test]
fn the_checked_state_agrees_where_the_calendar_fits() {
    assert_eq!(regular_market_state_checked(TUE_2026_07_14_1500), Some("open"));
    assert_eq!(regular_market_state_checked(SAT_2026_07_18_1500), Some("closed"));
    assert_eq!(regular_market_state_checked(0), Some(regular_market_state(0)));
}

#[test]
fn the_checked_state_refuses_a_local_time_below_the_i64_range() {
    assert_eq!(regular_market_state_checked(i64::MIN), None);
}
