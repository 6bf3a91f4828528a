use calendar_rs::calendar::{convert_day_num_to_day, day_time_of, days_in_first_week, month_start_offset, Days};
use calendar_rs::event::DayTime;
use calendar_rs::month::SerializeableMonth;
use chrono::Datelike;

#[test]
fn month_start_offsets_match_known_dates() {
    // 2024-01-01 was a Monday, 2025-02-01 a Saturday, 2000-03-01 a Wednesday.
    assert_eq!(month_start_offset(2024, 0), 0);
    assert_eq!(month_start_offset(2025, 1), 5);
    assert_eq!(month_start_offset(2000, 2), 2);
    // 1970-01-01 was a Thursday.
    assert_eq!(month_start_offset(1970, 0), 3);
}

#[test]
fn days_in_first_week_match_known_dates() {
    assert_eq!(days_in_first_week(2024, 1), 7);
    assert_eq!(days_in_first_week(2025, 2), 2);
    assert_eq!(days_in_first_week(2023, 10), 1); // 2023-10-01 was a Sunday
}

#[test]
fn offset_and_first_week_fill_a_week() {
    for year in [1900u64, 1999, 2000, 2024, 2100] {
        for month in 0u64..12 {
            assert_eq!(month_start_offset(year, month) + days_in_first_week(year, month + 1), 7);
            let expected = chrono::NaiveDate::from_ymd_opt(year as i32, month as u32 + 1, 1)
                .unwrap()
                .weekday()
                .num_days_from_monday() as u64;
            assert_eq!(month_start_offset(year, month), expected);
        }
    }
}

#[test]
fn day_numbers_map_to_weekdays() {
    assert_eq!(convert_day_num_to_day(&0), Days::Monday);
    assert_eq!(convert_day_num_to_day(&2), Days::Wensday);
    assert_eq!(convert_day_num_to_day(&6), Days::Sunday);
    assert_eq!(convert_day_num_to_day(&7), Days::Monday);
    assert_eq!(convert_day_num_to_day(&15), Days::Tuesday);
    for d in 0u64..40 {
        assert_eq!(convert_day_num_to_day(&d), convert_day_num_to_day(&(d + 7)));
    }
}

#[test]
fn weekday_rule_holds_for_early_and_negative_years() {
    for year in [-4i32, -100, 1, 4, 1582, 1600] {
        for month in 0u64..12 {
            let stored = year as u32 as u64;
            let expected = chrono::NaiveDate::from_ymd_opt(year, month as u32 + 1, 1)
                .unwrap()
                .weekday()
                .num_days_from_monday() as u64;
            assert_eq!(month_start_offset(stored, month), expected);
        }
    }
}

#[test]
fn dates_read_as_calendar_days() {
    assert_eq!(day_time_of(2024, 7, 19), DayTime { year: 2024, month: SerializeableMonth::July, day: 19 });
    assert_eq!(day_time_of(1999, 12, 31), DayTime { year: 1999, month: SerializeableMonth::December, day: 31 });
    assert_eq!(day_time_of(2000, 1, 1).month, SerializeableMonth::January);
}
