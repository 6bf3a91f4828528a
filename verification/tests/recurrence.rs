use calendar_rs::event::{DayTime, EventTime, SimpleTimes};
use calendar_rs::month::SerializeableMonth;
use calendar_rs::recurrence::{
    intersects_by_day_mirror, intersects_by_day_repeat, intersects_by_day_repeat_at, shift_time,
};

fn day(year: u64, month: SerializeableMonth, day: u64) -> DayTime {
    DayTime { year, month, day }
}

#[test]
fn shift_time_moves_the_day() {
    let d = day(2024, SerializeableMonth::March, 5);
    assert_eq!(shift_time(d, &SimpleTimes::Day(3)), day(2024, SerializeableMonth::March, 8));
    assert_eq!(shift_time(d, &SimpleTimes::Week(2)), day(2024, SerializeableMonth::March, 19));
    assert_eq!(shift_time(d, &SimpleTimes::Year(4)), day(2028, SerializeableMonth::March, 5));
    assert_eq!(shift_time(d, &SimpleTimes::Month(2)), day(2024, SerializeableMonth::May, 5));
    assert_eq!(shift_time(d, &SimpleTimes::Hour(2)), d);
}

#[test]
fn mirror_by_days_matches_weekday() {
    let orig = day(2024, SerializeableMonth::March, 3);
    assert!(intersects_by_day_mirror(orig, vec![SimpleTimes::Day(2)], day(2024, SerializeableMonth::April, 10), &None));
    assert!(!intersects_by_day_mirror(orig, vec![SimpleTimes::Day(2)], day(2024, SerializeableMonth::April, 11), &None));
    assert!(intersects_by_day_mirror(orig, vec![SimpleTimes::Week(1), SimpleTimes::Day(9)], day(2025, SerializeableMonth::May, 17), &None));
}

#[test]
fn mirror_ending_in_month_never_shows() {
    let orig = day(2024, SerializeableMonth::March, 3);
    assert!(!intersects_by_day_mirror(orig, vec![SimpleTimes::Day(1), SimpleTimes::Month(1)], day(2024, SerializeableMonth::March, 10), &None));
    assert!(!intersects_by_day_mirror(orig, vec![], day(2024, SerializeableMonth::March, 10), &None));
}

#[test]
fn repeat_every_days_without_limit() {
    let orig = day(2024, SerializeableMonth::March, 5);
    let now = day(2000, SerializeableMonth::January, 1);
    let times = vec![SimpleTimes::Day(5)];
    assert!(intersects_by_day_repeat_at(orig, &times, day(2024, SerializeableMonth::March, 7), false, &None, now));
    assert!(intersects_by_day_repeat_at(orig, &times, day(2024, SerializeableMonth::March, 9), false, &None, now));
    assert!(!intersects_by_day_repeat_at(orig, &times, day(2024, SerializeableMonth::March, 10), false, &None, now));
    assert!(!intersects_by_day_repeat_at(orig, &times, day(2024, SerializeableMonth::March, 5), false, &None, now));
    assert!(!intersects_by_day_repeat_at(orig, &times, day(2024, SerializeableMonth::April, 7), false, &None, now));
    let weeks = vec![SimpleTimes::Week(1)];
    assert!(intersects_by_day_repeat_at(orig, &weeks, day(2024, SerializeableMonth::March, 11), false, &None, now));
    assert!(!intersects_by_day_repeat_at(orig, &weeks, day(2024, SerializeableMonth::March, 12), false, &None, now));
}

#[test]
fn repeat_up_to_freeze_time() {
    let orig = day(2024, SerializeableMonth::March, 5);
    let freeze = Some(EventTime { year: 2024, month: SerializeableMonth::March, day: 8, hour: 9, minuite: 0 });
    let now = day(2030, SerializeableMonth::June, 20);
    let times = vec![SimpleTimes::Day(10)];
    assert!(intersects_by_day_repeat_at(orig, &times, day(2024, SerializeableMonth::March, 7), false, &freeze, now));
    assert!(intersects_by_day_repeat_at(orig, &times, day(2024, SerializeableMonth::March, 8), false, &freeze, now));
    assert!(!intersects_by_day_repeat_at(orig, &times, day(2024, SerializeableMonth::March, 9), false, &freeze, now));
    // With the freeze time the clock plays no part.
    assert!(!intersects_by_day_repeat(orig, times, day(2024, SerializeableMonth::March, 9), true, &freeze));
}

#[test]
fn repeat_up_to_today() {
    let orig = day(2024, SerializeableMonth::March, 5);
    let now = day(2024, SerializeableMonth::March, 8);
    let times = vec![SimpleTimes::Day(10)];
    assert!(intersects_by_day_repeat_at(orig, &times, day(2024, SerializeableMonth::March, 8), true, &None, now));
    assert!(!intersects_by_day_repeat_at(orig, &times, day(2024, SerializeableMonth::March, 9), true, &None, now));
    let later = day(2024, SerializeableMonth::April, 1);
    assert!(intersects_by_day_repeat_at(orig, &times, day(2024, SerializeableMonth::March, 9), true, &None, later));
}

#[test]
fn repeat_by_months() {
    let orig = day(2024, SerializeableMonth::January, 10);
    let now = day(2000, SerializeableMonth::January, 1);
    let times = vec![SimpleTimes::Month(2)];
    assert!(intersects_by_day_repeat_at(orig, &times, day(2024, SerializeableMonth::January, 15), false, &None, now));
    assert!(intersects_by_day_repeat_at(orig, &times, day(2024, SerializeableMonth::March, 5), false, &None, now));
    assert!(intersects_by_day_repeat_at(orig, &times, day(2024, SerializeableMonth::February, 1), false, &None, now));
    assert!(!intersects_by_day_repeat_at(orig, &times, day(2023, SerializeableMonth::February, 1), false, &None, now));
    assert!(!intersects_by_day_repeat_at(orig, &times, day(2024, SerializeableMonth::January, 5), false, &None, now));
}

#[test]
fn repeat_by_years() {
    let orig = day(2020, SerializeableMonth::March, 10);
    let now = day(2000, SerializeableMonth::January, 1);
    let times = vec![SimpleTimes::Year(2)];
    assert!(intersects_by_day_repeat_at(orig, &times, day(2021, SerializeableMonth::March, 1), false, &None, now));
    assert!(intersects_by_day_repeat_at(orig, &times, day(2020, SerializeableMonth::March, 15), false, &None, now));
    assert!(!intersects_by_day_repeat_at(orig, &times, day(2022, SerializeableMonth::March, 15), false, &None, now));
    assert!(!intersects_by_day_repeat_at(orig, &times, day(2023, SerializeableMonth::March, 15), false, &None, now));
    assert!(!intersects_by_day_repeat_at(orig, &times, day(2019, SerializeableMonth::March, 15), false, &None, now));
}

#[test]
fn no_amounts_repeat_only_with_limit() {
    let orig = day(2024, SerializeableMonth::March, 5);
    let now = day(2024, SerializeableMonth::May, 10);
    let none: Vec<SimpleTimes> = vec![];
    assert!(!intersects_by_day_repeat_at(orig, &none, day(2024, SerializeableMonth::April, 1), false, &None, now));
    assert!(intersects_by_day_repeat_at(orig, &none, day(2024, SerializeableMonth::April, 1), true, &None, now));
    assert!(intersects_by_day_repeat_at(orig, &none, day(2024, SerializeableMonth::May, 8), true, &None, now));
    assert!(!intersects_by_day_repeat_at(orig, &none, day(2024, SerializeableMonth::May, 11), true, &None, now));
    // In the current month the day must also not precede the event's own day.
    assert!(!intersects_by_day_repeat_at(orig, &none, day(2024, SerializeableMonth::May, 2), true, &None, now));
    assert!(!intersects_by_day_repeat_at(orig, &none, day(2024, SerializeableMonth::March, 4), true, &None, now));
}

#[test]
fn unlimited_repeat_ignores_the_clock() {
    let orig = day(2024, SerializeableMonth::March, 5);
    let times = vec![SimpleTimes::Day(5), SimpleTimes::Month(1)];
    let comp = day(2024, SerializeableMonth::March, 7);
    let a = intersects_by_day_repeat_at(orig, &times, comp, false, &None, day(1999, SerializeableMonth::December, 31));
    let b = intersects_by_day_repeat_at(orig, &times, comp, false, &None, day(2100, SerializeableMonth::July, 4));
    let c = intersects_by_day_repeat(orig, times, comp, false, &None);
    assert_eq!(a, b);
    assert_eq!(a, c);
    assert!(a);
}

#[test]
fn limited_repeat_stops_at_its_day() {
    let orig = day(2024, SerializeableMonth::March, 1);
    let now = day(2024, SerializeableMonth::March, 20);
    let times = vec![SimpleTimes::Day(30), SimpleTimes::Month(1)];
    assert!(intersects_by_day_repeat_at(orig, &times, day(2024, SerializeableMonth::March, 20), true, &None, now));
    assert!(!intersects_by_day_repeat_at(orig, &times, day(2024, SerializeableMonth::March, 21), true, &None, now));
    assert!(!intersects_by_day_repeat_at(orig, &times, day(2024, SerializeableMonth::April, 2), true, &None, now));
    assert!(!intersects_by_day_repeat_at(orig, &times, day(2025, SerializeableMonth::January, 2), true, &None, now));
}

#[test]
fn year_amounts_ignore_the_limit_in_middle_years() {
    let orig = day(2020, SerializeableMonth::March, 10);
    let now = day(2021, SerializeableMonth::January, 1);
    let times = vec![SimpleTimes::Year(5)];
    assert!(intersects_by_day_repeat_at(orig, &times, day(2022, SerializeableMonth::June, 1), true, &None, now));
}

#[test]
fn repeat_is_any_single_amount() {
    let orig = day(2024, SerializeableMonth::January, 10);
    let now = day(2000, SerializeableMonth::January, 1);
    let all = vec![SimpleTimes::Hour(3), SimpleTimes::Day(2), SimpleTimes::Month(2), SimpleTimes::NoTime];
    for d in 1..=28 {
        for m in [SerializeableMonth::January, SerializeableMonth::February, SerializeableMonth::March] {
            let comp = day(2024, m, d);
            let any = all.iter().any(|t| {
                intersects_by_day_repeat_at(orig, &vec![t.clone()], comp, false, &None, now)
            });
            assert_eq!(intersects_by_day_repeat_at(orig, &all, comp, false, &None, now), any);
        }
    }
    assert!(!intersects_by_day_repeat_at(orig, &vec![SimpleTimes::Hour(3)], day(2024, SerializeableMonth::January, 11), false, &None, now));
}
