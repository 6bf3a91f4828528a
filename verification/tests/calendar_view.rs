use calendar_rs::calendar_view::{
    cell_day, event_display_name, frozen_event, grid_rows, is_current_day, merge_fetched_events,
    WorkingEvent,
};
use calendar_rs::event::{DayTime, Event, EventTime, SimpleTimes};
use calendar_rs::month::SerializeableMonth;
use chrono::Datelike;

fn form(hour: &str, minute: &str) -> WorkingEvent {
    WorkingEvent {
        time: DayTime { year: 2024, month: SerializeableMonth::June, day: 12 },
        working_hour: hour.to_string(),
        working_minute: minute.to_string(),
        working_name: "Dentist".to_string(),
        working_desc: "Checkup".to_string(),
        working_notification_times: "1h".to_string(),
        working_repeat_times: "".to_string(),
        working_mirror_times: "7d,2w".to_string(),
        working_update_repeat_for_current_day: true,
    }
}

fn named(name: &str) -> Event {
    let mut e = form("1", "2").to_event().unwrap();
    e.name = name.to_string();
    e
}

#[test]
fn grid_layout() {
    assert_eq!(grid_rows(5, 28), 5);
    assert_eq!(grid_rows(0, 28), 4);
    assert_eq!(grid_rows(6, 31), 6);
    assert_eq!(cell_day(0, 4, 5, 30), None);
    assert_eq!(cell_day(0, 5, 5, 30), Some(1));
    assert_eq!(cell_day(4, 6, 5, 30), Some(30));
    assert_eq!(cell_day(5, 0, 5, 30), None);
    for offset in 0u64..7 {
        for days in 28u64..32 {
            let rows = grid_rows(offset, days);
            assert!(rows <= 6);
            let mut seen = vec![0; days as usize + 1];
            for row in 0..rows {
                for col in 0..7 {
                    if let Some(d) = cell_day(row, col, offset, days) {
                        seen[d as usize] += 1;
                    }
                }
            }
            assert!(seen[1..].iter().all(|n| *n == 1));
        }
    }
}

#[test]
fn current_day_check() {
    let today = DayTime { year: 2024, month: SerializeableMonth::June, day: 12 };
    assert!(is_current_day(2024, SerializeableMonth::June, 12, today));
    assert!(!is_current_day(2024, SerializeableMonth::June, 13, today));
    assert!(!is_current_day(2023, SerializeableMonth::June, 12, today));
    assert!(!is_current_day(2024, SerializeableMonth::July, 12, today));
}

#[test]
fn display_names_are_cut_after_twenty_bytes() {
    assert_eq!(event_display_name("Lunch"), "Lunch");
    assert_eq!(event_display_name("exactly twenty chars"), "exactly twenty chars");
    assert_eq!(event_display_name("a rather long event name"), "a rather long event ..");
}

#[test]
fn fetched_events_merge_or_override() {
    let local = vec![named("a"), named("b")];
    let fetched = vec![named("c")];
    let merged = merge_fetched_events(local, fetched, false);
    assert_eq!(merged.iter().map(|e| e.name.as_str()).collect::<Vec<_>>(), vec!["a", "b", "c"]);
    let replaced = merge_fetched_events(vec![named("a")], vec![named("c")], true);
    assert_eq!(replaced.iter().map(|e| e.name.as_str()).collect::<Vec<_>>(), vec!["c"]);
}

#[test]
fn form_builds_event() {
    let e = form("14", "+30").to_event().unwrap();
    assert_eq!(e.name, "Dentist");
    assert_eq!(e.description, "Checkup");
    assert_eq!(e.time, EventTime { year: 2024, month: SerializeableMonth::June, day: 12, hour: 14, minuite: 30 });
    assert!(matches!(e.notify_times.as_slice(), [SimpleTimes::Hour(1)]));
    assert!(e.repeat_times.is_empty());
    assert!(matches!(e.mirror_times.as_slice(), [SimpleTimes::Day(7), SimpleTimes::Week(2)]));
    assert!(e.repeat_until_current_day);
    assert!(e.freeze_at_time.is_none());
}

#[test]
fn form_without_numbers_builds_nothing() {
    assert!(form("", "30").to_event().is_none());
    assert!(form("14", "half").to_event().is_none());
}

#[test]
fn freezing_uses_typed_or_event_time() {
    let event_time = EventTime { year: 2020, month: SerializeableMonth::May, day: 1, hour: 7, minuite: 45 };
    let t = form("9", "x").freeze_time(event_time);
    assert_eq!(t, EventTime { year: 2024, month: SerializeableMonth::June, day: 12, hour: 9, minuite: 45 });
    let e = frozen_event(&named("a"), t);
    assert_eq!(e.freeze_at_time, Some(t));
    assert_eq!(e.name, "a");
}

#[test]
fn default_form_is_for_the_first_of_this_month() {
    let w = WorkingEvent::default();
    let now = chrono::offset::Local::now();
    assert_eq!(w.time.day, 1);
    assert_eq!(w.time.month.month_number(), now.month());
    assert_eq!(w.time.year, now.year() as u64);
    assert!(w.working_name.is_empty());
}

#[test]
fn form_for_a_date_starts_on_day_one() {
    let d = DayTime { year: 2031, month: SerializeableMonth::October, day: 17 };
    let w = WorkingEvent::for_date(d);
    assert_eq!(w.time, DayTime { year: 2031, month: SerializeableMonth::October, day: 1 });
    assert!(w.working_hour.is_empty() && w.working_minute.is_empty() && w.working_desc.is_empty());
    assert!(w.working_notification_times.is_empty() && w.working_repeat_times.is_empty());
    assert!(w.working_mirror_times.is_empty() && !w.working_update_repeat_for_current_day);
}
