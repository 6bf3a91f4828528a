use calendar_rs::event::{DayTime, Event, EventTime, Settings, SimpleTimes, clone_times};
use calendar_rs::month::SerializeableMonth;

#[test]
fn event_time_from_chrono_month() {
    let mut t = EventTime::new(2024, chrono::Month::March, 5, 9, 30);
    assert_eq!(t.month, SerializeableMonth::March);
    assert_eq!(t.get_month(), chrono::Month::March);
    assert_eq!(EventTime::map_chrono_month(chrono::Month::December), SerializeableMonth::December);
    t.set_month(chrono::Month::October);
    assert_eq!(t.get_month(), chrono::Month::October);
    assert_eq!(t.month, SerializeableMonth::October);
}

#[test]
fn event_time_setters_and_getters() {
    let mut t = EventTime::new(2024, chrono::Month::March, 5, 9, 30);
    t.set_year(2030);
    t.set_day(17);
    t.set_hour(23);
    t.set_minute(59);
    assert_eq!((t.get_year(), t.get_day(), t.get_hour(), t.get_minute()), (2030, 17, 23, 59));
    assert_eq!(t.get_month(), chrono::Month::March);
}

#[test]
fn event_time_day() {
    let t = EventTime::new(2024, chrono::Month::February, 29, 8, 0);
    let d = DayTime { year: 2024, month: SerializeableMonth::February, day: 29 };
    assert_eq!(t.into_day_time(), d);
    let converted: DayTime = t.into();
    assert_eq!(converted, d);
}

#[test]
fn clones_keep_contents() {
    let times = vec![SimpleTimes::Stop(Box::new(SimpleTimes::Day(3))), SimpleTimes::NoTime];
    let copy = clone_times(&times);
    assert!(matches!(&copy[0], SimpleTimes::Stop(b) if matches!(**b, SimpleTimes::Day(3))));
    assert!(matches!(copy[1], SimpleTimes::NoTime));
    let e = Event {
        name: "n".to_string(),
        description: "d".to_string(),
        time: EventTime::new(2024, chrono::Month::March, 5, 9, 30),
        notify_times: vec![SimpleTimes::Hour(1)],
        repeat_times: vec![],
        repeat_until_current_day: true,
        mirror_times: vec![SimpleTimes::Week(2)],
        freeze_at_time: None,
    };
    let c = e.clone();
    assert_eq!(c.name, "n");
    assert_eq!(c.description, "d");
    assert_eq!(c.time, e.time);
    assert!(c.repeat_until_current_day);
    let mut s = Settings::default();
    s.webhook_header = "Bearer SECRET-REDACTED".to_string();
    assert_eq!(s.clone().webhook_header, "Bearer SECRET-REDACTED");
}

#[test]
fn month_survives_other_setters() {
    let mut t = EventTime::new(2024, chrono::Month::August, 5, 9, 30);
    t.set_year(1999);
    t.set_day(3);
    t.set_hour(1);
    t.set_minute(2);
    assert_eq!(t.get_month(), chrono::Month::August);
    t.set_month(chrono::Month::February);
    t.set_day(28);
    assert_eq!(t.get_month(), chrono::Month::February);
}
