use calendar_rs::database::{
    first_connection, is_blank, Database, DatabaseError, EventsDatabase, JsonBackend,
    JsonBackendContent, SettingsDatabase,
};
use calendar_rs::event::{DayTime, Event, EventTime, Settings, SimpleTimes};
use calendar_rs::month::SerializeableMonth;

fn event(name: &str, day: u64, hour: u64, minute: u64) -> Event {
    Event {
        name: name.to_string(),
        description: format!("{} description", name),
        time: EventTime { year: 2024, month: SerializeableMonth::March, day, hour, minuite: minute },
        notify_times: vec![],
        repeat_times: vec![],
        repeat_until_current_day: false,
        mirror_times: vec![],
        freeze_at_time: None,
    }
}

fn names(events: &[Event]) -> Vec<String> {
    events.iter().map(|e| e.name.clone()).collect()
}

#[test]
fn default_store_is_empty() {
    let c = JsonBackendContent::default();
    assert!(c.events.is_empty());
    let s = c.get_settings();
    assert!(!s.enabled_webhooks && !s.override_local_webhook);
    assert!(s.webhook_url_push.is_empty() && s.webhook_url_all.is_empty());
    assert!(s.webhook_url_remove.is_empty() && s.webhook_header.is_empty());
}

#[test]
fn connections_default_to_database_json() {
    assert_eq!(JsonBackend::default().file, "database.json");
    assert_eq!(JsonBackend::new(None).file, "database.json");
    assert_eq!(JsonBackend::new(Some("x/y.json".to_string())).file, "x/y.json");
    assert_eq!(Database::new(None).connection.file, "database.json");
    let conn = JsonBackend::new(Some("other.json".to_string()));
    assert_eq!(Database::fix_connection(Some(conn)).connection.file, "other.json");
    assert_eq!(first_connection().unwrap().file, "database.json");
}

#[test]
fn added_event_is_stored_after_the_others() {
    let mut c = JsonBackendContent::default();
    assert!(c.add_event(event("a", 1, 9, 0)).is_ok());
    assert!(c.add_event(event("b", 2, 9, 0)).is_ok());
    assert!(c.add_event(event("c", 1, 10, 30)).is_ok());
    assert_eq!(names(&c.get_events()), vec!["a", "b", "c"]);
}

#[test]
fn duplicate_hour_is_refused() {
    let mut c = JsonBackendContent::default();
    c.add_event(event("a", 1, 9, 0)).unwrap();
    let r = c.add_event(event("b", 1, 9, 45));
    assert_eq!(r, Err(DatabaseError::DuplicateEvent));
    assert_eq!(DatabaseError::DuplicateEvent.message(), "You cannot have duplicate events");
    assert_eq!(names(&c.get_events()), vec!["a"]);
}

#[test]
fn add_then_remove_by_time_restores() {
    let mut c = JsonBackendContent::default();
    c.add_event(event("a", 1, 9, 0)).unwrap();
    c.add_event(event("b", 2, 9, 0)).unwrap();
    let e = event("c", 3, 11, 15);
    let t = e.time;
    c.add_event(e).unwrap();
    c.remove_event_by_time(t);
    assert_eq!(names(&c.get_events()), vec!["a", "b"]);
}

#[test]
fn remove_by_name_removes_every_match() {
    let mut c = JsonBackendContent::default();
    c.add_event(event("a", 1, 9, 0)).unwrap();
    c.add_event(event("b", 2, 9, 0)).unwrap();
    c.add_event(event("a", 3, 9, 0)).unwrap();
    c.remove_event_by_name("a".to_string());
    assert_eq!(names(&c.get_events()), vec!["b"]);
    c.remove_event_by_name("a".to_string());
    assert_eq!(names(&c.get_events()), vec!["b"]);
}

#[test]
fn set_events_and_settings_read_back() {
    let mut c = JsonBackendContent::default();
    c.set_events(vec![event("x", 4, 1, 2), event("y", 5, 1, 2)]);
    assert_eq!(names(&c.get_events()), vec!["x", "y"]);
    let mut s = Settings::default();
    s.enabled_webhooks = true;
    s.webhook_url_all = "http://example.invalid/all".to_string();
    c.set_settings(s);
    let read = c.get_settings();
    assert!(read.enabled_webhooks);
    assert_eq!(read.webhook_url_all, "http://example.invalid/all");
    assert_eq!(names(&c.get_events()), vec!["x", "y"]);
}

#[test]
fn day_query_lists_events_of_the_day_and_repeats() {
    let mut c = JsonBackendContent::default();
    c.add_event(event("on5", 5, 9, 0)).unwrap();
    let mut rep = event("rep", 1, 8, 0);
    rep.repeat_times = vec![SimpleTimes::Day(10)];
    c.add_event(rep).unwrap();
    c.add_event(event("on6", 6, 9, 0)).unwrap();
    let q = DayTime { year: 2024, month: SerializeableMonth::March, day: 5 };
    let now = DayTime { year: 1990, month: SerializeableMonth::January, day: 1 };
    assert_eq!(names(&c.events_on_day_at(q, now)), vec!["on5", "rep"]);
    assert_eq!(names(&c.get_events_on_day(q)), vec!["on5", "rep"]);
    let q2 = DayTime { year: 2024, month: SerializeableMonth::March, day: 12 };
    assert!(c.events_on_day_at(q2, now).is_empty());
}

#[test]
fn blank_contents() {
    assert!(is_blank(""));
    assert!(is_blank("  \n\t\r "));
    assert!(is_blank("\u{2003}"));
    assert!(!is_blank(" {} "));
    assert!(!is_blank("x"));
    assert!(is_blank("\u{85}\u{a0}\u{3000}"));
    assert!(!is_blank("\u{200b}"));
}
