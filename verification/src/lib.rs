//! Calendar events with recurrence rules, the month arithmetic behind a
//! month view, and the in-memory model of the JSON event store.

pub mod month;
pub mod text;
pub mod event;
pub mod calendar;
pub mod recurrence;
pub mod simple_times;
pub mod database;
pub mod calendar_view;
