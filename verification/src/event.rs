//! Events, the times they are set at, the days the month view asks about, and
//! the user's settings.

use crate::month::{chrono_month_number, is_chrono_month_of, month_of_number, SerializeableMonth};
use vstd::prelude::*;

verus! {

/// An amount of time with its unit, as written in a recurrence rule (`3d`,
/// `2w`, ...). `Stop` wraps another amount and `NoTime` stands for an unknown unit.
#[derive(Debug)]
pub enum SimpleTimes {
    Year(u64),
    Month(u64),
    Week(u64),
    Day(u64),
    Hour(u64),
    Minuite(u64),
    Stop(Box<SimpleTimes>),
    NoTime,
}

impl Clone for SimpleTimes {
    fn clone(&self) -> (r: SimpleTimes)
        ensures
            r == *self,
        decreases self,
    {
        match self {
            SimpleTimes::Year(n) => SimpleTimes::Year(*n),
            SimpleTimes::Month(n) => SimpleTimes::Month(*n),
            SimpleTimes::Week(n) => SimpleTimes::Week(*n),
            SimpleTimes::Day(n) => SimpleTimes::Day(*n),
            SimpleTimes::Hour(n) => SimpleTimes::Hour(*n),
            SimpleTimes::Minuite(n) => SimpleTimes::Minuite(*n),
            SimpleTimes::Stop(inner) => SimpleTimes::Stop(Box::new((**inner).clone())),
            SimpleTimes::NoTime => SimpleTimes::NoTime,
        }
    }
}

/// A copy of a list of amounts of time.
pub fn clone_times(v: &Vec<SimpleTimes>) -> (r: Vec<SimpleTimes>)
    ensures
        r@ == v@,
{
    let mut r: Vec<SimpleTimes> = Vec::new();
    let mut i: usize = 0;
    while i < v.len()
        invariant
            i <= v.len(),
            r@ == v@.take(i as int),
        decreases v.len() - i,
    {
        r.push(v[i].clone());
        i = i + 1;
        assert(r@ =~= v@.take(i as int));
    }
    assert(r@ =~= v@);
    r
}

/// A calendar day: year, month and day of the month.
#[derive(Debug, Clone, Copy, PartialEq, Eq, Structural)]
pub struct DayTime {
    pub year: u64,
    pub month: SerializeableMonth,
    pub day: u64,
}

/// The minute an event is set at.
#[derive(Debug, Clone, Copy, PartialEq, Eq, Structural)]
pub struct EventTime {
    pub year: u64,
    pub month: SerializeableMonth,
    pub day: u64,
    pub hour: u64,
    pub minuite: u64,
}

impl EventTime {
    /// The time at the given year, `chrono` month, day, hour and minute.
    pub fn new(year: u64, month: chrono::Month, day: u64, hour: u64, minuite: u64) -> (t: EventTime)
        ensures
            t == (EventTime {
                year,
                month: month_of_number(chrono_month_number(month)),
                day,
                hour,
                minuite,
            }),
            t.month.number() == chrono_month_number(month),
    {
        EventTime { year, month: EventTime::map_chrono_month(month), day, hour, minuite }
    }

    /// The day of this time.
    pub open spec fn day_of(self) -> DayTime {
        DayTime { year: self.year, month: self.month, day: self.day }
    }

    /// The day of this time.
    pub fn into_day_time(self) -> (d: DayTime)
        ensures
            d == self.day_of(),
    {
        DayTime { year: self.get_year(), month: self.month, day: self.get_day() }
    }

    /// The calendar month of a `chrono` month.
    pub fn map_chrono_month(month: chrono::Month) -> (m: SerializeableMonth)
        ensures
            m == month_of_number(chrono_month_number(month)),
            m.number() == chrono_month_number(month),
    {
        SerializeableMonth::from_chrono(month)
    }

    pub fn set_month(&mut self, month: chrono::Month)
        ensures
            *final(self) == (EventTime { month: month_of_number(chrono_month_number(month)), ..*old(self) }),
            final(self).month.number() == chrono_month_number(month),
    {
        self.month = EventTime::map_chrono_month(month);
    }

    pub fn set_day(&mut self, day: u64)
        ensures
            *final(self) == (EventTime { day, ..*old(self) }),
    {
        self.day = day;
    }

    pub fn set_hour(&mut self, hour: u64)
        ensures
            *final(self) == (EventTime { hour, ..*old(self) }),
    {
        self.hour = hour;
    }

    pub fn set_minute(&mut self, minute: u64)
        ensures
            *final(self) == (EventTime { minuite: minute, ..*old(self) }),
    {
        self.minuite = minute;
    }

    pub fn set_year(&mut self, year: u64)
        ensures
            *final(self) == (EventTime { year, ..*old(self) }),
    {
        self.year = year;
    }

    pub fn get_year(&self) -> (y: u64)
        ensures
            y == self.year,
    {
        self.year
    }

    pub fn get_hour(&self) -> (h: u64)
        ensures
            h == self.hour,
    {
        self.hour
    }

    pub fn get_day(&self) -> (d: u64)
        ensures
            d == self.day,
    {
        self.day
    }

    pub fn get_minute(&self) -> (m: u64)
        ensures
            m == self.minuite,
    {
        self.minuite
    }

    /// The `chrono` month of this time.
    pub fn get_month(&self) -> (m: chrono::Month)
        ensures
            chrono_month_number(m) == self.month.number(),
            is_chrono_month_of(m, self.month),
    {
        self.month.to_chrono()
    }
}

/// An event of the calendar with its recurrence rules, as stored.
#[derive(Debug)]
pub struct Event {
    pub name: String,
    pub description: String,
    pub time: EventTime,
    pub notify_times: Vec<SimpleTimes>,
    pub repeat_times: Vec<SimpleTimes>,
    pub repeat_until_current_day: bool,
    pub mirror_times: Vec<SimpleTimes>,
    pub freeze_at_time: Option<EventTime>,
}

/// An event's contents as values.
pub struct EventView {
    pub name: Seq<char>,
    pub description: Seq<char>,
    pub time: EventTime,
    pub notify_times: Seq<SimpleTimes>,
    pub repeat_times: Seq<SimpleTimes>,
    pub repeat_until_current_day: bool,
    pub mirror_times: Seq<SimpleTimes>,
    pub freeze_at_time: Option<EventTime>,
}

impl View for Event {
    type V = EventView;

    open spec fn view(&self) -> EventView {
        EventView {
            name: self.name@,
            description: self.description@,
            time: self.time,
            notify_times: self.notify_times@,
            repeat_times: self.repeat_times@,
            repeat_until_current_day: self.repeat_until_current_day,
            mirror_times: self.mirror_times@,
            freeze_at_time: self.freeze_at_time,
        }
    }
}

impl Clone for Event {
    fn clone(&self) -> (r: Event)
        ensures
            r@ == self@,
    {
        Event {
            name: self.name.clone(),
            description: self.description.clone(),
            time: self.time,
            notify_times: clone_times(&self.notify_times),
            repeat_times: clone_times(&self.repeat_times),
            repeat_until_current_day: self.repeat_until_current_day,
            mirror_times: clone_times(&self.mirror_times),
            freeze_at_time: self.freeze_at_time,
        }
    }
}

/// The user's webhook settings.
#[derive(Debug)]
pub struct Settings {
    pub enabled_webhooks: bool,
    pub webhook_url_push: String,
    pub webhook_url_all: String,
    pub override_local_webhook: bool,
    pub webhook_url_remove: String,
    pub webhook_header: String,
}

/// The settings' contents as values.
pub struct SettingsView {
    pub enabled_webhooks: bool,
    pub webhook_url_push: Seq<char>,
    pub webhook_url_all: Seq<char>,
    pub override_local_webhook: bool,
    pub webhook_url_remove: Seq<char>,
    pub webhook_header: Seq<char>,
}

impl View for Settings {
    type V = SettingsView;

    open spec fn view(&self) -> SettingsView {
        SettingsView {
            enabled_webhooks: self.enabled_webhooks,
            webhook_url_push: self.webhook_url_push@,
            webhook_url_all: self.webhook_url_all@,
            override_local_webhook: self.override_local_webhook,
            webhook_url_remove: self.webhook_url_remove@,
            webhook_header: self.webhook_header@,
        }
    }
}

/// The settings a new store starts with: webhooks off and every text empty.
pub open spec fn default_settings() -> SettingsView {
    SettingsView {
        enabled_webhooks: false,
        webhook_url_push: Seq::empty(),
        webhook_url_all: Seq::empty(),
        override_local_webhook: false,
        webhook_url_remove: Seq::empty(),
        webhook_header: Seq::empty(),
    }
}

impl Default for Settings {
    fn default() -> (s: Settings)
        ensures
            s@ == default_settings(),
    {
        Settings {
            enabled_webhooks: false,
            webhook_url_push: String::new(),
            webhook_url_all: String::new(),
            override_local_webhook: false,
            webhook_url_remove: String::new(),
            webhook_header: String::new(),
        }
    }
}

impl Clone for Settings {
    fn clone(&self) -> (r: Settings)
        ensures
            r@ == self@,
    {
        Settings {
            enabled_webhooks: self.enabled_webhooks,
            webhook_url_push: self.webhook_url_push.clone(),
            webhook_url_all: self.webhook_url_all.clone(),
            override_local_webhook: self.override_local_webhook,
            webhook_url_remove: self.webhook_url_remove.clone(),
            webhook_header: self.webhook_header.clone(),
        }
    }
}

impl From<EventTime> for DayTime {
    fn from(value: EventTime) -> (d: DayTime) {
        value.into_day_time()
    }
}

impl vstd::std_specs::convert::FromSpecImpl<EventTime> for DayTime {
    open spec fn obeys_from_spec() -> bool {
        true
    }

    open spec fn from_spec(v: EventTime) -> DayTime {
        v.day_of()
    }
}

/// Reading the month back gives the `chrono` month last given to `new` or
/// `set_month`: `t` is a time whose month was set from `m`, `t2` follows from
/// it by any of the other setters (which all keep the month), and `r` is what
/// `get_month` gives for `t2`.
pub proof fn law_month_set_then_get(t: EventTime, m: chrono::Month, t2: EventTime, r: chrono::Month)
    requires
        t.month.number() == chrono_month_number(m),
        t2.month == t.month,
        is_chrono_month_of(r, t2.month),
    ensures
        r == m,
{
}

} // verus!
