//! What the calendar window computes: the month grid, the labels of events,
//! the event form, and the merge of events fetched from a webhook.

use crate::calendar::today;
use crate::database::views;
use crate::event::{DayTime, Event, EventTime, EventView};
use crate::month::{chrono_month_number, SerializeableMonth};
use crate::simple_times::{parse_number, parse_simple_times, parse_u64, parsed_simple_times, simple_times_valid};
use vstd::prelude::*;
use vstd::string::{StringExecFns, StringSliceAdditionalSpecFns};
use vstd::utf8::{decode_utf8, encode_utf8_decode_utf8};

verus! {

/// How many week rows the month grid needs when day 1 sits after `offset`
/// empty cells and the month has `days` days.
pub fn grid_rows(offset: u64, days: u64) -> (n: u64)
    requires
        offset + days + 6 <= u64::MAX,
    ensures
        n == (offset + days + 6) / 7,
{
    let total_cells = offset + days;
    (total_cells + 6) / 7
}

/// The day of the month shown in the grid cell at `row` and `col` (Monday =
/// column 0), or `None` for a blank cell before day 1 or after the last day.
pub fn cell_day(row: u64, col: u64, offset: u64, days: u64) -> (d: Option<u64>)
    requires
        row * 7 + col <= u64::MAX,
        offset + days <= u64::MAX,
    ensures
        d == (if row * 7 + col < offset || row * 7 + col >= offset + days {
            None
        } else {
            Some((row * 7 + col - offset + 1) as u64)
        }),
{
    let cell = row * 7 + col;
    if cell < offset || cell >= offset + days {
        None
    } else {
        Some(cell - offset + 1)
    }
}

/// Whether the grid's day `day` of `month` in `year` is `today`.
pub fn is_current_day(year: u64, month: SerializeableMonth, day: u64, today: DayTime) -> (r: bool)
    ensures
        r == (month == today.month && year == today.year && day == today.day),
{
    let is_current_period = month == today.month && year == today.year;
    is_current_period && day == today.day
}

/// Every day of the month is shown in exactly one cell of the grid, within its
/// rows and seven columns; a month of at most 31 days with day 1 at most six
/// cells in needs at most six rows.
pub proof fn law_grid_shows_each_day_once(offset: u64, days: u64, day: u64)
    requires
        offset <= 6,
        days <= 31,
        1 <= day <= days,
    ensures
        ({
            let cell = offset + day - 1;
            let row = cell / 7;
            let col = cell % 7;
            &&& col < 7
            &&& row < (offset + days + 6) / 7
            &&& row * 7 + col == cell
            &&& !(row * 7 + col < offset || row * 7 + col >= offset + days)
            &&& row * 7 + col - offset + 1 == day
        }),
        (offset + days + 6) / 7 <= 6,
{
}

/// The label an event gets in its day cell: its name, cut to its first 20
/// bytes followed by `..` when the name is longer than 20 bytes.
pub fn event_display_name(name: &str) -> (s: String)
    requires
        name.spec_bytes().len() <= usize::MAX,
        name.spec_bytes().len() > 20 ==> vstd::utf8::is_char_boundary(name.spec_bytes(), 20),
    ensures
        name.spec_bytes().len() <= 20 ==> s@ == name@,
        name.spec_bytes().len() > 20 ==> s@ == decode_utf8(name.spec_bytes().take(20)) + seq![
            '.',
            '.',
        ],
{
    if name.len() > 20 {
        let (head, _rest) = name.split_at(20);
        let mut s = String::from_str(head);
        proof {
            reveal_strlit("..");
            encode_utf8_decode_utf8(head@);
            assert(head.spec_bytes() =~= name.spec_bytes().take(20));
        }
        s.append("..");
        assert(".."@ =~= seq!['.', '.']);
        assert(decode_utf8(head.spec_bytes()) == head@);
        assert(s@ == decode_utf8(name.spec_bytes().take(20)) + seq!['.', '.']);
        s
    } else {
        String::from_str(name)
    }
}

/// The events after a webhook fetch: the fetched events replace the stored
/// ones when they override them, and follow them otherwise.
pub fn merge_fetched_events(events: Vec<Event>, fetched: Vec<Event>, override_local: bool) -> (r: Vec<Event>)
    ensures
        views(r@) == (if override_local {
            views(fetched@)
        } else {
            views(events@) + views(fetched@)
        }),
{
    if !override_local {
        let mut events = events;
        let mut fetched = fetched;
        let ghost old_events = events@;
        let ghost old_fetched = fetched@;
        events.append(&mut fetched);
        assert(views(events@) =~= views(old_events) + views(old_fetched));
        events
    } else {
        fetched
    }
}

/// The event form of a day: the day and what has been typed into the fields.
#[derive(Debug)]
pub struct WorkingEvent {
    pub time: DayTime,
    pub working_hour: String,
    pub working_minute: String,
    pub working_name: String,
    pub working_desc: String,
    pub working_notification_times: String,
    pub working_repeat_times: String,
    pub working_mirror_times: String,
    pub working_update_repeat_for_current_day: bool,
}

/// Whether a form's typed fields are all empty and its repeat box unticked.
pub open spec fn form_is_blank(w: WorkingEvent) -> bool {
    &&& w.working_hour@.len() == 0
    &&& w.working_minute@.len() == 0
    &&& w.working_name@.len() == 0
    &&& w.working_desc@.len() == 0
    &&& w.working_notification_times@.len() == 0
    &&& w.working_repeat_times@.len() == 0
    &&& w.working_mirror_times@.len() == 0
    &&& !w.working_update_repeat_for_current_day
}

impl WorkingEvent {
    /// An empty form for day 1 of `date`'s month.
    pub fn for_date(date: DayTime) -> (w: WorkingEvent)
        ensures
            w.time == (DayTime { year: date.year, month: date.month, day: 1 }),
            form_is_blank(w),
    {
        WorkingEvent {
            time: DayTime { year: date.year, month: date.month, day: 1 },
            working_hour: String::new(),
            working_minute: String::new(),
            working_name: String::new(),
            working_desc: String::new(),
            working_notification_times: String::new(),
            working_repeat_times: String::new(),
            working_update_repeat_for_current_day: false,
            working_mirror_times: String::new(),
        }
    }
}

impl Default for WorkingEvent {
    /// An empty form for day 1 of the current month, as the local clock gives
    /// it.
    fn default() -> (w: WorkingEvent)
        ensures
            w.time.day == 1,
            form_is_blank(w),
    {
        WorkingEvent::for_date(today())
    }
}

/// The event a filled-in form describes: set on the form's day at the typed
/// hour and minute, with the typed rules and no freeze time.
pub open spec fn form_event(w: WorkingEvent, hour: u64, minute: u64) -> EventView {
    EventView {
        name: w.working_name@,
        description: w.working_desc@,
        time: EventTime {
            year: w.time.year,
            month: w.time.month,
            day: w.time.day,
            hour,
            minuite: minute,
        },
        notify_times: parsed_simple_times(w.working_notification_times@),
        repeat_times: parsed_simple_times(w.working_repeat_times@),
        repeat_until_current_day: w.working_update_repeat_for_current_day,
        mirror_times: parsed_simple_times(w.working_mirror_times@),
        freeze_at_time: None,
    }
}

/// Whether the rules typed into a form read as amounts.
pub open spec fn form_rules_valid(w: WorkingEvent) -> bool {
    &&& simple_times_valid(w.working_notification_times@)
    &&& simple_times_valid(w.working_repeat_times@)
    &&& simple_times_valid(w.working_mirror_times@)
}

impl WorkingEvent {
    /// The event the form describes, or `None` while its hour or minute is not
    /// a number.
    pub fn to_event(&self) -> (r: Option<Event>)
        requires
            (parse_u64(self.working_hour@) is Some && parse_u64(self.working_minute@) is Some)
                ==> form_rules_valid(*self),
        ensures
            r is Some <==> (parse_u64(self.working_hour@) is Some && parse_u64(
                self.working_minute@,
            ) is Some),
            r matches Some(e) ==> e@ == form_event(
                *self,
                parse_u64(self.working_hour@).unwrap(),
                parse_u64(self.working_minute@).unwrap(),
            ),
    {
        match (parse_number(self.working_hour.as_str()), parse_number(self.working_minute.as_str())) {
            (Some(working_hour), Some(working_minute)) => {
                let time = EventTime::new(
                    self.time.year,
                    self.time.month.to_chrono(),
                    self.time.day,
                    working_hour,
                    working_minute,
                );
                proof {
                    crate::month::law_month_number_roundtrip(self.time.month);
                }
                Some(
                    Event {
                        name: self.working_name.clone(),
                        description: self.working_desc.clone(),
                        time,
                        notify_times: parse_simple_times(self.working_notification_times.as_str()),
                        repeat_times: parse_simple_times(self.working_repeat_times.as_str()),
                        mirror_times: parse_simple_times(self.working_mirror_times.as_str()),
                        repeat_until_current_day: self.working_update_repeat_for_current_day,
                        freeze_at_time: None,
                    },
                )
            },
            _ => None,
        }
    }

    /// The time a repeating event is frozen at from this form: the form's day,
    /// at the typed hour and minute, or the event's own where they are not
    /// numbers.
    pub fn freeze_time(&self, event_time: EventTime) -> (t: EventTime)
        ensures
            t == (EventTime {
                year: self.time.year,
                month: self.time.month,
                day: self.time.day,
                hour: match parse_u64(self.working_hour@) {
                    Some(h) => h,
                    None => event_time.hour,
                },
                minuite: match parse_u64(self.working_minute@) {
                    Some(m) => m,
                    None => event_time.minuite,
                },
            }),
    {
        let hour_to_freeze = match parse_number(self.working_hour.as_str()) {
            Some(h) => h,
            None => event_time.get_hour(),
        };
        let minuite_to_freeze = match parse_number(self.working_minute.as_str()) {
            Some(m) => m,
            None => event_time.get_minute(),
        };
        EventTime {
            year: self.time.year,
            month: self.time.month,
            day: self.time.day,
            hour: hour_to_freeze,
            minuite: minuite_to_freeze,
        }
    }
}

/// The event frozen at `time`: the same event with `time` as its freeze time.
pub fn frozen_event(event: &Event, time: EventTime) -> (e: Event)
    ensures
        e@ == (EventView { freeze_at_time: Some(time), ..event@ }),
{
    let mut new_event = event.clone();
    new_event.freeze_at_time = Some(time);
    new_event
}

} // verus!
