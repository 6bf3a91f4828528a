//! The event store: where it is kept, what it holds, and the changes the
//! calendar makes to it. Reading and writing the file is left to the caller;
//! this module works on the store's contents.

use crate::calendar::today;
use crate::event::{DayTime, Event, EventTime, EventView, Settings, SettingsView, default_settings};
use crate::recurrence::{
    day_after, intersects_by_day_repeat_at, law_limit_keeps_days_up_to_it,
    law_limited_repeat_never_after_its_day, law_repeat_ignores_date_when_unlimited, repeat_in_range,
    repeat_is_in_range, repeats_on_day,
};
use crate::text::chars_of;
use vstd::prelude::*;
use vstd::string::StringExecFns;

verus! {

broadcast use vstd::seq_lib::group_seq_properties;

/// The name of the file the store is kept in when no other is given.
pub open spec fn default_database_file() -> Seq<char> {
    seq!['d', 'a', 't', 'a', 'b', 'a', 's', 'e', '.', 'j', 's', 'o', 'n']
}

/// Where the store is kept: the path of its JSON file.
#[derive(Debug)]
pub struct JsonBackend {
    pub file: String,
}

impl Default for JsonBackend {
    fn default() -> (b: JsonBackend)
        ensures
            b.file@ == default_database_file(),
    {
        proof {
            reveal_strlit("database.json");
        }
        assert("database.json"@ =~= default_database_file());
        JsonBackend { file: String::from_str("database.json") }
    }
}

impl Clone for JsonBackend {
    fn clone(&self) -> (b: JsonBackend)
        ensures
            b.file@ == self.file@,
    {
        JsonBackend { file: self.file.clone() }
    }
}

impl JsonBackend {
    /// The store kept in `file`, or in `database.json` when no file is given.
    pub fn new(file: Option<String>) -> (b: JsonBackend)
        ensures
            b.file@ == (match file {
                Some(f) => f@,
                None => default_database_file(),
            }),
    {
        match file {
            Some(path) => JsonBackend { file: path },
            None => JsonBackend::default(),
        }
    }
}

/// The connection to the store on disk.
#[derive(Debug)]
pub struct Database {
    pub connection: JsonBackend,
}

impl Clone for Database {
    fn clone(&self) -> (d: Database)
        ensures
            d.connection.file@ == self.connection.file@,
    {
        Database { connection: self.connection.clone() }
    }
}

impl Database {
    /// A connection to the given store, or to the default store when none is
    /// given.
    pub fn new(conn: Option<JsonBackend>) -> (d: Database)
        ensures
            d.connection.file@ == (match conn {
                Some(c) => c.file@,
                None => default_database_file(),
            }),
    {
        let connection = match conn {
            Some(c) => c,
            None => JsonBackend::default(),
        };
        Database { connection }
    }

    /// A connection to the given store, or to the default store when none is
    /// given.
    pub fn fix_connection(conn: Option<JsonBackend>) -> (d: Database)
        ensures
            d.connection.file@ == (match conn {
                Some(c) => c.file@,
                None => default_database_file(),
            }),
    {
        let connection = match conn {
            Some(c) => c,
            None => JsonBackend::default(),
        };
        Database { connection }
    }
}

/// The store the calendar opens first: the default one.
pub fn first_connection() -> (r: Result<JsonBackend, String>)
    ensures
        r matches Ok(b) && b.file@ == default_database_file(),
{
    Ok(JsonBackend::new(None))
}

/// Whether a file's text holds nothing but white space, in which case the
/// store it holds is the empty store.
pub fn is_blank(contents: &str) -> (r: bool)
    ensures
        r == (forall|i: int| 0 <= i < contents@.len() ==> is_white_space(#[trigger] contents@[i])),
{
    let chars = chars_of(contents);
    let mut i: usize = 0;
    while i < chars.len()
        invariant
            chars@ == contents@,
            i <= chars.len(),
            forall|j: int| 0 <= j < i ==> is_white_space(#[trigger] contents@[j]),
        decreases chars.len() - i,
    {
        if !char_is_whitespace(chars[i]) {
            return false;
        }
        i = i + 1;
    }
    true
}

/// Whether `c` has Unicode's White_Space property: the ASCII tab, line feed,
/// vertical tab, form feed, carriage return and space, NEL, no-break space,
/// the Ogham space mark, the spaces U+2000 to U+200A, the line and paragraph
/// separators, the narrow no-break space, the medium mathematical space and
/// the ideographic space.
pub open spec fn is_white_space(c: char) -> bool {
    let u = c as u32;
    ||| (0x09 <= u && u <= 0x0D)
    ||| u == 0x20
    ||| u == 0x85
    ||| u == 0xA0
    ||| u == 0x1680
    ||| (0x2000 <= u && u <= 0x200A)
    ||| u == 0x2028
    ||| u == 0x2029
    ||| u == 0x202F
    ||| u == 0x205F
    ||| u == 0x3000
}

/// Calls `char::is_whitespace`, which is true exactly of the characters with
/// Unicode's White_Space property.
#[verifier::external_body]
fn char_is_whitespace(c: char) -> (r: bool)
    ensures
        r == is_white_space(c),
{
    c.is_whitespace()
}

/// Why the store refused a change.
#[derive(Debug, Clone, Copy, PartialEq, Eq, Structural)]
pub enum DatabaseError {
    /// An event already stands at the same hour of the same day.
    DuplicateEvent,
}

impl DatabaseError {
    /// The message shown for the refusal.
    pub fn message(&self) -> (s: String)
        ensures
            s@ == duplicate_event_message(),
    {
        proof {
            reveal_strlit("You cannot have duplicate events");
        }
        assert("You cannot have duplicate events"@ =~= duplicate_event_message());
        String::from_str("You cannot have duplicate events")
    }
}

/// The message shown when an event would duplicate another.
pub open spec fn duplicate_event_message() -> Seq<char> {
    seq![
        'Y', 'o', 'u', ' ', 'c', 'a', 'n', 'n', 'o', 't', ' ', 'h', 'a', 'v', 'e', ' ', 'd', 'u', 'p',
        'l', 'i', 'c', 'a', 't', 'e', ' ', 'e', 'v', 'e', 'n', 't', 's',
    ]
}

/// What the store holds: the events, in the order they were added, and the
/// settings.
#[derive(Debug)]
pub struct JsonBackendContent {
    pub events: Vec<Event>,
    pub settings: Settings,
}

/// The events of a list as values.
pub open spec fn views(v: Seq<Event>) -> Seq<EventView> {
    v.map_values(|e: Event| e@)
}

/// The store's contents as values.
pub struct JsonBackendContentView {
    pub events: Seq<EventView>,
    pub settings: SettingsView,
}

impl View for JsonBackendContent {
    type V = JsonBackendContentView;

    open spec fn view(&self) -> JsonBackendContentView {
        JsonBackendContentView { events: views(self.events@), settings: self.settings@ }
    }
}

impl Default for JsonBackendContent {
    fn default() -> (c: JsonBackendContent)
        ensures
            c@.events == Seq::<EventView>::empty(),
            c@.settings == default_settings(),
    {
        let c = JsonBackendContent { events: Vec::new(), settings: Settings::default() };
        assert(views(c.events@) =~= Seq::<EventView>::empty());
        c
    }
}

/// Whether two times fall in the same hour of the same day.
pub open spec fn same_hour(a: EventTime, b: EventTime) -> bool {
    a.year == b.year && a.month == b.month && a.day == b.day && a.hour == b.hour
}

/// Whether an event of `events` stands in the same hour of the same day as `t`.
pub open spec fn has_clash(events: Seq<EventView>, t: EventTime) -> bool {
    exists|i: int| 0 <= i < events.len() && same_hour(#[trigger] events[i].time, t)
}

/// The events after adding `e`: refused when an event stands in the same hour
/// of the same day, appended otherwise.
pub open spec fn with_event_added(events: Seq<EventView>, e: EventView) -> Option<Seq<EventView>> {
    if has_clash(events, e.time) {
        None
    } else {
        Some(events.push(e))
    }
}

/// Keeps the events not named `name`.
pub open spec fn not_named(name: Seq<char>) -> spec_fn(EventView) -> bool {
    |e: EventView| e.name != name
}

/// Keeps the events not set at `t`.
pub open spec fn not_at(t: EventTime) -> spec_fn(EventView) -> bool {
    |e: EventView| e.time != t
}

/// Whether the event shows on `time` when today is `now`: it is set on that
/// day, or its repeat rules bring it there.
pub open spec fn shown_on_day(e: EventView, time: DayTime, now: DayTime) -> bool {
    e.time.day_of() == time || repeats_on_day(
        e.time.day_of(),
        e.repeat_times,
        time,
        e.repeat_until_current_day,
        now,
    )
}

/// Keeps the events that show on `time` when today is `now`.
pub open spec fn shows_on(time: DayTime, now: DayTime) -> spec_fn(EventView) -> bool {
    |e: EventView| shown_on_day(e, time, now)
}

/// Whether the repeat rules of every event not set on `time` stay in range for
/// `time`.
pub open spec fn day_query_in_range(events: Seq<EventView>, time: DayTime) -> bool {
    forall|i: int|
        0 <= i < events.len() && (#[trigger] events[i]).time.day_of() != time ==> repeat_in_range(
            events[i].time.day_of(),
            events[i].repeat_times,
            time,
        )
}

proof fn lemma_views_push(v: Seq<Event>, e: Event)
    ensures
        views(v.push(e)) == views(v).push(e@),
{
    assert(views(v.push(e)) =~= views(v).push(e@));
}

proof fn lemma_views_take(v: Seq<Event>, i: int)
    requires
        0 <= i < v.len(),
    ensures
        views(v.take(i + 1)) == views(v.take(i)).push(v[i]@),
{
    assert(views(v.take(i + 1)) =~= views(v.take(i)).push(v[i]@));
}

/// A copy of the events of `events`.
pub fn clone_events(events: &Vec<Event>) -> (r: Vec<Event>)
    ensures
        views(r@) == views(events@),
{
    let mut r: Vec<Event> = Vec::new();
    let mut i: usize = 0;
    while i < events.len()
        invariant
            i <= events.len(),
            views(r@) == views(events@.take(i as int)),
        decreases events.len() - i,
    {
        let e = events[i].clone();
        proof {
            lemma_views_take(events@, i as int);
            lemma_views_push(r@, e);
        }
        r.push(e);
        i = i + 1;
    }
    assert(events@.take(events.len() as int) =~= events@);
    r
}

/// The events of `events` not named `name`, in order.
fn events_without_name(events: &Vec<Event>, name: &String) -> (r: Vec<Event>)
    ensures
        views(r@) == views(events@).filter(not_named(name@)),
{
    let mut r: Vec<Event> = Vec::new();
    let mut i: usize = 0;
    while i < events.len()
        invariant
            i <= events.len(),
            views(r@) == views(events@.take(i as int)).filter(not_named(name@)),
        decreases events.len() - i,
    {
        proof {
            lemma_views_take(events@, i as int);
            views(events@.take(i as int)).lemma_filter_push(events@[i as int]@, not_named(name@));
        }
        if events[i].name != *name {
            let e = events[i].clone();
            proof {
                lemma_views_push(r@, e);
            }
            r.push(e);
        }
        i = i + 1;
    }
    assert(events@.take(events.len() as int) =~= events@);
    r
}

/// The events of `events` not set at `time`, in order.
fn events_without_time(events: &Vec<Event>, time: EventTime) -> (r: Vec<Event>)
    ensures
        views(r@) == views(events@).filter(not_at(time)),
{
    let mut r: Vec<Event> = Vec::new();
    let mut i: usize = 0;
    while i < events.len()
        invariant
            i <= events.len(),
            views(r@) == views(events@.take(i as int)).filter(not_at(time)),
        decreases events.len() - i,
    {
        proof {
            lemma_views_take(events@, i as int);
            views(events@.take(i as int)).lemma_filter_push(events@[i as int]@, not_at(time));
        }
        if events[i].time != time {
            let e = events[i].clone();
            proof {
                lemma_views_push(r@, e);
            }
            r.push(e);
        }
        i = i + 1;
    }
    assert(events@.take(events.len() as int) =~= events@);
    r
}

impl JsonBackendContent {
    /// The events that show on `time` when today is `now`: those set on that
    /// day and those whose repeat rules bring them there, in stored order.
    pub fn events_on_day_at(&self, time: DayTime, now: DayTime) -> (r: Vec<Event>)
        requires
            day_query_in_range(self@.events, time),
        ensures
            views(r@) == self@.events.filter(shows_on(time, now)),
    {
        let mut r: Vec<Event> = Vec::new();
        let mut i: usize = 0;
        while i < self.events.len()
            invariant
                i <= self.events.len(),
                day_query_in_range(self@.events, time),
                views(r@) == views(self.events@.take(i as int)).filter(shows_on(time, now)),
            decreases self.events.len() - i,
        {
            proof {
                lemma_views_take(self.events@, i as int);
                views(self.events@.take(i as int)).lemma_filter_push(
                    self.events@[i as int]@,
                    shows_on(time, now),
                );
            }
            let event = &self.events[i];
            let day = event.time.into_day_time();
            let shown = if day == time {
                true
            } else {
                assert(views(self.events@)[i as int] == event@);
                intersects_by_day_repeat_at(
                    day,
                    &event.repeat_times,
                    time,
                    event.repeat_until_current_day,
                    &None,
                    now,
                )
            };
            if shown {
                let e = event.clone();
                proof {
                    lemma_views_push(r@, e);
                }
                r.push(e);
            }
            i = i + 1;
        }
        assert(self.events@.take(self.events.len() as int) =~= self.events@);
        r
    }
}

impl JsonBackendContent {
    /// Whether the day query for `time` keeps every consulted repeat rule in
    /// range.
    pub fn day_query_is_allowed(&self, time: DayTime) -> (r: bool)
        ensures
            r == day_query_in_range(self@.events, time),
    {
        let mut i: usize = 0;
        while i < self.events.len()
            invariant
                i <= self.events.len(),
                forall|j: int|
                    0 <= j < i && (#[trigger] views(self.events@)[j]).time.day_of() != time
                        ==> repeat_in_range(
                        views(self.events@)[j].time.day_of(),
                        views(self.events@)[j].repeat_times,
                        time,
                    ),
            decreases self.events.len() - i,
        {
            let event = &self.events[i];
            assert(views(self.events@)[i as int] == event@);
            let day = event.time.into_day_time();
            if day != time && !repeat_is_in_range(day, &event.repeat_times, time) {
                return false;
            }
            i = i + 1;
        }
        true
    }
}

/// The changes and questions the calendar puts to its events.
pub trait EventsDatabase {
    /// Whether the repeat rules the day query for `time` consults stay in range.
    spec fn day_query_allowed(&self, time: DayTime) -> bool;

    fn add_event(&mut self, event: Event) -> Result<(), DatabaseError>;

    fn remove_event_by_name(&mut self, event_name: String);

    fn set_events(&mut self, events: Vec<Event>);

    fn get_events(&self) -> Vec<Event>;

    fn get_events_on_day(&self, time: DayTime) -> Vec<Event>
        requires
            self.day_query_allowed(time),
    ;

    fn remove_event_by_time(&mut self, time: EventTime);
}

/// The changes and questions the calendar puts to its settings.
pub trait SettingsDatabase {
    fn set_settings(&mut self, value: Settings);

    fn get_settings(&self) -> Settings;
}

impl EventsDatabase for JsonBackendContent {
    open spec fn day_query_allowed(&self, time: DayTime) -> bool {
        day_query_in_range(self@.events, time)
    }

    /// Adds `event` after the others, unless an event already stands in the same
    /// hour of the same day.
    fn add_event(&mut self, event: Event) -> (r: Result<(), DatabaseError>)
        ensures
            match with_event_added(old(self)@.events, event@) {
                Some(events) => r is Ok && final(self)@.events == events,
                None => r == Err::<(), DatabaseError>(DatabaseError::DuplicateEvent) && final(self)@.events
                    == old(self)@.events,
            },
            final(self)@.settings == old(self)@.settings,
    {
        let mut i: usize = 0;
        let mut clash = false;
        while i < self.events.len()
            invariant
                i <= self.events.len(),
                clash == exists|j: int|
                    0 <= j < i && same_hour(#[trigger] views(self.events@)[j].time, event.time),
            decreases self.events.len() - i,
        {
            let existing_event = &self.events[i];
            assert(views(self.events@)[i as int] == existing_event@);
            let mut same = false;
            if existing_event.time.get_year() == event.time.get_year() && existing_event.time.month
                == event.time.month && existing_event.time.get_day() == event.time.get_day() {
                if existing_event.time.get_hour() == event.time.get_hour() {
                    same = true;
                }
            }
            assert(same == same_hour(views(self.events@)[i as int].time, event.time));
            if same {
                clash = true;
            }
            i = i + 1;
        }
        if !clash {
            proof {
                lemma_views_push(self.events@, event);
            }
            self.events.push(event);
            Ok(())
        } else {
            Err(DatabaseError::DuplicateEvent)
        }
    }

    /// Removes every event named `event_name`, keeping the others in order.
    fn remove_event_by_name(&mut self, event_name: String)
        ensures
            final(self)@.events == old(self)@.events.filter(not_named(event_name@)),
            final(self)@.settings == old(self)@.settings,
    {
        self.events = events_without_name(&self.events, &event_name);
    }

    /// Replaces the events with `events`.
    fn set_events(&mut self, events: Vec<Event>)
        ensures
            final(self)@.events == views(events@),
            final(self)@.settings == old(self)@.settings,
    {
        self.events = events;
    }

    /// The events, in order.
    fn get_events(&self) -> (r: Vec<Event>)
        ensures
            views(r@) == self@.events,
    {
        clone_events(&self.events)
    }

    /// The events that show on `time` today: those set on that day and those
    /// whose repeat rules bring them there, counting up to today's local date
    /// for the events that repeat only up to the current day.
    fn get_events_on_day(&self, time: DayTime) -> (r: Vec<Event>)
        ensures
            exists|now: DayTime|
                1 <= now.day <= 31 && views(r@) == self@.events.filter(shows_on(time, now)),
    {
        let now = today();
        self.events_on_day_at(time, now)
    }

    /// Removes every event set at `time`, keeping the others in order.
    fn remove_event_by_time(&mut self, time: EventTime)
        ensures
            final(self)@.events == old(self)@.events.filter(not_at(time)),
            final(self)@.settings == old(self)@.settings,
    {
        self.events = events_without_time(&self.events, time);
    }
}

impl SettingsDatabase for JsonBackendContent {
    /// Replaces the settings with `value`.
    fn set_settings(&mut self, value: Settings)
        ensures
            final(self)@.settings == value@,
            final(self)@.events == old(self)@.events,
    {
        self.settings = value;
    }

    /// The settings.
    fn get_settings(&self) -> (r: Settings)
        ensures
            r@ == self@.settings,
    {
        self.settings.clone()
    }
}

proof fn lemma_filter_keeps_all(s: Seq<EventView>, p: spec_fn(EventView) -> bool)
    requires
        forall|i: int| 0 <= i < s.len() ==> p(#[trigger] s[i]),
    ensures
        s.filter(p) == s,
    decreases s.len(),
{
    reveal_with_fuel(Seq::<_>::filter, 1);
    if s.len() > 0 {
        lemma_filter_keeps_all(s.drop_last(), p);
        assert(s.drop_last().push(s.last()) =~= s);
    }
}

/// An event that is accepted is stored after all the events before it.
pub proof fn law_added_event_is_stored(events: Seq<EventView>, e: EventView)
    ensures
        with_event_added(events, e) matches Some(n) ==> n.len() == events.len() + 1 && n.last() == e
            && n.drop_last() == events && n.contains(e),
        with_event_added(events, e) is None <==> has_clash(events, e.time),
{
    if let Some(n) = with_event_added(events, e) {
        assert(n.drop_last() =~= events);
        assert(n[n.len() - 1] == e);
    }
}

/// Removing by its time an event that was just accepted gives back the events
/// as they were before it was added.
pub proof fn law_add_then_remove_by_time(events: Seq<EventView>, e: EventView)
    requires
        with_event_added(events, e) is Some,
    ensures
        with_event_added(events, e).unwrap().filter(not_at(e.time)) == events,
{
    assert forall|i: int| 0 <= i < events.len() implies (#[trigger] not_at(e.time)(events[i])) by {
        if events[i].time == e.time {
            assert(same_hour(events[i].time, e.time));
        }
    }
    lemma_filter_keeps_all(events, not_at(e.time));
    events.lemma_filter_push(e, not_at(e.time));
}

/// After removing the events named `name` none is left with that name, every
/// event with another name stays, and removing them again changes nothing.
pub proof fn law_remove_by_name(events: Seq<EventView>, name: Seq<char>)
    ensures
        forall|i: int|
            0 <= i < events.filter(not_named(name)).len() ==> #[trigger] events.filter(
                not_named(name),
            )[i].name != name,
        forall|i: int|
            0 <= i < events.len() && #[trigger] events[i].name != name ==> events.filter(
                not_named(name),
            ).contains(events[i]),
        events.filter(not_named(name)).filter(not_named(name)) == events.filter(not_named(name)),
{
    let f = events.filter(not_named(name));
    assert forall|i: int| 0 <= i < f.len() implies #[trigger] f[i].name != name by {
        events.lemma_filter_pred(not_named(name), i);
    }
    assert forall|i: int| 0 <= i < events.len() && #[trigger] events[i].name != name implies f.contains(
        events[i],
    ) by {
        events.lemma_filter_contains(not_named(name), i);
    }
    assert forall|i: int| 0 <= i < f.len() implies (#[trigger] not_named(name)(f[i])) by {
        events.lemma_filter_pred(not_named(name), i);
    }
    lemma_filter_keeps_all(f, not_named(name));
}

/// After removing the events set at `t` none is left at that time, and every
/// event at another time stays.
pub proof fn law_remove_by_time(events: Seq<EventView>, t: EventTime)
    ensures
        forall|i: int|
            0 <= i < events.filter(not_at(t)).len() ==> #[trigger] events.filter(not_at(t))[i].time
                != t,
        forall|i: int|
            0 <= i < events.len() && #[trigger] events[i].time != t ==> events.filter(
                not_at(t),
            ).contains(events[i]),
{
    let f = events.filter(not_at(t));
    assert forall|i: int| 0 <= i < f.len() implies #[trigger] f[i].time != t by {
        events.lemma_filter_pred(not_at(t), i);
    }
    assert forall|i: int| 0 <= i < events.len() && #[trigger] events[i].time != t implies f.contains(
        events[i],
    ) by {
        events.lemma_filter_contains(not_at(t), i);
    }
}

/// The day query lists every event set on the day asked about, whatever day
/// today is.
pub proof fn law_day_query_lists_events_of_the_day(
    events: Seq<EventView>,
    time: DayTime,
    now: DayTime,
    i: int,
)
    requires
        0 <= i < events.len(),
        events[i].time.day_of() == time,
    ensures
        events.filter(shows_on(time, now)).contains(events[i]),
{
    events.lemma_filter_contains(shows_on(time, now), i);
}

/// Whether the day query lists an event that does not repeat up to the
/// current day does not depend on which day today is.
pub proof fn law_day_query_ignores_today_for_unlimited_events(
    e: EventView,
    time: DayTime,
    now1: DayTime,
    now2: DayTime,
)
    requires
        !e.repeat_until_current_day,
    ensures
        shown_on_day(e, time, now1) == shown_on_day(e, time, now2),
{
    law_repeat_ignores_date_when_unlimited(e.time.day_of(), e.repeat_times, time, now1, now2);
}

/// An event is refused exactly when a stored event stands in the same year,
/// month, day and hour; events in another month, or another hour, never clash.
pub proof fn law_refused_exactly_on_same_day_and_hour(events: Seq<EventView>, e: EventView)
    ensures
        with_event_added(events, e) is None <==> exists|i: int|
            0 <= i < events.len() && #[trigger] events[i].time.year == e.time.year
                && events[i].time.month == e.time.month && events[i].time.day == e.time.day
                && events[i].time.hour == e.time.hour,
{
    if with_event_added(events, e) is None {
        let i = choose|i: int| 0 <= i < events.len() && same_hour(#[trigger] events[i].time, e.time);
        assert(events[i].time.year == e.time.year);
    }
    if exists|i: int|
        0 <= i < events.len() && #[trigger] events[i].time.year == e.time.year
            && events[i].time.month == e.time.month && events[i].time.day == e.time.day
            && events[i].time.hour == e.time.hour {
        let i = choose|i: int|
            0 <= i < events.len() && #[trigger] events[i].time.year == e.time.year
                && events[i].time.month == e.time.month && events[i].time.day == e.time.day
                && events[i].time.hour == e.time.hour;
        assert(same_hour(events[i].time, e.time));
    }
}

/// The day query never lists an event that repeats only up to the current day
/// on a day after today, unless the event is set on that day itself (events
/// whose rules hold a year amount aside).
pub proof fn law_day_query_respects_current_day_limit(e: EventView, time: DayTime, now: DayTime)
    requires
        e.repeat_until_current_day,
        forall|i: int| 0 <= i < e.repeat_times.len() ==> !(#[trigger] e.repeat_times[i] is Year),
        day_after(time, now),
        e.time.day_of() != time,
    ensures
        !shown_on_day(e, time, now),
{
    law_limited_repeat_never_after_its_day(e.time.day_of(), e.repeat_times, time, now);
}

/// For an event that repeats only up to the current day, the day query lists
/// it on the days of this year, up to today and not in a month before its own,
/// on which its rules without the limit would show it (events whose rules hold
/// a year amount aside).
pub proof fn law_day_query_keeps_days_up_to_today(e: EventView, time: DayTime, now: DayTime)
    requires
        e.repeat_until_current_day,
        forall|i: int| 0 <= i < e.repeat_times.len() ==> !(#[trigger] e.repeat_times[i] is Year),
        time.year == now.year,
        !day_after(time, now),
        time.month.number() >= e.time.month.number(),
        repeats_on_day(e.time.day_of(), e.repeat_times, time, false, now),
    ensures
        shown_on_day(e, time, now),
{
    law_limit_keeps_days_up_to_it(e.time.day_of(), e.repeat_times, time, now, now);
}

/// The day query lists an event that repeats without limit exactly on its own
/// day and on the days its repeat rules bring it to, whatever day today is.
pub proof fn law_day_query_unlimited_event(e: EventView, time: DayTime, now: DayTime, d0: DayTime)
    requires
        !e.repeat_until_current_day,
    ensures
        shown_on_day(e, time, now) == (e.time.day_of() == time || repeats_on_day(
            e.time.day_of(),
            e.repeat_times,
            time,
            false,
            d0,
        )),
{
    law_repeat_ignores_date_when_unlimited(e.time.day_of(), e.repeat_times, time, now, d0);
}

} // verus!
