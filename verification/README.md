# calendar_rs

A desktop calendar whose events can repeat, mirror onto weekdays, and be
forwarded to webhooks. The library under `src/` is verified with Verus; the
window, the JSON file and the webhooks live in `app/`.

- `month.rs`: the calendar's month type, its English names, its bridge to
  `chrono::Month`, month shifts and month lengths.
- `calendar.rs`: weekdays, the first week of a month, today's date.
- `event.rs`: events, event times, days, settings.
- `simple_times.rs`: reading recurrence rules such as `1d,2w`.
- `recurrence.rs`: on which days a repeating or mirrored event shows.
- `database.rs`: the event store's contents and the changes made to it.
- `calendar_view.rs`: the month grid, event labels, the event form, merging
  events fetched from a webhook.
