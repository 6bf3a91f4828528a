//! The recurrence rules: on which days a repeating or mirrored event shows up.

use crate::calendar::{convert_day_num_to_day, day_at, today};
use crate::event::{DayTime, EventTime, SimpleTimes};
use crate::month::{
    get_month_index, shift_months, shift_months_defined, shift_months_is_defined, shifted_month,
};
use vstd::prelude::*;

verus! {

/// Whether moving `orig` by the amount `t` stays in range: sums stay within
/// `u64` and a month shift is one `shift_months` has a month for.
pub open spec fn shift_in_range(orig: DayTime, t: SimpleTimes) -> bool {
    match t {
        SimpleTimes::Year(y) => orig.year + y <= u64::MAX,
        SimpleTimes::Month(m) => m <= i64::MAX && shift_months_defined(orig.month, m as i64),
        SimpleTimes::Week(w) => w * 7 <= u64::MAX && orig.day + w * 7 <= u64::MAX,
        SimpleTimes::Day(d) => orig.day + d <= u64::MAX,
        _ => true,
    }
}

/// The day the amount `t` moves `orig` to: years and days are added, a month
/// amount shifts the month, other amounts leave the day as it is.
pub open spec fn shifted_time(orig: DayTime, t: SimpleTimes) -> DayTime {
    match t {
        SimpleTimes::Year(y) => DayTime { year: (orig.year + y) as u64, ..orig },
        SimpleTimes::Month(m) => DayTime { month: shifted_month(orig.month, m as i64), ..orig },
        SimpleTimes::Week(w) => DayTime { day: (orig.day + w * 7) as u64, ..orig },
        SimpleTimes::Day(d) => DayTime { day: (orig.day + d) as u64, ..orig },
        _ => orig,
    }
}

/// The day `orig` moved by the amount `t`.
pub fn shift_time(orig: DayTime, t: &SimpleTimes) -> (r: DayTime)
    requires
        shift_in_range(orig, *t),
    ensures
        r == shifted_time(orig, *t),
{
    match t {
        SimpleTimes::Year(y) => DayTime { year: orig.year + *y, month: orig.month, day: orig.day },
        SimpleTimes::Month(m) => DayTime {
            year: orig.year,
            month: shift_months(orig.month, *m as i64),
            day: orig.day,
        },
        SimpleTimes::Week(w) => DayTime { year: orig.year, month: orig.month, day: orig.day + (*w * 7) },
        SimpleTimes::Day(d) => DayTime { year: orig.year, month: orig.month, day: orig.day + *d },
        _ => DayTime { year: orig.year, month: orig.month, day: orig.day },
    }
}

// ------------------------------------------------------------------------
// Mirrored events
// ------------------------------------------------------------------------

/// One amount's effect on whether a mirrored event shows on `comp`: a day or
/// week amount shows it when `comp` and `orig` fall on the same weekday, a
/// month or year amount clears the answer, other amounts keep it.
pub open spec fn mirror_step(acc: bool, orig: DayTime, t: SimpleTimes, comp: DayTime) -> bool {
    match t {
        SimpleTimes::Week(_) | SimpleTimes::Day(_) => if day_at(comp.day as int % 7) == day_at(
            orig.day as int % 7,
        ) {
            true
        } else {
            acc
        },
        SimpleTimes::Month(_) | SimpleTimes::Year(_) => false,
        _ => acc,
    }
}

/// The answer after the first `n` amounts of `times`.
pub open spec fn mirror_fold(orig: DayTime, times: Seq<SimpleTimes>, n: nat, comp: DayTime) -> bool
    decreases n,
{
    if n == 0 || n > times.len() {
        false
    } else {
        mirror_step(mirror_fold(orig, times, (n - 1) as nat, comp), orig, times[n - 1], comp)
    }
}

/// Whether an event on `orig` mirrored by `times` shows on `comp`.
pub open spec fn mirrors_on_day(orig: DayTime, times: Seq<SimpleTimes>, comp: DayTime) -> bool {
    mirror_fold(orig, times, times.len(), comp)
}

/// Whether every amount of `times` moves `orig` within range.
pub open spec fn shifts_in_range(orig: DayTime, times: Seq<SimpleTimes>) -> bool {
    forall|i: int| 0 <= i < times.len() ==> #[trigger] shift_in_range(orig, times[i])
}

/// Whether an event on `original_time` mirrored by `times` shows on
/// `comparison_time`. The freeze time plays no part in the answer.
pub fn intersects_by_day_mirror(
    original_time: DayTime,
    times: Vec<SimpleTimes>,
    comparison_time: DayTime,
    freeze_at_time: &Option<EventTime>,
) -> (r: bool)
    requires
        shifts_in_range(original_time, times@),
    ensures
        r == mirrors_on_day(original_time, times@, comparison_time),
{
    let mut intersects = false;
    let mut i: usize = 0;
    while i < times.len()
        invariant
            i <= times.len(),
            shifts_in_range(original_time, times@),
            intersects == mirror_fold(original_time, times@, i as nat, comparison_time),
        decreases times.len() - i,
    {
        let time = &times[i];
        assert(shift_in_range(original_time, times@[i as int]));
        // The moved day is computed as for repeating events, though mirroring
        // only compares weekdays.
        let _final_time = shift_time(original_time, time);
        match time {
            SimpleTimes::Week(_) | SimpleTimes::Day(_) => {
                if convert_day_num_to_day(&comparison_time.day) == convert_day_num_to_day(
                    &original_time.day,
                ) {
                    intersects = true;
                }
            },
            SimpleTimes::Month(_) | SimpleTimes::Year(_) => {
                intersects = false;
            },
            _ => {},
        }
        i = i + 1;
    }
    intersects
}

// ------------------------------------------------------------------------
// Repeating events
// ------------------------------------------------------------------------

/// The rule of a day or week amount: `comp` lies strictly between `orig` and
/// the moved day `fin_day` in `orig`'s month and year, and, when the event
/// repeats only up to `date` (`limited`), `comp` is not after `date`'s day in
/// `date`'s month or lies in an earlier month of a year not after `date`'s.
pub open spec fn day_rule(
    acc: bool,
    orig: DayTime,
    fin_day: int,
    comp: DayTime,
    limited: bool,
    date: DayTime,
) -> bool {
    if comp.day > orig.day && comp.day < fin_day && orig.month == comp.month && orig.year
        == comp.year && (!limited || (comp.day <= date.day && comp.month == date.month
        && comp.year == date.year) || (comp.month.number() < date.month.number() && comp.year
        <= date.year)) {
        true
    } else {
        acc
    }
}

/// The rule of a month amount `m`: in `orig`'s year, `comp` is in `orig`'s
/// month after `orig`'s day, or in the shifted month before `orig`'s day, or in
/// a later month than `orig`'s other than the shifted one; when the event
/// repeats only up to `date`, `comp` must moreover not be after `date`.
pub open spec fn month_rule(
    acc: bool,
    orig: DayTime,
    m: u64,
    comp: DayTime,
    limited: bool,
    date: DayTime,
) -> bool {
    let fin_month = shifted_month(orig.month, m as i64);
    if (((orig.day < comp.day && orig.month == comp.month) || (orig.day > comp.day && fin_month
        == comp.month)) || (fin_month != comp.month && orig.month.index() < comp.month.index()))
        && orig.year == comp.year {
        if !limited {
            true
        } else if comp.month.index() <= date.month.index() && comp.year <= date.year
            && comp.month.number() >= orig.month.number() && comp.year >= orig.year {
            if comp.month.index() == date.month.index() && comp.year == date.year {
                if date.day >= comp.day {
                    true
                } else {
                    acc
                }
            } else {
                true
            }
        } else {
            acc
        }
    } else {
        acc
    }
}

/// The rule of a year amount `y`: when `comp`'s year lies from `orig`'s year to
/// `y` years later, the answer in the first and the last of those years comes
/// from the month rule of `orig`'s month position (negated in the last year,
/// where it starts the day before), and in the years between it is yes.
pub open spec fn year_rule(
    acc: bool,
    orig: DayTime,
    y: u64,
    comp: DayTime,
    limited: bool,
    date: DayTime,
) -> bool {
    let fin_year = orig.year + y;
    if orig.year <= comp.year && fin_year >= comp.year {
        if fin_year == comp.year || orig.year == comp.year {
            let k = orig.month.index() as u64;
            if fin_year == comp.year {
                !month_rule(
                    false,
                    DayTime { year: fin_year as u64, month: orig.month, day: (orig.day - 1) as u64 },
                    k,
                    comp,
                    limited,
                    date,
                )
            } else {
                month_rule(false, orig, k, comp, limited, date)
            }
        } else {
            true
        }
    } else {
        acc
    }
}

/// One amount's effect on whether a repeating event shows on `comp`.
pub open spec fn repeat_step(
    acc: bool,
    orig: DayTime,
    t: SimpleTimes,
    comp: DayTime,
    limited: bool,
    date: DayTime,
) -> bool {
    match t {
        SimpleTimes::Year(y) => year_rule(acc, orig, y, comp, limited, date),
        SimpleTimes::Month(m) => month_rule(acc, orig, m, comp, limited, date),
        SimpleTimes::Week(w) => day_rule(acc, orig, orig.day + w * 7, comp, limited, date),
        SimpleTimes::Day(d) => day_rule(acc, orig, orig.day + d, comp, limited, date),
        _ => acc,
    }
}

/// The answer after the first `n` amounts of `times`.
pub open spec fn repeat_fold(
    orig: DayTime,
    times: Seq<SimpleTimes>,
    n: nat,
    comp: DayTime,
    limited: bool,
    date: DayTime,
) -> bool
    decreases n,
{
    if n == 0 || n > times.len() {
        false
    } else {
        repeat_step(
            repeat_fold(orig, times, (n - 1) as nat, comp, limited, date),
            orig,
            times[n - 1],
            comp,
            limited,
            date,
        )
    }
}

/// The rule of an event with no amounts: it shows only when it repeats up to
/// `date`, from `orig` on and not after `date`.
pub open spec fn unbounded_rule(orig: DayTime, comp: DayTime, limited: bool, date: DayTime) -> bool {
    if limited && comp.month.index() <= date.month.index() && comp.year <= date.year
        && comp.month.number() >= orig.month.number() && comp.year >= orig.year {
        if comp.month.index() == date.month.index() && comp.year == date.year {
            date.day >= comp.day && comp.day >= orig.day
        } else if comp.month == orig.month {
            comp.day >= orig.day
        } else {
            true
        }
    } else {
        false
    }
}

/// Whether an event on `orig` repeating by `times` shows on `comp`, where
/// `limited` says that it repeats only up to `date`.
pub open spec fn repeats_on_day(
    orig: DayTime,
    times: Seq<SimpleTimes>,
    comp: DayTime,
    limited: bool,
    date: DayTime,
) -> bool {
    if times.len() == 0 {
        unbounded_rule(orig, comp, limited, date)
    } else {
        repeat_fold(orig, times, times.len(), comp, limited, date)
    }
}

/// Whether a year amount's month rule stays in range: in the first and last
/// year the month position of `orig` must be a shift `shift_months` has a month
/// for, and in the last year `orig` must not be day 0.
pub open spec fn year_rule_in_range(orig: DayTime, y: u64, comp: DayTime) -> bool {
    let fin_year = orig.year + y;
    (orig.year <= comp.year && fin_year >= comp.year && (fin_year == comp.year || orig.year
        == comp.year)) ==> (shift_months_defined(orig.month, orig.month.index() as i64) && (
    fin_year == comp.year ==> orig.day >= 1))
}

/// Whether the repeat rule of the amount `t` for `orig` and `comp` stays in
/// range.
pub open spec fn repeat_item_in_range(orig: DayTime, t: SimpleTimes, comp: DayTime) -> bool {
    shift_in_range(orig, t) && match t {
        SimpleTimes::Year(y) => year_rule_in_range(orig, y, comp),
        _ => true,
    }
}

/// Whether the repeat rules of `times` for `orig` and `comp` stay in range.
pub open spec fn repeat_in_range(orig: DayTime, times: Seq<SimpleTimes>, comp: DayTime) -> bool {
    forall|i: int| 0 <= i < times.len() ==> #[trigger] repeat_item_in_range(orig, times[i], comp)
}

/// Whether `times` holds a year amount.
pub open spec fn has_year(times: Seq<SimpleTimes>) -> bool {
    exists|i: int| 0 <= i < times.len() && #[trigger] times[i] is Year
}

/// The date the repeat rules count up to: the freeze time's day when there is
/// one, `now` otherwise.
pub open spec fn effective_date(freeze_at_time: Option<EventTime>, now: DayTime) -> DayTime {
    match freeze_at_time {
        Some(f) => f.day_of(),
        None => now,
    }
}

/// Whether an event on `original_time` repeating by `times` shows on
/// `comparison_time`, when today is `now`. With `repeat_until_current_day` or
/// a freeze time, the event repeats only up to the freeze time's day, or up to
/// `now` when there is none.
pub fn intersects_by_day_repeat_at(
    original_time: DayTime,
    times: &Vec<SimpleTimes>,
    comparison_time: DayTime,
    repeat_until_current_day: bool,
    freeze_at_time: &Option<EventTime>,
    now: DayTime,
) -> (r: bool)
    requires
        repeat_in_range(original_time, times@, comparison_time),
    ensures
        r == repeats_on_day(
            original_time,
            times@,
            comparison_time,
            repeat_until_current_day || freeze_at_time is Some,
            effective_date(*freeze_at_time, now),
        ),
    decreases (if has_year(times@) {
        1int
    } else {
        0int
    }),
{
    let date = match freeze_at_time {
        Some(freeze_date) => DayTime {
            year: freeze_date.get_year(),
            month: freeze_date.month,
            day: freeze_date.get_day(),
        },
        None => now,
    };
    let ghost limited = repeat_until_current_day || freeze_at_time is Some;
    let mut intersects = false;
    let mut i: usize = 0;
    while i < times.len()
        invariant
            i <= times.len(),
            repeat_in_range(original_time, times@, comparison_time),
            limited == (repeat_until_current_day || freeze_at_time is Some),
            date == effective_date(*freeze_at_time, now),
            intersects == repeat_fold(original_time, times@, i as nat, comparison_time, limited, date),
        decreases times.len() - i,
    {
        let time = &times[i];
        assert(repeat_item_in_range(original_time, times@[i as int], comparison_time));
        let final_time = shift_time(original_time, time);
        match time {
            SimpleTimes::Week(_) | SimpleTimes::Day(_) => {
                if comparison_time.day > original_time.day && comparison_time.day < final_time.day
                    && original_time.month == comparison_time.month && original_time.year
                    == comparison_time.year && ((!repeat_until_current_day
                    && freeze_at_time.is_none()) || (comparison_time.day <= date.day
                    && comparison_time.month == date.month && comparison_time.year == date.year)
                    || (comparison_time.month.month_number() < date.month.month_number()
                    && comparison_time.year <= date.year)) {
                    intersects = true;
                }
            },
            SimpleTimes::Year(_) => {
                if original_time.year <= comparison_time.year && final_time.year
                    >= comparison_time.year {
                    if final_time.year == comparison_time.year || original_time.year
                        == comparison_time.year {
                        let k = get_month_index(final_time.month).unwrap() as u64;
                        assert(has_year(times@)) by {
                            assert(times@[i as int] is Year);
                        }
                        if final_time.year == comparison_time.year {
                            let start = DayTime {
                                year: final_time.year,
                                month: final_time.month,
                                day: final_time.day - 1,
                            };
                            let single = vec![SimpleTimes::Month(k)];
                            assert(!has_year(single@));
                            let inner = intersects_by_day_repeat_at(
                                start,
                                &single,
                                comparison_time,
                                repeat_until_current_day,
                                freeze_at_time,
                                now,
                            );
                            proof {
                                reveal_with_fuel(repeat_fold, 2);
                            }
                            intersects = !inner;
                        } else {
                            let single = vec![SimpleTimes::Month(k)];
                            assert(!has_year(single@));
                            let inner = intersects_by_day_repeat_at(
                                original_time,
                                &single,
                                comparison_time,
                                repeat_until_current_day,
                                freeze_at_time,
                                now,
                            );
                            proof {
                                reveal_with_fuel(repeat_fold, 2);
                            }
                            intersects = inner;
                        }
                    } else {
                        intersects = true;
                    }
                }
            },
            SimpleTimes::Month(_) => {
                if (((final_time.day < comparison_time.day && original_time.month
                    == comparison_time.month) || (final_time.day > comparison_time.day
                    && final_time.month == comparison_time.month)) || (final_time.month
                    != comparison_time.month) && get_month_index(original_time.month).unwrap()
                    < get_month_index(comparison_time.month).unwrap()) && original_time.year
                    == comparison_time.year {
                    if !repeat_until_current_day && freeze_at_time.is_none() {
                        intersects = true;
                    } else {
                        if get_month_index(comparison_time.month).unwrap() <= get_month_index(
                            date.month,
                        ).unwrap() && comparison_time.year <= date.year
                            && comparison_time.month.month_number()
                            >= original_time.month.month_number() && comparison_time.year
                            >= original_time.year {
                            if get_month_index(comparison_time.month).unwrap() == get_month_index(
                                date.month,
                            ).unwrap() && comparison_time.year == date.year {
                                if date.day >= comparison_time.day {
                                    intersects = true;
                                }
                            } else {
                                intersects = true;
                            }
                        }
                    }
                }
            },
            _ => {},
        }
        i = i + 1;
    }
    if times.len() == 0 {
        if repeat_until_current_day || freeze_at_time.is_some() {
            if get_month_index(comparison_time.month).unwrap() <= get_month_index(
                date.month,
            ).unwrap() && comparison_time.year <= date.year && comparison_time.month.month_number()
                >= original_time.month.month_number() && comparison_time.year
                >= original_time.year {
                if get_month_index(comparison_time.month).unwrap() == get_month_index(
                    date.month,
                ).unwrap() && comparison_time.year == date.year {
                    if date.day >= comparison_time.day && comparison_time.day >= original_time.day {
                        intersects = true;
                    }
                } else if comparison_time.month == original_time.month {
                    if comparison_time.day >= original_time.day {
                        intersects = true;
                    }
                } else {
                    intersects = true;
                }
            }
        }
    }
    intersects
}

/// Whether moving `orig` by the amount `t` stays in range.
pub fn shift_is_in_range(orig: DayTime, t: &SimpleTimes) -> (r: bool)
    ensures
        r == shift_in_range(orig, *t),
{
    match t {
        SimpleTimes::Year(y) => orig.year.checked_add(*y).is_some(),
        SimpleTimes::Month(m) => *m <= i64::MAX as u64 && shift_months_is_defined(orig.month, *m as i64),
        SimpleTimes::Week(w) => match w.checked_mul(7) {
            Some(days) => orig.day.checked_add(days).is_some(),
            None => false,
        },
        SimpleTimes::Day(d) => orig.day.checked_add(*d).is_some(),
        _ => true,
    }
}

/// Whether every amount of `times` moves `orig` within range.
pub fn shifts_are_in_range(orig: DayTime, times: &Vec<SimpleTimes>) -> (r: bool)
    ensures
        r == shifts_in_range(orig, times@),
{
    let mut i: usize = 0;
    while i < times.len()
        invariant
            i <= times.len(),
            forall|j: int| 0 <= j < i ==> #[trigger] shift_in_range(orig, times@[j]),
        decreases times.len() - i,
    {
        if !shift_is_in_range(orig, &times[i]) {
            return false;
        }
        i = i + 1;
    }
    true
}

/// Whether the repeat rules of `times` for `orig` and `comp` stay in range.
pub fn repeat_is_in_range(orig: DayTime, times: &Vec<SimpleTimes>, comp: DayTime) -> (r: bool)
    ensures
        r == repeat_in_range(orig, times@, comp),
{
    let mut i: usize = 0;
    while i < times.len()
        invariant
            i <= times.len(),
            forall|j: int| 0 <= j < i ==> #[trigger] repeat_item_in_range(orig, times@[j], comp),
        decreases times.len() - i,
    {
        let t = &times[i];
        assert(times@[i as int] == *t);
        if !shift_is_in_range(orig, t) {
            assert(!repeat_item_in_range(orig, times@[i as int], comp));
            return false;
        }
        if let SimpleTimes::Year(y) = t {
            let fin_year = orig.year + *y;
            if orig.year <= comp.year && fin_year >= comp.year && (fin_year == comp.year || orig.year
                == comp.year) {
                let k = orig.month.month_number() as i64 - 1;
                if !shift_months_is_defined(orig.month, k) || (fin_year == comp.year && orig.day < 1) {
                    assert(!year_rule_in_range(orig, *y, comp));
                    assert(!repeat_item_in_range(orig, times@[i as int], comp));
                    return false;
                }
            }
            assert(year_rule_in_range(orig, *y, comp));
        }
        assert(repeat_item_in_range(orig, times@[i as int], comp));
        i = i + 1;
    }
    true
}

/// Whether an event on `original_time` repeating by `times` shows on
/// `comparison_time` today. With `repeat_until_current_day` or a freeze time
/// the event repeats only up to the freeze time's day, or up to today's local
/// date (read from the clock) when there is none.
pub fn intersects_by_day_repeat(
    original_time: DayTime,
    times: Vec<SimpleTimes>,
    comparison_time: DayTime,
    repeat_until_current_day: bool,
    freeze_at_time: &Option<EventTime>,
) -> (r: bool)
    requires
        repeat_in_range(original_time, times@, comparison_time),
    ensures
        exists|now: DayTime|
            1 <= now.day <= 31 && r == repeats_on_day(
                original_time,
                times@,
                comparison_time,
                repeat_until_current_day || freeze_at_time is Some,
                effective_date(*freeze_at_time, now),
            ),
        freeze_at_time matches Some(f) ==> r == repeats_on_day(
            original_time,
            times@,
            comparison_time,
            true,
            f.day_of(),
        ),
        (!repeat_until_current_day && freeze_at_time is None) ==> r == repeats_on_day(
            original_time,
            times@,
            comparison_time,
            false,
            original_time,
        ),
{
    let now = today();
    let r = intersects_by_day_repeat_at(
        original_time,
        &times,
        comparison_time,
        repeat_until_current_day,
        freeze_at_time,
        now,
    );
    proof {
        if !repeat_until_current_day && freeze_at_time is None {
            law_repeat_ignores_date_when_unlimited(
                original_time,
                times@,
                comparison_time,
                now,
                original_time,
            );
        }
    }
    r
}

/// The day-number rule gives equal weekdays exactly to day numbers equal
/// modulo seven.
pub proof fn law_same_weekday_iff_same_residue(a: u64, b: u64)
    ensures
        (day_at(a as int % 7) == day_at(b as int % 7)) <==> (a as int % 7 == b as int % 7),
{
}

/// A mirrored event whose amounts are all days or weeks shows exactly on the
/// days with its own weekday.
pub proof fn law_mirror_by_days_matches_weekday(orig: DayTime, times: Seq<SimpleTimes>, comp: DayTime)
    requires
        times.len() > 0,
        forall|i: int| 0 <= i < times.len() ==> (#[trigger] times[i] is Day || times[i] is Week),
    ensures
        mirrors_on_day(orig, times, comp) == (comp.day as int % 7 == orig.day as int % 7),
    decreases times.len(),
{
    lemma_mirror_fold_days(orig, times, times.len(), comp);
}

proof fn lemma_mirror_fold_days(orig: DayTime, times: Seq<SimpleTimes>, n: nat, comp: DayTime)
    requires
        0 < n <= times.len(),
        forall|i: int| 0 <= i < times.len() ==> (#[trigger] times[i] is Day || times[i] is Week),
    ensures
        mirror_fold(orig, times, n, comp) == (comp.day as int % 7 == orig.day as int % 7),
    decreases n,
{
    assert(times[n - 1] is Day || times[n - 1] is Week);
    law_same_weekday_iff_same_residue(comp.day, orig.day);
    let prev = mirror_fold(orig, times, (n - 1) as nat, comp);
    assert(mirror_fold(orig, times, n, comp) == mirror_step(prev, orig, times[n - 1], comp));
    if n > 1 {
        lemma_mirror_fold_days(orig, times, (n - 1) as nat, comp);
    }
    assert(mirror_step(prev, orig, times[n - 1], comp) == (day_at(comp.day as int % 7) == day_at(orig.day as int % 7) || prev));
}

/// A mirrored event whose last amount is a month or a year shows on no day.
pub proof fn law_mirror_ending_in_month_or_year(orig: DayTime, times: Seq<SimpleTimes>, comp: DayTime)
    requires
        times.len() > 0,
        times.last() is Month || times.last() is Year,
    ensures
        !mirrors_on_day(orig, times, comp),
{
}

/// When an event repeats without limit (no `repeat_until_current_day`, no
/// freeze time), the date it would repeat up to plays no part.
pub proof fn law_repeat_ignores_date_when_unlimited(
    orig: DayTime,
    times: Seq<SimpleTimes>,
    comp: DayTime,
    d1: DayTime,
    d2: DayTime,
)
    ensures
        repeats_on_day(orig, times, comp, false, d1) == repeats_on_day(orig, times, comp, false, d2),
{
    lemma_repeat_fold_unlimited(orig, times, times.len(), comp, d1, d2);
}

proof fn lemma_repeat_fold_unlimited(
    orig: DayTime,
    times: Seq<SimpleTimes>,
    n: nat,
    comp: DayTime,
    d1: DayTime,
    d2: DayTime,
)
    ensures
        repeat_fold(orig, times, n, comp, false, d1) == repeat_fold(orig, times, n, comp, false, d2),
    decreases n,
{
    if n > 0 && n <= times.len() {
        lemma_repeat_fold_unlimited(orig, times, (n - 1) as nat, comp, d1, d2);
    }
}

/// An event with no amounts that repeats without limit shows on no other day.
pub proof fn law_unlimited_without_amounts_never_repeats(orig: DayTime, comp: DayTime, date: DayTime)
    ensures
        !repeats_on_day(orig, Seq::empty(), comp, false, date),
{
}

/// An event repeating every `d` days without limit shows on the days strictly
/// between its own day and `d` days later, within its own month and year.
pub proof fn law_repeat_every_days(orig: DayTime, d: u64, comp: DayTime, date: DayTime)
    ensures
        repeats_on_day(orig, seq![SimpleTimes::Day(d)], comp, false, date) == (orig.day < comp.day
            < orig.day + d && comp.month == orig.month && comp.year == orig.year),
{
    reveal_with_fuel(repeat_fold, 2);
}

/// An event repeating every `w` weeks without limit shows on the days strictly
/// between its own day and `7 * w` days later, within its own month and year.
pub proof fn law_repeat_every_weeks(orig: DayTime, w: u64, comp: DayTime, date: DayTime)
    ensures
        repeats_on_day(orig, seq![SimpleTimes::Week(w)], comp, false, date) == (orig.day < comp.day
            < orig.day + 7 * w && comp.month == orig.month && comp.year == orig.year),
{
    reveal_with_fuel(repeat_fold, 2);
}

/// Whether `comp` is a later day than `date`.
pub open spec fn day_after(comp: DayTime, date: DayTime) -> bool {
    ||| comp.year > date.year
    ||| (comp.year == date.year && comp.month.number() > date.month.number())
    ||| (comp.year == date.year && comp.month == date.month && comp.day > date.day)
}

proof fn lemma_limited_fold_never_after(
    orig: DayTime,
    times: Seq<SimpleTimes>,
    n: nat,
    comp: DayTime,
    date: DayTime,
)
    requires
        forall|i: int| 0 <= i < times.len() ==> !(#[trigger] times[i] is Year),
        day_after(comp, date),
    ensures
        !repeat_fold(orig, times, n, comp, true, date),
    decreases n,
{
    if n > 0 && n <= times.len() {
        lemma_limited_fold_never_after(orig, times, (n - 1) as nat, comp, date);
        assert(!(times[n - 1] is Year));
    }
}

/// An event that repeats only up to a day (today, or the day it was frozen
/// at) shows on no later day, as long as none of its amounts is a year.
pub proof fn law_limited_repeat_never_after_its_day(
    orig: DayTime,
    times: Seq<SimpleTimes>,
    comp: DayTime,
    date: DayTime,
)
    requires
        forall|i: int| 0 <= i < times.len() ==> !(#[trigger] times[i] is Year),
        day_after(comp, date),
    ensures
        !repeats_on_day(orig, times, comp, true, date),
{
    lemma_limited_fold_never_after(orig, times, times.len(), comp, date);
}

proof fn lemma_step_is_or(
    acc: bool,
    orig: DayTime,
    t: SimpleTimes,
    comp: DayTime,
    limited: bool,
    date: DayTime,
)
    requires
        !(t is Year),
    ensures
        repeat_step(acc, orig, t, comp, limited, date) == (acc || repeat_step(
            false,
            orig,
            t,
            comp,
            limited,
            date,
        )),
{
}

proof fn lemma_fold_is_any(
    orig: DayTime,
    times: Seq<SimpleTimes>,
    n: nat,
    comp: DayTime,
    limited: bool,
    date: DayTime,
)
    requires
        n <= times.len(),
        forall|i: int| 0 <= i < times.len() ==> !(#[trigger] times[i] is Year),
    ensures
        repeat_fold(orig, times, n, comp, limited, date) == exists|i: int|
            0 <= i < n && #[trigger] repeat_step(false, orig, times[i], comp, limited, date),
    decreases n,
{
    if n > 0 {
        lemma_fold_is_any(orig, times, (n - 1) as nat, comp, limited, date);
        assert(!(times[n - 1] is Year));
        lemma_step_is_or(
            repeat_fold(orig, times, (n - 1) as nat, comp, limited, date),
            orig,
            times[n - 1],
            comp,
            limited,
            date,
        );
        if repeat_step(false, orig, times[n - 1], comp, limited, date) {
            assert(0 <= n - 1 < n);
        }
    }
}

/// Without year amounts, an event shows on a day exactly when one of its
/// amounts alone would show it there: an answer, once found, is never taken
/// back, and hour, minute, stop and unknown amounts alone never show it.
pub proof fn law_repeat_is_any_single_amount(
    orig: DayTime,
    times: Seq<SimpleTimes>,
    comp: DayTime,
    limited: bool,
    date: DayTime,
)
    requires
        times.len() > 0,
        forall|i: int| 0 <= i < times.len() ==> !(#[trigger] times[i] is Year),
    ensures
        repeats_on_day(orig, times, comp, limited, date) == exists|i: int|
            0 <= i < times.len() && #[trigger] repeats_on_day(
                orig,
                seq![times[i]],
                comp,
                limited,
                date,
            ),
        forall|t: SimpleTimes|
            (t is Hour || t is Minuite || t is Stop || t is NoTime) ==> !#[trigger] repeats_on_day(
                orig,
                seq![t],
                comp,
                limited,
                date,
            ),
{
    reveal_with_fuel(repeat_fold, 2);
    lemma_fold_is_any(orig, times, times.len(), comp, limited, date);
    assert forall|i: int| 0 <= i < times.len() implies #[trigger] repeats_on_day(
        orig,
        seq![times[i]],
        comp,
        limited,
        date,
    ) == repeat_step(false, orig, times[i], comp, limited, date) by {
        assert(seq![times[i]][0] == times[i]);
    }
    if repeats_on_day(orig, times, comp, limited, date) {
        let i = choose|i: int|
            0 <= i < times.len() && #[trigger] repeat_step(false, orig, times[i], comp, limited, date);
        assert(repeats_on_day(orig, seq![times[i]], comp, limited, date));
    } else {
        assert forall|i: int| 0 <= i < times.len() implies !#[trigger] repeats_on_day(
            orig,
            seq![times[i]],
            comp,
            limited,
            date,
        ) by {
            assert(!repeat_step(false, orig, times[i], comp, limited, date));
        }
    }
    assert forall|t: SimpleTimes|
        (t is Hour || t is Minuite || t is Stop || t is NoTime) implies !#[trigger] repeats_on_day(
        orig,
        seq![t],
        comp,
        limited,
        date,
    ) by {
        assert(seq![t][0] == t);
    }
}

/// An event repeating every `m` months without limit shows only in its own
/// year: on the later days of its own month, on the days before its own day in
/// the month `m` months on, and on every day of the later months other than
/// that one.
pub proof fn law_repeat_every_months(orig: DayTime, m: u64, comp: DayTime, date: DayTime)
    ensures
        repeats_on_day(orig, seq![SimpleTimes::Month(m)], comp, false, date) == (comp.year
            == orig.year && ((comp.month == orig.month && orig.day < comp.day) || (comp.month
            == shifted_month(orig.month, m as i64) && comp.day < orig.day) || (comp.month
            != shifted_month(orig.month, m as i64) && orig.month.index() < comp.month.index()))),
{
    reveal_with_fuel(repeat_fold, 2);
}

/// An event repeating every `y` years without limit shows on no day before its
/// own year or after `y` years later, and on every day of the years strictly
/// between.
pub proof fn law_repeat_every_years(orig: DayTime, y: u64, comp: DayTime, date: DayTime)
    ensures
        (comp.year < orig.year || comp.year > orig.year + y) ==> !repeats_on_day(
            orig,
            seq![SimpleTimes::Year(y)],
            comp,
            false,
            date,
        ),
        (orig.year < comp.year < orig.year + y) ==> repeats_on_day(
            orig,
            seq![SimpleTimes::Year(y)],
            comp,
            false,
            date,
        ),
{
    reveal_with_fuel(repeat_fold, 2);
}

/// In the first year of a yearly event (when it repeats for at least one more
/// year) it shows exactly where a month repeat by its own month position
/// would; in its last year it shows exactly where such a month repeat, started
/// the day before, would not.
pub proof fn law_yearly_first_and_last_year(
    orig: DayTime,
    y: u64,
    comp: DayTime,
    limited: bool,
    date: DayTime,
)
    ensures
        (y > 0 && comp.year == orig.year) ==> repeats_on_day(
            orig,
            seq![SimpleTimes::Year(y)],
            comp,
            limited,
            date,
        ) == repeats_on_day(
            orig,
            seq![SimpleTimes::Month(orig.month.index() as u64)],
            comp,
            limited,
            date,
        ),
        comp.year == orig.year + y ==> repeats_on_day(
            orig,
            seq![SimpleTimes::Year(y)],
            comp,
            limited,
            date,
        ) == !repeats_on_day(
            DayTime { year: comp.year, month: orig.month, day: (orig.day - 1) as u64 },
            seq![SimpleTimes::Month(orig.month.index() as u64)],
            comp,
            limited,
            date,
        ),
{
    reveal_with_fuel(repeat_fold, 2);
}

/// A yearly event set in the first half of the year, repeating for at least
/// one more year and without limit, shows on no day of its own year in a month
/// before its own.
pub proof fn law_yearly_event_not_before_its_month(orig: DayTime, y: u64, comp: DayTime, date: DayTime)
    requires
        y > 0,
        comp.year == orig.year,
        orig.month.index() <= 5,
        comp.month.index() < orig.month.index(),
    ensures
        !repeats_on_day(orig, seq![SimpleTimes::Year(y)], comp, false, date),
{
    reveal_with_fuel(repeat_fold, 2);
}

proof fn lemma_limited_step_implies_unlimited(
    orig: DayTime,
    t: SimpleTimes,
    comp: DayTime,
    date: DayTime,
    d0: DayTime,
)
    requires
        !(t is Year),
        repeat_step(false, orig, t, comp, true, date),
    ensures
        repeat_step(false, orig, t, comp, false, d0),
{
}

proof fn lemma_unlimited_step_kept_by_limit(
    orig: DayTime,
    t: SimpleTimes,
    comp: DayTime,
    date: DayTime,
    d0: DayTime,
)
    requires
        !(t is Year),
        comp.year == date.year,
        !day_after(comp, date),
        comp.month.number() >= orig.month.number(),
        repeat_step(false, orig, t, comp, false, d0),
    ensures
        repeat_step(false, orig, t, comp, true, date),
{
    crate::month::law_month_number_roundtrip(comp.month);
    crate::month::law_month_number_roundtrip(date.month);
}

/// Repeating only up to a day never adds a day: without year amounts, every
/// day a limited event shows on is one it shows on without the limit.
pub proof fn law_limit_only_removes_days(
    orig: DayTime,
    times: Seq<SimpleTimes>,
    comp: DayTime,
    date: DayTime,
    d0: DayTime,
)
    requires
        times.len() > 0,
        forall|i: int| 0 <= i < times.len() ==> !(#[trigger] times[i] is Year),
        repeats_on_day(orig, times, comp, true, date),
    ensures
        repeats_on_day(orig, times, comp, false, d0),
{
    lemma_fold_is_any(orig, times, times.len(), comp, true, date);
    lemma_fold_is_any(orig, times, times.len(), comp, false, d0);
    let i = choose|i: int|
        0 <= i < times.len() && #[trigger] repeat_step(false, orig, times[i], comp, true, date);
    lemma_limited_step_implies_unlimited(orig, times[i], comp, date, d0);
}

/// Repeating only up to a day keeps the days up to it: without year amounts,
/// a day of the limit's year, not after the limit and not in a month before the
/// event's own, on which the event shows without the limit, still shows with
/// it.
pub proof fn law_limit_keeps_days_up_to_it(
    orig: DayTime,
    times: Seq<SimpleTimes>,
    comp: DayTime,
    date: DayTime,
    d0: DayTime,
)
    requires
        forall|i: int| 0 <= i < times.len() ==> !(#[trigger] times[i] is Year),
        comp.year == date.year,
        !day_after(comp, date),
        comp.month.number() >= orig.month.number(),
        repeats_on_day(orig, times, comp, false, d0),
    ensures
        repeats_on_day(orig, times, comp, true, date),
{
    lemma_fold_is_any(orig, times, times.len(), comp, true, date);
    lemma_fold_is_any(orig, times, times.len(), comp, false, d0);
    let i = choose|i: int|
        0 <= i < times.len() && #[trigger] repeat_step(false, orig, times[i], comp, false, d0);
    lemma_unlimited_step_kept_by_limit(orig, times[i], comp, date, d0);
}

/// An event with no amounts shows only from its own day up to the day it
/// repeats up to.
pub proof fn law_no_amounts_between_own_day_and_limit(
    orig: DayTime,
    comp: DayTime,
    limited: bool,
    date: DayTime,
)
    requires
        repeats_on_day(orig, Seq::empty(), comp, limited, date),
    ensures
        limited,
        !day_after(orig, comp),
        !day_after(comp, date),
{
    crate::month::law_month_number_roundtrip(comp.month);
    crate::month::law_month_number_roundtrip(date.month);
    crate::month::law_month_number_roundtrip(orig.month);
}

/// A day or week repeat limited to `date` shows exactly on the days its
/// unlimited repeat shows on that are either in `date`'s year and not after
/// it, or in a month numbered below `date`'s month of a year not after
/// `date`'s.
pub proof fn law_limited_day_repeat_window(
    orig: DayTime,
    t: SimpleTimes,
    comp: DayTime,
    date: DayTime,
    d0: DayTime,
)
    requires
        t is Day || t is Week,
    ensures
        repeats_on_day(orig, seq![t], comp, true, date) == (repeats_on_day(
            orig,
            seq![t],
            comp,
            false,
            d0,
        ) && ((comp.year == date.year && !day_after(comp, date)) || (comp.month.number()
            < date.month.number() && comp.year <= date.year))),
{
    reveal_with_fuel(repeat_fold, 2);
    assert(seq![t][0] == t);
    crate::month::law_month_number_roundtrip(comp.month);
    crate::month::law_month_number_roundtrip(date.month);
}

/// A month repeat limited to `date` shows exactly on the days its unlimited
/// repeat shows on whose month position is not after `date`'s, in a year not
/// after `date`'s, in a month not before the event's own, and, in `date`'s own
/// month, not after `date`'s day.
pub proof fn law_limited_month_repeat_window(
    orig: DayTime,
    m: u64,
    comp: DayTime,
    date: DayTime,
    d0: DayTime,
)
    ensures
        repeats_on_day(orig, seq![SimpleTimes::Month(m)], comp, true, date) == (repeats_on_day(
            orig,
            seq![SimpleTimes::Month(m)],
            comp,
            false,
            d0,
        ) && comp.month.index() <= date.month.index() && comp.year <= date.year
            && comp.month.number() >= orig.month.number() && ((comp.month == date.month
            && comp.year == date.year) ==> comp.day <= date.day)),
{
    reveal_with_fuel(repeat_fold, 2);
}

/// Within one year, an event with no amounts that repeats up to `date` shows on
/// the days from its own month to `date`'s month: in its own month from its own
/// day on, in `date`'s month up to `date`'s day and not before the event's
/// day-of-month, and on every day of the months between.
pub proof fn law_no_amounts_within_a_year(orig: DayTime, comp: DayTime, date: DayTime)
    requires
        comp.year == orig.year,
        comp.year == date.year,
    ensures
        repeats_on_day(orig, Seq::empty(), comp, true, date) == (orig.month.number()
            <= comp.month.number() <= date.month.number() && (comp.month == date.month ==> (
        comp.day <= date.day && comp.day >= orig.day)) && (comp.month == orig.month ==> comp.day
            >= orig.day)),
{
    crate::month::law_month_number_roundtrip(comp.month);
    crate::month::law_month_number_roundtrip(date.month);
    crate::month::law_month_number_roundtrip(orig.month);
}

} // verus!
