//! Months: the calendar's own month type, its English names, its bridge to
//! `chrono::Month`, and the month arithmetic of the month view.

use crate::text::str_equal;
use vstd::prelude::*;
use vstd::string::StringExecFns;

verus! {

/// A month of the year, stored by name in the event file.
#[derive(Debug, Clone, Copy, PartialEq, Eq, Structural)]
pub enum SerializeableMonth {
    January,
    February,
    March,
    April,
    May,
    June,
    July,
    August,
    September,
    October,
    November,
    December,
}

/// The month whose number (January = 1) is `n`; January for any `n` outside 1..=12.
pub open spec fn month_of_number(n: int) -> SerializeableMonth {
    if n == 1 {
        SerializeableMonth::January
    } else if n == 2 {
        SerializeableMonth::February
    } else if n == 3 {
        SerializeableMonth::March
    } else if n == 4 {
        SerializeableMonth::April
    } else if n == 5 {
        SerializeableMonth::May
    } else if n == 6 {
        SerializeableMonth::June
    } else if n == 7 {
        SerializeableMonth::July
    } else if n == 8 {
        SerializeableMonth::August
    } else if n == 9 {
        SerializeableMonth::September
    } else if n == 10 {
        SerializeableMonth::October
    } else if n == 11 {
        SerializeableMonth::November
    } else if n == 12 {
        SerializeableMonth::December
    } else {
        SerializeableMonth::January
    }
}

impl SerializeableMonth {
    /// The month's number, January = 1 through December = 12.
    pub open spec fn number(self) -> int {
        match self {
            SerializeableMonth::January => 1,
            SerializeableMonth::February => 2,
            SerializeableMonth::March => 3,
            SerializeableMonth::April => 4,
            SerializeableMonth::May => 5,
            SerializeableMonth::June => 6,
            SerializeableMonth::July => 7,
            SerializeableMonth::August => 8,
            SerializeableMonth::September => 9,
            SerializeableMonth::October => 10,
            SerializeableMonth::November => 11,
            SerializeableMonth::December => 12,
        }
    }

    /// The month's position in the year, January = 0 through December = 11.
    pub open spec fn index(self) -> int {
        self.number() - 1
    }

    /// The month's English name.
    pub open spec fn spec_name(self) -> Seq<char> {
        match self {
            SerializeableMonth::January => seq!['J', 'a', 'n', 'u', 'a', 'r', 'y'],
            SerializeableMonth::February => seq!['F', 'e', 'b', 'r', 'u', 'a', 'r', 'y'],
            SerializeableMonth::March => seq!['M', 'a', 'r', 'c', 'h'],
            SerializeableMonth::April => seq!['A', 'p', 'r', 'i', 'l'],
            SerializeableMonth::May => seq!['M', 'a', 'y'],
            SerializeableMonth::June => seq!['J', 'u', 'n', 'e'],
            SerializeableMonth::July => seq!['J', 'u', 'l', 'y'],
            SerializeableMonth::August => seq!['A', 'u', 'g', 'u', 's', 't'],
            SerializeableMonth::September => seq!['S', 'e', 'p', 't', 'e', 'm', 'b', 'e', 'r'],
            SerializeableMonth::October => seq!['O', 'c', 't', 'o', 'b', 'e', 'r'],
            SerializeableMonth::November => seq!['N', 'o', 'v', 'e', 'm', 'b', 'e', 'r'],
            SerializeableMonth::December => seq!['D', 'e', 'c', 'e', 'm', 'b', 'e', 'r'],
        }
    }
}

/// The month whose English name is exactly `s`, if any.
pub open spec fn month_named(s: Seq<char>) -> Option<SerializeableMonth> {
    if s == SerializeableMonth::January.spec_name() {
        Some(SerializeableMonth::January)
    } else if s == SerializeableMonth::February.spec_name() {
        Some(SerializeableMonth::February)
    } else if s == SerializeableMonth::March.spec_name() {
        Some(SerializeableMonth::March)
    } else if s == SerializeableMonth::April.spec_name() {
        Some(SerializeableMonth::April)
    } else if s == SerializeableMonth::May.spec_name() {
        Some(SerializeableMonth::May)
    } else if s == SerializeableMonth::June.spec_name() {
        Some(SerializeableMonth::June)
    } else if s == SerializeableMonth::July.spec_name() {
        Some(SerializeableMonth::July)
    } else if s == SerializeableMonth::August.spec_name() {
        Some(SerializeableMonth::August)
    } else if s == SerializeableMonth::September.spec_name() {
        Some(SerializeableMonth::September)
    } else if s == SerializeableMonth::October.spec_name() {
        Some(SerializeableMonth::October)
    } else if s == SerializeableMonth::November.spec_name() {
        Some(SerializeableMonth::November)
    } else if s == SerializeableMonth::December.spec_name() {
        Some(SerializeableMonth::December)
    } else {
        None
    }
}

/// Days in the month as the month view counts them: February always has 28.
pub open spec fn days_in_month(m: SerializeableMonth) -> int {
    match m {
        SerializeableMonth::January => 31,
        SerializeableMonth::February => 28,
        SerializeableMonth::March => 31,
        SerializeableMonth::April => 30,
        SerializeableMonth::May => 31,
        SerializeableMonth::June => 30,
        SerializeableMonth::July => 31,
        SerializeableMonth::August => 31,
        SerializeableMonth::September => 30,
        SerializeableMonth::October => 31,
        SerializeableMonth::November => 30,
        SerializeableMonth::December => 31,
    }
}

impl SerializeableMonth {
    /// The month's English name.
    pub fn name(&self) -> (r: &'static str)
        ensures
            r@ == self.spec_name(),
    {
        match self {
            SerializeableMonth::January => {
                proof {
                    reveal_strlit("January");
                }
                "January"
            },
            SerializeableMonth::February => {
                proof {
                    reveal_strlit("February");
                }
                "February"
            },
            SerializeableMonth::March => {
                proof {
                    reveal_strlit("March");
                }
                "March"
            },
            SerializeableMonth::April => {
                proof {
                    reveal_strlit("April");
                }
                "April"
            },
            SerializeableMonth::May => {
                proof {
                    reveal_strlit("May");
                }
                "May"
            },
            SerializeableMonth::June => {
                proof {
                    reveal_strlit("June");
                }
                "June"
            },
            SerializeableMonth::July => {
                proof {
                    reveal_strlit("July");
                }
                "July"
            },
            SerializeableMonth::August => {
                proof {
                    reveal_strlit("August");
                }
                "August"
            },
            SerializeableMonth::September => {
                proof {
                    reveal_strlit("September");
                }
                "September"
            },
            SerializeableMonth::October => {
                proof {
                    reveal_strlit("October");
                }
                "October"
            },
            SerializeableMonth::November => {
                proof {
                    reveal_strlit("November");
                }
                "November"
            },
            SerializeableMonth::December => {
                proof {
                    reveal_strlit("December");
                }
                "December"
            },
        }
    }

    /// The month's number, January = 1.
    pub fn month_number(&self) -> (n: u32)
        ensures
            n == self.number(),
    {
        match self {
            SerializeableMonth::January => 1,
            SerializeableMonth::February => 2,
            SerializeableMonth::March => 3,
            SerializeableMonth::April => 4,
            SerializeableMonth::May => 5,
            SerializeableMonth::June => 6,
            SerializeableMonth::July => 7,
            SerializeableMonth::August => 8,
            SerializeableMonth::September => 9,
            SerializeableMonth::October => 10,
            SerializeableMonth::November => 11,
            SerializeableMonth::December => 12,
        }
    }

    /// The month with number `n`, January = 1.
    pub fn from_number(n: u32) -> (m: SerializeableMonth)
        requires
            1 <= n <= 12,
        ensures
            m == month_of_number(n as int),
            m.number() == n,
    {
        if n == 1 {
            SerializeableMonth::January
        } else if n == 2 {
            SerializeableMonth::February
        } else if n == 3 {
            SerializeableMonth::March
        } else if n == 4 {
            SerializeableMonth::April
        } else if n == 5 {
            SerializeableMonth::May
        } else if n == 6 {
            SerializeableMonth::June
        } else if n == 7 {
            SerializeableMonth::July
        } else if n == 8 {
            SerializeableMonth::August
        } else if n == 9 {
            SerializeableMonth::September
        } else if n == 10 {
            SerializeableMonth::October
        } else if n == 11 {
            SerializeableMonth::November
        } else if n == 12 {
            SerializeableMonth::December
        } else {
            SerializeableMonth::December
        }
    }
}

/// The month whose English name is exactly `s`, if any.
pub fn month_from_name(s: &str) -> (r: Option<SerializeableMonth>)
    ensures
        r == month_named(s@),
{
    proof {
        reveal_strlit("January");
    }
    assert("January"@ =~= SerializeableMonth::January.spec_name());
    if str_equal(s, "January") {
        return Some(SerializeableMonth::January);
    }
    proof {
        reveal_strlit("February");
    }
    assert("February"@ =~= SerializeableMonth::February.spec_name());
    if str_equal(s, "February") {
        return Some(SerializeableMonth::February);
    }
    proof {
        reveal_strlit("March");
    }
    assert("March"@ =~= SerializeableMonth::March.spec_name());
    if str_equal(s, "March") {
        return Some(SerializeableMonth::March);
    }
    proof {
        reveal_strlit("April");
    }
    assert("April"@ =~= SerializeableMonth::April.spec_name());
    if str_equal(s, "April") {
        return Some(SerializeableMonth::April);
    }
    proof {
        reveal_strlit("May");
    }
    assert("May"@ =~= SerializeableMonth::May.spec_name());
    if str_equal(s, "May") {
        return Some(SerializeableMonth::May);
    }
    proof {
        reveal_strlit("June");
    }
    assert("June"@ =~= SerializeableMonth::June.spec_name());
    if str_equal(s, "June") {
        return Some(SerializeableMonth::June);
    }
    proof {
        reveal_strlit("July");
    }
    assert("July"@ =~= SerializeableMonth::July.spec_name());
    if str_equal(s, "July") {
        return Some(SerializeableMonth::July);
    }
    proof {
        reveal_strlit("August");
    }
    assert("August"@ =~= SerializeableMonth::August.spec_name());
    if str_equal(s, "August") {
        return Some(SerializeableMonth::August);
    }
    proof {
        reveal_strlit("September");
    }
    assert("September"@ =~= SerializeableMonth::September.spec_name());
    if str_equal(s, "September") {
        return Some(SerializeableMonth::September);
    }
    proof {
        reveal_strlit("October");
    }
    assert("October"@ =~= SerializeableMonth::October.spec_name());
    if str_equal(s, "October") {
        return Some(SerializeableMonth::October);
    }
    proof {
        reveal_strlit("November");
    }
    assert("November"@ =~= SerializeableMonth::November.spec_name());
    if str_equal(s, "November") {
        return Some(SerializeableMonth::November);
    }
    proof {
        reveal_strlit("December");
    }
    assert("December"@ =~= SerializeableMonth::December.spec_name());
    if str_equal(s, "December") {
        return Some(SerializeableMonth::December);
    }
    None
}

/// Days in `month` as the month view counts them (February has 28); the year
/// is not consulted.
pub fn get_days_in_month_chrono(year: &str, month: SerializeableMonth) -> (d: u64)
    ensures
        d == days_in_month(month),
{
    match month {
        SerializeableMonth::January => 31,
        SerializeableMonth::February => 28,
        SerializeableMonth::March => 31,
        SerializeableMonth::April => 30,
        SerializeableMonth::May => 31,
        SerializeableMonth::June => 30,
        SerializeableMonth::July => 31,
        SerializeableMonth::August => 31,
        SerializeableMonth::September => 30,
        SerializeableMonth::October => 31,
        SerializeableMonth::November => 30,
        SerializeableMonth::December => 31,
    }
}

/// The month a stored name stands for: its month when `s` is a month's
/// English name, January for any other text.
pub open spec fn month_from_text(s: Seq<char>) -> SerializeableMonth {
    match month_named(s) {
        Some(m) => m,
        None => SerializeableMonth::January,
    }
}

impl<'a> From<&'a str> for SerializeableMonth {
    fn from(value: &'a str) -> (m: SerializeableMonth) {
        match month_from_name(value) {
            Some(m) => m,
            None => SerializeableMonth::January,
        }
    }
}

impl<'a> vstd::std_specs::convert::FromSpecImpl<&'a str> for SerializeableMonth {
    open spec fn obeys_from_spec() -> bool {
        true
    }

    open spec fn from_spec(v: &'a str) -> SerializeableMonth {
        month_from_text(v@)
    }
}

impl SerializeableMonth {
    /// The month's English name as an owned string.
    pub fn into_string(self) -> (s: String)
        ensures
            s@ == self.spec_name(),
    {
        String::from_str(self.name())
    }
}

/// Days in the month named `month`, or `None` when `month` is not a month's
/// English name; the year is not consulted.
pub fn get_days_in_month_string(year: &str, month: &str) -> (d: Option<u64>)
    ensures
        d == (match month_named(month@) {
            Some(m) => Some(days_in_month(m) as u64),
            None => None,
        }),
{
    match month_from_name(month) {
        Some(m) => Some(get_days_in_month_chrono(year, m)),
        None => None,
    }
}

#[verifier::external_type_specification]
#[verifier::external_body]
pub struct ExChronoMonth(chrono::Month);

/// The number (January = 1) that `chrono::Month::number_from_month` gives for `m`.
pub uninterp spec fn chrono_month_number(m: chrono::Month) -> int;

/// Calls `chrono::Month::number_from_month`, which numbers the months from
/// January = 1 to December = 12.
#[verifier::external_body]
pub(crate) fn chrono_month_to_number(m: &chrono::Month) -> (n: u32)
    ensures
        n == chrono_month_number(*m),
        1 <= n <= 12,
{
    m.number_from_month()
}

/// Calls `chrono::Month::try_from::<u8>`, which maps 1 to January through 12 to
/// December; its month has the number it was made from, and no other month
/// has that number.
#[verifier::external_body]
pub(crate) fn chrono_month_from_number(n: u32) -> (m: chrono::Month)
    requires
        1 <= n <= 12,
    ensures
        chrono_month_number(m) == n,
        forall|other: chrono::Month| chrono_month_number(other) == n ==> other == m,
{
    chrono::Month::try_from(n as u8).unwrap()
}

/// Whether `c` is the one `chrono::Month` with the number of `m`.
pub open spec fn is_chrono_month_of(c: chrono::Month, m: SerializeableMonth) -> bool {
    chrono_month_number(c) == m.number() && forall|other: chrono::Month|
        chrono_month_number(other) == m.number() ==> other == c
}

impl SerializeableMonth {
    /// The calendar month of a `chrono::Month`.
    pub fn from_chrono(month: chrono::Month) -> (m: SerializeableMonth)
        ensures
            m.number() == chrono_month_number(month),
            m == month_of_number(chrono_month_number(month)),
    {
        let n = chrono_month_to_number(&month);
        SerializeableMonth::from_number(n)
    }

    /// The `chrono::Month` of this month.
    pub fn to_chrono(self) -> (m: chrono::Month)
        ensures
            chrono_month_number(m) == self.number(),
            is_chrono_month_of(m, self),
    {
        chrono_month_from_number(self.month_number())
    }
}

/// The month at position `i` of the year, January = 0.
pub fn month_at_index(i: usize) -> (m: SerializeableMonth)
    requires
        i < 12,
    ensures
        m.index() == i,
        m == month_of_number(i + 1),
{
    SerializeableMonth::from_number((i + 1) as u32)
}

/// The position of `month` in the year, January = 0; every month has one.
pub fn get_month_index(month: SerializeableMonth) -> (r: Option<usize>)
    ensures
        r == Some(month.index() as usize),
{
    Some((month.month_number() - 1) as usize)
}

/// The month with number `index`, January = 1.
pub fn get_month_by_index(index: usize) -> (m: SerializeableMonth)
    requires
        1 <= index <= 12,
    ensures
        m.number() == index,
        m == month_of_number(index as int),
{
    month_at_index(index - 1)
}

/// The shift the month view applies for a requested shift `raw`: shifts above
/// twelve are reduced modulo twelve, all others are kept.
pub open spec fn effective_shift(raw: i64) -> int {
    if raw > 12 {
        (raw as int) % 12
    } else {
        raw as int
    }
}

/// Whether `shift_months(m, raw)` has a month to give: it has none where the
/// shifted position falls below January or lands exactly on position twelve.
pub open spec fn shift_months_defined(m: SerializeableMonth, raw: i64) -> bool {
    let s = effective_shift(raw);
    let k = m.index();
    ||| (k == 0 && s < 0)
    ||| (k == 11 && s > 0)
    ||| k + s > 12
    ||| 0 <= k + s <= 11
}

/// The month `shift_months(m, raw)` gives: a backward shift from January and a
/// forward shift from December wrap to the other end of the year; otherwise the
/// position moves by the effective shift, taken modulo twelve above twelve.
pub open spec fn shifted_month(m: SerializeableMonth, raw: i64) -> SerializeableMonth {
    let s = effective_shift(raw);
    let k = m.index();
    if k == 0 && s < 0 {
        SerializeableMonth::December
    } else if k == 11 && s > 0 {
        SerializeableMonth::January
    } else if k + s > 12 {
        month_of_number((k + s) % 12 + 1)
    } else {
        month_of_number(k + s + 1)
    }
}

/// Moves `original_month` by `raw_shift` months, as the month view's arrows do.
pub fn shift_months(original_month: SerializeableMonth, raw_shift: i64) -> (m: SerializeableMonth)
    requires
        shift_months_defined(original_month, raw_shift),
    ensures
        m == shifted_month(original_month, raw_shift),
{
    let mut shift: i64 = if raw_shift > 12 {
        raw_shift % 12
    } else {
        raw_shift
    };
    let current_month_index = get_month_index(original_month).unwrap();
    if current_month_index == 0 && shift < 0 {
        month_at_index(11)
    } else if current_month_index + 1 == 12 && shift > 0 {
        month_at_index(0)
    } else {
        if current_month_index as i64 + shift > 12 {
            shift = (current_month_index as i64 + shift) % 12;
        } else {
            shift = current_month_index as i64 + shift;
        }
        month_at_index(shift as usize)
    }
}

/// Whether `shift_months(m, raw)` has a month to give.
pub fn shift_months_is_defined(m: SerializeableMonth, raw: i64) -> (r: bool)
    ensures
        r == shift_months_defined(m, raw),
{
    let s: i64 = if raw > 12 {
        raw % 12
    } else {
        raw
    };
    let k = m.month_number() as i64 - 1;
    (k == 0 && s < 0) || (k == 11 && s > 0) || k + s > 12 || (0 <= k + s && k + s <= 11)
}

/// Days of the first `n` months of the year as the month view counts them.
pub open spec fn days_in_first_months(n: nat) -> int
    decreases n,
{
    if n == 0 {
        0
    } else {
        days_in_first_months((n - 1) as nat) + days_in_month(month_of_number(n as int))
    }
}

/// Each month's English name is read back as that month, by the exact-name
/// lookup and by the stored-name conversion alike.
pub proof fn law_month_name_roundtrip(m: SerializeableMonth)
    ensures
        month_named(m.spec_name()) == Some(m),
        month_from_text(m.spec_name()) == m,
{
    let n = m.spec_name();
    match m {
        SerializeableMonth::January => {},
        SerializeableMonth::February => {
            assert(n[0] != 'J');
        },
        SerializeableMonth::March => {
            assert(n[0] != 'J' && n[0] != 'F');
        },
        SerializeableMonth::April => {
            assert(n[0] != 'J' && n[0] != 'F' && n[0] != 'M');
        },
        SerializeableMonth::May => {
            assert(n[0] != 'J' && n[0] != 'F' && n[0] != 'A' && n[2] != 'r');
        },
        SerializeableMonth::June => {
            assert(n[0] != 'F' && n[0] != 'M' && n[0] != 'A' && n[1] != 'a');
        },
        SerializeableMonth::July => {
            assert(n[0] != 'F' && n[0] != 'M' && n[0] != 'A' && n[1] != 'a' && n[2] != 'n');
        },
        SerializeableMonth::August => {
            assert(n[0] != 'J' && n[0] != 'F' && n[0] != 'M' && n[1] != 'p');
        },
        SerializeableMonth::September => {
            assert(n[0] == 'S');
        },
        SerializeableMonth::October => {
            assert(n[0] == 'O');
        },
        SerializeableMonth::November => {
            assert(n[0] == 'N');
        },
        SerializeableMonth::December => {
            assert(n[0] == 'D');
        },
    }
}

/// A month's number and position name the month again, and lie in 1..=12 and
/// 0..=11.
pub proof fn law_month_number_roundtrip(m: SerializeableMonth)
    ensures
        1 <= m.number() <= 12,
        0 <= m.index() <= 11,
        month_of_number(m.number()) == m,
        month_of_number(m.index() + 1) == m,
{
}

/// Shifting by zero keeps the month.
pub proof fn law_shift_by_zero(m: SerializeableMonth)
    ensures
        shift_months_defined(m, 0i64),
        shifted_month(m, 0i64) == m,
{
}

/// One step forward is the next month and one step back the previous month,
/// December wrapping to January and back.
pub proof fn law_shift_by_one(m: SerializeableMonth)
    ensures
        shift_months_defined(m, 1i64),
        shift_months_defined(m, -1i64),
        shifted_month(m, 1i64).index() == (m.index() + 1) % 12,
        shifted_month(m, -1i64).index() == (m.index() + 11) % 12,
{
}

/// A step forward and a step back, in either order, return to the month
/// started from.
pub proof fn law_shift_forward_back(m: SerializeableMonth)
    ensures
        shift_months_defined(shifted_month(m, 1i64), -1i64),
        shifted_month(shifted_month(m, 1i64), -1i64) == m,
        shift_months_defined(shifted_month(m, -1i64), 1i64),
        shifted_month(shifted_month(m, -1i64), 1i64) == m,
{
}

/// The months' day counts add up to a 365-day year.
pub proof fn law_year_has_365_days()
    ensures
        days_in_first_months(12) == 365,
{
    reveal_with_fuel(days_in_first_months, 13);
}

} // verus!
