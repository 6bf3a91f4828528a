//! Reading recurrence rules such as `1d,2w` into amounts of time.

use crate::event::SimpleTimes;
use crate::text::chars_of;
use vstd::prelude::*;

verus! {

/// The pieces of `s` between commas, as `str::split(",")` gives them: a text
/// without commas is one piece, and every comma starts a new, possibly empty,
/// piece.
pub open spec fn split_on_commas(s: Seq<char>) -> Seq<Seq<char>>
    decreases s.len(),
{
    if s.len() == 0 {
        seq![Seq::empty()]
    } else {
        let p = split_on_commas(s.drop_last());
        if s.last() == ',' {
            p.push(Seq::empty())
        } else {
            p.update(p.len() - 1, p.last().push(s.last()))
        }
    }
}

/// Whether `c` is an ASCII decimal digit.
pub open spec fn is_digit(c: char) -> bool {
    '0' as int <= c as int <= '9' as int
}

/// The number that the decimal digits `s` write.
pub open spec fn digits_value(s: Seq<char>) -> int
    decreases s.len(),
{
    if s.len() == 0 {
        0
    } else {
        digits_value(s.drop_last()) * 10 + (s.last() as int - '0' as int)
    }
}

/// `s` without one leading `+`.
pub open spec fn unsigned_digits(s: Seq<char>) -> Seq<char> {
    if s.len() > 0 && s[0] == '+' {
        s.drop_first()
    } else {
        s
    }
}

/// The `u64` that `s` writes in the form `str::parse::<u64>` accepts: an
/// optional `+` and then one or more ASCII digits, with a value that fits.
pub open spec fn parse_u64(s: Seq<char>) -> Option<u64> {
    let d = unsigned_digits(s);
    if d.len() > 0 && (forall|i: int| 0 <= i < d.len() ==> is_digit(#[trigger] d[i])) && digits_value(d)
        <= u64::MAX {
        Some(digits_value(d) as u64)
    } else {
        None
    }
}

/// The amount of time with unit letter `unit`: `y` years, `m` months, `w`
/// weeks, `d` days, `h` hours, `M` minutes, any other letter `NoTime`.
pub open spec fn unit_time(unit: char, amount: u64) -> SimpleTimes {
    if unit == 'y' {
        SimpleTimes::Year(amount)
    } else if unit == 'm' {
        SimpleTimes::Month(amount)
    } else if unit == 'w' {
        SimpleTimes::Week(amount)
    } else if unit == 'd' {
        SimpleTimes::Day(amount)
    } else if unit == 'h' {
        SimpleTimes::Hour(amount)
    } else if unit == 'M' {
        SimpleTimes::Minuite(amount)
    } else {
        SimpleTimes::NoTime
    }
}

/// Whether a piece reads as an amount: a last character for the unit, after
/// a number.
pub open spec fn segment_valid(seg: Seq<char>) -> bool {
    seg.len() >= 1 && parse_u64(seg.drop_last()) is Some
}

/// The amount a piece reads as.
pub open spec fn segment_time(seg: Seq<char>) -> SimpleTimes {
    unit_time(seg.last(), parse_u64(seg.drop_last()).unwrap())
}

/// Whether every piece of a non-empty rule reads as an amount; the empty rule
/// is valid.
pub open spec fn simple_times_valid(s: Seq<char>) -> bool {
    s.len() == 0 || forall|i: int|
        0 <= i < split_on_commas(s).len() ==> segment_valid(#[trigger] split_on_commas(s)[i])
}

/// The amounts a rule reads as, one per piece; none for the empty rule.
pub open spec fn parsed_simple_times(s: Seq<char>) -> Seq<SimpleTimes> {
    if s.len() == 0 {
        Seq::empty()
    } else {
        split_on_commas(s).map_values(|seg: Seq<char>| segment_time(seg))
    }
}

/// The `u64` that the characters `v[start..end]` write as decimal digits.
fn parse_digits(v: &Vec<char>, start: usize, end: usize) -> (r: Option<u64>)
    requires
        start <= end <= v.len(),
    ensures
        r == (if start < end && (forall|i: int| start <= i < end ==> is_digit(#[trigger] v@[i]))
            && digits_value(v@.subrange(start as int, end as int)) <= u64::MAX {
            Some(digits_value(v@.subrange(start as int, end as int)) as u64)
        } else {
            None
        }),
{
    if start == end {
        return None;
    }
    let mut acc: u64 = 0;
    let mut over = false;
    let mut j: usize = start;
    while j < end
        invariant
            start <= j <= end <= v.len(),
            forall|i: int| start <= i < j ==> is_digit(#[trigger] v@[i]),
            digits_value(v@.subrange(start as int, j as int)) >= 0,
            !over ==> acc == digits_value(v@.subrange(start as int, j as int)),
            over ==> digits_value(v@.subrange(start as int, j as int)) > u64::MAX,
        decreases end - j,
    {
        let c = v[j];
        if !(c >= '0' && c <= '9') {
            return None;
        }
        let d = (c as u32 - '0' as u32) as u64;
        assert(v@.subrange(start as int, j + 1).drop_last() =~= v@.subrange(start as int, j as int));
        if !over {
            match acc.checked_mul(10) {
                Some(t) => match t.checked_add(d) {
                    Some(u) => {
                        acc = u;
                    },
                    None => {
                        over = true;
                    },
                },
                None => {
                    over = true;
                },
            }
        }
        j = j + 1;
    }
    if over {
        None
    } else {
        Some(acc)
    }
}

/// The `u64` that the characters `v[..end]` write, in the form
/// `str::parse::<u64>` accepts.
fn parse_u64_prefix(v: &Vec<char>, end: usize) -> (r: Option<u64>)
    requires
        end <= v.len(),
    ensures
        r == parse_u64(v@.take(end as int)),
{
    let start: usize = if end > 0 && v[0] == '+' {
        1
    } else {
        0
    };
    let r = parse_digits(v, start, end);
    proof {
        let s = v@.take(end as int);
        let d = unsigned_digits(s);
        assert(d =~= v@.subrange(start as int, end as int));
        assert((forall|i: int| 0 <= i < d.len() ==> is_digit(#[trigger] d[i])) <==> (forall|i: int|
            start <= i < end ==> is_digit(#[trigger] v@[i]))) by {
            if forall|i: int| 0 <= i < d.len() ==> is_digit(#[trigger] d[i]) {
                assert forall|i: int| start <= i < end implies is_digit(#[trigger] v@[i]) by {
                    assert(d[i - start] == v@[i]);
                }
            }
        }
    }
    r
}

/// The amount a piece reads as, if it reads as one.
fn parse_segment(seg: &Vec<char>) -> (r: Option<SimpleTimes>)
    ensures
        r is Some <==> segment_valid(seg@),
        r matches Some(t) ==> t == segment_time(seg@),
{
    if seg.len() == 0 {
        return None;
    }
    let last_letter = seg[seg.len() - 1];
    assert(seg@.take(seg.len() - 1) =~= seg@.drop_last());
    match parse_u64_prefix(seg, seg.len() - 1) {
        Some(amount) => {
            let t = if last_letter == 'y' {
                SimpleTimes::Year(amount)
            } else if last_letter == 'm' {
                SimpleTimes::Month(amount)
            } else if last_letter == 'w' {
                SimpleTimes::Week(amount)
            } else if last_letter == 'd' {
                SimpleTimes::Day(amount)
            } else if last_letter == 'h' {
                SimpleTimes::Hour(amount)
            } else if last_letter == 'M' {
                SimpleTimes::Minuite(amount)
            } else {
                SimpleTimes::NoTime
            };
            Some(t)
        },
        None => None,
    }
}

/// The amounts a rule reads as, or `None` when a piece does not read as one.
pub fn parse_simple_times_checked(times: &str) -> (r: Option<Vec<SimpleTimes>>)
    ensures
        r is Some <==> simple_times_valid(times@),
        r matches Some(v) ==> v@ == parsed_simple_times(times@),
{
    let chars = chars_of(times);
    if chars.len() == 0 {
        return Some(Vec::new());
    }
    let ghost s = times@;
    let mut total_times: Vec<SimpleTimes> = Vec::new();
    let mut seg: Vec<char> = Vec::new();
    let mut ok = true;
    let ghost mut done: Seq<Seq<char>> = Seq::empty();
    let mut i: usize = 0;
    while i < chars.len()
        invariant
            chars@ == s,
            i <= chars.len(),
            split_on_commas(s.take(i as int)) == done.push(seg@),
            ok == (forall|k: int| 0 <= k < done.len() ==> segment_valid(#[trigger] done[k])),
            ok ==> total_times@ == done.map_values(|g: Seq<char>| segment_time(g)),
        decreases chars.len() - i,
    {
        let c = chars[i];
        assert(s.take(i + 1).drop_last() =~= s.take(i as int));
        if c == ',' {
            let piece = parse_segment(&seg);
            match piece {
                Some(t) => {
                    if ok {
                        total_times.push(t);
                    }
                },
                None => {
                    ok = false;
                },
            }
            proof {
                let old_done = done;
                done = done.push(seg@);
                assert(done.map_values(|g: Seq<char>| segment_time(g)) =~= old_done.map_values(
                    |g: Seq<char>| segment_time(g),
                ).push(segment_time(seg@)));
                assert(forall|k: int| 0 <= k < old_done.len() ==> done[k] == old_done[k]);
                assert(done[done.len() - 1] == seg@);
                if !segment_valid(seg@) {
                    assert(!segment_valid(done[done.len() - 1]));
                }
            }
            seg = Vec::new();
        } else {
            seg.push(c);
        }
        i = i + 1;
    }
    assert(s.take(chars.len() as int) =~= s);
    let ghost segs = done.push(seg@);
    let last = parse_segment(&seg);
    proof {
        assert(segs.map_values(|g: Seq<char>| segment_time(g)) =~= done.map_values(
            |g: Seq<char>| segment_time(g),
        ).push(segment_time(seg@)));
        if !segment_valid(seg@) {
            assert(!segment_valid(segs[segs.len() - 1]));
        }
        if !ok {
            let k = choose|k: int| 0 <= k < done.len() && !segment_valid(#[trigger] done[k]);
            assert(!segment_valid(segs[k]));
        }
    }
    match last {
        Some(t) => {
            if ok {
                total_times.push(t);
                Some(total_times)
            } else {
                None
            }
        },
        None => None,
    }
}

/// The amounts a rule such as `1d,2w` reads as: one per comma-separated piece,
/// the piece's last character giving the unit and the rest its number; none
/// for the empty rule.
pub fn parse_simple_times(times: &str) -> (r: Vec<SimpleTimes>)
    requires
        simple_times_valid(times@),
    ensures
        r@ == parsed_simple_times(times@),
{
    match parse_simple_times_checked(times) {
        Some(v) => v,
        None => Vec::new(),
    }
}

/// The number of commas in `s`.
pub open spec fn comma_count(s: Seq<char>) -> nat
    decreases s.len(),
{
    if s.len() == 0 {
        0
    } else {
        comma_count(s.drop_last()) + if s.last() == ',' {
            1nat
        } else {
            0nat
        }
    }
}

proof fn lemma_split_len(s: Seq<char>)
    ensures
        split_on_commas(s).len() == comma_count(s) + 1,
    decreases s.len(),
{
    if s.len() > 0 {
        lemma_split_len(s.drop_last());
    }
}

/// A non-empty rule reads as one amount per comma-separated piece: one more
/// than it has commas.
pub proof fn law_one_amount_per_piece(s: Seq<char>)
    requires
        s.len() > 0,
    ensures
        parsed_simple_times(s).len() == comma_count(s) + 1,
{
    lemma_split_len(s);
}

/// The `u64` that `s` writes, in the form `str::parse::<u64>` accepts: an
/// optional `+` and then one or more ASCII digits, with a value that fits.
pub fn parse_number(s: &str) -> (r: Option<u64>)
    ensures
        r == parse_u64(s@),
{
    let chars = chars_of(s);
    let r = parse_u64_prefix(&chars, chars.len());
    assert(chars@.take(chars.len() as int) =~= s@);
    r
}

} // verus!
