//! The French schedule-date reader: "samedi 15 mars" names a day and month;
//! the year is inferred by assuming the fixture lies no further than thirty
//! days in the past, else it belongs to the next year. The caller supplies
//! today's date; rendering a date for display stays outside the library.

use vstd::prelude::*;
use crate::text::lower_of;
use crate::text::lowercase;
use crate::text::str_eq;
use crate::text::strings_view;
use crate::text::tokens;
use crate::text::tokens_of;

verus! {

/// A calendar date as plain values.
#[derive(Debug, Clone, Copy, PartialEq, Eq, Structural)]
pub struct CalendarDate {
    pub year: i32,
    pub month: u32,
    pub day: u32,
}

/// Whether `year` is a leap year in the Gregorian calendar.
pub open spec fn leap_year_spec(year: int) -> bool {
    (year % 4 == 0 && year % 100 != 0) || year % 400 == 0
}

/// How many days the given month of the given year has.
pub open spec fn days_in_month_spec(year: int, month: int) -> int {
    if month == 2 {
        if leap_year_spec(year) {
            29
        } else {
            28
        }
    } else if month == 4 || month == 6 || month == 9 || month == 11 {
        30
    } else {
        31
    }
}

impl CalendarDate {
    /// A date that exists in the calendar.
    pub open spec fn valid(self) -> bool {
        &&& 1 <= self.month <= 12
        &&& 1 <= self.day <= days_in_month_spec(self.year as int, self.month as int)
    }

    /// Strict calendar order.
    pub open spec fn lt_spec(self, other: CalendarDate) -> bool {
        ||| self.year < other.year
        ||| (self.year == other.year && self.month < other.month)
        ||| (self.year == other.year && self.month == other.month && self.day < other.day)
    }

    /// Decides whether this date exists in the calendar.
    pub fn is_valid(&self) -> (r: bool)
        ensures
            r == self.valid(),
    {
        if self.month < 1 || self.month > 12 {
            return false;
        }
        self.day >= 1 && self.day <= days_in_month(self.year, self.month)
    }

    /// Decides the strict calendar order.
    pub fn lt(&self, other: &CalendarDate) -> (r: bool)
        ensures
            r == self.lt_spec(*other),
    {
        if self.year != other.year {
            self.year < other.year
        } else if self.month != other.month {
            self.month < other.month
        } else {
            self.day < other.day
        }
    }
}

/// Decides whether `year` is a leap year.
pub fn leap_year(year: i32) -> (r: bool)
    ensures
        r == leap_year_spec(year as int),
{
    (year % 4 == 0 && year % 100 != 0) || year % 400 == 0
}

/// The length of the given month.
pub fn days_in_month(year: i32, month: u32) -> (r: u32)
    ensures
        r as int == days_in_month_spec(year as int, month as int),
{
    if month == 2 {
        if leap_year(year) {
            29
        } else {
            28
        }
    } else if month == 4 || month == 6 || month == 9 || month == 11 {
        30
    } else {
        31
    }
}

/// The date one day before `d` (of a valid date; the day before the first
/// of January belongs to the previous year).
pub open spec fn prev_day_spec(d: CalendarDate) -> CalendarDate {
    if d.day > 1 {
        CalendarDate { day: (d.day - 1) as u32, ..d }
    } else if d.month > 1 {
        CalendarDate {
            month: (d.month - 1) as u32,
            day: days_in_month_spec(d.year as int, d.month as int - 1) as u32,
            ..d
        }
    } else {
        CalendarDate { year: (d.year - 1) as i32, month: 12, day: 31 }
    }
}

/// The date `n` days before `d`.
pub open spec fn back_days_spec(d: CalendarDate, n: int) -> CalendarDate
    decreases n,
{
    if n <= 0 {
        d
    } else {
        back_days_spec(prev_day_spec(d), n - 1)
    }
}

proof fn lemma_prev_day_valid(d: CalendarDate)
    requires
        d.valid(),
        d.year > i32::MIN,
    ensures
        prev_day_spec(d).valid(),
{
}

/// Walks `n` days back from `d`.
pub fn back_days(d: CalendarDate, n: u32) -> (r: CalendarDate)
    requires
        d.valid(),
        d.year as int - 1 > i32::MIN + n,
    ensures
        r == back_days_spec(d, n as int),
        r.valid(),
    decreases n,
{
    if n == 0 {
        d
    } else {
        let prev = if d.day > 1 {
            CalendarDate { year: d.year, month: d.month, day: d.day - 1 }
        } else if d.month > 1 {
            CalendarDate {
                year: d.year,
                month: d.month - 1,
                day: days_in_month(d.year, d.month - 1),
            }
        } else {
            CalendarDate { year: d.year - 1, month: 12, day: 31 }
        };
        proof {
            assert(prev == prev_day_spec(d));
            lemma_prev_day_valid(d);
        }
        let r = back_days(prev, n - 1);
        proof {
            assert(back_days_spec(d, n as int) == back_days_spec(prev_day_spec(d), n as int - 1));
        }
        r
    }
}

/// The month number a French month name (already lowercased) stands for.
pub open spec fn french_month_spec(s: Seq<char>) -> Option<u32> {
    if s == "janvier"@ {
        Some(1u32)
    } else if s == "février"@ || s == "fevrier"@ {
        Some(2u32)
    } else if s == "mars"@ {
        Some(3u32)
    } else if s == "avril"@ {
        Some(4u32)
    } else if s == "mai"@ {
        Some(5u32)
    } else if s == "juin"@ {
        Some(6u32)
    } else if s == "juillet"@ {
        Some(7u32)
    } else if s == "août"@ || s == "aout"@ {
        Some(8u32)
    } else if s == "septembre"@ {
        Some(9u32)
    } else if s == "octobre"@ {
        Some(10u32)
    } else if s == "novembre"@ {
        Some(11u32)
    } else if s == "décembre"@ || s == "decembre"@ {
        Some(12u32)
    } else {
        None
    }
}

/// Maps a French month name, in any letter case and with or without its
/// accent, to its month number.
pub fn french_month_number(name: &str) -> (r: Option<u32>)
    ensures
        r == french_month_spec(lower_of(name@)),
{
    let lowered = lowercase(name);
    let s = lowered.as_str();
    if str_eq(s, "janvier") {
        Some(1)
    } else if str_eq(s, "février") || str_eq(s, "fevrier") {
        Some(2)
    } else if str_eq(s, "mars") {
        Some(3)
    } else if str_eq(s, "avril") {
        Some(4)
    } else if str_eq(s, "mai") {
        Some(5)
    } else if str_eq(s, "juin") {
        Some(6)
    } else if str_eq(s, "juillet") {
        Some(7)
    } else if str_eq(s, "août") || str_eq(s, "aout") {
        Some(8)
    } else if str_eq(s, "septembre") {
        Some(9)
    } else if str_eq(s, "octobre") {
        Some(10)
    } else if str_eq(s, "novembre") {
        Some(11)
    } else if str_eq(s, "décembre") || str_eq(s, "decembre") {
        Some(12)
    } else {
        None
    }
}

/// Whether `c` is a decimal digit.
pub open spec fn is_digit(c: char) -> bool {
    '0' <= c && c <= '9'
}

/// The value of one digit character.
pub open spec fn digit_val(c: char) -> int {
    c as int - '0' as int
}

/// Whether `s` is a non-empty run of decimal digits.
pub open spec fn all_digits(s: Seq<char>) -> bool {
    s.len() > 0 && forall|i: int| 0 <= i < s.len() ==> is_digit(#[trigger] s[i])
}

/// The number a run of digits denotes.
pub open spec fn digits_value(s: Seq<char>) -> int
    decreases s.len(),
{
    if s.len() == 0 {
        0
    } else {
        digits_value(s.drop_last()) * 10 + digit_val(s.last())
    }
}

/// The digits of a day token: an optional leading plus sign is skipped,
/// as the standard unsigned decimal parser does.
pub open spec fn day_token_digits(s: Seq<char>) -> Seq<char> {
    if s.len() > 0 && s[0] == '+' {
        s.skip(1)
    } else {
        s
    }
}

proof fn lemma_digits_value_nonneg(s: Seq<char>)
    requires
        forall|i: int| 0 <= i < s.len() ==> is_digit(#[trigger] s[i]),
    ensures
        digits_value(s) >= 0,
    decreases s.len(),
{
    if s.len() > 0 {
        let front = s.drop_last();
        assert forall|i: int| 0 <= i < front.len() implies is_digit(#[trigger] front[i]) by {
            assert(front[i] == s[i]);
        }
        lemma_digits_value_nonneg(front);
        assert(is_digit(s.last()));
    }
}

proof fn lemma_digits_value_prefix_le(s: Seq<char>, i: int)
    requires
        0 <= i <= s.len(),
        forall|j: int| 0 <= j < s.len() ==> is_digit(#[trigger] s[j]),
    ensures
        digits_value(s.take(i)) <= digits_value(s),
    decreases s.len() - i,
{
    if i == s.len() {
        assert(s.take(i) =~= s);
    } else {
        lemma_digits_value_prefix_le(s, i + 1);
        let pre = s.take(i);
        let ext = s.take(i + 1);
        assert(ext.drop_last() =~= pre);
        assert(ext.last() == s[i]);
        assert(digits_value(ext) == digits_value(pre) * 10 + digit_val(s[i]));
        assert forall|j: int| 0 <= j < pre.len() implies is_digit(#[trigger] pre[j]) by {
            assert(pre[j] == s[j]);
        }
        lemma_digits_value_nonneg(pre);
        assert(is_digit(s[i]));
    }
}

/// Reads a day-of-month token as the standard unsigned decimal parser does:
/// an optional leading plus sign, then one or more digits; rejected when
/// the value does not fit.
pub fn parse_day_token(s: &str) -> (r: Option<u32>)
    ensures
        match r {
            Some(v) => all_digits(day_token_digits(s@)) && v as int == digits_value(
                day_token_digits(s@),
            ),
            None => !all_digits(day_token_digits(s@)) || digits_value(day_token_digits(s@))
                > u32::MAX as int,
        },
{
    let len = s.unicode_len();
    let start: usize = if len > 0 && s.get_char(0) == '+' {
        1
    } else {
        0
    };
    let ghost t = day_token_digits(s@);
    proof {
        assert(t =~= s@.skip(start as int));
    }
    if start >= len {
        proof {
            assert(t.len() == 0);
        }
        return None;
    }
    let mut acc: u32 = 0;
    let mut i: usize = start;
    proof {
        assert(t.take(0) =~= Seq::<char>::empty());
    }
    while i < len
        invariant
            start <= i <= len,
            start < len,
            len == s@.len(),
            t == day_token_digits(s@),
            t =~= s@.skip(start as int),
            t.len() == len - start,
            forall|j: int| 0 <= j < i - start ==> is_digit(#[trigger] t[j]),
            acc as int == digits_value(t.take(i - start)),
        decreases len - i,
    {
        let c = s.get_char(i);
        proof {
            assert(t[i - start] == s@[i as int]);
        }
        if !(c >= '0' && c <= '9') {
            proof {
                assert(!is_digit(t[i - start]));
                if all_digits(t) {
                    assert(is_digit(t[i - start]));
                }
            }
            return None;
        }
        let d = (c as u32) - ('0' as u32);
        let ghost pre = t.take(i - start);
        let ghost ext = t.take(i + 1 - start);
        proof {
            assert(d as int == digit_val(c));
            assert(ext.drop_last() =~= pre);
            assert(ext.last() == t[i - start]);
            assert(digits_value(ext) == digits_value(pre) * 10 + digit_val(c));
        }
        if acc > 429496729 || (acc == 429496729 && d > 5) {
            proof {
                assert(digits_value(ext) > u32::MAX as int);
                if all_digits(t) {
                    lemma_digits_value_prefix_le(t, i + 1 - start);
                }
            }
            return None;
        }
        acc = acc * 10 + d;
        i += 1;
    }
    proof {
        assert(t.take(len - start) =~= t);
        assert(all_digits(t));
    }
    Some(acc)
}

/// Which date a French "day month" pair names, seen from `today`: the
/// current year, unless that puts the fixture more than thirty days in the
/// past, in which case the next year; `None` when the day does not exist in
/// the resolved month.
pub open spec fn resolve_date_spec(day: u32, month: u32, today: CalendarDate) -> Option<
    CalendarDate,
> {
    let cand = CalendarDate { year: today.year, month, day };
    if !cand.valid() {
        None
    } else if cand.lt_spec(back_days_spec(today, 30)) {
        let rolled = CalendarDate { year: (today.year + 1) as i32, month, day };
        if rolled.valid() {
            Some(rolled)
        } else {
            None
        }
    } else {
        Some(cand)
    }
}

/// Resolves a parsed French day and month to a full date, assuming the
/// fixture lies no further than thirty days before `today`.
pub fn resolve_french_date(day: u32, month: u32, today: CalendarDate) -> (r: Option<CalendarDate>)
    requires
        today.valid(),
        i32::MIN + 40 < today.year < i32::MAX,
    ensures
        r == resolve_date_spec(day, month, today),
        r matches Some(d) ==> d.valid(),
{
    let cand = CalendarDate { year: today.year, month, day };
    if !cand.is_valid() {
        return None;
    }
    let cutoff = back_days(today, 30);
    if cand.lt(&cutoff) {
        let rolled = CalendarDate { year: today.year + 1, month, day };
        if rolled.is_valid() {
            Some(rolled)
        } else {
            None
        }
    } else {
        Some(cand)
    }
}

/// What a whole French schedule header like "samedi 15 mars" resolves to,
/// seen from `today`: the second token must be a day number, the third a
/// French month name; the weekday word is required but not checked.
pub open spec fn parse_french_date_spec(s: Seq<char>, today: CalendarDate) -> Option<
    CalendarDate,
> {
    let ts = tokens_of(s);
    if ts.len() < 3 {
        None
    } else {
        let dt = day_token_digits(ts[1]);
        if !(all_digits(dt) && digits_value(dt) <= u32::MAX as int) {
            None
        } else {
            match french_month_spec(lower_of(ts[2])) {
                None => None,
                Some(m) => resolve_date_spec(digits_value(dt) as u32, m, today),
            }
        }
    }
}

/// Reads a French schedule header like "samedi 15 mars" into a date, seen
/// from `today`. Extra trailing tokens are ignored, as is the weekday word.
pub fn parse_french_date(french_date: &str, today: CalendarDate) -> (r: Option<CalendarDate>)
    requires
        today.valid(),
        i32::MIN + 40 < today.year < i32::MAX,
    ensures
        r == parse_french_date_spec(french_date@, today),
        r matches Some(d) ==> d.valid(),
{
    let parts = tokens(french_date);
    if parts.len() < 3 {
        return None;
    }
    proof {
        assert(strings_view(parts@)[1] == parts@[1]@);
        assert(strings_view(parts@)[2] == parts@[2]@);
    }
    let day = match parse_day_token(parts[1].as_str()) {
        Some(d) => d,
        None => {
            return None;
        },
    };
    let month = match french_month_number(parts[2].as_str()) {
        Some(m) => m,
        None => {
            return None;
        },
    };
    resolve_french_date(day, month, today)
}

} // verus!
