use vstd::prelude::*;
use chrono::{Datelike, NaiveDate, TimeDelta};
use crate::text::zero_padded;

verus! {

/// The first year that chrono's `NaiveDate` represents.
pub const MIN_YEAR: i32 = -262143;

/// The last year that chrono's `NaiveDate` represents.
pub const MAX_YEAR: i32 = 262142;

/// A date of the proleptic Gregorian calendar, held as plain values.
#[derive(Clone, Copy, Debug, PartialEq, Eq, Structural)]
pub struct CalendarDate {
    pub year: i32,
    pub month: u32,
    pub day: u32,
}

/// A day of the week.
#[derive(Clone, Copy, Debug, PartialEq, Eq, Structural)]
pub enum Weekday {
    Mon,
    Tue,
    Wed,
    Thu,
    Fri,
    Sat,
    Sun,
}

pub open spec fn is_leap_year(year: int) -> bool {
    year % 4 == 0 && (year % 100 != 0 || year % 400 == 0)
}

pub open spec fn days_in_month(year: int, month: int) -> int {
    if month == 2 {
        if is_leap_year(year) {
            29
        } else {
            28
        }
    } else if month == 4 || month == 6 || month == 9 || month == 11 {
        30
    } else {
        31
    }
}

/// The days in `year`.
pub open spec fn days_in_year(year: int) -> int {
    if is_leap_year(year) {
        366
    } else {
        365
    }
}

/// `(year, month, day)` is a date of the calendar in the years that chrono represents.
pub open spec fn is_calendar_date(year: int, month: int, day: int) -> bool {
    &&& MIN_YEAR <= year <= MAX_YEAR
    &&& 1 <= month <= 12
    &&& 1 <= day <= days_in_month(year, month)
}

/// The days from January 1 of year 1 to January 1 of `year`.
pub open spec fn days_before_year(year: int) -> int {
    let y = year - 1;
    365 * y + y / 4 - y / 100 + y / 400
}

/// The days from January 1 of `year` to the first day of `month`.
pub open spec fn days_before_month(year: int, month: int) -> int {
    let common: int = if month <= 1 {
        0
    } else if month == 2 {
        31
    } else if month == 3 {
        59
    } else if month == 4 {
        90
    } else if month == 5 {
        120
    } else if month == 6 {
        151
    } else if month == 7 {
        181
    } else if month == 8 {
        212
    } else if month == 9 {
        243
    } else if month == 10 {
        273
    } else if month == 11 {
        304
    } else {
        334
    };
    if month > 2 && is_leap_year(year) {
        common + 1
    } else {
        common
    }
}

/// The number of a day: January 1 of year 1 is day 0, the day after day `n` is day `n + 1`.
pub open spec fn day_number(year: int, month: int, day: int) -> int {
    days_before_year(year) + days_before_month(year, month) + day - 1
}

/// The day of the week of day number `n`, counted from Monday: day 0 was a Monday.
pub open spec fn weekday_index(n: int) -> int {
    n % 7
}

pub open spec fn weekday_from_index(i: int) -> Weekday {
    if i == 0 {
        Weekday::Mon
    } else if i == 1 {
        Weekday::Tue
    } else if i == 2 {
        Weekday::Wed
    } else if i == 3 {
        Weekday::Thu
    } else if i == 4 {
        Weekday::Fri
    } else if i == 5 {
        Weekday::Sat
    } else {
        Weekday::Sun
    }
}

/// The number of the first day that chrono represents.
pub open spec fn first_day_number() -> int {
    day_number(MIN_YEAR as int, 1, 1)
}

/// The number of the last day that chrono represents.
pub open spec fn last_day_number() -> int {
    day_number(MAX_YEAR as int, 12, 31)
}

impl CalendarDate {
    pub open spec fn valid(self) -> bool {
        is_calendar_date(self.year as int, self.month as int, self.day as int)
    }

    pub open spec fn number(self) -> int {
        day_number(self.year as int, self.month as int, self.day as int)
    }

    pub open spec fn weekday(self) -> Weekday {
        weekday_from_index(weekday_index(self.number()))
    }

    /// The next calendar day, by the rules of the calendar.
    pub open spec fn following(self) -> CalendarDate {
        if (self.day as int) < days_in_month(self.year as int, self.month as int) {
            CalendarDate { year: self.year, month: self.month, day: (self.day + 1) as u32 }
        } else if self.month < 12 {
            CalendarDate { year: self.year, month: (self.month + 1) as u32, day: 1 }
        } else {
            CalendarDate { year: (self.year + 1) as i32, month: 1, day: 1 }
        }
    }
}

/// The date whose day number is `n`.
pub open spec fn date_at(n: int) -> CalendarDate {
    choose|d: CalendarDate| d.valid() && d.number() == n
}

/// The year as chrono's `%Y` writes it: four digits at least, with a sign outside `0..=9999`.
pub open spec fn year_text(year: int) -> Seq<char> {
    if 0 <= year <= 9999 {
        zero_padded(year as nat, 4)
    } else if year < 0 {
        seq!['-'] + zero_padded((-year) as nat, 4)
    } else {
        seq!['+'] + zero_padded(year as nat, 4)
    }
}

/// The date at noon, written as `%Y-%m-%dT12:00:00`.
pub open spec fn noon_timestamp_text(d: CalendarDate) -> Seq<char> {
    year_text(d.year as int) + seq!['-'] + zero_padded(d.month as nat, 2) + seq!['-']
        + zero_padded(d.day as nat, 2) + seq!['T', '1', '2', ':', '0', '0', ':', '0', '0']
}

/// Calls `chrono::NaiveDate::format` with `"%Y-%m-%dT12:00:00"` and writes the result out.
/// Claimed, as chrono's table of specifiers says: `%Y` is the year zero-padded to four digits,
/// with a sign before years outside `0..=9999`, and `%m`, `%d` are zero-padded to two digits.
#[verifier::external_body]
pub(crate) fn noon_timestamp(date: &CalendarDate) -> (text: String)
    requires
        date.valid(),
    ensures
        text@ == noon_timestamp_text(*date),
{
    let d = NaiveDate::from_ymd_opt(date.year, date.month, date.day).unwrap();
    d.format("%Y-%m-%dT12:00:00").to_string()
}

/// Calls `chrono::NaiveDate::from_ymd_opt`. Claimed: the result is `Some` exactly when
/// `(year, month, day)` names a day of the proleptic Gregorian calendar in chrono's years
/// `MIN_YEAR..=MAX_YEAR`, and then it is that day.
#[verifier::external_body]
pub(crate) fn date_from_ymd(year: i32, month: u32, day: u32) -> (date: Option<CalendarDate>)
    ensures
        date is Some <==> is_calendar_date(year as int, month as int, day as int),
        date matches Some(d) ==> d == (CalendarDate { year, month, day }),
{
    match NaiveDate::from_ymd_opt(year, month, day) {
        Some(d) => Some(CalendarDate { year: d.year(), month: d.month(), day: d.day() }),
        None => None,
    }
}

/// Calls `chrono::Datelike::weekday` on the `NaiveDate` of `date`. Claimed: it is the day of
/// the week of that date in the proleptic Gregorian calendar, January 1 of year 1 being a Monday.
#[verifier::external_body]
pub(crate) fn weekday_of(date: &CalendarDate) -> (w: Weekday)
    requires
        date.valid(),
    ensures
        w == date.weekday(),
{
    match NaiveDate::from_ymd_opt(date.year, date.month, date.day).unwrap().weekday() {
        chrono::Weekday::Mon => Weekday::Mon,
        chrono::Weekday::Tue => Weekday::Tue,
        chrono::Weekday::Wed => Weekday::Wed,
        chrono::Weekday::Thu => Weekday::Thu,
        chrono::Weekday::Fri => Weekday::Fri,
        chrono::Weekday::Sat => Weekday::Sat,
        chrono::Weekday::Sun => Weekday::Sun,
    }
}

/// Calls `chrono::NaiveDate::succ_opt`. Claimed: it gives the next calendar day, and `None`
/// exactly when that day lies past the last year that chrono represents.
#[verifier::external_body]
pub(crate) fn next_day(date: &CalendarDate) -> (next: Option<CalendarDate>)
    requires
        date.valid(),
    ensures
        next is Some <==> date.following().valid(),
        next matches Some(n) ==> n == date.following(),
{
    match NaiveDate::from_ymd_opt(date.year, date.month, date.day).unwrap().succ_opt() {
        Some(d) => Some(CalendarDate { year: d.year(), month: d.month(), day: d.day() }),
        None => None,
    }
}

/// Calls `chrono::NaiveDate::checked_add_signed` with `chrono::TimeDelta::days(days)`.
/// Claimed: the result is `Some` exactly when the day `days` days after `date` lies in
/// the range that chrono represents, and then it is a valid date with that day number.
#[verifier::external_body]
pub(crate) fn add_days(date: &CalendarDate, days: i64) -> (shifted: Option<CalendarDate>)
    requires
        date.valid(),
        -0x8000_0000 <= days <= 0x7fff_ffff,
    ensures
        shifted is Some <==> first_day_number() <= date.number() + days <= last_day_number(),
        shifted matches Some(s) ==> s.valid() && s.number() == date.number() + days,
{
    let d = NaiveDate::from_ymd_opt(date.year, date.month, date.day).unwrap();
    match d.checked_add_signed(TimeDelta::days(days)) {
        Some(s) => Some(CalendarDate { year: s.year(), month: s.month(), day: s.day() }),
        None => None,
    }
}


/// Each year's days follow on from the previous year's.
pub proof fn lemma_year_step(year: int)
    ensures
        days_before_year(year + 1) == days_before_year(year) + days_in_year(year),
{
}

/// The months of a year follow on from each other and fill the year.
pub proof fn lemma_month_step(year: int, month: int)
    requires
        1 <= month <= 12,
    ensures
        month < 12 ==> days_before_month(year, month + 1) == days_before_month(year, month)
            + days_in_month(year, month),
        month == 12 ==> days_before_month(year, month) + days_in_month(year, month)
            == days_in_year(year),
{
}

/// Later months start later in the year.
pub proof fn lemma_months_ordered(year: int, m1: int, m2: int)
    requires
        1 <= m1 < m2 <= 12,
    ensures
        days_before_month(year, m1) + days_in_month(year, m1) <= days_before_month(year, m2),
    decreases m2 - m1,
{
    lemma_month_step(year, m1);
    if m1 + 1 < m2 {
        lemma_months_ordered(year, m1 + 1, m2);
        lemma_month_step(year, m1 + 1);
    }
}

/// Later years start later.
pub proof fn lemma_years_ordered(y1: int, y2: int)
    requires
        y1 < y2,
    ensures
        days_before_year(y1) + days_in_year(y1) <= days_before_year(y2),
    decreases y2 - y1,
{
    lemma_year_step(y1);
    if y1 + 1 < y2 {
        lemma_years_ordered(y1 + 1, y2);
        lemma_year_step(y1 + 1);
    }
}

/// The number of a valid date lies within its year.
pub proof fn lemma_number_within_year(d: CalendarDate)
    requires
        d.valid(),
    ensures
        days_before_year(d.year as int) <= d.number(),
        d.number() < days_before_year(d.year as int) + days_in_year(d.year as int),
{
    lemma_month_step(d.year as int, d.month as int);
    if d.month < 12 {
        lemma_months_ordered(d.year as int, d.month as int, 12);
        lemma_month_step(d.year as int, 12);
    }
}

/// Two valid dates with one number are one date.
pub proof fn lemma_number_injective(a: CalendarDate, b: CalendarDate)
    requires
        a.valid(),
        b.valid(),
        a.number() == b.number(),
    ensures
        a == b,
{
    lemma_number_within_year(a);
    lemma_number_within_year(b);
    if a.year < b.year {
        lemma_years_ordered(a.year as int, b.year as int);
    } else if b.year < a.year {
        lemma_years_ordered(b.year as int, a.year as int);
    } else if a.month < b.month {
        lemma_months_ordered(a.year as int, a.month as int, b.month as int);
    } else if b.month < a.month {
        lemma_months_ordered(a.year as int, b.month as int, a.month as int);
    }
}

/// A valid date is the date at its number.
pub proof fn lemma_date_at(d: CalendarDate)
    requires
        d.valid(),
    ensures
        date_at(d.number()) == d,
{
    let e = date_at(d.number());
    assert(e.valid() && e.number() == d.number());
    lemma_number_injective(d, e);
}

/// Every valid date lies between the first and the last day that chrono represents.
pub proof fn lemma_number_in_range(d: CalendarDate)
    requires
        d.valid(),
    ensures
        first_day_number() <= d.number() <= last_day_number(),
{
    lemma_number_within_year(d);
    let first = CalendarDate { year: MIN_YEAR, month: 1, day: 1 };
    let last = CalendarDate { year: MAX_YEAR, month: 12, day: 31 };
    lemma_number_within_year(last);
    if (MIN_YEAR as int) < d.year {
        lemma_years_ordered(MIN_YEAR as int, d.year as int);
    }
    if (d.year as int) < MAX_YEAR {
        lemma_years_ordered(d.year as int, MAX_YEAR as int);
    }
    if d.year == MAX_YEAR && d.month < 12 {
        lemma_months_ordered(d.year as int, d.month as int, 12);
    }
}

} // verus!
