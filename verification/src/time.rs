//! Points in time and the calendar.

use vstd::prelude::*;

verus! {

/// A point in time: seconds since 1970-01-01 00:00:00 UTC, and nanoseconds since
/// then. A leap second is the second before it with a billion nanoseconds more.
#[derive(Debug, Clone, Copy, PartialEq, Eq, Structural)]
pub struct Timestamp {
    pub secs: i64,
    pub nanos: u32,
}

/// The model of a point in time.
pub struct Moment {
    pub secs: int,
    pub nanos: int,
}

impl View for Timestamp {
    type V = Moment;

    open spec fn view(&self) -> Moment {
        Moment { secs: self.secs as int, nanos: self.nanos as int }
    }
}

/// The first second that a timestamp can hold: the start of the year -262143.
pub const MIN_SECS: i64 = -8_334_601_228_800;

/// The last second that a timestamp can hold: the end of the year 262142.
pub const MAX_SECS: i64 = 8_210_266_876_799;

/// The last day that a timestamp can hold.
pub const MAX_DAY: i64 = 95_026_236;

/// The seconds of a day.
pub const DAY_SECS: i64 = 86_400;

/// A point in time that a timestamp can hold.
pub open spec fn is_moment(t: Moment) -> bool {
    &&& MIN_SECS <= t.secs <= MAX_SECS
    &&& 0 <= t.nanos < 1_000_000_000 || (1_000_000_000 <= t.nanos < 2_000_000_000 && t.secs % 60
        == 59)
}

/// `a` is later than `b`.
pub open spec fn is_after(a: Moment, b: Moment) -> bool {
    a.secs > b.secs || (a.secs == b.secs && a.nanos > b.nanos)
}

impl Timestamp {
    /// Whether this is later than the other.
    pub fn after(&self, other: &Timestamp) -> (r: bool)
        ensures
            r == is_after(self@, other@),
    {
        self.secs > other.secs || (self.secs == other.secs && self.nanos > other.nanos)
    }
}

/// The day of a second, counted from 1970-01-01.
pub open spec fn day_of(secs: int) -> int {
    secs / 86_400
}

/// The year is a leap year.
pub open spec fn is_leap_year(y: int) -> bool {
    y % 4 == 0 && (y % 100 != 0 || y % 400 == 0)
}

/// The first day of a year, counted from 1970-01-01.
pub open spec fn year_start(y: int) -> int {
    365 * (y - 1970) + (y - 1) / 4 - (y - 1) / 100 + (y - 1) / 400 - 477
}

/// The number of days of a month.
pub open spec fn month_length(y: int, m: int) -> int {
    if m == 2 {
        if is_leap_year(y) {
            29
        } else {
            28
        }
    } else if m == 4 || m == 6 || m == 9 || m == 11 {
        30
    } else {
        31
    }
}

/// The number of days of a year before a month of it.
pub open spec fn days_before_month(y: int, m: int) -> int
    decreases m,
{
    if m <= 1 {
        0
    } else {
        days_before_month(y, m - 1) + month_length(y, m - 1)
    }
}

/// A date of the calendar.
pub struct Date {
    pub year: int,
    pub month: int,
    pub day: int,
}

/// The date is one of the calendar.
pub open spec fn is_date(date: Date) -> bool {
    1 <= date.month <= 12 && 1 <= date.day <= month_length(date.year, date.month)
}

/// The day with the date, counted from 1970-01-01.
pub open spec fn day_number(date: Date) -> int {
    year_start(date.year) + days_before_month(date.year, date.month) + date.day - 1
}

/// The date of a day.
pub open spec fn date_of(day: int) -> Date {
    choose|date: Date| is_date(date) && #[trigger] day_number(date) == day
}

/// The date one month on: the same day of the next month, or its last where it
/// has no such day.
pub open spec fn next_month(date: Date) -> Date {
    let year = if date.month == 12 {
        date.year + 1
    } else {
        date.year
    };
    let month = if date.month == 12 {
        1
    } else {
        date.month + 1
    };
    let last = month_length(year, month);
    Date {
        year,
        month,
        day: if date.day > last {
            last
        } else {
            date.day
        },
    }
}

/// The day one month after a day.
pub open spec fn day_one_month_on(day: int) -> int {
    day_number(next_month(date_of(day)))
}

/// The same time of day so many days on. From a leap second it goes on at the
/// second before it.
pub open spec fn plus_days(t: Moment, days: int) -> Moment {
    Moment {
        secs: t.secs + days * 86_400,
        nanos: if t.nanos >= 1_000_000_000 {
            t.nanos - 1_000_000_000
        } else {
            t.nanos
        },
    }
}

/// The same time of day one month on.
pub open spec fn plus_month(t: Moment) -> Moment {
    Moment { secs: day_one_month_on(day_of(t.secs)) * 86_400 + t.secs % 86_400, nanos: t.nanos }
}

/// `DateTime<Utc> + TimeDelta::days(n)` of chrono: the same time of day so many
/// days on. It gives up where the result is out of range.
#[verifier::external_body]
pub(crate) fn add_days(t: Timestamp, days: i64) -> (r: Timestamp)
    requires
        is_moment(t@),
        days > 0,
        t.secs + days * 86_400 <= MAX_SECS,
    ensures
        r@ == plus_days(t@, days as int),
{
    let at = chrono::DateTime::<chrono::Utc>::from_timestamp(t.secs, t.nanos).unwrap();
    let then = at + chrono::TimeDelta::days(days);
    Timestamp { secs: then.timestamp(), nanos: then.timestamp_subsec_nanos() }
}

/// `DateTime<Utc>::checked_add_months` of chrono for one month: the same time of
/// day on the same day of the next month, or on its last day where it has no such
/// day; none where that is out of range.
#[verifier::external_body]
pub(crate) fn add_month(t: Timestamp) -> (r: Option<Timestamp>)
    requires
        is_moment(t@),
    ensures
        r is Some <==> day_one_month_on(day_of(t.secs as int)) <= MAX_DAY,
        r matches Some(then) ==> then@ == plus_month(t@),
{
    let at = chrono::DateTime::<chrono::Utc>::from_timestamp(t.secs, t.nanos).unwrap();
    let then = at.checked_add_months(chrono::Months::new(1))?;
    Some(Timestamp { secs: then.timestamp(), nanos: then.timestamp_subsec_nanos() })
}

proof fn lemma_multiples_up_to(y: int, k: int)
    requires
        k == 4 || k == 100 || k == 400,
    ensures
        y / k == (y - 1) / k + if y % k == 0 {
            1int
        } else {
            0int
        },
{
    if k == 4 {
        assert(y / 4 == (y - 1) / 4 + if y % 4 == 0 { 1int } else { 0int });
    } else if k == 100 {
        assert(y / 100 == (y - 1) / 100 + if y % 100 == 0 { 1int } else { 0int });
    } else {
        assert(y / 400 == (y - 1) / 400 + if y % 400 == 0 { 1int } else { 0int });
    }
}

proof fn lemma_year_length(y: int)
    ensures
        year_start(y + 1) == year_start(y) + if is_leap_year(y) {
            366int
        } else {
            365int
        },
{
    lemma_multiples_up_to(y, 4);
    lemma_multiples_up_to(y, 100);
    lemma_multiples_up_to(y, 400);
    assert(y % 100 == 0 ==> y % 4 == 0);
    assert(y % 400 == 0 ==> y % 100 == 0);
}

proof fn lemma_months_of_year(y: int)
    ensures
        days_before_month(y, 1) == 0,
        days_before_month(y, 2) == 31,
        days_before_month(y, 3) == 31 + month_length(y, 2),
        days_before_month(y, 4) == 62 + month_length(y, 2),
        days_before_month(y, 5) == 92 + month_length(y, 2),
        days_before_month(y, 6) == 123 + month_length(y, 2),
        days_before_month(y, 7) == 153 + month_length(y, 2),
        days_before_month(y, 8) == 184 + month_length(y, 2),
        days_before_month(y, 9) == 215 + month_length(y, 2),
        days_before_month(y, 10) == 245 + month_length(y, 2),
        days_before_month(y, 11) == 276 + month_length(y, 2),
        days_before_month(y, 12) == 306 + month_length(y, 2),
{
    reveal_with_fuel(days_before_month, 13);
}

proof fn lemma_day_has_year(day: int) -> (y: int)
    ensures
        year_start(y) <= day < year_start(y + 1),
    decreases if day < 0 { -day } else { day },
{
    if day == 0 {
        1970
    } else if day > 0 {
        let y = lemma_day_has_year(day - 1);
        lemma_year_length(y);
        lemma_year_length(y + 1);
        if day < year_start(y + 1) {
            y
        } else {
            y + 1
        }
    } else {
        let y = lemma_day_has_year(day + 1);
        lemma_year_length(y);
        lemma_year_length(y - 1);
        if year_start(y) <= day {
            y
        } else {
            y - 1
        }
    }
}

/// Every day has a date.
pub proof fn lemma_day_has_date(day: int)
    ensures
        is_date(date_of(day)),
        day_number(date_of(day)) == day,
{
    let y = lemma_day_has_year(day);
    lemma_year_length(y);
    lemma_months_of_year(y);
    let n = day - year_start(y);
    let m: int = if n < days_before_month(y, 2) {
        1
    } else if n < days_before_month(y, 3) {
        2
    } else if n < days_before_month(y, 4) {
        3
    } else if n < days_before_month(y, 5) {
        4
    } else if n < days_before_month(y, 6) {
        5
    } else if n < days_before_month(y, 7) {
        6
    } else if n < days_before_month(y, 8) {
        7
    } else if n < days_before_month(y, 9) {
        8
    } else if n < days_before_month(y, 10) {
        9
    } else if n < days_before_month(y, 11) {
        10
    } else if n < days_before_month(y, 12) {
        11
    } else {
        12
    };
    let date = Date { year: y, month: m, day: n - days_before_month(y, m) + 1 };
    assert(is_date(date) && day_number(date) == day);
}

/// One month on is 28 to 31 days on.
pub proof fn lemma_month_gap(day: int)
    ensures
        28 <= day_one_month_on(day) - day <= 31,
{
    lemma_day_has_date(day);
    let date = date_of(day);
    lemma_months_of_year(date.year);
    lemma_months_of_year(date.year + 1);
    lemma_year_length(date.year);
}

proof fn lemma_year_start_grows(a: int, b: int)
    requires
        a <= b,
    ensures
        year_start(a) + 365 * (b - a) <= year_start(b),
    decreases b - a,
{
    if a < b {
        lemma_year_start_grows(a, b - 1);
        lemma_year_length(b - 1);
    }
}

proof fn lemma_date_within_year(date: Date)
    requires
        is_date(date),
    ensures
        year_start(date.year) <= day_number(date) < year_start(date.year + 1),
{
    lemma_months_of_year(date.year);
    lemma_year_length(date.year);
}

/// No two dates are of the same day.
pub proof fn law_dates_are_distinct(a: Date, b: Date)
    requires
        is_date(a),
        is_date(b),
        day_number(a) == day_number(b),
    ensures
        a == b,
{
    lemma_date_within_year(a);
    lemma_date_within_year(b);
    if a.year < b.year {
        lemma_year_start_grows(a.year + 1, b.year);
    } else if b.year < a.year {
        lemma_year_start_grows(b.year + 1, a.year);
    }
    lemma_months_of_year(a.year);
    assert(a.month == b.month);
}

/// One month on from a date is the same day of the next month, or its last day
/// where it has no such day.
pub proof fn law_month_on_keeps_the_day(date: Date)
    requires
        is_date(date),
    ensures
        is_date(next_month(date)),
        date_of(day_one_month_on(day_number(date))) == next_month(date),
{
    let day = day_number(date);
    lemma_day_has_date(day);
    law_dates_are_distinct(date_of(day), date);
    lemma_months_of_year(date.year);
    lemma_months_of_year(date.year + 1);
    let then = next_month(date);
    lemma_day_has_date(day_number(then));
    law_dates_are_distinct(date_of(day_number(then)), then);
}

} // verus!
