//! Calendar dates, held as day numbers, and the calls into `chrono` that read and write them.
use vstd::prelude::*;
use chrono::Datelike;

verus! {

/// The first year that `chrono::NaiveDate` can hold.
pub const MIN_YEAR: i32 = -262143;

/// The last year that `chrono::NaiveDate` can hold.
pub const MAX_YEAR: i32 = 262142;

/// The day number (January 1 of year 1 being day 1) of January 1, `MIN_YEAR`.
pub const MIN_DAY: i32 = -95746129;

/// The day number of December 31, `MAX_YEAR`.
pub const MAX_DAY: i32 = 95745399;

/// The largest Unix timestamp that `chrono::DateTime<Utc>` can hold: the last second of
/// December 31, `MAX_YEAR`.
pub const MAX_TIMESTAMP: i64 = 8210266876799;

pub open spec fn is_leap_year(y: int) -> bool {
    y % 4 == 0 && (y % 100 != 0 || y % 400 == 0)
}

pub open spec fn days_in_month(y: int, m: int) -> int {
    if m == 2 {
        if is_leap_year(y) {
            29
        } else {
            28
        }
    } else if m == 4 || m == 6 || m == 9 || m == 11 {
        30
    } else {
        31
    }
}

/// The number of days in year `y` before the first of month `m`.
pub open spec fn days_before_month(y: int, m: int) -> int
    decreases m,
{
    if m <= 1 {
        0
    } else {
        days_before_month(y, m - 1) + days_in_month(y, m - 1)
    }
}

/// The day number, in the proleptic Gregorian calendar with January 1 of year 1 as day 1,
/// of day `d` of month `m` of year `y`.
pub open spec fn day_number_of(y: int, m: int, d: int) -> int {
    let p = y - 1;
    365 * p + p / 4 - p / 100 + p / 400 + days_before_month(y, m) + d
}

/// Whether year `y`, month `m`, day `d` is a date that `chrono::NaiveDate` can hold.
pub open spec fn is_valid_date(y: int, m: int, d: int) -> bool {
    &&& MIN_YEAR <= y <= MAX_YEAR
    &&& 1 <= m <= 12
    &&& 1 <= d <= days_in_month(y, m)
}

/// What `chrono::NaiveDate::parse_from_str(text, format)` gives, as a day number.
pub uninterp spec fn parsed_date_day(text: Seq<char>, format: Seq<char>) -> Option<i32>;

/// What `chrono`'s `format(format).to_string()` writes for the date with day number `day`.
pub uninterp spec fn formatted_date(day: i32, format: Seq<char>) -> Seq<char>;

/// Calls `chrono::NaiveDate::from_ymd_opt` and gives the date's day number. chrono documents
/// that it returns `None` for an invalid month or day or a year out of range; its day
/// numbers (`num_days_from_ce`) count the proleptic Gregorian calendar from January 1 of
/// year 1, and every date it can hold lies between `MIN_DAY` and `MAX_DAY`.
#[verifier::external_body]
fn chrono_day_from_ymd(year: i32, month: u32, day: u32) -> (res: Option<i32>)
    ensures
        res is Some <==> is_valid_date(year as int, month as int, day as int),
        res matches Some(n) ==> n == day_number_of(year as int, month as int, day as int),
        res matches Some(n) ==> MIN_DAY <= n <= MAX_DAY,
{
    match chrono::NaiveDate::from_ymd_opt(year, month, day) {
        Some(date) => Some(date.num_days_from_ce()),
        None => None,
    }
}

/// Calls `chrono::NaiveDate::parse_from_str` and gives the date's day number; every date
/// that chrono can hold lies between `MIN_DAY` and `MAX_DAY`.
#[verifier::external_body]
fn chrono_parse_date(text: &str, format: &str) -> (res: Option<i32>)
    ensures
        res == parsed_date_day(text@, format@),
        res matches Some(n) ==> MIN_DAY <= n <= MAX_DAY,
{
    match chrono::NaiveDate::parse_from_str(text, format) {
        Ok(date) => Some(date.num_days_from_ce()),
        Err(_) => None,
    }
}

/// Calls chrono's `format(format).to_string()` on the date with day number `day`. The
/// format is `%Y-%m-%d`, which chrono accepts (with a format it rejects, `to_string`
/// panics); the day number is one that `NaiveDate::from_num_days_from_ce_opt` accepts.
#[verifier::external_body]
fn chrono_format_date(day: i32, format: &str) -> (res: String)
    requires
        MIN_DAY <= day <= MAX_DAY,
        format@ == "%Y-%m-%d"@,
    ensures
        res@ == formatted_date(day, format@),
{
    chrono::NaiveDate::from_num_days_from_ce_opt(day).unwrap().format(format).to_string()
}

/// Calls `chrono::Utc::now().timestamp()`: the current Unix time in seconds. `Utc::now`
/// panics when the system clock is before 1970 and otherwise gives a time that chrono can
/// hold. Two calls may give different values.
#[verifier::external_body]
pub fn now_timestamp() -> (res: i64)
    ensures
        0 <= res <= MAX_TIMESTAMP,
{
    chrono::Utc::now().timestamp()
}

/// A calendar date, held as its day number.
#[derive(Debug, Clone, Copy)]
pub struct CalendarDate {
    day: i32,
}

impl CalendarDate {
    #[verifier::type_invariant]
    spec fn in_range(self) -> bool {
        MIN_DAY <= self.day <= MAX_DAY
    }

    /// The day number: January 1 of year 1 is day 1.
    pub closed spec fn day_number(self) -> int {
        self.day as int
    }

    /// The date with day number `day`, when chrono can hold it.
    pub fn from_days_from_ce(day: i32) -> (res: Option<CalendarDate>)
        ensures
            res is Some <==> MIN_DAY <= day <= MAX_DAY,
            res matches Some(d) ==> d.day_number() == day,
    {
        if MIN_DAY <= day && day <= MAX_DAY {
            Some(CalendarDate { day })
        } else {
            None
        }
    }

    /// Day `day` of month `month` of year `year`, when it exists and chrono can hold it.
    pub fn from_ymd_opt(year: i32, month: u32, day: u32) -> (res: Option<CalendarDate>)
        ensures
            res is Some <==> is_valid_date(year as int, month as int, day as int),
            res matches Some(d) ==> d.day_number() == day_number_of(
                year as int,
                month as int,
                day as int,
            ),
    {
        match chrono_day_from_ymd(year, month, day) {
            Some(n) => {
                if MIN_DAY <= n && n <= MAX_DAY {
                    Some(CalendarDate { day: n })
                } else {
                    None
                }
            },
            None => None,
        }
    }

    /// The day number.
    pub fn days_from_ce(&self) -> (res: i32)
        ensures
            res == self.day_number(),
            MIN_DAY <= res <= MAX_DAY,
    {
        proof {
            use_type_invariant(self);
        }
        self.day
    }

    /// The date `days` days earlier.
    pub fn days_earlier(&self, days: i32) -> (res: CalendarDate)
        requires
            0 <= days,
            self.day_number() - days >= MIN_DAY,
        ensures
            res.day_number() == self.day_number() - days,
    {
        proof {
            use_type_invariant(self);
        }
        CalendarDate { day: self.day - days }
    }

    /// The date written as `YYYY-MM-DD`, as chrono writes it.
    pub fn format_ymd(&self) -> (res: String)
        ensures
            res@ == formatted_date(self.day_number() as i32, "%Y-%m-%d"@),
    {
        proof {
            use_type_invariant(self);
        }
        chrono_format_date(self.day, "%Y-%m-%d")
    }

    /// The date that `text` writes as `YYYY-MM-DD`, as chrono reads it.
    pub fn parse_ymd(text: &str) -> (res: Option<CalendarDate>)
        ensures
            res is Some <==> parsed_date_day(text@, "%Y-%m-%d"@) is Some,
            res matches Some(d) ==> (parsed_date_day(text@, "%Y-%m-%d"@) matches Some(n) && d.day_number() == n as int),
    {
        match chrono_parse_date(text, "%Y-%m-%d") {
            Some(n) => Some(CalendarDate { day: n }),
            None => None,
        }
    }
}

} // verus!
