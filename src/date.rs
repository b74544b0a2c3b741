use chrono::Datelike;
use std::str::FromStr;
use vstd::prelude::*;

verus! {

/// Earliest year that a date can carry.
pub const MIN_YEAR: i32 = -262143;

/// Latest year that a date can carry.
pub const MAX_YEAR: i32 = 262142;

pub open spec fn is_leap_year(y: int) -> bool {
    (y % 4 == 0 && y % 100 != 0) || y % 400 == 0
}

pub open spec fn days_in_month(y: int, m: int) -> int {
    if m == 2 {
        if is_leap_year(y) {
            29
        } else {
            28
        }
    } else if m == 4 || m == 6 || m == 9 || m == 11 {
        30
    } else {
        31
    }
}

/// A proleptic Gregorian year, month and day that names an existing day
/// within the supported range of years.
pub open spec fn is_valid_ymd(y: int, m: int, d: int) -> bool {
    MIN_YEAR <= y <= MAX_YEAR && 1 <= m <= 12 && 1 <= d <= days_in_month(y, m)
}

/// Days of the year that lie in the months before month `m`.
pub open spec fn days_before_month(y: int, m: int) -> int
    decreases m,
{
    if m <= 1 {
        0
    } else {
        days_before_month(y, m - 1) + days_in_month(y, m - 1)
    }
}

/// Number of the day counted so that 0001-01-01 (a Monday) is day 1.
pub open spec fn day_number(y: int, m: int, d: int) -> int {
    365 * (y - 1) + (y - 1) / 4 - (y - 1) / 100 + (y - 1) / 400 + days_before_month(y, m) + d
}

/// Day of the week counted from Monday: 0 is Monday, 5 Saturday, 6 Sunday.
pub open spec fn weekday_index(y: int, m: int, d: int) -> int {
    (day_number(y, m, d) - 1) % 7
}

/// A day of the proleptic Gregorian calendar.
#[derive(Clone, Copy, Debug, PartialEq, Eq, Structural)]
pub struct CalendarDate {
    year: i32,
    month: u32,
    day: u32,
}

impl CalendarDate {
    #[verifier::type_invariant]
    spec fn valid(self) -> bool {
        is_valid_ymd(self.year as int, self.month as int, self.day as int)
    }

    pub closed spec fn spec_year(self) -> int {
        self.year as int
    }

    pub closed spec fn spec_month(self) -> int {
        self.month as int
    }

    pub closed spec fn spec_day(self) -> int {
        self.day as int
    }

    /// The date with the given year, month and day, where such a day exists.
    pub fn from_ymd(year: i32, month: u32, day: u32) -> (r: Option<CalendarDate>)
        ensures
            r is Some <==> is_valid_ymd(year as int, month as int, day as int),
            r matches Some(d) ==> d.spec_year() == year && d.spec_month() == month
                && d.spec_day() == day,
    {
        if year < MIN_YEAR || year > MAX_YEAR || month < 1 || month > 12 || day < 1 {
            return None;
        }
        let leap = (year % 4 == 0 && year % 100 != 0) || year % 400 == 0;
        let last: u32 = if month == 2 {
            if leap {
                29
            } else {
                28
            }
        } else if month == 4 || month == 6 || month == 9 || month == 11 {
            30
        } else {
            31
        };
        assert(leap == is_leap_year(year as int));
        if day > last {
            None
        } else {
            Some(CalendarDate { year, month, day })
        }
    }

    pub fn year(&self) -> (r: i32)
        ensures
            r == self.spec_year(),
    {
        self.year
    }

    pub fn month(&self) -> (r: u32)
        ensures
            r == self.spec_month(),
    {
        self.month
    }

    pub fn day(&self) -> (r: u32)
        ensures
            r == self.spec_day(),
    {
        self.day
    }

    pub open spec fn spec_ymd(self) -> (int, int, int) {
        (self.spec_year(), self.spec_month(), self.spec_day())
    }

    pub open spec fn spec_weekday(self) -> int {
        weekday_index(self.spec_year(), self.spec_month(), self.spec_day())
    }

    /// Day of the week, counted from Monday as 0 to Sunday as 6.
    pub fn weekday_from_monday(&self) -> (r: u32)
        ensures
            r == self.spec_weekday(),
            r < 7,
    {
        proof {
            use_type_invariant(self);
        }
        let r = chrono_weekday(self.year, self.month, self.day);
        r
    }
}

/// Relies on chrono's `NaiveDate::from_ymd_opt` (which accepts every valid
/// year, month and day of the supported range) and on `Datelike::weekday`
/// with `Weekday::num_days_from_monday`: the proleptic Gregorian day of the week.
#[verifier::external_body]
fn chrono_weekday(year: i32, month: u32, day: u32) -> (r: u32)
    requires
        is_valid_ymd(year as int, month as int, day as int),
    ensures
        r as int == weekday_index(year as int, month as int, day as int),
{
    chrono::NaiveDate::from_ymd_opt(year, month, day).unwrap().weekday().num_days_from_monday()
}

/// What chrono's ISO 8601 date parser makes of a text: a year, month and day,
/// or nothing where the text is not a date.
pub uninterp spec fn iso_date_of(s: Seq<char>) -> Option<(int, int, int)>;

/// Relies on chrono's `NaiveDate::from_str`: it reads `YYYY-MM-DD`, and the
/// `NaiveDate` it returns always names a valid day of the supported range.
#[verifier::external_body]
fn chrono_parse_date(s: &str) -> (r: Option<(i32, u32, u32)>)
    ensures
        r matches Some(t) ==> iso_date_of(s@) == Some((t.0 as int, t.1 as int, t.2 as int))
            && is_valid_ymd(t.0 as int, t.1 as int, t.2 as int),
        r is None ==> iso_date_of(s@) is None,
{
    match chrono::NaiveDate::from_str(s) {
        Ok(d) => Some((d.year(), d.month(), d.day())),
        Err(_) => None,
    }
}

/// The text is not a calendar date.
#[derive(Clone, Copy, Debug, PartialEq, Eq, Structural)]
pub struct ParseDateError;

/// `r` is the date that `s` holds in ISO 8601 form, or the error where it
/// holds none.
pub open spec fn parsed_date(s: Seq<char>, r: Result<CalendarDate, ParseDateError>) -> bool {
    match iso_date_of(s) {
        Some(t) => r matches Ok(d) && d.spec_ymd() == t,
        None => r is Err,
    }
}

/// Reads an ISO 8601 calendar date (`YYYY-MM-DD`).
pub fn parse_iso_date(s: &str) -> (r: Result<CalendarDate, ParseDateError>)
    ensures
        parsed_date(s@, r),
{
    match chrono_parse_date(s) {
        Some(t) => Ok(CalendarDate { year: t.0, month: t.1, day: t.2 }),
        None => Err(ParseDateError),
    }
}

pub open spec fn is_weekend_spec(date: CalendarDate) -> bool {
    date.spec_weekday() == 5 || date.spec_weekday() == 6
}

/// Whether the date falls on a Saturday or a Sunday.
pub fn is_weekend(date: CalendarDate) -> (r: bool)
    ensures
        r == is_weekend_spec(date),
{
    let w = date.weekday_from_monday();
    w == 5 || w == 6
}

} // verus!
