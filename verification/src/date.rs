//! Calendar dates and times of day in UTC, as date and time literals spell
//! them.

use crate::text::padded;
use vstd::prelude::*;

verus! {

/// Whether `year` has a 29th of February.
pub open spec fn is_leap_year(year: int) -> bool {
    year % 4 == 0 && (year % 100 != 0 || year % 400 == 0)
}

/// The number of days of a month of the Gregorian calendar.
pub open spec fn days_in_month(year: int, month: int) -> int {
    if month == 2 {
        if is_leap_year(year) {
            29
        } else {
            28
        }
    } else if month == 4 || month == 6 || month == 9 || month == 11 {
        30
    } else {
        31
    }
}

/// A calendar date, as plain numbers.
pub struct CivilDate {
    pub year: int,
    pub month: int,
    pub day: int,
}

/// A calendar date with a time of day in UTC, as plain numbers.
pub struct CivilDateTime {
    pub date: CivilDate,
    pub hour: int,
    pub minute: int,
    pub second: int,
    pub nanos: int,
}

/// The dates that a date literal can spell: a day that exists, in a year of
/// four digits.
pub open spec fn valid_date(d: CivilDate) -> bool {
    &&& 0 <= d.year <= 9999
    &&& 1 <= d.month <= 12
    &&& 1 <= d.day <= days_in_month(d.year, d.month)
}

/// The times of day that a time literal can spell (no leap second).
pub open spec fn valid_date_time(t: CivilDateTime) -> bool {
    &&& valid_date(t.date)
    &&& 0 <= t.hour < 24
    &&& 0 <= t.minute < 60
    &&& 0 <= t.second < 60
    &&& 0 <= t.nanos < 1_000_000_000
}

/// `yyyy-mm-dd`.
pub open spec fn date_text(d: CivilDate) -> Seq<char> {
    padded(d.year as nat, 4) + seq!['-'] + padded(d.month as nat, 2) + seq!['-'] + padded(
        d.day as nat,
        2,
    )
}

/// The fraction of a second: nothing for a whole second, else a dot and
/// three, six or nine digits, the fewest that lose nothing.
pub open spec fn fraction_text(nanos: int) -> Seq<char> {
    if nanos == 0 {
        Seq::empty()
    } else if nanos % 1_000_000 == 0 {
        seq!['.'] + padded((nanos / 1_000_000) as nat, 3)
    } else if nanos % 1_000 == 0 {
        seq!['.'] + padded((nanos / 1_000) as nat, 6)
    } else {
        seq!['.'] + padded(nanos as nat, 9)
    }
}

/// `yyyy-mm-ddThh:mm:ss`, the fraction of the second, and `+00:00`.
pub open spec fn date_time_text(t: CivilDateTime) -> Seq<char> {
    date_text(t.date) + seq!['T'] + padded(t.hour as nat, 2) + seq![':'] + padded(
        t.minute as nat,
        2,
    ) + seq![':'] + padded(t.second as nat, 2) + fraction_text(t.nanos) + "+00:00"@
}

/// A calendar date between the years 0 and 9999.
#[derive(Debug, Clone, Copy, PartialEq, Eq)]
pub struct Date {
    year: i32,
    month: u32,
    day: u32,
}

impl View for Date {
    type V = CivilDate;

    closed spec fn view(&self) -> CivilDate {
        CivilDate { year: self.year as int, month: self.month as int, day: self.day as int }
    }
}

impl Date {
    #[verifier::type_invariant]
    spec fn well_formed(self) -> bool {
        valid_date(self@)
    }

    /// The date of the given year, month and day, if there is such a day
    /// between the years 0 and 9999.
    pub fn new(year: i32, month: u32, day: u32) -> (r: Option<Date>)
        ensures
            ({
                let d = CivilDate { year: year as int, month: month as int, day: day as int };
                match r {
                    Some(date) => valid_date(d) && date@ == d,
                    None => !valid_date(d),
                }
            }),
    {
        if year < 0 || year > 9999 || month < 1 || month > 12 || day < 1 {
            return None;
        }
        let leap = year % 4 == 0 && (year % 100 != 0 || year % 400 == 0);
        let days: u32 = if month == 2 {
            if leap {
                29
            } else {
                28
            }
        } else if month == 4 || month == 6 || month == 9 || month == 11 {
            30
        } else {
            31
        };
        if day > days {
            None
        } else {
            Some(Date { year, month, day })
        }
    }

    /// The year, from 0 to 9999.
    pub fn year(&self) -> (y: i32)
        ensures
            y == self@.year,
            valid_date(self@),
    {
        proof {
            use_type_invariant(self);
        }
        self.year
    }

    /// The month, from 1 to 12.
    pub fn month(&self) -> (m: u32)
        ensures
            m == self@.month,
            valid_date(self@),
    {
        proof {
            use_type_invariant(self);
        }
        self.month
    }

    /// The day of the month, from 1.
    pub fn day(&self) -> (d: u32)
        ensures
            d == self@.day,
            valid_date(self@),
    {
        proof {
            use_type_invariant(self);
        }
        self.day
    }

    /// The date as `yyyy-mm-dd`.
    pub fn to_string(&self) -> (r: String)
        ensures
            r@ == date_text(self@),
    {
        proof {
            use_type_invariant(self);
        }
        format_date(self.year, self.month, self.day)
    }
}

/// A date and a time of day in UTC, to the nanosecond.
#[derive(Debug, Clone, Copy, PartialEq, Eq)]
pub struct DateTime {
    date: Date,
    hour: u32,
    minute: u32,
    second: u32,
    nanos: u32,
}

impl View for DateTime {
    type V = CivilDateTime;

    closed spec fn view(&self) -> CivilDateTime {
        CivilDateTime {
            date: self.date@,
            hour: self.hour as int,
            minute: self.minute as int,
            second: self.second as int,
            nanos: self.nanos as int,
        }
    }
}

impl DateTime {
    #[verifier::type_invariant]
    spec fn well_formed(self) -> bool {
        valid_date_time(self@)
    }

    /// The given time of day on `date`, if the hour is below 24, the minute
    /// and the second below 60 and the nanoseconds below a thousand million.
    pub fn new(date: Date, hour: u32, minute: u32, second: u32, nanos: u32) -> (r: Option<
        DateTime,
    >)
        ensures
            ({
                let t = CivilDateTime {
                    date: date@,
                    hour: hour as int,
                    minute: minute as int,
                    second: second as int,
                    nanos: nanos as int,
                };
                match r {
                    Some(date_time) => valid_date_time(t) && date_time@ == t,
                    None => !valid_date_time(t),
                }
            }),
    {
        proof {
            use_type_invariant(&date);
        }
        if hour >= 24 || minute >= 60 || second >= 60 || nanos >= 1_000_000_000 {
            None
        } else {
            Some(DateTime { date, hour, minute, second, nanos })
        }
    }

    /// The date and time as RFC 3339 spells them at offset zero.
    pub fn to_string(&self) -> (r: String)
        ensures
            r@ == date_time_text(self@),
    {
        proof {
            use_type_invariant(self);
            use_type_invariant(&self.date);
        }
        format_date_time(
            self.date.year,
            self.date.month,
            self.date.day,
            self.hour,
            self.minute,
            self.second,
            self.nanos,
        )
    }
}

/// `chrono::NaiveDate::from_ymd_opt`, then `NaiveDate::format` with the
/// pattern `%Y-%m-%d`: for a day that exists in a year from 0 to 9999, the
/// year in four digits, the month and the day in two, with `-` between.
#[verifier::external_body]
fn format_date(year: i32, month: u32, day: u32) -> (r: String)
    requires
        valid_date(CivilDate { year: year as int, month: month as int, day: day as int }),
    ensures
        r@ == date_text(CivilDate { year: year as int, month: month as int, day: day as int }),
{
    chrono::NaiveDate::from_ymd_opt(year, month, day).unwrap().format("%Y-%m-%d").to_string()
}

/// `chrono::DateTime::<Utc>::to_rfc3339`, on the value that
/// `NaiveDate::from_ymd_opt`, `and_hms_nano_opt` and `and_utc` make of the
/// fields: date, `T`, time of day, the fraction in as many groups of three
/// digits as it needs, and the offset `+00:00`.
#[verifier::external_body]
fn format_date_time(
    year: i32,
    month: u32,
    day: u32,
    hour: u32,
    minute: u32,
    second: u32,
    nanos: u32,
) -> (r: String)
    requires
        valid_date_time(
            CivilDateTime {
                date: CivilDate { year: year as int, month: month as int, day: day as int },
                hour: hour as int,
                minute: minute as int,
                second: second as int,
                nanos: nanos as int,
            },
        ),
    ensures
        r@ == date_time_text(
            CivilDateTime {
                date: CivilDate { year: year as int, month: month as int, day: day as int },
                hour: hour as int,
                minute: minute as int,
                second: second as int,
                nanos: nanos as int,
            },
        ),
{
    let date = chrono::NaiveDate::from_ymd_opt(year, month, day).unwrap();
    date.and_hms_nano_opt(hour, minute, second, nanos).unwrap().and_utc().to_rfc3339()
}

} // verus!
