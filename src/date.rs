//! Calendar dates as the library holds them: a day number in the proleptic
//! Gregorian calendar (January 1 of year 1 is day 1) together with its year,
//! month and day of month. Date arithmetic is delegated to chrono.
use chrono::Datelike;
use vstd::prelude::*;

verus! {

/// Smallest day number that chrono can represent (January 1, 262143 BCE).
pub const MIN_DAY: i32 = -95746129;

/// Largest day number that chrono can represent (December 31, 262142 CE).
pub const MAX_DAY: i32 = 95745399;

/// Smallest year that chrono can represent.
pub const MIN_YEAR: i32 = -262143;

/// Largest year that chrono can represent.
pub const MAX_YEAR: i32 = 262142;

/// The (year, month, day) that chrono gives for a day number, or `None` where
/// the day number lies outside its range.
pub uninterp spec fn civil_of_day(days: int) -> Option<(int, int, int)>;

pub open spec fn is_leap_year(y: int) -> bool {
    (y % 4 == 0 && y % 100 != 0) || y % 400 == 0
}

pub open spec fn days_in_month(y: int, m: int) -> int {
    if m == 2 {
        if is_leap_year(y) { 29 } else { 28 }
    } else if m == 4 || m == 6 || m == 9 || m == 11 {
        30
    } else {
        31
    }
}

/// Number of days in a month of a year.
pub fn month_length(year: i32, month: u32) -> (r: u32)
    requires
        1 <= month <= 12,
    ensures
        r as int == days_in_month(year as int, month as int),
{
    if month == 2 {
        if (year % 4 == 0 && year % 100 != 0) || year % 400 == 0 {
            29
        } else {
            28
        }
    } else if month == 4 || month == 6 || month == 9 || month == 11 {
        30
    } else {
        31
    }
}

/// A year, month and day that name an existing date within chrono's range.
pub open spec fn valid_ymd(y: int, m: int, d: int) -> bool {
    &&& MIN_YEAR <= y <= MAX_YEAR
    &&& 1 <= m <= 12
    &&& 1 <= d <= days_in_month(y, m)
}

/// A calendar date. `days` is the day number (January 1 of year 1 is day 1);
/// `year`, `month` and `day` are the same date written out.
#[derive(Clone, Copy, Debug, PartialEq, Eq, Structural)]
pub struct Date {
    pub days: i32,
    pub year: i32,
    pub month: u32,
    pub day: u32,
}

impl Date {
    /// The fields describe one and the same representable date.
    pub open spec fn wf(self) -> bool {
        &&& MIN_DAY <= self.days <= MAX_DAY
        &&& civil_of_day(self.days as int) == Some((self.year as int, self.month as int, self.day as int))
        &&& valid_ymd(self.year as int, self.month as int, self.day as int)
    }

    /// Relies on chrono's `NaiveDate::from_ymd_opt` and
    /// `Datelike::num_days_from_ce`: a valid year, month and day name a date,
    /// and its day number maps back to the same date.
    #[verifier::external_body]
    fn chrono_from_ymd(year: i32, month: u32, day: u32) -> (r: Date)
        requires
            valid_ymd(year as int, month as int, day as int),
        ensures
            civil_of_day(r.days as int) == Some((year as int, month as int, day as int)),
            r.wf() && r.year == year && r.month == month && r.day == day,
    {
        let x = chrono::NaiveDate::from_ymd_opt(year, month, day).unwrap();
        Date { days: x.num_days_from_ce(), year, month, day }
    }

    /// Relies on chrono's `NaiveDate::from_num_days_from_ce_opt`: every day
    /// number from `MIN_DAY` to `MAX_DAY` is a date.
    #[verifier::external_body]
    fn chrono_from_days(days: i32) -> (r: Date)
        requires
            MIN_DAY <= days <= MAX_DAY,
        ensures
            civil_of_day(days as int) == Some((r.year as int, r.month as int, r.day as int)),
            r.wf() && r.days == days,
    {
        let x = chrono::NaiveDate::from_num_days_from_ce_opt(days).unwrap();
        Date { days, year: x.year(), month: x.month(), day: x.day() }
    }

    /// Relies on chrono's `Weekday::num_days_from_monday`: day 1 (January 1 of
    /// year 1) is a Monday, and weekdays repeat every seven days.
    #[verifier::external_body]
    pub(crate) fn days_from_monday(&self) -> (r: u32)
        requires
            self.wf(),
        ensures
            r as int == (self.days - 1) % 7,
    {
        chrono::NaiveDate::from_num_days_from_ce_opt(self.days).unwrap().weekday().num_days_from_monday()
    }

    /// Relies on chrono's `Weekday::num_days_from_sunday`: day 1 (January 1 of
    /// year 1) is a Monday, and weekdays repeat every seven days.
    #[verifier::external_body]
    pub(crate) fn days_from_sunday(&self) -> (r: u32)
        requires
            self.wf(),
        ensures
            r as int == self.days % 7,
    {
        chrono::NaiveDate::from_num_days_from_ce_opt(self.days).unwrap().weekday().num_days_from_sunday()
    }

    /// The date with this year, month and day, where it exists.
    pub fn from_ymd(year: i32, month: u32, day: u32) -> (r: Option<Date>)
        ensures
            r.is_some() <==> valid_ymd(year as int, month as int, day as int),
            r matches Some(d) ==> d.wf() && d.year == year && d.month == month && d.day == day,
    {
        if year < MIN_YEAR || year > MAX_YEAR || month < 1 || month > 12 || day < 1 {
            return None;
        }
        if day > month_length(year, month) {
            None
        } else {
            Some(Date::chrono_from_ymd(year, month, day))
        }
    }

    /// The date with this day number, where it is representable.
    pub fn from_days(days: i32) -> (r: Option<Date>)
        ensures
            r.is_some() <==> MIN_DAY <= days <= MAX_DAY,
            r matches Some(d) ==> d.wf() && d.days == days,
    {
        if days < MIN_DAY || days > MAX_DAY {
            None
        } else {
            Some(Date::chrono_from_days(days))
        }
    }

    /// Saturday or Sunday.
    pub open spec fn spec_is_weekend(self) -> bool {
        let w = (self.days - 1) % 7;
        w == 5 || w == 6
    }

    pub fn is_weekend(&self) -> (r: bool)
        requires
            self.wf(),
        ensures
            r == self.spec_is_weekend(),
    {
        let w = self.days_from_monday();
        w == 5 || w == 6
    }

    /// The date `n` days later, where it exists.
    pub fn add_days(&self, n: i32) -> (r: Option<Date>)
        requires
            self.wf(),
            0 <= n,
        ensures
            r.is_some() <==> self.days + n <= MAX_DAY,
            r matches Some(d) ==> d.wf() && d.days == self.days + n,
    {
        if self.days > MAX_DAY - n {
            None
        } else {
            Date::from_days(self.days + n)
        }
    }

    /// Month or year differs.
    pub open spec fn spec_other_month(self, o: Date) -> bool {
        self.month != o.month || self.year != o.year
    }
}

} // verus!
