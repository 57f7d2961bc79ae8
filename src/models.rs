//! The calendar model: display options, annotations, the month filter and the
//! color resolver.
use crate::date::{days_in_month, month_length, Date, MAX_YEAR, MIN_YEAR};
use crate::text::{push_char, text_eq};
use std::collections::HashMap;
use vstd::prelude::*;

verus! {

broadcast use vstd::std_specs::hash::group_hash_axioms;

#[derive(Clone, Copy, Debug, PartialEq, Eq, Structural)]
pub enum WeekStart {
    Monday,
    Sunday,
}

#[derive(Clone, Copy, Debug, PartialEq, Eq, Structural)]
pub enum WeekendDisplay {
    Dimmed,
    Normal,
}

#[derive(Clone, Copy, Debug, PartialEq, Eq, Structural)]
pub enum ColorMode {
    Normal,
    Work,
}

#[derive(Clone, Copy, Debug, PartialEq, Eq, Structural)]
pub enum PastDateDisplay {
    Strikethrough,
    Normal,
}

/// A note on a single date, with an optional color name.
#[derive(Clone, Debug)]
pub struct DateDetail {
    pub description: String,
    pub color: Option<String>,
}

/// A note on an inclusive span of dates, with a color name.
#[derive(Clone, Debug)]
pub struct DateRange {
    pub start: Date,
    pub end: Date,
    pub color: String,
    pub description: Option<String>,
}

impl DateRange {
    pub open spec fn wf(self) -> bool {
        self.start.wf() && self.end.wf() && self.start.days <= self.end.days
    }

    pub open spec fn covers(self, days: int) -> bool {
        self.start.days <= days <= self.end.days
    }

    pub open spec fn overlaps(self, lo: int, hi: int) -> bool {
        self.start.days <= hi && self.end.days >= lo
    }
}

/// Which months a rendering shows.
#[derive(Clone, Copy, Debug, PartialEq, Eq, Structural)]
pub enum MonthFilter {
    All,
    Single(u32),
    Current,
    CurrentWithFollowing(u32),
}

impl MonthFilter {
    pub open spec fn wf(self) -> bool {
        self matches MonthFilter::Single(m) ==> 1 <= m <= 12
    }

    /// Reads a month argument.
    pub fn parse_month(s: &str) -> (r: Result<MonthFilter, MonthParseError>)
        ensures
            r == parse_month_spec(s@),
            r matches Ok(f) ==> f.wf(),
    {
        let n = s.unicode_len();
        let mut all_digits = n > 0;
        let mut value: u64 = 0;
        let mut big = false;
        let mut lower = String::new();
        let mut i: usize = 0;
        while i < n
            invariant
                i <= n,
                n == s@.len(),
                all_digits == (n > 0 && forall|j: int| 0 <= j < i ==> is_digit(#[trigger] s@[j])),
                all_digits && !big ==> value == digits_value(s@.subrange(0, i as int)),
                all_digits && !big ==> value <= 12,
                all_digits && big ==> digits_value(s@.subrange(0, i as int)) > 12,
                lower@ == lower_text(s@.subrange(0, i as int)),
            decreases n - i,
        {
            let c = s.get_char(i);
            let ghost pre = s@.subrange(0, i as int);
            assert(s@.subrange(0, i + 1).drop_last() =~= pre);
            if '0' <= c && c <= '9' {
                if all_digits {
                    let d = (c as u32 - '0' as u32) as u64;
                    if !big {
                        value = value * 10 + d;
                        if value > 12 {
                            big = true;
                        }
                    } else {
                        assert(digits_value(s@.subrange(0, i + 1)) >= digits_value(pre) * 10);
                    }
                }
            } else {
                all_digits = false;
            }
            let lc = if 'A' <= c && c <= 'Z' { ((c as u32 + 32) as u8) as char } else { c };
            assert(lc == lower_char(c)) by {
                if 'A' <= c && c <= 'Z' {
                    assert(((c as u32 + 32) as u8) as char == ((c as u32) + 32) as char);
                }
            }
            push_char(&mut lower, lc);
            assert(lower_text(s@.subrange(0, i + 1)) =~= lower_text(pre).push(lower_char(c)));
            i += 1;
        }
        assert(s@.subrange(0, n as int) =~= s@);
        if all_digits {
            if big {
                Err(MonthParseError::OutOfRange)
            } else if value >= 1 {
                Ok(MonthFilter::Single(value as u32))
            } else {
                Err(MonthParseError::OutOfRange)
            }
        } else {
            proof {
                reveal_strlit("current");
            }
            if text_eq(lower.as_str(), "current") {
                Ok(MonthFilter::Current)
            } else {
                match month_number(lower.as_str()) {
                    Some(m) => Ok(MonthFilter::Single(m)),
                    None => Err(MonthParseError::Unknown),
                }
            }
        }
    }

    /// First and last month shown, given the month of today.
    pub open spec fn spec_month_range(self, current_month: int) -> (int, int) {
        match self {
            MonthFilter::All => (1, 12),
            MonthFilter::Single(m) => (m as int, m as int),
            MonthFilter::Current => (current_month, current_month),
            MonthFilter::CurrentWithFollowing(n) => (
                current_month,
                if current_month + n > 12 { 12 } else { current_month + n },
            ),
        }
    }

    /// The year does not take part: `Current` stands for today's month number
    /// in whatever year is shown.
    pub fn get_month_range(&self, year: i32, current_month: u32) -> (r: (u32, u32))
        requires
            self.wf(),
            1 <= current_month <= 12,
        ensures
            (r.0 as int, r.1 as int) == self.spec_month_range(current_month as int),
            1 <= r.0 <= r.1 <= 12,
    {
        match *self {
            MonthFilter::All => (1, 12),
            MonthFilter::Single(m) => (m, m),
            MonthFilter::Current => (current_month, current_month),
            MonthFilter::CurrentWithFollowing(n) => {
                if n > 12 - current_month {
                    (current_month, 12)
                } else {
                    (current_month, current_month + n)
                }
            },
        }
    }

    pub fn should_display_month(&self, month: u32, year: i32, current_month: u32) -> (r: bool)
        requires
            self.wf(),
            1 <= current_month <= 12,
        ensures
            r == (self.spec_month_range(current_month as int).0 <= month
                <= self.spec_month_range(current_month as int).1),
    {
        let (start, end) = self.get_month_range(year, current_month);
        start <= month && month <= end
    }

    /// First day of the first shown month through the last day of the last
    /// shown month; `None` where the year lies outside the representable range.
    pub fn get_date_range(&self, year: i32, current_month: u32) -> (r: Option<(Date, Date)>)
        requires
            self.wf(),
            1 <= current_month <= 12,
        ensures
            r.is_some() <==> MIN_YEAR <= year <= MAX_YEAR,
            r matches Some((s, e)) ==> {
                let (sm, em) = self.spec_month_range(current_month as int);
                &&& s.wf() && e.wf()
                &&& s.year == year && s.month == sm && s.day == 1
                &&& e.year == year && e.month == em && e.day == days_in_month(year as int, em)
            },
    {
        let (start_month, end_month) = self.get_month_range(year, current_month);
        let last = month_length(year, end_month);
        let start = Date::from_ymd(year, start_month, 1);
        let end = Date::from_ymd(year, end_month, last);
        match (start, end) {
            (Some(s), Some(e)) => Some((s, e)),
            _ => None,
        }
    }
}

/// Why a month argument was refused.
#[derive(Clone, Copy, Debug, PartialEq, Eq, Structural)]
pub enum MonthParseError {
    /// A number outside 1 to 12.
    OutOfRange,
    /// Neither a number, a month name nor `current`.
    Unknown,
}

impl MonthParseError {
    pub fn message(&self) -> (r: String)
        ensures
            r@ == match self {
                MonthParseError::OutOfRange => "month number must be between 1 and 12"@,
                MonthParseError::Unknown => "expected a month number (1-12), a month name or 'current'"@,
            },
    {
        match self {
            MonthParseError::OutOfRange => String::from_str("month number must be between 1 and 12"),
            MonthParseError::Unknown => String::from_str(
                "expected a month number (1-12), a month name or 'current'",
            ),
        }
    }
}

pub open spec fn is_digit(c: char) -> bool {
    '0' <= c <= '9'
}

/// Value of a string of decimal digits.
pub open spec fn digits_value(s: Seq<char>) -> nat
    decreases s.len(),
{
    if s.len() == 0 {
        0
    } else {
        digits_value(s.drop_last()) * 10 + (s.last() as nat - '0' as nat) as nat
    }
}

/// A letter in lower case; other characters as they are.
pub open spec fn lower_char(c: char) -> char {
    if 'A' <= c <= 'Z' {
        ((c as u32) + 32) as char
    } else {
        c
    }
}

pub open spec fn lower_text(s: Seq<char>) -> Seq<char> {
    s.map_values(|c: char| lower_char(c))
}

/// The month whose lower-case English name is `s`, if any.
pub open spec fn month_of_name(s: Seq<char>) -> Option<u32> {
    if s == "january"@ { Some(1u32) }
    else if s == "february"@ { Some(2u32) }
    else if s == "march"@ { Some(3u32) }
    else if s == "april"@ { Some(4u32) }
    else if s == "may"@ { Some(5u32) }
    else if s == "june"@ { Some(6u32) }
    else if s == "july"@ { Some(7u32) }
    else if s == "august"@ { Some(8u32) }
    else if s == "september"@ { Some(9u32) }
    else if s == "october"@ { Some(10u32) }
    else if s == "november"@ { Some(11u32) }
    else if s == "december"@ { Some(12u32) }
    else { None }
}

/// The filter that a month argument selects: a number from 1 to 12, an
/// English month name or `current`, letters in any case.
pub open spec fn parse_month_spec(s: Seq<char>) -> Result<MonthFilter, MonthParseError> {
    if s.len() > 0 && forall|i: int| 0 <= i < s.len() ==> is_digit(#[trigger] s[i]) {
        if 1 <= digits_value(s) <= 12 {
            Ok(MonthFilter::Single(digits_value(s) as u32))
        } else {
            Err(MonthParseError::OutOfRange)
        }
    } else if lower_text(s) == "current"@ {
        Ok(MonthFilter::Current)
    } else {
        match month_of_name(lower_text(s)) {
            Some(m) => Ok(MonthFilter::Single(m)),
            None => Err(MonthParseError::Unknown),
        }
    }
}

/// Display name of a month.
pub open spec fn month_name(m: int) -> Seq<char> {
    if m == 1 { "January"@ }
    else if m == 2 { "February"@ }
    else if m == 3 { "March"@ }
    else if m == 4 { "April"@ }
    else if m == 5 { "May"@ }
    else if m == 6 { "June"@ }
    else if m == 7 { "July"@ }
    else if m == 8 { "August"@ }
    else if m == 9 { "September"@ }
    else if m == 10 { "October"@ }
    else if m == 11 { "November"@ }
    else { "December"@ }
}

fn month_number(s: &str) -> (r: Option<u32>)
    ensures
        r == month_of_name(s@),
{
    if text_eq(s, "january") { Some(1) }
    else if text_eq(s, "february") { Some(2) }
    else if text_eq(s, "march") { Some(3) }
    else if text_eq(s, "april") { Some(4) }
    else if text_eq(s, "may") { Some(5) }
    else if text_eq(s, "june") { Some(6) }
    else if text_eq(s, "july") { Some(7) }
    else if text_eq(s, "august") { Some(8) }
    else if text_eq(s, "september") { Some(9) }
    else if text_eq(s, "october") { Some(10) }
    else if text_eq(s, "november") { Some(11) }
    else if text_eq(s, "december") { Some(12) }
    else { None }
}

pub struct MonthInfo {
    pub name: &'static str,
}

impl MonthInfo {
    pub fn from_month(month: u32) -> (r: MonthInfo)
        requires
            1 <= month <= 12,
        ensures
            r.name@ == month_name(month as int),
            r.name@.len() <= 9,
    {
        let name = match month {
            1 => "January",
            2 => "February",
            3 => "March",
            4 => "April",
            5 => "May",
            6 => "June",
            7 => "July",
            8 => "August",
            9 => "September",
            10 => "October",
            11 => "November",
            _ => "December",
        };
        proof {
            reveal_strlit("January");
            reveal_strlit("February");
            reveal_strlit("March");
            reveal_strlit("April");
            reveal_strlit("May");
            reveal_strlit("June");
            reveal_strlit("July");
            reveal_strlit("August");
            reveal_strlit("September");
            reveal_strlit("October");
            reveal_strlit("November");
            reveal_strlit("December");
        }
        MonthInfo { name }
    }
}

/// Everything one rendering pass reads. `details` is keyed by day number
/// (`Date::days`).
pub struct Calendar {
    pub year: i32,
    pub week_start: WeekStart,
    pub weekend_display: WeekendDisplay,
    pub color_mode: ColorMode,
    pub past_date_display: PastDateDisplay,
    pub month_filter: MonthFilter,
    pub details: HashMap<i32, DateDetail>,
    pub ranges: Vec<DateRange>,
}

/// Weekday position of a day number, counted from the configured first day
/// of the week.
pub open spec fn weekday_index(ws: WeekStart, days: int) -> int {
    match ws {
        WeekStart::Monday => (days - 1) % 7,
        WeekStart::Sunday => days % 7,
    }
}

/// Color of the first range, from position `i` on, that covers a day.
pub open spec fn range_color_from(ranges: Seq<DateRange>, days: int, i: int) -> Option<Seq<char>>
    decreases ranges.len() - i,
{
    if i < 0 || i >= ranges.len() {
        None
    } else if ranges[i].covers(days) {
        Some(ranges[i].color@)
    } else {
        range_color_from(ranges, days, i + 1)
    }
}

impl Calendar {
    pub open spec fn wf(self) -> bool {
        &&& self.month_filter.wf()
        &&& forall|i: int| 0 <= i < self.ranges@.len() ==> (#[trigger] self.ranges@[i]).wf()
    }

    /// Work mode and a Saturday or Sunday.
    pub open spec fn work_override(self, d: Date) -> bool {
        self.color_mode == ColorMode::Work && d.spec_is_weekend()
    }

    /// The explicit color of the detail on a date, if any.
    pub open spec fn detail_color(self, d: Date) -> Option<Seq<char>> {
        if self.details@.contains_key(d.days) {
            match self.details@[d.days].color {
                Some(c) => Some(c@),
                None => None,
            }
        } else {
            None
        }
    }

    /// The resolved color of a date: work-mode weekends have none; else the
    /// detail's color; else the first covering range's color; else none.
    pub open spec fn spec_date_color(self, d: Date) -> Option<Seq<char>> {
        if self.work_override(d) {
            None
        } else if self.detail_color(d).is_some() {
            self.detail_color(d)
        } else {
            range_color_from(self.ranges@, d.days as int, 0)
        }
    }

    pub fn new(
        year: i32,
        week_start: WeekStart,
        weekend_display: WeekendDisplay,
        color_mode: ColorMode,
        past_date_display: PastDateDisplay,
        month_filter: MonthFilter,
        details: HashMap<i32, DateDetail>,
        ranges: Vec<DateRange>,
    ) -> (r: Calendar)
        ensures
            r.year == year && r.week_start == week_start && r.weekend_display == weekend_display,
            r.color_mode == color_mode && r.past_date_display == past_date_display,
            r.month_filter == month_filter && r.details@ == details@ && r.ranges@ == ranges@,
    {
        Calendar {
            year,
            week_start,
            weekend_display,
            color_mode,
            past_date_display,
            month_filter,
            details,
            ranges,
        }
    }

    pub fn get_weekday_num(&self, date: &Date) -> (r: u32)
        requires
            date.wf(),
        ensures
            r as int == weekday_index(self.week_start, date.days as int),
            r < 7,
    {
        match self.week_start {
            WeekStart::Monday => date.days_from_monday(),
            WeekStart::Sunday => date.days_from_sunday(),
        }
    }

    /// Resolves the display color of a date.
    pub fn get_date_color(&self, date: &Date) -> (r: Option<String>)
        requires
            date.wf(),
        ensures
            match r {
                Some(c) => self.spec_date_color(*date) == Some(c@),
                None => self.spec_date_color(*date).is_none(),
            },
    {
        if self.color_mode == ColorMode::Work && date.is_weekend() {
            return None;
        }
        match self.details.get(&date.days) {
            Some(detail) => {
                match &detail.color {
                    Some(c) => {
                        return Some(c.clone());
                    },
                    None => {},
                }
            },
            None => {},
        }
        assert(!self.work_override(*date));
        assert(self.detail_color(*date).is_none());
        let mut i: usize = 0;
        while i < self.ranges.len()
            invariant
                0 <= i <= self.ranges@.len(),
                !self.work_override(*date),
                self.detail_color(*date).is_none(),
                range_color_from(self.ranges@, date.days as int, 0) == range_color_from(
                    self.ranges@,
                    date.days as int,
                    i as int,
                ),
            decreases self.ranges@.len() - i,
        {
            let range = &self.ranges[i];
            if range.start.days <= date.days && date.days <= range.end.days {
                return Some(range.color.clone());
            }
            i += 1;
        }
        None
    }
}

/// Showing all months gives January through December, whatever the year and
/// today's month.
pub proof fn lemma_all_months(current_month: int)
    ensures
        MonthFilter::All.spec_month_range(current_month) == (1int, 12int),
{
}

/// The current month with following months never ends past December.
pub proof fn lemma_following_months_clamped(n: u32, current_month: int)
    requires
        1 <= current_month <= 12,
    ensures
        MonthFilter::CurrentWithFollowing(n).spec_month_range(current_month).1 <= 12,
        current_month <= MonthFilter::CurrentWithFollowing(n).spec_month_range(current_month).1,
{
}

/// The color of the first covering range is that of a range that covers the
/// day, with no earlier range covering it; with none covering it there is no
/// color.
pub proof fn lemma_first_range(ranges: Seq<DateRange>, days: int, i: int)
    requires
        0 <= i,
    ensures
        range_color_from(ranges, days, i) matches Some(c) ==> exists|k: int|
            i <= k < ranges.len() && (#[trigger] ranges[k]).covers(days) && ranges[k].color@ == c
                && forall|l: int| i <= l < k ==> !(#[trigger] ranges[l]).covers(days),
        range_color_from(ranges, days, i) is None ==> forall|k: int|
            i <= k < ranges.len() ==> !(#[trigger] ranges[k]).covers(days),
    decreases ranges.len() - i,
{
    if i < ranges.len() && !ranges[i].covers(days) {
        lemma_first_range(ranges, days, i + 1);
        if let Some(c) = range_color_from(ranges, days, i) {
            let k = choose|k: int|
                i + 1 <= k < ranges.len() && (#[trigger] ranges[k]).covers(days) && ranges[k].color@ == c
                    && forall|l: int| i + 1 <= l < k ==> !(#[trigger] ranges[l]).covers(days);
            assert(forall|l: int| i <= l < k ==> !(#[trigger] ranges[l]).covers(days));
        }
    }
}

/// Color precedence is total: exactly one of the work-mode weekend override,
/// the detail's color, a range's color and no color applies to a date, the
/// override wins whenever it is active, and among overlapping ranges the one
/// stored first wins.
pub proof fn lemma_color_precedence(cal: Calendar, d: Date)
    ensures
        ({
            let work = cal.work_override(d);
            let detail = !work && cal.detail_color(d) is Some;
            let range = !work && cal.detail_color(d) is None
                && range_color_from(cal.ranges@, d.days as int, 0) is Some;
            let none = !work && cal.detail_color(d) is None
                && range_color_from(cal.ranges@, d.days as int, 0) is None;
            &&& (if work { 1int } else { 0 }) + (if detail { 1int } else { 0 }) + (if range { 1int } else { 0 })
                + (if none { 1int } else { 0 }) == 1
            &&& work ==> cal.spec_date_color(d) is None
            &&& detail ==> cal.spec_date_color(d) == cal.detail_color(d)
            &&& none ==> cal.spec_date_color(d) is None
        }),
        (cal.spec_date_color(d) is Some && !cal.work_override(d) && cal.detail_color(d) is None)
            ==> exists|k: int|
            0 <= k < cal.ranges@.len() && (#[trigger] cal.ranges@[k]).covers(d.days as int)
                && cal.ranges@[k].color@ == cal.spec_date_color(d).unwrap() && forall|l: int|
                0 <= l < k ==> !(#[trigger] cal.ranges@[l]).covers(d.days as int),
{
    lemma_first_range(cal.ranges@, d.days as int, 0);
}

} // verus!
