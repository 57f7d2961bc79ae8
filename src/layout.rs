//! The seven dates of a week and where in them a new month begins.
use crate::date::{civil_of_day, Date, MAX_DAY, MIN_DAY};
use crate::models::{weekday_index, Calendar, WeekStart};
use vstd::prelude::*;

verus! {

/// Day number of the first day of the week that holds `days`.
pub open spec fn aligned_day(ws: WeekStart, days: int) -> int {
    days - weekday_index(ws, days)
}

/// Whether position `i` of a week is where a month begins: the first day of a
/// month at position 0, or a change of month or year from the previous date.
pub open spec fn is_month_marker(ds: Seq<Date>, i: int) -> bool {
    if i == 0 {
        ds[0].day == 1
    } else {
        ds[i].spec_other_month(ds[i - 1])
    }
}

/// The first month-start marker at position `i` or later.
pub open spec fn first_marker_from(ds: Seq<Date>, i: int) -> Option<(usize, u32)>
    decreases 7 - i,
{
    if i < 0 || i >= 7 {
        None
    } else if is_month_marker(ds, i) {
        Some((i as usize, ds[i].month))
    } else {
        first_marker_from(ds, i + 1)
    }
}

/// A marker found from position `i` on lies between `i` and 6.
pub proof fn lemma_first_marker_bounds(ds: Seq<Date>, i: int)
    requires
        0 <= i,
    ensures
        first_marker_from(ds, i) matches Some((k, m)) ==> i <= k < 7 && m == ds[k as int].month,
    decreases 7 - i,
{
    if i < 7 && !is_month_marker(ds, i) {
        lemma_first_marker_bounds(ds, i + 1);
    }
}

/// Seven dates that follow one another day by day, from `first` on.
pub open spec fn consecutive_week(ds: Seq<Date>, first: int) -> bool {
    &&& ds.len() == 7
    &&& forall|i: int| 0 <= i < 7 ==> (#[trigger] ds[i]).wf() && ds[i].days == first + i
}

/// The date with day number `n`, where it exists.
pub open spec fn date_at(n: int) -> Date {
    let c = civil_of_day(n).unwrap();
    Date { days: n as i32, year: c.0 as i32, month: c.1 as u32, day: c.2 as u32 }
}

/// The seven dates from day number `n` on.
pub open spec fn week_dates(n: int) -> Seq<Date> {
    Seq::new(7, |i: int| date_at(n + i))
}

/// A well-formed date is the date of its day number.
pub proof fn lemma_date_at(d: Date)
    requires
        d.wf(),
    ensures
        date_at(d.days as int) == d,
{
}

/// One week of the calendar grid.
pub struct WeekLayout {
    pub dates: Vec<Date>,
    pub month_start_idx: Option<(usize, u32)>,
}

impl WeekLayout {
    pub open spec fn wf(self) -> bool {
        &&& consecutive_week(self.dates@, self.dates@[0].days as int)
        &&& self.month_start_idx == first_marker_from(self.dates@, 0)
    }

    /// The week of seven days that starts at `start`.
    pub fn new(start: Date) -> (r: WeekLayout)
        requires
            start.wf(),
            start.days + 6 <= MAX_DAY,
        ensures
            r.wf(),
            consecutive_week(r.dates@, start.days as int),
            r.dates@ == week_dates(start.days as int),
    {
        let mut dates: Vec<Date> = Vec::new();
        dates.push(start);
        let mut i: usize = 1;
        while i < 7
            invariant
                1 <= i <= 7,
                start.wf(),
                start.days + 6 <= MAX_DAY,
                dates@.len() == i,
                forall|j: int| 0 <= j < i ==> (#[trigger] dates@[j]).wf() && dates@[j].days == start.days + j,
            decreases 7 - i,
        {
            let next = Date::from_days(start.days + i as i32);
            match next {
                Some(d) => dates.push(d),
                None => {},
            }
            i += 1;
        }
        let mut month_start_idx: Option<(usize, u32)> = None;
        let mut k: usize = 7;
        while k > 0
            invariant
                k <= 7,
                dates@.len() == 7,
                month_start_idx == first_marker_from(dates@, k as int),
            decreases k,
        {
            k -= 1;
            let marker = if k == 0 {
                dates[0].day == 1
            } else {
                dates[k].month != dates[k - 1].month || dates[k].year != dates[k - 1].year
            };
            if marker {
                month_start_idx = Some((k, dates[k].month));
            }
        }
        proof {
            assert forall|j: int| 0 <= j < 7 implies dates@[j] == week_dates(start.days as int)[j] by {
                lemma_date_at(dates@[j]);
            }
            assert(dates@ =~= week_dates(start.days as int));
        }
        WeekLayout { dates, month_start_idx }
    }
}

/// The first day of the week that holds `date`.
pub fn align_to_week_start(calendar: &Calendar, date: Date) -> (r: Date)
    requires
        date.wf(),
        date.days - 6 >= MIN_DAY,
    ensures
        r.wf(),
        r.days == aligned_day(calendar.week_start, date.days as int),
        weekday_index(calendar.week_start, r.days as int) == 0,
        date.days - 7 < r.days <= date.days,
{
    let w = calendar.get_weekday_num(&date);
    let aligned = Date::from_days(date.days - w as i32);
    match aligned {
        Some(d) => d,
        None => date,
    }
}

/// Aligning to the start of the week a date that is already aligned leaves it
/// unchanged: alignment is idempotent.
pub proof fn lemma_align_idempotent(ws: WeekStart, days: int)
    ensures
        aligned_day(ws, aligned_day(ws, days)) == aligned_day(ws, days),
        weekday_index(ws, aligned_day(ws, days)) == 0,
{
}

} // verus!
