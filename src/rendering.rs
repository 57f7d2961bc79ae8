//! The rendering engine: header, week rows, month borders and annotations.
use crate::date::{days_in_month, Date, MAX_DAY, MAX_YEAR, MIN_DAY, MIN_YEAR};
use crate::layout::{
    aligned_day, align_to_week_start, date_at, first_marker_from, lemma_date_at,
    lemma_first_marker_bounds, week_dates, WeekLayout,
};
use crate::models::{
    month_name, Calendar, DateDetail, DateRange, MonthInfo, PastDateDisplay, WeekStart,
    WeekendDisplay,
};
use crate::palette::{ansi_prefix_of, ansi_reset, black_text_style, render_reset, render_style, spec_style, CellStyle, ColorPalette};
use crate::text::{
    centered, decimal, pad_right, push_centered, push_decimal, push_padded, push_repeat,
    push_two_digits, push_zero_pad2, repeat, two_digits, zero_pad2,
};
use vstd::prelude::*;

verus! {

broadcast use vstd::std_specs::hash::group_hash_axioms;

/// Width of the day cells, in columns, between the outer bars.
pub const CALENDAR_WIDTH: usize = 34;

/// Width of the title box.
pub const HEADER_WIDTH: usize = 48;

/// Dashes (or spaces) between the left edge of the day cells and a bar placed
/// before the cell at `idx`.
pub open spec fn cols_before(idx: int) -> nat {
    ((idx - 1) * 5 + 4) as nat
}

/// Dashes (or spaces) from a bar before the cell at `idx` to the right edge.
pub open spec fn cols_after(idx: int) -> nat {
    ((7 - idx) * 5 - 1) as nat
}

pub open spec fn title_text(year: int) -> Seq<char> {
    "COMPACT CALENDAR "@ + decimal(year)
}

pub open spec fn header_text(year: int, ws: WeekStart) -> Seq<char> {
    "┌"@ + repeat("─"@, 48) + "┐\n"@
    + "│"@ + centered(title_text(year), 48) + "│\n"@
    + "├"@ + repeat("─"@, 48) + "┤\n"@
    + "│              "@
    + match ws {
        WeekStart::Monday => "Mon  Tue  Wed  Thu  Fri  Sat  Sun │\n"@,
        WeekStart::Sunday => "Sun  Mon  Tue  Wed  Thu  Fri  Sat │\n"@,
    }
}

/// The border drawn above the first shown week where a month begins inside it.
pub open spec fn month_border_text(marker: Option<(usize, u32)>) -> Seq<char> {
    match marker {
        Some((idx, _)) => if idx > 0 {
            "│             ┌"@ + repeat("─"@, cols_before(idx as int)) + "┬"@
                + repeat("─"@, cols_after(idx as int)) + "┤\n"@
        } else {
            Seq::empty()
        },
        None => Seq::empty(),
    }
}

/// First position from `i` on where the month or year changes.
pub open spec fn boundary_from(ds: Seq<Date>, i: int) -> Option<int>
    decreases 7 - i,
{
    if i < 1 || i >= 7 {
        None
    } else if ds[i].spec_other_month(ds[i - 1]) {
        Some(i)
    } else {
        boundary_from(ds, i + 1)
    }
}

/// The bottom border below the last shown week.
pub open spec fn closing_border_text(ds: Seq<Date>) -> Seq<char> {
    match boundary_from(ds, 1) {
        Some(b) => "└"@ + repeat("─"@, 13) + "┴"@ + repeat("─"@, cols_before(b)) + "┴"@
            + repeat("─"@, cols_after(b)) + "┘\n"@,
        None => "└"@ + repeat("─"@, 13) + "┴"@ + repeat("─"@, 34) + "┘\n"@,
    }
}

/// The date at position `i` belongs to the shown month of the shown year.
pub open spec fn in_month(ds: Seq<Date>, i: int, year: i32, current_month: Option<u32>) -> bool {
    ds[i].year == year && current_month == Some(ds[i].month)
}

/// The last position before `n` where a run of dates of the shown month begins.
pub open spec fn last_month_entry(ds: Seq<Date>, n: int, year: i32, current_month: Option<u32>) -> Option<int>
    decreases n,
{
    if n <= 0 {
        None
    } else if in_month(ds, n - 1, year, current_month) && (n - 1 == 0 || !in_month(ds, n - 2, year, current_month)) {
        Some(n - 1)
    } else {
        last_month_entry(ds, n - 1, year, current_month)
    }
}

/// The separator below a week in which a month begins after its first day.
pub open spec fn separator_text(ds: Seq<Date>, year: i32, current_month: Option<u32>) -> Seq<char> {
    "│             ├"@ + match last_month_entry(ds, 7, year, current_month) {
        Some(b) => if b > 0 {
            repeat("─"@, cols_before(b)) + "┘"@ + repeat(" "@, cols_after(b)) + "│\n"@
        } else {
            "───────────────────────────────┤│\n"@
        },
        None => "───────────────────────────────┤│\n"@,
    }
}

/// The separator below a week whose successor begins a month.
pub open spec fn separator_before_month_text(next_marker: Option<(usize, u32)>) -> Seq<char> {
    match next_marker {
        Some((i, _)) => if i == 0 {
            "│             ├"@ + repeat("─"@, 34) + "┤"@ + "\n"@
        } else {
            "│             │"@ + repeat(" "@, cols_before(i as int)) + "┌"@
                + repeat("─"@, ((6 - i) * 5 + 4) as nat) + "┤"@ + "\n"@
        },
        None => "│             │"@ + repeat(" "@, 31) + "\n"@,
    }
}

/// The header: title box and the weekday names.
pub fn header_to_string(year: i32, week_start: WeekStart) -> (r: String)
    ensures
        r@ == header_text(year as int, week_start),
{
    let mut out = String::new();
    out.append("┌");
    push_repeat(&mut out, "─", HEADER_WIDTH);
    out.append("┐\n");
    out.append("│");
    let mut title = String::new();
    title.append("COMPACT CALENDAR ");
    push_decimal(&mut title, year);
    push_centered(&mut out, title.as_str(), HEADER_WIDTH);
    out.append("│\n");
    out.append("├");
    push_repeat(&mut out, "─", HEADER_WIDTH);
    out.append("┤\n");
    out.append("│              ");
    match week_start {
        WeekStart::Monday => out.append("Mon  Tue  Wed  Thu  Fri  Sat  Sun │\n"),
        WeekStart::Sunday => out.append("Sun  Mon  Tue  Wed  Thu  Fri  Sat │\n"),
    }
    assert(out@ =~= header_text(year as int, week_start));
    out
}

pub fn month_border_to_string(layout: &WeekLayout) -> (r: String)
    requires
        layout.wf(),
    ensures
        r@ == month_border_text(layout.month_start_idx),
{
    let mut out = String::new();
    match layout.month_start_idx {
        Some((idx, _)) => {
            proof {
                lemma_first_marker_bounds(layout.dates@, 0);
            }
            if idx > 0 {
                out.append("│             ┌");
                push_repeat(&mut out, "─", (idx - 1) * 5 + 4);
                out.append("┬");
                push_repeat(&mut out, "─", (7 - idx) * 5 - 1);
                out.append("┤\n");
                assert(out@ =~= month_border_text(layout.month_start_idx));
            }
        },
        None => {},
    }
    out
}

/// Dates at positions `i` and `i - 1` lie in different months.
fn other_month(ds: &Vec<Date>, i: usize) -> (r: bool)
    requires
        1 <= i < ds@.len(),
    ensures
        r == ds@[i as int].spec_other_month(ds@[i - 1]),
{
    ds[i].month != ds[i - 1].month || ds[i].year != ds[i - 1].year
}

proof fn lemma_boundary_bounds(ds: Seq<Date>, i: int)
    requires
        1 <= i,
    ensures
        boundary_from(ds, i) matches Some(b) ==> i <= b < 7,
    decreases 7 - i,
{
    if i < 7 && !ds[i].spec_other_month(ds[i - 1]) {
        lemma_boundary_bounds(ds, i + 1);
    }
}

pub fn closing_border_to_string(layout: &WeekLayout) -> (r: String)
    requires
        layout.wf(),
    ensures
        r@ == closing_border_text(layout.dates@),
{
    let ds = &layout.dates;
    let mut boundary: Option<usize> = None;
    let mut k: usize = 7;
    while k > 1
        invariant
            1 <= k <= 7,
            ds@.len() == 7,
            boundary matches Some(b) ==> b as int == boundary_from(ds@, k as int).unwrap() && b < 7,
            boundary.is_none() == boundary_from(ds@, k as int).is_none(),
        decreases k,
    {
        k -= 1;
        if other_month(ds, k) {
            boundary = Some(k);
        }
    }
    proof {
        lemma_boundary_bounds(ds@, 1);
    }
    let mut out = String::new();
    out.append("└");
    push_repeat(&mut out, "─", 13);
    out.append("┴");
    match boundary {
        Some(b) => {
            push_repeat(&mut out, "─", (b - 1) * 5 + 4);
            out.append("┴");
            push_repeat(&mut out, "─", (7 - b) * 5 - 1);
        },
        None => {
            push_repeat(&mut out, "─", CALENDAR_WIDTH);
        },
    }
    out.append("┘\n");
    assert(out@ =~= closing_border_text(layout.dates@));
    out
}

fn in_month_at(ds: &Vec<Date>, i: usize, year: i32, current_month: Option<u32>) -> (r: bool)
    requires
        i < ds@.len(),
    ensures
        r == in_month(ds@, i as int, year, current_month),
{
    ds[i].year == year && current_month == Some(ds[i].month)
}

proof fn lemma_month_entry_bounds(ds: Seq<Date>, n: int, year: i32, current_month: Option<u32>)
    ensures
        last_month_entry(ds, n, year, current_month) matches Some(b) ==> 0 <= b < n,
    decreases n,
{
    if n > 0 {
        lemma_month_entry_bounds(ds, n - 1, year, current_month);
    }
}

pub fn separator_to_string(layout: &WeekLayout, year: i32, current_month: Option<u32>) -> (r: String)
    requires
        layout.wf(),
    ensures
        r@ == separator_text(layout.dates@, year, current_month),
{
    let ds = &layout.dates;
    let mut bar: Option<usize> = None;
    let mut i: usize = 0;
    while i < 7
        invariant
            i <= 7,
            ds@.len() == 7,
            bar matches Some(b) ==> b as int == last_month_entry(ds@, i as int, year, current_month).unwrap(),
            bar.is_none() == last_month_entry(ds@, i as int, year, current_month).is_none(),
        decreases 7 - i,
    {
        let here = in_month_at(ds, i, year, current_month);
        let prev = if i > 0 { in_month_at(ds, i - 1, year, current_month) } else { false };
        if here && !prev {
            bar = Some(i);
        }
        i += 1;
    }
    proof {
        lemma_month_entry_bounds(ds@, 7, year, current_month);
    }
    let mut out = String::new();
    out.append("│             ├");
    match bar {
        Some(b) => {
            if b > 0 {
                push_repeat(&mut out, "─", (b - 1) * 5 + 4);
                out.append("┘");
                push_repeat(&mut out, " ", (7 - b) * 5 - 1);
                out.append("│\n");
            } else {
                out.append("───────────────────────────────┤│\n");
            }
        },
        None => {
            out.append("───────────────────────────────┤│\n");
        },
    }
    assert(out@ =~= separator_text(layout.dates@, year, current_month));
    out
}

pub fn separator_before_month_to_string(next_layout: &WeekLayout) -> (r: String)
    requires
        next_layout.wf(),
    ensures
        r@ == separator_before_month_text(next_layout.month_start_idx),
{
    let mut out = String::new();
    proof {
        lemma_first_marker_bounds(next_layout.dates@, 0);
    }
    match next_layout.month_start_idx {
        Some((i, _)) => {
            if i == 0 {
                out.append("│             ├");
                push_repeat(&mut out, "─", CALENDAR_WIDTH);
                out.append("┤");
            } else {
                out.append("│             │");
                push_repeat(&mut out, " ", (i - 1) * 5 + 4);
                out.append("┌");
                push_repeat(&mut out, "─", (7 - 1 - i) * 5 + 4);
                out.append("┤");
            }
        },
        None => {
            out.append("│             │");
            push_repeat(&mut out, " ", 7 * 4 + 3);
        },
    }
    out.append("\n");
    assert(out@ =~= separator_before_month_text(next_layout.month_start_idx));
    out
}

/// `text` switched into a style and back out of it.
pub open spec fn wrap_styled(style: CellStyle, text: Seq<char>) -> Seq<char> {
    ansi_prefix_of(style) + text + (if style.is_plain() { Seq::empty() } else { ansi_reset() })
}

/// `text` as it is, or wrapped in a style.
pub open spec fn styled(style: Option<CellStyle>, text: Seq<char>) -> Seq<char> {
    match style {
        Some(st) => wrap_styled(st, text),
        None => text,
    }
}

/// Items joined with `", "`.
pub open spec fn join(items: Seq<Seq<char>>) -> Seq<char>
    decreases items.len(),
{
    if items.len() == 0 {
        Seq::empty()
    } else if items.len() == 1 {
        items[0]
    } else {
        join(items.drop_last()) + ", "@ + items.last()
    }
}

/// "MM/DD" of a date.
pub open spec fn month_day_text(d: Date) -> Seq<char> {
    two_digits(d.month as int) + "/"@ + two_digits(d.day as int)
}

fn push_month_day(out: &mut String, d: &Date)
    requires
        d.wf(),
    ensures
        final(out)@ == old(out)@ + month_day_text(*d),
{
    push_two_digits(out, d.month);
    out.append("/");
    push_two_digits(out, d.day);
    assert(out@ =~= old(out)@ + month_day_text(*d));
}

/// Appends `text` wrapped in a style: its escape sequence, the text, the reset.
fn push_wrapped(out: &mut String, style: &CellStyle, text: &String)
    ensures
        final(out)@ == old(out)@ + wrap_styled(*style, text@),
{
    let prefix = render_style(style);
    let reset = render_reset(style);
    out.append(prefix.as_str());
    out.append(text.as_str());
    out.append(reset.as_str());
    assert(out@ =~= old(out)@ + wrap_styled(*style, text@));
}

/// Renders a calendar. `today` marks past dates and the current day;
/// `palette` says whether escape sequences are written.
pub struct CalendarRenderer<'a> {
    pub calendar: &'a Calendar,
    pub today: Date,
    pub palette: ColorPalette,
}

impl<'a> CalendarRenderer<'a> {
    pub open spec fn wf(self) -> bool {
        self.calendar.wf() && self.today.wf()
    }

    pub fn new(calendar: &'a Calendar, today: Date, palette: ColorPalette) -> (r: CalendarRenderer<'a>)
        ensures
            r.calendar == calendar && r.today == today && r.palette == palette,
    {
        CalendarRenderer { calendar, today, palette }
    }

    /// The style of a day cell, `None` where it is written plain: a colored
    /// date gets its background (dimmed on weekends where weekends are dimmed),
    /// black text, strikethrough when past and underline when today; an
    /// uncolored one gets only those effects (and dimming on weekends).
    pub open spec fn cell_style(self, d: Date) -> Option<CellStyle> {
        let is_today = d.days == self.today.days;
        let is_past = self.calendar.past_date_display == PastDateDisplay::Strikethrough && d.days
            < self.today.days;
        let is_weekend = self.calendar.weekend_display == WeekendDisplay::Dimmed && d.spec_is_weekend();
        if !self.palette.spec_enabled() {
            None
        } else {
            match self.calendar.spec_date_color(d) {
                Some(c) => Some(
                    CellStyle {
                        fg: black_text_style().fg,
                        strikethrough: is_past,
                        underline: is_today,
                        ..spec_style(true, c, is_weekend)
                    },
                ),
                None => if is_past || is_today || is_weekend {
                    Some(
                        CellStyle {
                            strikethrough: is_past,
                            underline: is_today,
                            dimmed: is_weekend,
                            ..CellStyle::spec_plain()
                        },
                    )
                } else {
                    None
                },
            }
        }
    }

    fn cell_style_of(&self, d: &Date) -> (r: Option<CellStyle>)
        requires
            self.wf(),
            d.wf(),
        ensures
            r == self.cell_style(*d),
    {
        if !self.palette.are_colors_enabled() {
            return None;
        }
        let is_today = d.days == self.today.days;
        let is_past = self.calendar.past_date_display == PastDateDisplay::Strikethrough && d.days
            < self.today.days;
        let is_weekend = self.calendar.weekend_display == WeekendDisplay::Dimmed && d.is_weekend();
        match self.calendar.get_date_color(d) {
            Some(c) => {
                let bg = self.palette.get_style(c.as_str(), is_weekend);
                let black = ColorPalette::black_text();
                Some(CellStyle { fg: black.fg, strikethrough: is_past, underline: is_today, ..bg })
            },
            None => {
                if is_past || is_today || is_weekend {
                    Some(
                        CellStyle {
                            strikethrough: is_past,
                            underline: is_today,
                            dimmed: is_weekend,
                            ..CellStyle::new()
                        },
                    )
                } else {
                    None
                }
            },
        }
    }

    /// One day cell: a space and the two-digit day, styled.
    pub open spec fn day_text(self, d: Date) -> Seq<char> {
        " "@ + styled(self.cell_style(d), two_digits(d.day as int))
    }

    /// The cell at position `i` with its leading month bar and trailing gap.
    pub open spec fn cell_text(self, ds: Seq<Date>, i: int) -> Seq<char> {
        (if i > 0 && ds[i].spec_other_month(ds[i - 1]) { "│"@ } else { Seq::empty() })
            + self.day_text(ds[i])
            + (if i < 6 {
                if ds[i + 1].spec_other_month(ds[i]) { " "@ } else { "  "@ }
            } else {
                " "@
            })
    }

    /// The first `n` cells of a week.
    pub open spec fn cells_text(self, ds: Seq<Date>, n: int) -> Seq<char>
        decreases n,
    {
        if n <= 0 {
            Seq::empty()
        } else {
            self.cells_text(ds, n - 1) + self.cell_text(ds, n - 1)
        }
    }

    /// The label of a week: its number and, where a month begins in it, the
    /// month's name.
    pub open spec fn label_text(week_num: int, marker: Option<(usize, u32)>) -> Seq<char> {
        match marker {
            Some((_, m)) => "│W"@ + zero_pad2(week_num as nat) + " "@ + pad_right(month_name(m as int), 9),
            None => "│W"@ + zero_pad2(week_num as nat) + "          "@,
        }
    }

    pub open spec fn week_row_text(self, week_num: int, ds: Seq<Date>, marker: Option<(usize, u32)>) -> Seq<char> {
        Self::label_text(week_num, marker) + "│"@ + self.cells_text(ds, 7) + "│"@
    }

    fn push_day(&self, out: &mut String, d: &Date)
        requires
            self.wf(),
            d.wf(),
        ensures
            final(out)@ == old(out)@ + self.day_text(*d),
    {
        out.append(" ");
        let mut digits = String::new();
        push_two_digits(&mut digits, d.day);
        match self.cell_style_of(d) {
            Some(st) => push_wrapped(out, &st, &digits),
            None => out.append(digits.as_str()),
        }
        assert(out@ =~= old(out)@ + self.day_text(*d));
    }

    /// The row of a week: label, seven day cells and the bars around them.
    pub fn week_row_to_string(&self, week_num: u32, layout: &WeekLayout) -> (r: String)
        requires
            self.wf(),
            layout.wf(),
        ensures
            r@ == self.week_row_text(week_num as int, layout.dates@, layout.month_start_idx),
    {
        let ds = &layout.dates;
        let mut out = String::new();
        out.append("│W");
        push_zero_pad2(&mut out, week_num);
        match layout.month_start_idx {
            Some((k, m)) => {
                proof {
                    lemma_first_marker_bounds(ds@, 0);
                    assert(ds@[k as int].wf());
                }
                let info = MonthInfo::from_month(m);
                out.append(" ");
                push_padded(&mut out, info.name, 9);
            },
            None => {
                out.append("          ");
            },
        }
        out.append("│");
        let ghost head = out@;
        let mut i: usize = 0;
        while i < 7
            invariant
                i <= 7,
                self.wf(),
                layout.wf(),
                ds == &layout.dates,
                out@ == head + self.cells_text(ds@, i as int),
            decreases 7 - i,
        {
            let d = &ds[i];
            if i > 0 && other_month(ds, i) {
                out.append("│");
            }
            self.push_day(&mut out, d);
            if i < 6 {
                if other_month(ds, i + 1) {
                    out.append(" ");
                } else {
                    out.append("  ");
                }
            } else {
                out.append(" ");
            }
            assert(out@ =~= head + self.cells_text(ds@, (i + 1) as int));
            i += 1;
        }
        out.append("│");
        assert(out@ =~= self.week_row_text(week_num as int, layout.dates@, layout.month_start_idx));
        out
    }

    /// Style of an annotation in a color: its background and black text.
    pub open spec fn annotation_style(c: Seq<char>) -> CellStyle {
        CellStyle { fg: black_text_style().fg, ..spec_style(true, c, false) }
    }

    /// "MM/DD - description", in the detail's color where it has one.
    pub open spec fn detail_piece(self, d: Date, detail: DateDetail) -> Seq<char> {
        let text = month_day_text(d) + " - "@ + detail.description@;
        match detail.color {
            Some(c) => if self.palette.spec_enabled() {
                wrap_styled(Self::annotation_style(c@), text)
            } else {
                text
            },
            None => text,
        }
    }

    /// "MM/DD to MM/DD", then " - description" where there is one.
    pub open spec fn range_plain(r: DateRange) -> Seq<char> {
        month_day_text(r.start) + " to "@ + month_day_text(r.end) + match r.description {
            Some(x) => " - "@ + x@,
            None => Seq::empty(),
        }
    }

    /// A range's annotation, in the range's color where colors are on.
    pub open spec fn range_piece(self, r: DateRange) -> Seq<char> {
        if self.palette.spec_enabled() {
            wrap_styled(Self::annotation_style(r.color@), Self::range_plain(r))
        } else {
            Self::range_plain(r)
        }
    }

    /// Annotations of the details on the first `n` dates of a week, in date order.
    pub open spec fn detail_items(self, ds: Seq<Date>, n: int) -> Seq<Seq<char>>
        decreases n,
    {
        if n <= 0 {
            Seq::empty()
        } else {
            let prev = self.detail_items(ds, n - 1);
            let d = ds[n - 1];
            if self.calendar.details@.contains_key(d.days) {
                prev.push(self.detail_piece(d, self.calendar.details@[d.days]))
            } else {
                prev
            }
        }
    }

    /// Annotations of the first `m` ranges that are not yet shown and overlap
    /// the days `lo..=hi`, in stored order.
    pub open spec fn range_items(self, shown: Seq<bool>, lo: int, hi: int, m: int) -> Seq<Seq<char>>
        decreases m,
    {
        if m <= 0 {
            Seq::empty()
        } else {
            let prev = self.range_items(shown, lo, hi, m - 1);
            let r = self.calendar.ranges@[m - 1];
            if !shown[m - 1] && r.overlaps(lo, hi) {
                prev.push(self.range_piece(r))
            } else {
                prev
            }
        }
    }

    /// The trailing text of a week row: its details, then the ranges that it
    /// is the first to overlap, joined by ", ".
    pub open spec fn annotation_text(self, ds: Seq<Date>, shown: Seq<bool>) -> Seq<char> {
        join(
            self.detail_items(ds, 7) + self.range_items(
                shown,
                ds[0].days as int,
                ds[6].days as int,
                self.calendar.ranges@.len() as int,
            ),
        )
    }

    /// Which ranges have been shown once a week covering `lo..=hi` is written.
    pub open spec fn shown_after(self, shown: Seq<bool>, lo: int, hi: int) -> Seq<bool> {
        Seq::new(shown.len(), |j: int| shown[j] || self.calendar.ranges@[j].overlaps(lo, hi))
    }

    fn annotation_style_of(&self, c: &str) -> (r: CellStyle)
        requires
            self.palette.spec_enabled(),
        ensures
            r == Self::annotation_style(c@),
    {
        let bg = self.palette.get_style(c, false);
        let black = ColorPalette::black_text();
        CellStyle { fg: black.fg, ..bg }
    }

    /// Appends one annotation, after a ", " unless it is the first.
    fn push_item(out: &mut String, items: Ghost<Seq<Seq<char>>>, first: bool, piece: &String)
        requires
            old(out)@ == join(items@),
            first == (items@.len() == 0),
        ensures
            final(out)@ == join(items@.push(piece@)),
    {
        if !first {
            out.append(", ");
        }
        out.append(piece.as_str());
        proof {
            assert(items@.push(piece@).drop_last() =~= items@);
        }
    }

    /// The annotations of a week; marks the ranges it shows in `shown`.
    pub fn annotations_to_string(&self, layout: &WeekLayout, shown: &mut Vec<bool>) -> (r: String)
        requires
            self.wf(),
            layout.wf(),
            old(shown)@.len() == self.calendar.ranges@.len(),
        ensures
            r@ == self.annotation_text(layout.dates@, old(shown)@),
            final(shown)@ == self.shown_after(
                old(shown)@,
                layout.dates@[0].days as int,
                layout.dates@[6].days as int,
            ),
    {
        let ds = &layout.dates;
        let week_start = ds[0].days;
        let week_end = ds[6].days;
        let mut out = String::new();
        let ghost mut items: Seq<Seq<char>> = Seq::empty();
        let mut first = true;
        let mut i: usize = 0;
        while i < 7
            invariant
                i <= 7,
                self.wf(),
                layout.wf(),
                ds == &layout.dates,
                items == self.detail_items(ds@, i as int),
                out@ == join(items),
                first == (items.len() == 0),
            decreases 7 - i,
        {
            let d = &ds[i];
            match self.calendar.details.get(&d.days) {
                Some(detail) => {
                    let mut text = String::new();
                    push_month_day(&mut text, d);
                    text.append(" - ");
                    text.append(detail.description.as_str());
                    let mut piece = String::new();
                    match &detail.color {
                        Some(c) => {
                            if self.palette.are_colors_enabled() {
                                let st = self.annotation_style_of(c.as_str());
                                push_wrapped(&mut piece, &st, &text);
                            } else {
                                piece.append(text.as_str());
                            }
                        },
                        None => {
                            piece.append(text.as_str());
                        },
                    }
                    assert(piece@ =~= self.detail_piece(*d, *detail));
                    Self::push_item(&mut out, Ghost(items), first, &piece);
                    first = false;
                    proof {
                        items = items.push(piece@);
                    }
                },
                None => {},
            }
            i += 1;
        }
        let ghost details_part = items;
        let n = self.calendar.ranges.len();
        let mut j: usize = 0;
        while j < n
            invariant
                j <= n,
                n == self.calendar.ranges@.len(),
                self.wf(),
                layout.wf(),
                ds == &layout.dates,
                week_start == ds@[0].days,
                week_end == ds@[6].days,
                shown@.len() == n,
                items == details_part + self.range_items(old(shown)@, week_start as int, week_end as int, j as int),
                out@ == join(items),
                first == (items.len() == 0),
                forall|k: int| j <= k < n ==> shown@[k] == old(shown)@[k],
                forall|k: int| 0 <= k < j ==> shown@[k] == (old(shown)@[k] || self.calendar.ranges@[k].overlaps(week_start as int, week_end as int)),
            decreases n - j,
        {
            let range = &self.calendar.ranges[j];
            if !shown[j] && range.start.days <= week_end && range.end.days >= week_start {
                let mut text = String::new();
                push_month_day(&mut text, &range.start);
                text.append(" to ");
                push_month_day(&mut text, &range.end);
                match &range.description {
                    Some(x) => {
                        text.append(" - ");
                        text.append(x.as_str());
                    },
                    None => {},
                }
                assert(text@ =~= Self::range_plain(*range));
                let mut piece = String::new();
                if self.palette.are_colors_enabled() {
                    let st = self.annotation_style_of(range.color.as_str());
                    push_wrapped(&mut piece, &st, &text);
                } else {
                    piece.append(text.as_str());
                }
                Self::push_item(&mut out, Ghost(items), first, &piece);
                    first = false;
                proof {
                    assert(items.push(piece@) =~= details_part + self.range_items(old(shown)@, week_start as int, week_end as int, j + 1));
                    items = items.push(piece@);
                }
                shown.set(j, true);
            } else {
                assert(items =~= details_part + self.range_items(old(shown)@, week_start as int, week_end as int, j + 1));
            }
            j += 1;
        }
        assert(shown@ =~= self.shown_after(old(shown)@, week_start as int, week_end as int));
        out
    }

    /// Months shown: the filter's range, with today's month as the current one.
    pub open spec fn month_bounds(self) -> (int, int) {
        self.calendar.month_filter.spec_month_range(self.today.month as int)
    }

    /// A week is shown where one of its dates lies in a shown month of the
    /// shown year.
    pub open spec fn shows_week(self, ds: Seq<Date>) -> bool {
        exists|i: int|
            0 <= i < 7 && (#[trigger] ds[i]).year == self.calendar.year && self.month_bounds().0
                <= ds[i].month <= self.month_bounds().1
    }

    pub fn should_render_week(&self, layout: &WeekLayout) -> (r: bool)
        requires
            self.wf(),
            layout.wf(),
        ensures
            r == self.shows_week(layout.dates@),
    {
        let ds = &layout.dates;
        let mut i: usize = 0;
        while i < 7
            invariant
                i <= 7,
                self.wf(),
                layout.wf(),
                ds == &layout.dates,
                forall|j: int|
                    0 <= j < i ==> !((#[trigger] ds@[j]).year == self.calendar.year && self.month_bounds().0
                        <= ds@[j].month <= self.month_bounds().1),
            decreases 7 - i,
        {
            let d = &ds[i];
            if d.year == self.calendar.year && self.calendar.month_filter.should_display_month(
                d.month,
                self.calendar.year,
                self.today.month,
            ) {
                return true;
            }
            i += 1;
        }
        false
    }

    /// The text after the row of the week starting at day `day`: the closing
    /// border after the last week; else, where a month begins inside this
    /// week, the separator below it; else, where the next week begins a month
    /// and is still shown, the separator that opens it.
    pub open spec fn trailing_text(self, day: int, end: int, current_month: Option<u32>) -> Seq<char> {
        let ds = week_dates(day);
        let marker = first_marker_from(ds, 0);
        let next = day + 7;
        let next_marker = first_marker_from(week_dates(next), 0);
        let is_last = date_at(next).year > self.calendar.year || next > end;
        if is_last {
            closing_border_text(ds)
        } else if marker is Some {
            if marker.unwrap().0 > 0 {
                separator_text(ds, self.calendar.year, current_month)
            } else {
                Seq::empty()
            }
        } else if next_marker is Some && next <= end && date_at(next).year == self.calendar.year {
            separator_before_month_text(next_marker)
        } else {
            Seq::empty()
        }
    }

    /// The month last begun once the week starting at `day` is written.
    pub open spec fn month_after(day: int, current_month: Option<u32>) -> Option<u32> {
        match first_marker_from(week_dates(day), 0) {
            Some((_, m)) => Some(m),
            None => current_month,
        }
    }

    /// The text written for a shown week starting at day `day`: the border
    /// that opens the first month, the row, its annotations, the line end and
    /// what follows the row.
    pub open spec fn block_text(
        self,
        day: int,
        end: int,
        week_num: int,
        current_month: Option<u32>,
        first: bool,
        shown: Seq<bool>,
    ) -> Seq<char> {
        let ds = week_dates(day);
        let marker = first_marker_from(ds, 0);
        let border = if marker is Some && first {
            month_border_text(marker)
        } else {
            Seq::empty()
        };
        border + self.week_row_text(week_num, ds, marker) + self.annotation_text(ds, shown) + "\n"@
            + self.trailing_text(day, end, Self::month_after(day, current_month))
    }

    /// The text of the walk over weeks from the week starting at day `day` up
    /// to day `end`, given the number of the next shown week, the month last
    /// begun, whether no month border has been drawn yet, and which ranges
    /// have been shown. Weeks with no shown date are passed over; the walk
    /// ends after `end`, after the shown year, or at the end of the
    /// representable days.
    pub open spec fn walk(
        self,
        day: int,
        end: int,
        week_num: int,
        current_month: Option<u32>,
        first: bool,
        shown: Seq<bool>,
    ) -> Seq<char>
        decreases end + 7 - day,
    {
        if day > end || day > MAX_DAY - 13 || day < MIN_DAY {
            Seq::empty()
        } else if !self.shows_week(week_dates(day)) {
            self.walk(day + 7, end, week_num, current_month, first, shown)
        } else {
            let rest = if date_at(day + 7).year > self.calendar.year {
                Seq::empty()
            } else {
                self.walk(
                    day + 7,
                    end,
                    week_num + 1,
                    Self::month_after(day, current_month),
                    first && first_marker_from(week_dates(day), 0) is None,
                    self.shown_after(shown, day, day + 6),
                )
            };
            self.block_text(day, end, week_num, current_month, first, shown) + rest
        }
    }

    /// Writes one shown week; marks the ranges it shows.
    fn week_block(
        &self,
        layout: &WeekLayout,
        next_date: &Date,
        end: &Date,
        week_num: u32,
        current_month: Option<u32>,
        first: bool,
        shown: &mut Vec<bool>,
    ) -> (r: String)
        requires
            self.wf(),
            layout.wf(),
            next_date.wf(),
            end.wf(),
            next_date.days == layout.dates@[0].days + 7,
            next_date.days + 6 <= MAX_DAY,
            old(shown)@.len() == self.calendar.ranges@.len(),
        ensures
            r@ == self.block_text(
                layout.dates@[0].days as int,
                end.days as int,
                week_num as int,
                current_month,
                first,
                old(shown)@,
            ),
            final(shown)@ == self.shown_after(
                old(shown)@,
                layout.dates@[0].days as int,
                layout.dates@[0].days + 6,
            ),
    {
        let ghost day = layout.dates@[0].days as int;
        assert(layout.dates@ =~= week_dates(day)) by {
            assert forall|j: int| 0 <= j < 7 implies layout.dates@[j] == week_dates(day)[j] by {
                lemma_date_at(layout.dates@[j]);
            }
        }
        let next_layout = WeekLayout::new(*next_date);
        proof {
            lemma_date_at(*next_date);
        }
        let mut out = String::new();
        let mut cm = current_month;
        match layout.month_start_idx {
            Some((_, m)) => {
                cm = Some(m);
                if first {
                    let border = month_border_to_string(layout);
                    out.append(border.as_str());
                }
            },
            None => {},
        }
        let row = self.week_row_to_string(week_num, layout);
        out.append(row.as_str());
        let ann = self.annotations_to_string(layout, shown);
        out.append(ann.as_str());
        out.append("\n");
        let is_last = next_date.year > self.calendar.year || next_date.days > end.days;
        if is_last {
            let b = closing_border_to_string(layout);
            out.append(b.as_str());
        } else if layout.month_start_idx.is_some() {
            let (idx, _) = layout.month_start_idx.unwrap();
            if idx > 0 {
                let b = separator_to_string(layout, self.calendar.year, cm);
                out.append(b.as_str());
            }
        } else if next_layout.month_start_idx.is_some() && next_date.days <= end.days
            && next_date.year == self.calendar.year {
            let b = separator_before_month_to_string(&next_layout);
            out.append(b.as_str());
        }
        assert(out@ =~= self.block_text(day, end.days as int, week_num as int, current_month, first, old(shown)@));
        out
    }

    /// Week rows from the week holding `start` through `end`.
    pub open spec fn weeks_text(self, start: Date, end: Date) -> Seq<char> {
        if start.days < MIN_DAY + 6 {
            Seq::empty()
        } else {
            self.walk(
            aligned_day(self.calendar.week_start, start.days as int),
            end.days as int,
            1,
            None,
            true,
            Seq::new(self.calendar.ranges@.len(), |j: int| false),
        )
        }
    }

    /// Writes the week rows from the week holding `start` through `end`.
    pub fn weeks_between(&self, start: Date, end: Date) -> (r: String)
        requires
            self.wf(),
            start.wf(),
            end.wf(),
        ensures
            r@ == self.weeks_text(start, end),
    {
        let mut out = String::new();
        if start.days < MIN_DAY + 6 {
            return out;
        }
        let mut current = align_to_week_start(self.calendar, start);
        let mut week_num: u32 = 1;
        let mut current_month: Option<u32> = None;
        let mut is_first = true;
        let mut shown: Vec<bool> = Vec::new();
        let n = self.calendar.ranges.len();
        while shown.len() < n
            invariant
                shown.len() <= n,
                n == self.calendar.ranges@.len(),
                forall|j: int| 0 <= j < shown@.len() ==> shown@[j] == false,
            decreases n - shown.len(),
        {
            shown.push(false);
        }
        assert(shown@ =~= Seq::new(self.calendar.ranges@.len(), |j: int| false));
        let ghost first_day = current.days as int;
        while current.days <= end.days
            invariant
                self.wf(),
                current.wf(),
                end.wf(),
                current.days >= first_day,
                first_day >= MIN_DAY,
                7 * (week_num - 1) <= current.days - first_day,
                week_num >= 1,
                shown@.len() == self.calendar.ranges@.len(),
                out@ + self.walk(current.days as int, end.days as int, week_num as int, current_month, is_first, shown@)
                    == self.weeks_text(start, end),
            decreases end.days + 7 - current.days,
        {
            if current.days > MAX_DAY - 13 {
                assert(out@ =~= self.weeks_text(start, end));
                return out;
            }
            let layout = WeekLayout::new(current);
            let next_date = match current.add_days(7) {
                Some(d) => d,
                None => current,
            };
            if !self.should_render_week(&layout) {
                current = next_date;
                continue;
            }
            let block = self.week_block(&layout, &next_date, &end, week_num, current_month, is_first, &mut shown);
            out.append(block.as_str());
            match layout.month_start_idx {
                Some((_, m)) => {
                    current_month = Some(m);
                    is_first = false;
                },
                None => {},
            }
            proof {
                lemma_date_at(next_date);
            }
            current = next_date;
            week_num += 1;
            if current.year > self.calendar.year {
                assert(out@ =~= self.weeks_text(start, end));
                return out;
            }
        }
        assert(out@ =~= self.weeks_text(start, end));
        out
    }

    /// The week rows of the shown months: from the first day of the first
    /// shown month through the last day of the last one; nothing where the
    /// year lies outside the representable range.
    pub open spec fn weeks_text_of(self, r: Seq<char>) -> bool {
        let (sm, em) = self.month_bounds();
        let y = self.calendar.year;
        if MIN_YEAR <= y <= MAX_YEAR {
            exists|s: Date, e: Date|
                s.wf() && e.wf() && s.year == y && s.month == sm && s.day == 1 && e.year == y
                    && e.month == em && e.day == days_in_month(y as int, em) && r
                    == #[trigger] self.weeks_text(s, e)
        } else {
            r == Seq::<char>::empty()
        }
    }

    pub fn weeks_to_string(&self) -> (r: String)
        requires
            self.wf(),
        ensures
            self.weeks_text_of(r@),
    {
        match self.calendar.month_filter.get_date_range(self.calendar.year, self.today.month) {
            Some((s, e)) => {
                let r = self.weeks_between(s, e);
                assert(self.weeks_text(s, e) == r@);
                r
            },
            None => String::new(),
        }
    }

    /// The whole calendar: header, week rows and a final line end.
    pub open spec fn document_text(self, r: Seq<char>) -> bool {
        let head = header_text(self.calendar.year as int, self.calendar.week_start);
        &&& r.len() >= head.len() + 1
        &&& r.subrange(0, head.len() as int) == head
        &&& r.last() == '\n'
        &&& self.weeks_text_of(r.subrange(head.len() as int, r.len() - 1))
    }

    /// The same renderer with colors off.
    pub open spec fn plain(self) -> CalendarRenderer<'a> {
        CalendarRenderer { palette: ColorPalette::spec_new(false), ..self }
    }

    fn document(&self) -> (r: String)
        requires
            self.wf(),
        ensures
            self.document_text(r@),
    {
        let mut out = header_to_string(self.calendar.year, self.calendar.week_start);
        let ghost head = out@;
        let weeks = self.weeks_to_string();
        out.append(weeks.as_str());
        out.append("\n");
        proof {
            reveal_strlit("\n");
            assert(out@.subrange(0, head.len() as int) =~= head);
            assert(out@.subrange(head.len() as int, out@.len() - 1) =~= weeks@);
        }
        out
    }

    /// The calendar as plain text, without escape sequences whatever the
    /// palette says. The renderer itself is left as it was.
    pub fn render_to_string(&self) -> (r: String)
        requires
            self.wf(),
        ensures
            self.plain().document_text(r@),
    {
        let plain = CalendarRenderer { calendar: self.calendar, today: self.today, palette: ColorPalette::new(true) };
        plain.document()
    }

    /// The calendar as the palette says: with escape sequences where colors
    /// are on.
    pub fn render_styled(&self) -> (r: String)
        requires
            self.wf(),
        ensures
            self.document_text(r@),
    {
        self.document()
    }
}

/// Forcing plain output is a value, not a change of state: forcing it twice
/// is forcing it once, and it keeps the calendar, today and the dates shown.
pub proof fn lemma_plain_nested<'a>(r: CalendarRenderer<'a>)
    ensures
        r.plain().plain() == r.plain(),
        r.plain().calendar == r.calendar,
        r.plain().today == r.today,
        !r.plain().palette.spec_enabled(),
{
    ColorPalette::lemma_spec_new(false);
}

/// Which ranges have been shown after the first `n` of the weeks starting at
/// the days `weeks`, starting with none shown.
pub open spec fn shown_through<'a>(r: CalendarRenderer<'a>, weeks: Seq<int>, n: int) -> Seq<bool>
    decreases n,
{
    if n <= 0 {
        Seq::new(r.calendar.ranges@.len(), |j: int| false)
    } else {
        r.shown_after(shown_through(r, weeks, n - 1), weeks[n - 1], weeks[n - 1] + 6)
    }
}

/// Over any sequence of written weeks, a range is annotated on a week exactly
/// when the week overlaps it and no earlier written week does: each range
/// appears once, on the earliest week that overlaps it.
pub proof fn lemma_range_shown_once<'a>(r: CalendarRenderer<'a>, weeks: Seq<int>, j: int, k: int)
    requires
        0 <= j < r.calendar.ranges@.len(),
        0 <= k <= weeks.len(),
    ensures
        shown_through(r, weeks, k).len() == r.calendar.ranges@.len(),
        shown_through(r, weeks, k)[j] <==> exists|l: int|
            0 <= l < k && #[trigger] r.calendar.ranges@[j].overlaps(weeks[l], weeks[l] + 6),
        k < weeks.len() ==> ((!shown_through(r, weeks, k)[j] && r.calendar.ranges@[j].overlaps(
            weeks[k],
            weeks[k] + 6,
        )) <==> (r.calendar.ranges@[j].overlaps(weeks[k], weeks[k] + 6) && forall|l: int|
            0 <= l < k ==> !#[trigger] r.calendar.ranges@[j].overlaps(weeks[l], weeks[l] + 6))),
    decreases k,
{
    if k > 0 {
        lemma_range_shown_once(r, weeks, j, k - 1);
        let rj = r.calendar.ranges@[j];
        if rj.overlaps(weeks[k - 1], weeks[k - 1] + 6) {
            assert(exists|l: int| 0 <= l < k && #[trigger] rj.overlaps(weeks[l], weeks[l] + 6));
        }
    }
}

/// In a run of written weeks, each starting at least seven days after the
/// one before, a day lies in at most one week: a detail, annotated on the
/// week that holds its date, appears once.
pub proof fn lemma_detail_week_unique(weeks: Seq<int>, x: int, k: int, l: int)
    requires
        forall|i: int| 0 <= i < weeks.len() - 1 ==> weeks[i] + 7 <= #[trigger] weeks[i + 1],
        0 <= k < l < weeks.len(),
        weeks[k] <= x <= weeks[k] + 6,
    ensures
        !(weeks[l] <= x <= weeks[l] + 6),
{
    lemma_weeks_increase(weeks, k, l);
}

proof fn lemma_weeks_increase(weeks: Seq<int>, k: int, l: int)
    requires
        forall|i: int| 0 <= i < weeks.len() - 1 ==> weeks[i] + 7 <= #[trigger] weeks[i + 1],
        0 <= k < l < weeks.len(),
    ensures
        weeks[k] + 7 <= weeks[l],
    decreases l - k,
{
    let i = l - 1;
    assert(weeks[i] + 7 <= weeks[i + 1]);
    if l > k + 1 {
        lemma_weeks_increase(weeks, k, l - 1);
    }
}

/// With colors off, a day cell is a space and its two digits, and each
/// annotation is its bare text: no escape sequence is written.
pub proof fn lemma_plain_has_no_styles<'a>(r: CalendarRenderer<'a>, d: Date, detail: DateDetail, range: DateRange)
    requires
        !r.palette.spec_enabled(),
    ensures
        r.cell_style(d) is None,
        r.day_text(d) == " "@ + two_digits(d.day as int),
        r.detail_piece(d, detail) == month_day_text(d) + " - "@ + detail.description@,
        r.range_piece(range) == CalendarRenderer::range_plain(range),
{
}

} // verus!
