use compact_calendar::rendering::{
    closing_border_to_string, header_to_string, month_border_to_string,
    separator_before_month_to_string, separator_to_string,
};
use compact_calendar::{
    align_to_week_start, Calendar, CalendarRenderer, CellStyle, ColorMode, ColorPalette,
    ColorValue, Date, DateDetail, DateRange, MonthFilter, MonthInfo, PastDateDisplay, Rgb,
    TextColor, WeekLayout, WeekStart, WeekendDisplay,
};
use std::collections::HashMap;

fn ymd(y: i32, m: u32, d: u32) -> Date {
    Date::from_ymd(y, m, d).unwrap()
}

fn calendar(
    year: i32,
    week_start: WeekStart,
    color_mode: ColorMode,
    filter: MonthFilter,
    details: HashMap<i32, DateDetail>,
    ranges: Vec<DateRange>,
) -> Calendar {
    Calendar::new(
        year,
        week_start,
        WeekendDisplay::Dimmed,
        color_mode,
        PastDateDisplay::Strikethrough,
        filter,
        details,
        ranges,
    )
}

fn plain_render(cal: &Calendar, today: Date) -> String {
    let r = CalendarRenderer::new(cal, today, ColorPalette::new(false));
    r.render_to_string()
}

#[test]
fn day_numbers_follow_chrono() {
    assert_eq!(ymd(1, 1, 1).days, 1);
    assert_eq!(ymd(1970, 1, 1).days, 719_163);
    let d = Date::from_days(730_000).unwrap();
    assert_eq!((d.year, d.month, d.day), (1999, 9, 3));
    assert!(Date::from_ymd(2023, 2, 29).is_none());
    assert!(Date::from_ymd(2024, 2, 29).is_some());
    assert!(Date::from_ymd(2024, 13, 1).is_none());
    assert!(Date::from_days(100_000_000).is_none());
}

#[test]
fn weekdays() {
    // 2024-02-01 is a Thursday.
    let d = ymd(2024, 2, 1);
    let mon = calendar(2024, WeekStart::Monday, ColorMode::Normal, MonthFilter::All, HashMap::new(), vec![]);
    let sun = calendar(2024, WeekStart::Sunday, ColorMode::Normal, MonthFilter::All, HashMap::new(), vec![]);
    assert_eq!(mon.get_weekday_num(&d), 3);
    assert_eq!(sun.get_weekday_num(&d), 4);
    assert_eq!(mon.get_weekday_num(&ymd(1, 1, 1)), 0);
    assert_eq!(sun.get_weekday_num(&ymd(2024, 2, 4)), 0);
    assert!(ymd(2024, 2, 3).is_weekend());
    assert!(ymd(2024, 2, 4).is_weekend());
    assert!(!ymd(2024, 2, 5).is_weekend());
}

#[test]
fn add_days_crosses_year() {
    let d = ymd(2024, 12, 30).add_days(3).unwrap();
    assert_eq!((d.year, d.month, d.day), (2025, 1, 2));
}

#[test]
fn align_is_idempotent() {
    let cal = calendar(2024, WeekStart::Monday, ColorMode::Normal, MonthFilter::All, HashMap::new(), vec![]);
    let a = align_to_week_start(&cal, ymd(2024, 2, 1));
    assert_eq!((a.year, a.month, a.day), (2024, 1, 29));
    let b = align_to_week_start(&cal, a);
    assert_eq!(a, b);
    let sun = calendar(2024, WeekStart::Sunday, ColorMode::Normal, MonthFilter::All, HashMap::new(), vec![]);
    let s = align_to_week_start(&sun, ymd(2024, 2, 1));
    assert_eq!((s.month, s.day), (1, 28));
    assert_eq!(align_to_week_start(&sun, s), s);
}

#[test]
fn week_layout_has_seven_consecutive_dates() {
    let layout = WeekLayout::new(ymd(2024, 1, 29));
    assert_eq!(layout.dates.len(), 7);
    for i in 1..7 {
        assert_eq!(layout.dates[i].days, layout.dates[i - 1].days + 1);
    }
    assert_eq!(layout.month_start_idx, Some((3, 2)));
    let first = WeekLayout::new(ymd(2024, 4, 1));
    assert_eq!(first.month_start_idx, Some((0, 4)));
    let none = WeekLayout::new(ymd(2024, 4, 8));
    assert_eq!(none.month_start_idx, None);
    let new_year = WeekLayout::new(ymd(2024, 12, 30));
    assert_eq!(new_year.month_start_idx, Some((2, 1)));
}

#[test]
fn month_filter_ranges() {
    for y in [1, 1999, 2024, 9999] {
        assert_eq!(MonthFilter::All.get_month_range(y, 5), (1, 12));
    }
    assert_eq!(MonthFilter::Single(7).get_month_range(2024, 3), (7, 7));
    assert_eq!(MonthFilter::Current.get_month_range(2030, 3), (3, 3));
    assert_eq!(MonthFilter::CurrentWithFollowing(2).get_month_range(2024, 3), (3, 5));
    for m in 1..=12 {
        let (s, e) = MonthFilter::CurrentWithFollowing(11).get_month_range(2024, m);
        assert_eq!(s, m);
        assert_eq!(e, 12);
    }
    assert!(MonthFilter::Single(2).should_display_month(2, 2024, 6));
    assert!(!MonthFilter::Single(2).should_display_month(3, 2024, 6));
}

#[test]
fn month_filter_date_range() {
    let (s, e) = MonthFilter::Single(2).get_date_range(2024, 1).unwrap();
    assert_eq!((s.year, s.month, s.day), (2024, 2, 1));
    assert_eq!((e.year, e.month, e.day), (2024, 2, 29));
    let (s, e) = MonthFilter::All.get_date_range(2023, 1).unwrap();
    assert_eq!((s.month, s.day), (1, 1));
    assert_eq!((e.month, e.day), (12, 31));
    assert!(MonthFilter::All.get_date_range(300_000, 1).is_none());
}

#[test]
fn month_names() {
    assert_eq!(MonthInfo::from_month(1).name, "January");
    assert_eq!(MonthInfo::from_month(9).name, "September");
    assert_eq!(MonthInfo::from_month(12).name, "December");
}

#[test]
fn color_precedence() {
    let mut details = HashMap::new();
    details.insert(
        ymd(2024, 3, 9).days,
        DateDetail { description: "Sat".to_string(), color: Some("blue".to_string()) },
    );
    details.insert(
        ymd(2024, 3, 5).days,
        DateDetail { description: "Tue".to_string(), color: Some("green".to_string()) },
    );
    details.insert(
        ymd(2024, 3, 6).days,
        DateDetail { description: "plain".to_string(), color: None },
    );
    let ranges = vec![
        DateRange { start: ymd(2024, 3, 4), end: ymd(2024, 3, 10), color: "red".to_string(), description: None },
        DateRange { start: ymd(2024, 3, 1), end: ymd(2024, 3, 31), color: "gray".to_string(), description: None },
    ];
    let work = calendar(2024, WeekStart::Monday, ColorMode::Work, MonthFilter::All, details.clone(), ranges.clone());
    assert_eq!(work.get_date_color(&ymd(2024, 3, 9)), None);
    assert_eq!(work.get_date_color(&ymd(2024, 3, 5)), Some("green".to_string()));
    assert_eq!(work.get_date_color(&ymd(2024, 3, 6)), Some("red".to_string()));
    assert_eq!(work.get_date_color(&ymd(2024, 3, 20)), Some("gray".to_string()));
    assert_eq!(work.get_date_color(&ymd(2024, 4, 1)), None);
    let normal = calendar(2024, WeekStart::Monday, ColorMode::Normal, MonthFilter::All, details, ranges);
    assert_eq!(normal.get_date_color(&ymd(2024, 3, 9)), Some("blue".to_string()));
    assert_eq!(normal.get_date_color(&ymd(2024, 3, 10)), Some("red".to_string()));
}

#[test]
fn palette_values() {
    let v = ColorPalette::get_color_value("orange").unwrap();
    assert_eq!(v.normal, Rgb { r: 255, g: 143, b: 64 });
    assert_eq!(v.dimmed, Rgb { r: 178, g: 100, b: 45 });
    let g = ColorPalette::get_color_value("gray").unwrap();
    assert_eq!(g, ColorValue::new(Rgb { r: 95, g: 99, b: 110 }, Rgb { r: 67, g: 69, b: 77 }));
    assert!(ColorPalette::get_color_value("magenta").is_none());
    let on = ColorPalette::new(false);
    assert!(on.are_colors_enabled());
    assert!(!ColorPalette::new(true).are_colors_enabled());
    assert_eq!(on.get_style("red", true).bg, Some(Rgb { r: 168, g: 79, b: 84 }));
    assert_eq!(on.get_style("red", false).bg, Some(Rgb { r: 240, g: 113, b: 120 }));
    assert_eq!(on.get_style("nope", false), CellStyle::new());
    assert_eq!(ColorPalette::new(true).get_style("red", false), CellStyle::new());
    assert_eq!(ColorPalette::black_text().fg, Some(TextColor::Black));
    assert_eq!(v.get_normal_style().bg, Some(v.normal));
    assert_eq!(v.get_dimmed_style().bg, Some(v.dimmed));
}

#[test]
fn header_lines() {
    let h = header_to_string(2024, WeekStart::Monday);
    let lines: Vec<&str> = h.lines().collect();
    assert_eq!(lines[0], format!("┌{}┐", "─".repeat(48)));
    assert_eq!(lines[1], format!("│{:^48}│", "COMPACT CALENDAR 2024"));
    assert_eq!(lines[2], format!("├{}┤", "─".repeat(48)));
    assert_eq!(lines[3], "│              Mon  Tue  Wed  Thu  Fri  Sat  Sun │");
    let s = header_to_string(-5, WeekStart::Sunday);
    assert!(s.contains("COMPACT CALENDAR -5"));
    assert!(s.contains("Sun  Mon  Tue  Wed  Thu  Fri  Sat │"));
}

#[test]
fn borders_agree_on_boundary_index() {
    let layout = WeekLayout::new(ymd(2024, 1, 29));
    assert_eq!(
        month_border_to_string(&layout),
        format!("│             ┌{}┬{}┤\n", "─".repeat(14), "─".repeat(19))
    );
    assert_eq!(
        closing_border_to_string(&layout),
        format!("└{}┴{}┴{}┘\n", "─".repeat(13), "─".repeat(14), "─".repeat(19))
    );
    assert_eq!(
        separator_to_string(&layout, 2024, Some(2)),
        format!("│             ├{}┘{}│\n", "─".repeat(14), " ".repeat(19))
    );
    assert_eq!(
        separator_before_month_to_string(&layout),
        format!("│             │{}┌{}┤\n", " ".repeat(14), "─".repeat(19))
    );
    let whole = WeekLayout::new(ymd(2024, 4, 8));
    assert_eq!(month_border_to_string(&whole), "");
    assert_eq!(
        closing_border_to_string(&whole),
        format!("└{}┴{}┘\n", "─".repeat(13), "─".repeat(34))
    );
    assert_eq!(separator_before_month_to_string(&whole), format!("│             │{}\n", " ".repeat(31)));
    let starts = WeekLayout::new(ymd(2024, 4, 1));
    assert_eq!(
        separator_before_month_to_string(&starts),
        format!("│             ├{}┤\n", "─".repeat(34))
    );
}

#[test]
fn february_2024_single_month() {
    let cal = calendar(2024, WeekStart::Monday, ColorMode::Normal, MonthFilter::Single(2), HashMap::new(), vec![]);
    let out = plain_render(&cal, ymd(2020, 1, 1));
    let lines: Vec<&str> = out.lines().collect();
    assert_eq!(lines[4], format!("│             ┌{}┬{}┤", "─".repeat(14), "─".repeat(19)));
    assert_eq!(lines[5], "│W01 February │ 29   30   31 │ 01   02   03   04 │");
    assert_eq!(lines[6], format!("│             ├{}┘{}│", "─".repeat(14), " ".repeat(19)));
    assert_eq!(lines[7], "│W02          │ 05   06   07   08   09   10   11 │");
    assert_eq!(lines[9], "│W04          │ 19   20   21   22   23   24   25 │");
    assert_eq!(lines[10], format!("│             │{}┌{}┤", " ".repeat(19), "─".repeat(14)));
    assert_eq!(lines[11], "│W05 March    │ 26   27   28   29 │ 01   02   03 │");
    assert_eq!(lines[12], format!("└{}┴{}┴{}┘", "─".repeat(13), "─".repeat(19), "─".repeat(14)));
    assert_eq!(lines[13], "");
    assert_eq!(lines.len(), 14);
    assert!(!out.contains("January"));
    assert!(out.ends_with("┘\n\n"));
}

#[test]
fn holiday_detail_once() {
    let mut details = HashMap::new();
    details.insert(
        ymd(2024, 7, 4).days,
        DateDetail { description: "Holiday".to_string(), color: None },
    );
    let cal = calendar(2024, WeekStart::Monday, ColorMode::Normal, MonthFilter::All, details, vec![]);
    let out = plain_render(&cal, ymd(2020, 1, 1));
    assert_eq!(out.matches("07/04 - Holiday").count(), 1);
    let line = out.lines().find(|l| l.contains("07/04 - Holiday")).unwrap();
    assert!(line.contains(" 01   02   03   04   05   06   07 │07/04 - Holiday"));
}

#[test]
fn break_range_on_first_overlapping_week() {
    let ranges = vec![DateRange {
        start: ymd(2024, 12, 24),
        end: ymd(2024, 12, 26),
        color: "red".to_string(),
        description: Some("Break".to_string()),
    }];
    for ws in [WeekStart::Monday, WeekStart::Sunday] {
        let cal = calendar(2024, ws, ColorMode::Normal, MonthFilter::All, HashMap::new(), ranges.clone());
        let out = plain_render(&cal, ymd(2020, 1, 1));
        assert_eq!(out.matches("12/24 to 12/26 - Break").count(), 1);
        let line = out.lines().find(|l| l.contains("12/24 to 12/26 - Break")).unwrap();
        assert!(line.contains(" 24 "));
    }
}

#[test]
fn range_spanning_two_weeks_shown_on_first() {
    let ranges = vec![
        DateRange { start: ymd(2024, 3, 8), end: ymd(2024, 3, 12), color: "red".to_string(), description: None },
        DateRange { start: ymd(2024, 3, 5), end: ymd(2024, 3, 6), color: "blue".to_string(), description: Some("Trip".to_string()) },
    ];
    let mut details = HashMap::new();
    details.insert(ymd(2024, 3, 7).days, DateDetail { description: "Talk".to_string(), color: Some("green".to_string()) });
    let cal = calendar(2024, WeekStart::Monday, ColorMode::Normal, MonthFilter::Single(3), details, ranges);
    let out = plain_render(&cal, ymd(2020, 1, 1));
    assert_eq!(out.matches("03/08 to 03/12").count(), 1);
    let line = out.lines().find(|l| l.contains("03/08 to 03/12")).unwrap();
    assert!(line.ends_with("│03/07 - Talk, 03/08 to 03/12, 03/05 to 03/06 - Trip"));
    assert!(line.contains(" 04   05   06   07   08   09   10 "));
}

#[test]
fn full_year_closes_at_december() {
    let cal = calendar(2024, WeekStart::Monday, ColorMode::Normal, MonthFilter::All, HashMap::new(), vec![]);
    let out = plain_render(&cal, ymd(2020, 1, 1));
    let lines: Vec<&str> = out.lines().collect();
    assert_eq!(lines[4], "│W01 January  │ 01   02   03   04   05   06   07 │");
    // The last week is labelled with the month that begins in it.
    let last_row = lines[lines.len() - 3];
    assert!(last_row.starts_with("│W53 January  │"));
    assert_eq!(lines[lines.len() - 2], format!("└{}┴{}┴{}┘", "─".repeat(13), "─".repeat(9), "─".repeat(24)));
    assert_eq!(lines[lines.len() - 1], "");
    assert!(last_row.contains(" 30   31 │ 01   02   03   04   05 │"));
    assert!(out.contains("│W05 February │ 29   30   31 │ 01   02   03   04 │"));
}

#[test]
fn styled_output_uses_escape_sequences() {
    let mut details = HashMap::new();
    details.insert(ymd(2024, 5, 15).days, DateDetail { description: "Due".to_string(), color: Some("red".to_string()) });
    let cal = calendar(2024, WeekStart::Monday, ColorMode::Normal, MonthFilter::Single(5), details, vec![]);
    let today = ymd(2024, 5, 20);
    let styled = CalendarRenderer::new(&cal, today, ColorPalette::new(false));
    let text = styled.render_styled();
    assert!(text.contains("\u{1b}[48;2;240;113;120m"));
    assert!(text.contains("\u{1b}[0m"));
    let plain = styled.render_to_string();
    assert!(!plain.contains('\u{1b}'));
    assert!(plain.contains("05/15 - Due"));
    assert!(styled.palette.are_colors_enabled());
    let off = CalendarRenderer::new(&cal, today, ColorPalette::new(true));
    assert_eq!(off.render_styled(), plain);
    assert_eq!(off.render_to_string(), plain);
}

#[test]
fn plain_render_twice_is_stable() {
    let cal = calendar(2024, WeekStart::Sunday, ColorMode::Work, MonthFilter::Current, HashMap::new(), vec![]);
    let r = CalendarRenderer::new(&cal, ymd(2024, 8, 10), ColorPalette::new(false));
    let a = r.render_to_string();
    let b = r.render_to_string();
    assert_eq!(a, b);
    assert!(r.palette.are_colors_enabled());
    assert!(a.contains("August"));
    assert!(!a.contains("July"));
}

#[test]
fn current_with_following_stops_at_december() {
    let cal = calendar(2024, WeekStart::Monday, ColorMode::Normal, MonthFilter::CurrentWithFollowing(11), HashMap::new(), vec![]);
    let out = plain_render(&cal, ymd(2024, 11, 3));
    assert!(out.contains("November"));
    assert!(out.contains("December"));
    assert!(!out.contains("October"));
    assert!(out.contains("│W01 November │ 28   29   30   31 │ 01   02   03 │"));
}
