use compact_calendar::models::MonthParseError;
use compact_calendar::text::{push_char, push_decimal, push_zero_pad2, text_eq};
use compact_calendar::MonthFilter;

#[test]
fn parse_month_numbers() {
    assert_eq!(MonthFilter::parse_month("1"), Ok(MonthFilter::Single(1)));
    assert_eq!(MonthFilter::parse_month("12"), Ok(MonthFilter::Single(12)));
    assert_eq!(MonthFilter::parse_month("03"), Ok(MonthFilter::Single(3)));
    assert_eq!(MonthFilter::parse_month("0"), Err(MonthParseError::OutOfRange));
    assert_eq!(MonthFilter::parse_month("13"), Err(MonthParseError::OutOfRange));
    assert_eq!(
        MonthFilter::parse_month("99999999999999999999999"),
        Err(MonthParseError::OutOfRange)
    );
}

#[test]
fn parse_month_names() {
    assert_eq!(MonthFilter::parse_month("march"), Ok(MonthFilter::Single(3)));
    assert_eq!(MonthFilter::parse_month("MARCH"), Ok(MonthFilter::Single(3)));
    assert_eq!(MonthFilter::parse_month("September"), Ok(MonthFilter::Single(9)));
    assert_eq!(MonthFilter::parse_month("current"), Ok(MonthFilter::Current));
    assert_eq!(MonthFilter::parse_month("Current"), Ok(MonthFilter::Current));
    assert_eq!(MonthFilter::parse_month(""), Err(MonthParseError::Unknown));
    assert_eq!(MonthFilter::parse_month("mar"), Err(MonthParseError::Unknown));
    assert_eq!(MonthFilter::parse_month("-1"), Err(MonthParseError::Unknown));
}

#[test]
fn parse_error_messages() {
    assert_eq!(MonthParseError::OutOfRange.message(), "month number must be between 1 and 12");
    assert!(MonthParseError::Unknown.message().contains("'current'"));
}

#[test]
fn text_helpers() {
    let mut s = String::new();
    push_decimal(&mut s, -2024);
    assert_eq!(s, "-2024");
    let mut m = String::new();
    push_decimal(&mut m, i32::MIN);
    assert_eq!(m, i32::MIN.to_string());
    let mut w = String::new();
    push_zero_pad2(&mut w, 7);
    push_zero_pad2(&mut w, 53);
    push_zero_pad2(&mut w, 123);
    assert_eq!(w, "0753123");
    let mut c = String::from("a");
    push_char(&mut c, 'é');
    assert_eq!(c, "aé");
    assert!(text_eq("blue", "blue"));
    assert!(!text_eq("blue", "blues"));
    assert!(!text_eq("blue", "Blue"));
}
