//! Tests of the French schedule-date reader: month names, day tokens,
//! calendar validity and the thirty-day year-rollover rule.

use foot_info::french::{
    back_days, days_in_month, french_month_number, parse_day_token, parse_french_date,
    resolve_french_date, CalendarDate,
};

fn date(year: i32, month: u32, day: u32) -> CalendarDate {
    CalendarDate { year, month, day }
}

#[test]
fn test_french_month_mars() {
    assert_eq!(french_month_number("mars"), Some(3));
    let d = resolve_french_date(15, 3, date(2026, 3, 1)).expect("mid-March resolves");
    assert_eq!(d.month, 3);
    assert_eq!(d.day, 15);
    assert_eq!(d.year, 2026);
}

#[test]
fn test_french_month_fevrier_with_accent() {
    assert_eq!(french_month_number("février"), Some(2));
    let d = resolve_french_date(1, 2, date(2026, 2, 10)).expect("1 February resolves");
    assert_eq!(d.month, 2);
    assert_eq!(d.day, 1);
}

#[test]
fn test_french_month_decembre_without_accent() {
    assert_eq!(french_month_number("decembre"), Some(12));
    let d = resolve_french_date(25, 12, date(2026, 12, 1)).expect("Christmas resolves");
    assert_eq!(d.month, 12);
    assert_eq!(d.day, 25);
}

#[test]
fn test_french_month_is_case_insensitive() {
    assert_eq!(french_month_number("Janvier"), Some(1));
    assert_eq!(french_month_number("AOÛT"), Some(8));
}

#[test]
fn test_french_month_unknown_is_none() {
    assert_eq!(french_month_number("randommonth"), None);
    assert_eq!(french_month_number(""), None);
}

#[test]
fn test_parse_day_token_values() {
    assert_eq!(parse_day_token("1"), Some(1));
    assert_eq!(parse_day_token("15"), Some(15));
    assert_eq!(parse_day_token("31"), Some(31));
    assert_eq!(parse_day_token(""), None);
    assert_eq!(parse_day_token("x5"), None);
    assert_eq!(parse_day_token("5x"), None);
}

#[test]
fn test_parse_day_token_as_unsigned_parser() {
    // leading zeros and a leading plus sign are accepted, as u32 parsing does
    assert_eq!(parse_day_token("015"), Some(15));
    assert_eq!(parse_day_token("+15"), Some(15));
    assert_eq!(parse_day_token("0000031"), Some(31));
    assert_eq!(parse_day_token("123"), Some(123));
    assert_eq!(parse_day_token("4294967295"), Some(u32::MAX));
    // but not a sign alone, a second sign, or a value that does not fit
    assert_eq!(parse_day_token("+"), None);
    assert_eq!(parse_day_token("++1"), None);
    assert_eq!(parse_day_token("4294967296"), None);
    assert_eq!(parse_day_token("99999999999999"), None);
}

#[test]
fn test_resolve_rolls_into_next_year_when_far_past() {
    // Seen from June, a March fixture belongs to the next year.
    let d = resolve_french_date(15, 3, date(2026, 6, 1)).unwrap();
    assert_eq!((d.year, d.month, d.day), (2027, 3, 15));
}

#[test]
fn test_resolve_keeps_year_within_thirty_days_past() {
    // Seen from 20 March, 15 March lies within the thirty-day window.
    let d = resolve_french_date(15, 3, date(2026, 3, 20)).unwrap();
    assert_eq!((d.year, d.month, d.day), (2026, 3, 15));
}

#[test]
fn test_resolve_invalid_day_is_none() {
    assert_eq!(resolve_french_date(31, 4, date(2026, 4, 1)), None);
    assert_eq!(resolve_french_date(0, 3, date(2026, 3, 1)), None);
    assert_eq!(resolve_french_date(15, 13, date(2026, 3, 1)), None);
}

#[test]
fn test_resolve_leap_day() {
    // 29 February exists in 2024 but not in 2025.
    assert_eq!(
        resolve_french_date(29, 2, date(2024, 2, 1)),
        Some(date(2024, 2, 29))
    );
    assert_eq!(resolve_french_date(29, 2, date(2025, 3, 31)), None);
}

#[test]
fn test_days_in_month_rules() {
    assert_eq!(days_in_month(2024, 2), 29);
    assert_eq!(days_in_month(2025, 2), 28);
    assert_eq!(days_in_month(1900, 2), 28);
    assert_eq!(days_in_month(2000, 2), 29);
    assert_eq!(days_in_month(2026, 4), 30);
    assert_eq!(days_in_month(2026, 1), 31);
}

#[test]
fn test_back_days_crosses_months_and_years() {
    assert_eq!(back_days(date(2026, 3, 1), 30), date(2026, 1, 30));
    assert_eq!(back_days(date(2026, 1, 15), 30), date(2025, 12, 16));
    assert_eq!(back_days(date(2024, 3, 5), 5), date(2024, 2, 29));
}

// ── Whole-header parsing ─────────────────────────────────────────────────

#[test]
fn test_parse_french_date_mars() {
    let result = parse_french_date("samedi 15 mars", date(2026, 3, 1));
    assert!(result.is_some(), "Should parse 'samedi 15 mars'");

    let d = result.unwrap();
    assert_eq!(d.month, 3);
    assert_eq!(d.day, 15);
}

#[test]
fn test_parse_french_date_fevrier_with_accent() {
    let result = parse_french_date("mardi 1 février", date(2026, 2, 10));
    assert!(result.is_some(), "Should parse 'février' with accent");

    let d = result.unwrap();
    assert_eq!(d.month, 2);
    assert_eq!(d.day, 1);
}

#[test]
fn test_parse_french_date_decembre_without_accent() {
    let result = parse_french_date("lundi 25 decembre", date(2026, 12, 1));
    assert!(result.is_some(), "Should parse 'decembre' without accent");

    let d = result.unwrap();
    assert_eq!(d.month, 12);
    assert_eq!(d.day, 25);
}

#[test]
fn test_parse_french_date_invalid_input() {
    assert!(parse_french_date("invalid", date(2026, 3, 1)).is_none());
}

#[test]
fn test_parse_french_date_unknown_month() {
    assert!(parse_french_date("lundi 1 randommonth", date(2026, 3, 1)).is_none());
}

#[test]
fn test_parse_french_date_too_few_parts() {
    assert!(parse_french_date("mars", date(2026, 3, 1)).is_none());
    assert!(parse_french_date("15 mars", date(2026, 3, 1)).is_none());
}

#[test]
fn test_parse_french_date_tolerates_extra_whitespace() {
    let result = parse_french_date("  samedi   15  mars  ", date(2026, 3, 1));
    let d = result.unwrap();
    assert_eq!((d.month, d.day), (3, 15));
}

#[test]
fn test_parse_french_date_day_with_leading_zero() {
    let result = parse_french_date("samedi 015 mars", date(2026, 3, 1));
    let d = result.unwrap();
    assert_eq!((d.month, d.day), (3, 15));
}

#[test]
fn test_parse_french_date_splits_on_unicode_whitespace() {
    let result = parse_french_date("samedi\u{00A0}15\u{00A0}mars", date(2026, 3, 1));
    let d = result.unwrap();
    assert_eq!((d.month, d.day), (3, 15));
}
