use financ::dates::{Date, DateTime};
use financ::utils::{format_guid, format_sqlite_date, parse_sqlite_date};

fn to_date(year: i32, month: u32, day: u32, hour: u32, min: u32, sec: u32) -> DateTime {
    Date::from_ymd_opt(year, month, day)
        .and_then(|f| f.and_hms_opt(hour, min, sec))
        .expect("Valid date time")
}

#[test]
fn test_parse_none() {
    assert_eq!(parse_sqlite_date(&None), None);
}

#[test]
fn test_parse_sqlite_string() {
    assert_eq!(
        parse_sqlite_date(&Some("20161020203213".to_string())),
        Some(to_date(2016, 10, 20, 20, 32, 13))
    );
}

#[test]
fn test_format_sqlite_date() {
    assert_eq!(
        format_sqlite_date(&to_date(2016, 10, 20, 20, 32, 13)),
        "2016-10-20 20:32:13"
    );
}

#[test]
fn test_format_and_parse_sqlite_date() {
    let nd = to_date(2016, 10, 20, 20, 32, 13);
    let as_str = format_sqlite_date(&nd);
    assert_eq!(parse_sqlite_date(&Some(as_str)), Some(nd));
}

#[test]
fn test_guid_formatting() {
    assert_eq!(
        format_guid("A4C28BAB-39CE-800D-AE5E-A072872B2D62"),
        "a4c28bab39ce800dae5ea072872b2d62"
    );
    assert_eq!(
        format_guid("3FC86613-6A98-584F-BB40-EB0715B75429"),
        "3fc866136a98584fbb40eb0715b75429"
    );
}

#[test]
fn test_extract_date_none() {
    assert_eq!(financ::utils::extract_date(&None), None);
}

#[test]
fn test_extract_date_string() {
    assert_eq!(
        financ::utils::extract_date(&Some("XYZ. PD.  2016.10.20 4488620465".to_string())),
        Date::from_ymd_opt(2016, 10, 20)
    );
}

#[test]
fn extract_date_takes_the_first_date_of_several() {
    assert_eq!(
        financ::utils::extract_date(&Some("a 2016.10.20 b 2017.11.21".to_string())),
        Date::from_ymd_opt(2016, 10, 20)
    );
}

#[test]
fn extract_date_without_a_date_finds_none() {
    assert_eq!(financ::utils::extract_date(&Some("no date here".to_string())), None);
    assert_eq!(financ::utils::extract_date(&Some("2016-10-20".to_string())), None);
}

#[test]
fn extract_date_of_a_day_that_does_not_exist_is_none() {
    assert_eq!(financ::utils::extract_date(&Some("2016.02.30".to_string())), None);
    assert_eq!(financ::utils::extract_date(&Some("2016.13.01".to_string())), None);
}

#[test]
fn extract_date_of_digits_that_are_not_ascii_is_none() {
    // Arabic-Indic digits match the pattern and are no number to the library.
    let text = "\u{0662}\u{0660}\u{0661}\u{0666}.\u{0661}\u{0660}.\u{0662}\u{0660}".to_string();
    assert_eq!(financ::utils::extract_date(&Some(text)), None);
}

#[test]
fn date_from_captures_reads_year_month_and_day() {
    let groups = vec![
        Some("2016.10.20".to_string()),
        Some("2016".to_string()),
        Some("10".to_string()),
        Some("20".to_string()),
    ];
    assert_eq!(financ::utils::date_from_captures(&groups), Date::from_ymd_opt(2016, 10, 20));
}

#[test]
fn date_from_captures_wants_four_groups_that_took_part() {
    let short = vec![Some("2016".to_string()), Some("10".to_string()), Some("20".to_string())];
    assert_eq!(financ::utils::date_from_captures(&short), None);
    let missing = vec![
        Some("2016.10.20".to_string()),
        Some("2016".to_string()),
        None,
        Some("20".to_string()),
    ];
    assert_eq!(financ::utils::date_from_captures(&missing), None);
}

#[test]
fn parse_number_reads_digits_only() {
    assert_eq!(financ::utils::parse_number("2016"), Some(2016));
    assert_eq!(financ::utils::parse_number("007"), Some(7));
    assert_eq!(financ::utils::parse_number("0"), Some(0));
    assert_eq!(financ::utils::parse_number(""), None);
    assert_eq!(financ::utils::parse_number("12a"), None);
    assert_eq!(financ::utils::parse_number("-12"), None);
    assert_eq!(financ::utils::parse_number("+12"), None);
}

#[test]
fn parse_number_stops_at_the_largest_u32() {
    assert_eq!(financ::utils::parse_number("4294967295"), Some(4294967295));
    assert_eq!(financ::utils::parse_number("4294967296"), None);
    assert_eq!(financ::utils::parse_number("99999999999999999999"), None);
}

#[test]
fn parse_sqlite_date_reads_the_form_with_separators() {
    assert_eq!(
        parse_sqlite_date(&Some("2016-10-20 20:32:13".to_string())),
        Some(to_date(2016, 10, 20, 20, 32, 13))
    );
}

#[test]
fn parse_sqlite_date_of_other_text_is_none() {
    assert_eq!(parse_sqlite_date(&Some("20.10.2016".to_string())), None);
    assert_eq!(parse_sqlite_date(&Some("".to_string())), None);
}

#[test]
fn to_date_reads_a_plain_date() {
    assert_eq!(
        financ::utils::to_date(Some("2024-01-10".to_string())),
        Date::from_ymd_opt(2024, 1, 10)
    );
    assert_eq!(financ::utils::to_date(Some("10.01.2024".to_string())), None);
    assert_eq!(financ::utils::to_date(None), None);
}

#[test]
fn to_string_writes_a_plain_date() {
    assert_eq!(financ::utils::to_string(Date::from_ymd_opt(2024, 1, 10)), "2024-01-10");
    assert_eq!(financ::utils::to_string(None), "");
}

#[test]
fn to_string_of_a_day_outside_the_calendar_is_empty() {
    assert_eq!(financ::utils::to_string(Some(Date { days: i32::MAX })), "");
}

#[test]
fn day_numbers_count_from_the_first_of_january_of_year_one() {
    assert_eq!(Date::from_ymd_opt(1, 1, 1), Some(Date { days: 1 }));
    assert_eq!(Date::from_ymd_opt(1970, 1, 1), Some(Date { days: 719_163 }));
    assert_eq!(Date::from_ymd_opt(2015, 2, 29), None);
    assert_eq!(Date::from_ymd_opt(2015, 0, 14), None);
}

#[test]
fn checked_add_days_moves_a_date_across_months_and_years() {
    let d = Date::from_ymd_opt(2023, 12, 30).unwrap();
    assert_eq!(d.checked_add_days(3), Date::from_ymd_opt(2024, 1, 2));
    assert_eq!(d.checked_add_days(-30), Date::from_ymd_opt(2023, 11, 30));
    assert_eq!(d.checked_add_days(0), Some(d));
}

#[test]
fn checked_add_days_beyond_the_day_numbers_is_none() {
    assert_eq!(Date { days: i32::MAX }.checked_add_days(1), None);
    assert_eq!(Date { days: i32::MIN }.checked_add_days(-1), None);
    assert_eq!(Date { days: 0 }.checked_add_days(i64::MAX), None);
    assert_eq!(Date { days: 0 }.checked_add_days(i64::MIN), None);
    assert_eq!(Date { days: -5 }.checked_add_days(i32::MAX as i64 + 5), Some(Date { days: i32::MAX }));
}

#[test]
fn and_hms_opt_counts_seconds_from_midnight() {
    let d = Date::from_ymd_opt(2024, 1, 10).unwrap();
    assert_eq!(d.and_hms_opt(12, 0, 0), Some(DateTime { date: d, seconds: 43200, nanos: 0 }));
    assert_eq!(d.and_hms_opt(23, 59, 59), Some(DateTime { date: d, seconds: 86399, nanos: 0 }));
    assert_eq!(d.and_hms_opt(24, 0, 0), None);
    assert_eq!(d.and_hms_opt(0, 60, 0), None);
    assert_eq!(d.and_hms_opt(0, 0, 60), None);
}

#[test]
fn format_guid_keeps_what_is_neither_a_hyphen_nor_upper_case() {
    assert_eq!(format_guid(""), "");
    assert_eq!(format_guid("---"), "");
    assert_eq!(format_guid("ab-12"), "ab12");
}

#[test]
fn get_value_or_empty_gives_the_text_or_nothing() {
    assert_eq!(financ::utils::get_value_or_empty(&Some("abc".to_string())), "abc");
    assert_eq!(financ::utils::get_value_or_empty(&None), "");
}

#[test]
fn like_pattern_puts_the_text_between_percent_signs() {
    assert_eq!(financ::utils::like_pattern("Bank"), "%Bank%");
    assert_eq!(financ::utils::like_pattern(""), "%%");
}
