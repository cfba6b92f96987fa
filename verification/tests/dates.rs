use chrono::{Local, TimeZone};
use seer::dates::{
    date_bounds, format_time, parse_date, parse_modified_time, FIRST_MOMENT, LAST_MOMENT,
};
use seer::files::FileEntry;
use seer::filters::FilterCriteria;

fn shown(seconds: i64) -> String {
    Local.timestamp_opt(seconds, 0).single().unwrap().format("%Y-%m-%d %H:%M:%S").to_string()
}

fn entry(modified: Option<&str>) -> FileEntry {
    FileEntry {
        name: "a.mkv".to_string(),
        path: "/m/a.mkv".to_string(),
        is_dir: false,
        is_media: true,
        size: 1,
        modified: modified.map(|m| m.to_string()),
    }
}

fn dated(date_min: Option<&str>, date_max: Option<&str>) -> FilterCriteria {
    FilterCriteria {
        size_min: None,
        size_max: None,
        date_min: date_min.map(|d| d.to_string()),
        date_max: date_max.map(|d| d.to_string()),
        extensions: vec![],
        media_filters: None,
        file_type: None,
    }
}

#[test]
fn test_parse_date_valid_start_of_day() {
    let date = parse_date("2024-01-15", false);
    assert!(date.is_some());
    assert_eq!(shown(date.unwrap()), "2024-01-15 00:00:00");
}

#[test]
fn test_parse_date_valid_end_of_day() {
    let date = parse_date("2024-01-15", true);
    assert!(date.is_some());
    assert_eq!(shown(date.unwrap()), "2024-01-15 23:59:59");
}

#[test]
fn test_parse_date_invalid_format() {
    assert!(parse_date("01-15-2024", false).is_none());
    assert!(parse_date("2024/01/15", false).is_none());
    assert!(parse_date("not-a-date", false).is_none());
}

#[test]
fn test_parse_date_edge_cases() {
    assert!(parse_date("2024-01-01", false).is_some());
    assert!(parse_date("2024-12-31", true).is_some());
    assert!(parse_date("2024-02-29", false).is_some());
}

#[test]
fn test_parse_date_spans_a_day() {
    let start = parse_date("2024-06-01", false).unwrap();
    let end = parse_date("2024-06-01", true).unwrap();
    assert!(start < end);
    assert!(parse_date("2023-02-29", false).is_none());
    assert!(parse_date("", true).is_none());
}

#[test]
fn test_parse_modified_time_valid() {
    let time = parse_modified_time("2024-01-15 10:30:45");
    assert!(time.is_some());
}

#[test]
fn test_parse_modified_time_invalid() {
    assert!(parse_modified_time("invalid").is_none());
    assert!(parse_modified_time("2024-01-15").is_none());
}

#[test]
fn test_parse_modified_time_reads_universal_time() {
    assert_eq!(parse_modified_time("1970-01-01 00:00:00"), Some(0));
    assert_eq!(parse_modified_time("1970-01-02 00:00:01"), Some(86_401));
    assert_eq!(parse_modified_time("2024-01-15 10:30:45"), Some(1_705_314_645));
    assert_eq!(parse_modified_time("2024-02-30 10:30:45"), None);
}

#[test]
fn test_date_bounds() {
    let bounds = date_bounds(&entry(Some("1970-01-01 00:01:00")), &dated(None, None));
    assert_eq!(bounds.file_time, Some(60));
    assert_eq!(bounds.min_time, None);
    assert_eq!(bounds.max_time, None);
    let bounds = date_bounds(&entry(None), &dated(Some("2024-01-15"), Some("2024-01-16")));
    assert_eq!(bounds.file_time, None);
    assert_eq!(bounds.min_time, parse_date("2024-01-15", false));
    assert_eq!(bounds.max_time, parse_date("2024-01-16", true));
    assert!(bounds.min_time.unwrap() < bounds.max_time.unwrap());
    let bounds = date_bounds(&entry(Some("yesterday")), &dated(Some("soon"), None));
    assert_eq!((bounds.file_time, bounds.min_time, bounds.max_time), (None, None, None));
}

#[test]
fn test_format_time() {
    assert_eq!(format_time(1_705_314_645), Some(shown(1_705_314_645)));
    assert_eq!(format_time(0).map(|t| t.len()), Some(19));
    assert_eq!(format_time(i64::MAX), None);
}

#[test]
fn test_parse_date_lies_within_a_day_of_universal_time() {
    let midnight = 1_705_276_800;
    let start = parse_date("2024-01-15", false).unwrap();
    assert!(midnight - 86_400 < start && start < midnight + 86_400);
    let end = parse_date("2024-01-15", true).unwrap();
    assert!(midnight + 86_399 - 86_400 < end && end < midnight + 86_399 + 86_400);
    assert_eq!(end - start, 86_399);
    let epoch = parse_date("1970-01-01", false).unwrap();
    assert!(-86_400 < epoch && epoch < 86_400);
    assert_eq!(shown(epoch), "1970-01-01 00:00:00");
}

#[test]
fn test_format_time_has_a_text_for_every_calendar_date() {
    for seconds in [-62_135_596_800, -1, 0, 1, 1_705_314_645, 253_402_300_799] {
        assert_eq!(format_time(seconds), Some(shown(seconds)));
    }
    assert_eq!(format_time(i64::MAX), None);
    assert_eq!(format_time(i64::MIN), None);
    assert_eq!(format_time(parse_date("2024-01-15", false).unwrap()).as_deref(), Some("2024-01-15 00:00:00"));
}

#[test]
fn test_format_time_at_the_ends_of_the_calendar() {
    assert_eq!(FIRST_MOMENT, -8_334_601_228_800);
    assert_eq!(LAST_MOMENT, 8_210_266_876_799);
    assert!(format_time(FIRST_MOMENT).is_some());
    assert!(format_time(FIRST_MOMENT + 1).is_some());
    assert!(format_time(FIRST_MOMENT - 1).is_none());
    assert!(format_time(LAST_MOMENT).is_some());
    assert!(format_time(LAST_MOMENT - 1).is_some());
    assert!(format_time(LAST_MOMENT + 1).is_none());
}
