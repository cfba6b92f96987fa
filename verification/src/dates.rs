//! Dates of files and of filters as points in time.
//!
//! A point in time is a number of seconds since the epoch. What a date or
//! a time of day without an offset means as a point in time depends on the
//! time zone of the machine. Of such a point the functions here say what
//! holds in every time zone: it lies less than a day from the point that
//! the same date and time of day name in universal time.
use crate::files::FileEntry;
use crate::filters::{DateBounds, FilterCriteria};
use chrono::{DateTime, Local, NaiveDate, NaiveDateTime, NaiveTime, TimeZone};
use vstd::prelude::*;

verus! {

/// Pattern of a day: year, month and day.
pub const DAY_PATTERN: &'static str = "%Y-%m-%d";

/// Pattern of a moment: a day and a time of day.
pub const MOMENT_PATTERN: &'static str = "%Y-%m-%d %H:%M:%S";

/// Pattern of a moment with its offset from universal time.
pub const ZONED_MOMENT_PATTERN: &'static str = "%Y-%m-%d %H:%M:%S %z";

/// The offset of universal time, as it is appended to a moment.
pub const NO_OFFSET: &'static str = " +0000";

/// Seconds of a day.
pub const DAY_SECONDS: i64 = 86_400;

/// The point in time that `text` names after `pattern`, the text giving
/// its own offset from universal time; `None` if the text does not follow
/// the pattern.
pub uninterp spec fn zoned_moment(text: Seq<char>, pattern: Seq<char>) -> Option<int>;

/// `DateTime::parse_from_str` and `DateTime::timestamp`: the point in time
/// that a text with an offset names after a pattern.
#[verifier::external_body]
fn read_zoned_moment(text: &str, pattern: &str) -> (moment: Option<i64>)
    ensures
        moment is Some == zoned_moment(text@, pattern@) is Some,
        moment is Some ==> moment->0 == zoned_moment(text@, pattern@)->0,
{
    match DateTime::parse_from_str(text, pattern) {
        Ok(moment) => Some(moment.timestamp()),
        Err(_) => None,
    }
}

/// `NaiveDateTime::parse_from_str`, `TimeZone::from_local_datetime` of
/// `Local`, `LocalResult::single` and `DateTime::timestamp`: the point in
/// time at which the clocks of this machine's time zone show the moment
/// that a text names after a pattern, if there is exactly one. Nothing is
/// claimed of it.
#[verifier::external_body]
fn read_local_moment(text: &str, pattern: &str) -> (moment: Option<i64>) {
    match NaiveDateTime::parse_from_str(text, pattern) {
        Ok(naive) => match Local.from_local_datetime(&naive).single() {
            Some(moment) => Some(moment.timestamp()),
            None => None,
        },
        Err(_) => None,
    }
}

/// The point in time at which the day that `text` names after `pattern`
/// begins in universal time; `None` if the text names no day.
pub uninterp spec fn day_start(text: Seq<char>, pattern: Seq<char>) -> Option<int>;

/// `NaiveDate::parse_from_str`, `NaiveDate::and_time` with `NaiveTime::MIN`,
/// `NaiveDateTime::and_utc` and `DateTime::timestamp`: the point in time at
/// which the day that a text names after a pattern begins in universal
/// time.
#[verifier::external_body]
fn read_day_start(text: &str, pattern: &str) -> (start: Option<i64>)
    ensures
        start is Some == day_start(text@, pattern@) is Some,
        start is Some ==> start->0 == day_start(text@, pattern@)->0,
{
    match NaiveDate::parse_from_str(text, pattern) {
        Ok(day) => Some(day.and_time(NaiveTime::MIN).and_utc().timestamp()),
        Err(_) => None,
    }
}

/// `DateTime::from_timestamp`, `DateTime::naive_utc`,
/// `TimeZone::from_local_datetime` of `Local`, `LocalResult::single` and
/// `DateTime::timestamp`: the point in time at which the clocks of this
/// machine's time zone show what the clocks of universal time show at
/// `reading`, if there is exactly one. Which point that is depends on the
/// time zone; the offset of a time zone is less than a day, so the point
/// lies less than a day from `reading`.
#[verifier::external_body]
fn local_moment_showing(reading: i64) -> (moment: Option<i64>)
    ensures
        moment is Some ==> reading - DAY_SECONDS < moment->0 < reading + DAY_SECONDS,
{
    match DateTime::from_timestamp(reading, 0) {
        Some(shown) => match Local.from_local_datetime(&shown.naive_utc()).single() {
            Some(moment) => Some(moment.timestamp()),
            None => None,
        },
        None => None,
    }
}

/// The first second of the calendar: midnight of 1 January of the year
/// -262143 in universal time.
pub const FIRST_MOMENT: i64 = -8_334_601_228_800;

/// The last second of the calendar: the last second of 31 December of the
/// year 262142 in universal time.
pub const LAST_MOMENT: i64 = 8_210_266_876_799;

/// Whether the calendar has a date and a time of day for a point in time.
pub open spec fn has_calendar_date(seconds: int) -> bool {
    FIRST_MOMENT <= seconds <= LAST_MOMENT
}

/// `TimeZone::timestamp_opt` of `Local`, `LocalResult::single` and
/// `DateTime::format`: what the clocks of this machine's time zone show at
/// a point in time, as day and time of day. There is such a text for every
/// point in time from the first to the last day of the calendar in
/// universal time, and for no other; what it says depends on the time zone.
#[verifier::external_body]
fn write_local_moment(seconds: i64, pattern: &str) -> (text: Option<String>)
    requires
        pattern@ == MOMENT_PATTERN@,
    ensures
        text is Some == has_calendar_date(seconds as int),
{
    match Local.timestamp_opt(seconds, 0).single() {
        Some(moment) => Some(moment.format(pattern).to_string()),
        None => None,
    }
}

/// What the clocks of universal time show in the first or in the last
/// second of the day that begins at `start`.
pub open spec fn day_reading(start: int, end_of_day: bool) -> int {
    if end_of_day {
        start + DAY_SECONDS - 1
    } else {
        start
    }
}

/// The first or the last second of a day, given as year, month and day, in
/// the time zone of this machine.
///
/// A text that names no day has none. For a text that names one, the
/// second is the point in time at which the clocks of the time zone show
/// midnight, or one second before the next midnight, of that day, if there
/// is exactly one such point; it lies less than a day from the point at
/// which the clocks of universal time show the same.
pub fn parse_date(date: &str, end_of_day: bool) -> (moment: Option<i64>)
    ensures
        moment is Some ==> day_start(date@, DAY_PATTERN@) is Some,
        moment is Some ==> day_reading(day_start(date@, DAY_PATTERN@)->0, end_of_day) - DAY_SECONDS
            < moment->0 < day_reading(day_start(date@, DAY_PATTERN@)->0, end_of_day) + DAY_SECONDS,
{
    let start = match read_day_start(date, DAY_PATTERN) {
        Some(start) => start,
        None => {
            return None;
        },
    };
    let reading = if end_of_day {
        match start.checked_add(DAY_SECONDS - 1) {
            Some(reading) => reading,
            None => {
                return None;
            },
        }
    } else {
        start
    };
    local_moment_showing(reading)
}

/// The point in time that the time of a file's last change names if it is
/// read as universal time.
pub open spec fn modified_moment(modified: Seq<char>) -> Option<int> {
    zoned_moment(modified + NO_OFFSET@, ZONED_MOMENT_PATTERN@)
}

/// The time of a file's last change as a point in time. The text is read
/// as universal time; a text that cannot be read so is read in the time
/// zone of this machine.
pub fn parse_modified_time(modified: &str) -> (moment: Option<i64>)
    ensures
        modified_moment(modified@) is Some ==> moment is Some && moment->0 == modified_moment(
            modified@,
        )->0,
{
    let mut zoned = String::from_str(modified);
    zoned.append(NO_OFFSET);
    match read_zoned_moment(zoned.as_str(), ZONED_MOMENT_PATTERN) {
        Some(moment) => Some(moment),
        None => read_local_moment(modified, MOMENT_PATTERN),
    }
}

/// The dates of a file and of filter criteria as points in time.
pub fn date_bounds(file: &FileEntry, criteria: &FilterCriteria) -> (bounds: DateBounds)
    ensures
        file.modified is None ==> bounds.file_time is None,
        file.modified is Some && modified_moment(file.modified->0@) is Some ==> bounds.file_time
            is Some && bounds.file_time->0 == modified_moment(file.modified->0@)->0,
        criteria.date_min is None ==> bounds.min_time is None,
        criteria.date_max is None ==> bounds.max_time is None,
{
    DateBounds {
        file_time: match &file.modified {
            Some(modified) => parse_modified_time(modified.as_str()),
            None => None,
        },
        min_time: match &criteria.date_min {
            Some(date) => parse_date(date.as_str(), false),
            None => None,
        },
        max_time: match &criteria.date_max {
            Some(date) => parse_date(date.as_str(), true),
            None => None,
        },
    }
}

/// What the clocks of this machine's time zone show at a point in time, as
/// day and time of day. There is such a text exactly for the points in
/// time that the calendar has a date for; what it says depends on the time
/// zone.
pub fn format_time(seconds: i64) -> (text: Option<String>)
    ensures
        text is Some == has_calendar_date(seconds as int),
{
    write_local_moment(seconds, MOMENT_PATTERN)
}

} // verus!
