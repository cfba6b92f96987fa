//! Labels by which files are grouped when the label is read from a probe
//! of the file or from the date of its last change.
//!
//! The caller runs the probe tool and reads the dates; the functions here
//! say how to ask and what the answers mean.
use crate::dates::has_calendar_date;
use crate::grouping::{first_occurrences, group_by_labels, is_grouping_of, path_texts};
use crate::metadata::{trim_text, trimmed_text};
use crate::probe::{
    exit_failure, push_argument, run_failure, start_failure, string_views, ToolRun,
};
use crate::text::{from_chars, is_text, parse_unsigned, split_on, split_range, to_chars, unsigned_value};
use crate::textmap::TextMap;
use chrono::{DateTime, Utc};
use vstd::prelude::*;

verus! {

/// Label of a file whose probe reports nothing or fails.
pub const UNKNOWN_LABEL: &'static str = "unknown";

/// Texts of an outcome.
pub open spec fn outcome_text(outcome: Result<String, String>) -> Result<Seq<char>, Seq<char>> {
    match outcome {
        Ok(text) => Ok(text@),
        Err(message) => Err(message@),
    }
}

/// Argument list of the probe that reports `entries` of the first video
/// stream of the file at `path` in the output format `format`.
pub open spec fn video_entry_arguments(entries: Seq<char>, format: Seq<char>, path: Seq<char>) -> Seq<
    Seq<char>,
> {
    seq![
        "-v"@,
        "error"@,
        "-select_streams"@,
        "v:0"@,
        "-show_entries"@,
        entries,
        "-of"@,
        format,
        path,
    ]
}

/// Argument list of a probe of the first video stream.
fn video_entry_probe(entries: &str, format: &str, path: &str) -> (arguments: Vec<String>)
    ensures
        string_views(arguments@) == video_entry_arguments(entries@, format@, path@),
{
    let mut arguments: Vec<String> = Vec::new();
    assert(string_views(arguments@) =~= Seq::<Seq<char>>::empty());
    push_argument(&mut arguments, "-v");
    push_argument(&mut arguments, "error");
    push_argument(&mut arguments, "-select_streams");
    push_argument(&mut arguments, "v:0");
    push_argument(&mut arguments, "-show_entries");
    push_argument(&mut arguments, entries);
    push_argument(&mut arguments, "-of");
    push_argument(&mut arguments, format);
    push_argument(&mut arguments, path);
    assert(string_views(arguments@) =~= video_entry_arguments(entries@, format@, path@));
    arguments
}

/// Argument list of the probe that reports the resolution of the file at
/// `path` as width, the letter `x`, and height.
pub fn resolution_probe_arguments(path: &str) -> (arguments: Vec<String>)
    ensures
        string_views(arguments@) == video_entry_arguments(
            "stream=width,height"@,
            "csv=s=x:p=0"@,
            path@,
        ),
{
    video_entry_probe("stream=width,height", "csv=s=x:p=0", path)
}

/// Argument list of the probe that reports the name of the video codec of
/// the file at `path`.
pub fn codec_probe_arguments(path: &str) -> (arguments: Vec<String>)
    ensures
        string_views(arguments@) == video_entry_arguments(
            "stream=codec_name"@,
            "default=noprint_wrappers=1:nokey=1"@,
            path@,
        ),
{
    video_entry_probe("stream=codec_name", "default=noprint_wrappers=1:nokey=1", path)
}

/// The common name of a resolution, for those that have one.
pub open spec fn common_name(width: nat, height: nat) -> Option<Seq<char>> {
    if width == 3840 && height == 2160 {
        Some("4K"@)
    } else if width == 2560 && height == 1440 {
        Some("1440p"@)
    } else if width == 1920 && height == 1080 {
        Some("1080p"@)
    } else if width == 1280 && height == 720 {
        Some("720p"@)
    } else if width == 854 && height == 480 {
        Some("480p"@)
    } else {
        None
    }
}

/// The number that a decimal numeral stands for, if it fits into 32 bits.
pub open spec fn dimension(text: Seq<char>) -> Option<nat> {
    match unsigned_value(text) {
        Some(value) => if value <= u32::MAX {
            Some(value)
        } else {
            None
        },
        None => None,
    }
}

/// The label for a resolution report without the white space at its
/// ends: the common name of a report of two dimensions that have one, the
/// report itself otherwise, and the label for the unknown if the report is
/// empty.
pub open spec fn resolution_name(report: Seq<char>) -> Seq<char> {
    let parts = split_on(report, 'x');
    if report.len() == 0 {
        UNKNOWN_LABEL@
    } else if parts.len() == 2 && dimension(parts[0]) is Some && dimension(parts[1]) is Some {
        match common_name(dimension(parts[0])->0, dimension(parts[1])->0) {
            Some(name) => name,
            None => report,
        }
    } else {
        report
    }
}

/// The label for a codec report without the white space at its ends.
pub open spec fn codec_name(report: Seq<char>) -> Seq<char> {
    if report.len() == 0 {
        UNKNOWN_LABEL@
    } else {
        report
    }
}

/// What a resolution probe amounts to.
pub open spec fn resolution_of(run: ToolRun) -> Result<Seq<char>, Seq<char>> {
    match run_failure(run) {
        Some(message) => Err(message),
        None => Ok(resolution_name(trimmed_text(run->output@))),
    }
}

/// What a codec probe amounts to.
pub open spec fn codec_of(run: ToolRun) -> Result<Seq<char>, Seq<char>> {
    match run_failure(run) {
        Some(message) => Err(message),
        None => Ok(codec_name(trimmed_text(run->output@))),
    }
}

/// The answer of a run without the white space at its ends, or the message
/// for a run that gives none.
fn answer_of(run: &ToolRun) -> (answer: Result<Vec<char>, String>)
    ensures
        answer is Err == run_failure(*run) is Some,
        answer is Err ==> answer->Err_0@ == run_failure(*run)->0,
        answer is Ok ==> answer->Ok_0@ == trimmed_text(run->output@),
{
    match run {
        ToolRun::NotStarted { reason } => Err(start_failure(reason.as_str())),
        ToolRun::Finished { success, output, diagnostics } => {
            if *success {
                Ok(trim_text(output.as_str()))
            } else {
                Err(exit_failure(diagnostics.as_str()))
            }
        },
    }
}

/// The number that a numeral stands for, if it fits into 32 bits.
fn read_dimension(text: &Vec<char>) -> (value: Option<u64>)
    ensures
        value is Some == dimension(text@) is Some,
        value is Some ==> value->0 == dimension(text@)->0,
{
    match parse_unsigned(text) {
        Some(value) => if value <= 0xFFFF_FFFF {
            Some(value)
        } else {
            None
        },
        None => None,
    }
}

/// The common name of a resolution.
fn name_of_resolution(width: u64, height: u64) -> (name: Option<&'static str>)
    ensures
        name is Some == common_name(width as nat, height as nat) is Some,
        name is Some ==> name->0@ == common_name(width as nat, height as nat)->0,
{
    if width == 3840 && height == 2160 {
        Some("4K")
    } else if width == 2560 && height == 1440 {
        Some("1440p")
    } else if width == 1920 && height == 1080 {
        Some("1080p")
    } else if width == 1280 && height == 720 {
        Some("720p")
    } else if width == 854 && height == 480 {
        Some("480p")
    } else {
        None
    }
}

/// Reads the label of a file from a probe of its resolution.
pub fn get_resolution(run: &ToolRun) -> (label: Result<String, String>)
    ensures
        outcome_text(label) == resolution_of(*run),
{
    let report = match answer_of(run) {
        Ok(report) => report,
        Err(message) => {
            return Err(message);
        },
    };
    if report.len() == 0 {
        return Ok(String::from_str(UNKNOWN_LABEL));
    }
    let parts = split_range(&report, 0, report.len(), 'x');
    assert(report@.subrange(0, report@.len() as int) =~= report@);
    if parts.len() == 2 {
        if let (Some(width), Some(height)) = (read_dimension(&parts[0]), read_dimension(&parts[1])) {
            if let Some(name) = name_of_resolution(width, height) {
                return Ok(String::from_str(name));
            }
        }
    }
    Ok(from_chars(&report))
}

/// Reads the label of a file from a probe of its video codec.
pub fn get_video_codec(run: &ToolRun) -> (label: Result<String, String>)
    ensures
        outcome_text(label) == codec_of(*run),
{
    let report = match answer_of(run) {
        Ok(report) => report,
        Err(message) => {
            return Err(message);
        },
    };
    if report.len() == 0 {
        return Ok(String::from_str(UNKNOWN_LABEL));
    }
    Ok(from_chars(&report))
}

/// The label of a file by its resolution probe; a probe without an answer
/// gives the label for the unknown.
pub open spec fn resolution_label_of(run: ToolRun) -> Seq<char> {
    match resolution_of(run) {
        Ok(label) => label,
        Err(_) => UNKNOWN_LABEL@,
    }
}

/// The label of a file by its codec probe; a probe without an answer gives
/// the label for the unknown.
pub open spec fn codec_label_of(run: ToolRun) -> Seq<char> {
    match codec_of(run) {
        Ok(label) => label,
        Err(_) => UNKNOWN_LABEL@,
    }
}

/// The labels of files by their resolution probes, in order.
pub open spec fn resolution_labels_of(runs: Seq<ToolRun>) -> Seq<Seq<char>> {
    runs.map_values(|run: ToolRun| resolution_label_of(run))
}

/// The labels of files by their codec probes, in order.
pub open spec fn codec_labels_of(runs: Seq<ToolRun>) -> Seq<Seq<char>> {
    runs.map_values(|run: ToolRun| codec_label_of(run))
}

/// The message for grouping by `what` without the probe tool.
pub open spec fn missing_tool_message(what: Seq<char>) -> Seq<char> {
    "ffprobe not found. Required for "@ + what + " grouping."@
}

/// The message for grouping by `what` without the probe tool.
fn missing_tool(what: &str) -> (message: String)
    ensures
        message@ == missing_tool_message(what@),
{
    let mut message = String::from_str("ffprobe not found. Required for ");
    message.append(what);
    message.append(" grouping.");
    message
}

/// The labels of files by resolution, from one probe per file. Without the
/// probe tool there are none.
pub fn resolution_labels(tool_found: bool, runs: &Vec<ToolRun>) -> (labels: Result<
    Vec<String>,
    String,
>)
    ensures
        !tool_found ==> labels is Err && labels->Err_0@ == missing_tool_message("resolution"@),
        tool_found ==> labels is Ok && path_texts(labels->Ok_0@) == resolution_labels_of(runs@),
{
    if !tool_found {
        return Err(missing_tool("resolution"));
    }
    let mut labels: Vec<String> = Vec::new();
    let mut i: usize = 0;
    while i < runs.len()
        invariant
            i <= runs.len(),
            labels@.len() == i,
            forall|k: int| 0 <= k < i ==> (#[trigger] labels@[k])@ == resolution_label_of(runs@[k]),
        decreases runs.len() - i,
    {
        let label = match get_resolution(&runs[i]) {
            Ok(label) => label,
            Err(_) => String::from_str(UNKNOWN_LABEL),
        };
        labels.push(label);
        i += 1;
    }
    assert(path_texts(labels@) =~= resolution_labels_of(runs@));
    Ok(labels)
}

/// The labels of files by video codec, from one probe per file. Without
/// the probe tool there are none.
pub fn codec_labels(tool_found: bool, runs: &Vec<ToolRun>) -> (labels: Result<Vec<String>, String>)
    ensures
        !tool_found ==> labels is Err && labels->Err_0@ == missing_tool_message("codec"@),
        tool_found ==> labels is Ok && path_texts(labels->Ok_0@) == codec_labels_of(runs@),
{
    if !tool_found {
        return Err(missing_tool("codec"));
    }
    let mut labels: Vec<String> = Vec::new();
    let mut i: usize = 0;
    while i < runs.len()
        invariant
            i <= runs.len(),
            labels@.len() == i,
            forall|k: int| 0 <= k < i ==> (#[trigger] labels@[k])@ == codec_label_of(runs@[k]),
        decreases runs.len() - i,
    {
        let label = match get_video_codec(&runs[i]) {
            Ok(label) => label,
            Err(_) => String::from_str(UNKNOWN_LABEL),
        };
        labels.push(label);
        i += 1;
    }
    assert(path_texts(labels@) =~= codec_labels_of(runs@));
    Ok(labels)
}

/// Groups files by resolution, from one probe per file.
pub fn group_by_resolution(paths: &Vec<String>, tool_found: bool, runs: &Vec<ToolRun>) -> (groups:
    Result<TextMap<Vec<String>>, String>)
    requires
        runs@.len() == paths@.len(),
    ensures
        !tool_found ==> groups is Err && groups->Err_0@ == missing_tool_message("resolution"@),
        tool_found ==> groups is Ok && groups->Ok_0.wf() && is_grouping_of(
            groups->Ok_0@,
            path_texts(paths@),
            resolution_labels_of(runs@),
            paths@.len() as int,
        ) && groups->Ok_0.keys() == first_occurrences(
            resolution_labels_of(runs@),
            paths@.len() as int,
        ),
{
    match resolution_labels(tool_found, runs) {
        Ok(labels) => {
            assert(labels@.len() == path_texts(labels@).len());
            Ok(group_by_labels(paths, &labels))
        },
        Err(message) => Err(message),
    }
}

/// Groups files by video codec, from one probe per file.
pub fn group_by_codec(paths: &Vec<String>, tool_found: bool, runs: &Vec<ToolRun>) -> (groups:
    Result<TextMap<Vec<String>>, String>)
    requires
        runs@.len() == paths@.len(),
    ensures
        !tool_found ==> groups is Err && groups->Err_0@ == missing_tool_message("codec"@),
        tool_found ==> groups is Ok && groups->Ok_0.wf() && is_grouping_of(
            groups->Ok_0@,
            path_texts(paths@),
            codec_labels_of(runs@),
            paths@.len() as int,
        ) && groups->Ok_0.keys() == first_occurrences(codec_labels_of(runs@), paths@.len() as int),
{
    match codec_labels(tool_found, runs) {
        Ok(labels) => {
            assert(labels@.len() == path_texts(labels@).len());
            Ok(group_by_labels(paths, &labels))
        },
        Err(message) => Err(message),
    }
}

/// The pattern of the date label for a granularity: the day unless the
/// month or the year is asked for.
pub open spec fn date_pattern(granularity: Seq<char>) -> Seq<char> {
    if granularity == "month"@ {
        "%Y-%m"@
    } else if granularity == "year"@ {
        "%Y"@
    } else {
        "%Y-%m-%d"@
    }
}

/// Whether a pattern is one of those of the date labels.
pub open spec fn is_date_pattern(pattern: Seq<char>) -> bool {
    pattern == "%Y-%m"@ || pattern == "%Y"@ || pattern == "%Y-%m-%d"@
}

/// The date in universal time of the moment `seconds` seconds after the
/// epoch, written after `pattern`; `None` for a moment that no calendar date
/// stands for.
pub uninterp spec fn utc_date_text(seconds: int, pattern: Seq<char>) -> Option<Seq<char>>;

/// `DateTime::<Utc>::from_timestamp` and `DateTime::format`: the calendar
/// date of a moment in universal time, written after a pattern of year,
/// month and day. There is one exactly for the moments from the first to
/// the last day of the calendar.
#[verifier::external_body]
fn format_utc_date(seconds: i64, pattern: &str) -> (text: Option<String>)
    requires
        is_date_pattern(pattern@),
    ensures
        text is Some == has_calendar_date(seconds as int),
        text is Some == utc_date_text(seconds as int, pattern@) is Some,
        text is Some ==> text->0@ == utc_date_text(seconds as int, pattern@)->0,
{
    match DateTime::<Utc>::from_timestamp(seconds, 0) {
        Some(moment) => Some(moment.format(pattern).to_string()),
        None => None,
    }
}

/// The pattern of the date label for a granularity.
fn pattern_for(granularity: &str) -> (pattern: &'static str)
    ensures
        pattern@ == date_pattern(granularity@),
        is_date_pattern(pattern@),
{
    let chars = to_chars(granularity);
    if is_text(&chars, "month") {
        "%Y-%m"
    } else if is_text(&chars, "year") {
        "%Y"
    } else {
        "%Y-%m-%d"
    }
}

/// The date label for a written date, if there is one.
pub open spec fn label_of_date(text: Option<Seq<char>>) -> Result<Seq<char>, Seq<char>> {
    match text {
        Some(label) => Ok(label),
        None => Err("Invalid timestamp"@),
    }
}

/// The date label of a moment, given its written date.
pub fn date_label_from(text: Option<String>) -> (label: Result<String, String>)
    ensures
        outcome_text(label) == label_of_date(
            match text {
                Some(written) => Some(written@),
                None => None,
            },
        ),
{
    match text {
        Some(written) => Ok(written),
        None => Err(String::from_str("Invalid timestamp")),
    }
}

/// The date label of the moment `seconds` seconds after the epoch.
pub fn date_label(seconds: i64, granularity: &str) -> (label: Result<String, String>)
    ensures
        outcome_text(label) == label_of_date(
            utc_date_text(seconds as int, date_pattern(granularity@)),
        ),
        label is Ok == has_calendar_date(seconds as int),
{
    date_label_from(format_utc_date(seconds, pattern_for(granularity)))
}

/// The date label of a file from the time of its last change in seconds
/// after the epoch, or the reason why the time could not be read.
pub open spec fn dated(time: Result<i64, String>, granularity: Seq<char>) -> Result<
    Seq<char>,
    Seq<char>,
> {
    match time {
        Ok(seconds) => label_of_date(utc_date_text(seconds as int, date_pattern(granularity))),
        Err(message) => Err(message@),
    }
}

/// Position of the first file at or behind `from` that has no date label,
/// or the number of files.
pub open spec fn first_undated(times: Seq<Result<i64, String>>, granularity: Seq<char>, from: int) -> int
    decreases times.len() - from,
{
    if from < 0 || from >= times.len() {
        times.len() as int
    } else if dated(times[from], granularity) is Err {
        from
    } else {
        first_undated(times, granularity, from + 1)
    }
}

/// The date labels of files, in order.
pub open spec fn date_labels_of(times: Seq<Result<i64, String>>, granularity: Seq<char>) -> Seq<
    Seq<char>,
> {
    Seq::new(times.len(), |i: int| dated(times[i], granularity)->Ok_0)
}

/// The labels of files by the date of their last change. The first file
/// without a date label fails the whole with its message.
pub fn date_labels(times: &Vec<Result<i64, String>>, granularity: &str) -> (labels: Result<
    Vec<String>,
    String,
>)
    ensures
        first_undated(times@, granularity@, 0) < times@.len() ==> labels is Err && labels->Err_0@
            == dated(times@[first_undated(times@, granularity@, 0)], granularity@)->Err_0,
        first_undated(times@, granularity@, 0) >= times@.len() ==> labels is Ok && path_texts(
            labels->Ok_0@,
        ) == date_labels_of(times@, granularity@),
{
    let mut labels: Vec<String> = Vec::new();
    let mut i: usize = 0;
    while i < times.len()
        invariant
            i <= times.len(),
            labels@.len() == i,
            first_undated(times@, granularity@, 0) == first_undated(times@, granularity@, i as int),
            forall|k: int|
                0 <= k < i ==> (#[trigger] labels@[k])@ == dated(times@[k], granularity@)->Ok_0,
        decreases times.len() - i,
    {
        let label = match &times[i] {
            Ok(seconds) => date_label(*seconds, granularity),
            Err(message) => Err(message.clone()),
        };
        match label {
            Ok(label) => {
                labels.push(label);
            },
            Err(message) => {
                return Err(message);
            },
        }
        i += 1;
    }
    assert(path_texts(labels@) =~= date_labels_of(times@, granularity@));
    Ok(labels)
}

/// Groups files by the date of their last change.
pub fn group_by_date(paths: &Vec<String>, granularity: &str, times: &Vec<Result<i64, String>>) -> (
    groups: Result<TextMap<Vec<String>>, String>)
    requires
        times@.len() == paths@.len(),
    ensures
        first_undated(times@, granularity@, 0) < times@.len() ==> groups is Err && groups->Err_0@
            == dated(times@[first_undated(times@, granularity@, 0)], granularity@)->Err_0,
        first_undated(times@, granularity@, 0) >= times@.len() ==> groups is Ok
            && groups->Ok_0.wf() && is_grouping_of(
            groups->Ok_0@,
            path_texts(paths@),
            date_labels_of(times@, granularity@),
            paths@.len() as int,
        ) && groups->Ok_0.keys() == first_occurrences(
            date_labels_of(times@, granularity@),
            paths@.len() as int,
        ),
{
    match date_labels(times, granularity) {
        Ok(labels) => {
            assert(labels@.len() == path_texts(labels@).len());
            Ok(group_by_labels(paths, &labels))
        },
        Err(message) => Err(message),
    }
}

} // verus!
