//! Parser for the frame listing of the probe tool, and the evaluation of a
//! finished probe in either mode.
//!
//! The frame listing is a JSON document with an array `frames`. Each frame
//! names its time in one of four members, which are tried in a fixed order.
//! A frame without a time is given an estimated one, from the frame rate of
//! the frames before it or from a default rate. Frames without a size are
//! skipped.

use crate::aggregate::{frame_views, FrameRecord, FrameView};
use crate::json::{json_document, json_views, parse_json, JsonValue, JsonView};
use crate::packets::{micros_value, packets_of, parse_micros, parse_packet_output};
use crate::probe::{ProbeError, ProbeErrorView, ProbeMode};
use crate::text::{chars_are_blank, is_blank, parse_unsigned, to_chars, unsigned_value};
use vstd::prelude::*;

verus! {

/// Frame rate assumed when the frames seen so far do not give one.
pub const DEFAULT_FRAMES_PER_SECOND: u64 = 30;

/// The time that the member `key` of a frame gives, in microseconds.
pub open spec fn member_time(frame: JsonView, key: Seq<char>) -> Option<int> {
    match frame.text_of(key) {
        Some(text) => micros_value(text),
        None => None,
    }
}

/// The time of a frame: the first of the members `best_effort_timestamp_time`,
/// `pkt_pts_time`, `pts_time` and `pkt_dts_time` that gives one.
pub open spec fn frame_time(frame: JsonView) -> Option<int> {
    if member_time(frame, "best_effort_timestamp_time"@) is Some {
        member_time(frame, "best_effort_timestamp_time"@)
    } else if member_time(frame, "pkt_pts_time"@) is Some {
        member_time(frame, "pkt_pts_time"@)
    } else if member_time(frame, "pts_time"@) is Some {
        member_time(frame, "pts_time"@)
    } else {
        member_time(frame, "pkt_dts_time"@)
    }
}

/// The size of a frame: its member `pkt_size`, as a numeral in a string or
/// as a number.
pub open spec fn frame_size(frame: JsonView) -> Option<nat> {
    let from_text = match frame.text_of("pkt_size"@) {
        Some(text) => unsigned_value(text),
        None => None,
    };
    if from_text is Some && from_text->0 <= u64::MAX {
        from_text
    } else {
        match frame.get("pkt_size"@) {
            Some(member) => match member.as_u64() {
                Some(size) => Some(size as nat),
                None => None,
            },
            None => None,
        }
    }
}

/// Estimated time of the frame at position `index` that names none, given
/// the frames accepted before it: zero for the first accepted frame; the
/// position divided by the frame rate so far, if at least two frames were
/// accepted and the last of them lies after time zero; the position divided
/// by the default frame rate otherwise. The estimate is capped at the
/// largest time.
pub open spec fn estimated_time(index: int, accepted: Seq<FrameView>) -> int {
    if accepted.len() == 0 {
        0
    } else {
        let exact = if accepted.len() > 1 && accepted.last().timestamp_us > 0 {
            index * accepted.last().timestamp_us / accepted.len() as int
        } else {
            index * 1_000_000 / DEFAULT_FRAMES_PER_SECOND as int
        };
        if exact > i64::MAX {
            i64::MAX as int
        } else {
            exact
        }
    }
}

/// The frames accepted from the first `n` frames of the listing, in order.
pub open spec fn accepted_frames(listing: Seq<JsonView>, n: int) -> Seq<FrameView>
    decreases n,
{
    if n <= 0 {
        Seq::empty()
    } else {
        let before = accepted_frames(listing, n - 1);
        let frame = listing[n - 1];
        match frame_size(frame) {
            Some(size) => if size == 0 {
                before
            } else {
                before.push(
                    FrameView {
                        timestamp_us: match frame_time(frame) {
                            Some(time) => time,
                            None => estimated_time(n - 1, before),
                        },
                        size,
                        frame_type: frame.text_of("pict_type"@),
                    },
                )
            },
            None => before,
        }
    }
}

/// The frames that a frame listing describes for stream `stream_index`, or
/// the reason why it describes none.
pub open spec fn frames_of_document(document: JsonView, stream_index: int) -> Result<
    Seq<FrameView>,
    ProbeErrorView,
> {
    let listing = match document.get("frames"@) {
        Some(member) => member.as_array(),
        None => None,
    };
    match listing {
        None => Err(ProbeErrorView::NoFramesArray(stream_index)),
        Some(frames) => if frames.len() == 0 {
            Err(ProbeErrorView::NoFrames(stream_index))
        } else if accepted_frames(frames, frames.len() as int).len() == 0 {
            Err(ProbeErrorView::NoValidFrames(stream_index))
        } else {
            Ok(accepted_frames(frames, frames.len() as int))
        },
    }
}

/// Whether a result is the executable form of a specified result.
pub open spec fn is_probe_result(
    result: Result<Vec<FrameRecord>, ProbeError>,
    expected: Result<Seq<FrameView>, ProbeErrorView>,
) -> bool {
    match result {
        Ok(frames) => expected == Ok::<Seq<FrameView>, ProbeErrorView>(frame_views(frames@)),
        Err(error) => expected == Err::<Seq<FrameView>, ProbeErrorView>(error@),
    }
}

/// The time that the member `key` of a frame gives.
fn read_member_time(frame: &JsonValue, key: &str) -> (time: Option<i64>)
    ensures
        time is Some == member_time(frame@, key@) is Some,
        time is Some ==> time->0 == member_time(frame@, key@)->0,
{
    match frame.text_of(key) {
        Some(text) => parse_micros(&text),
        None => None,
    }
}

/// The time of a frame.
pub fn read_frame_time(frame: &JsonValue) -> (time: Option<i64>)
    ensures
        time is Some == frame_time(frame@) is Some,
        time is Some ==> time->0 == frame_time(frame@)->0,
{
    match read_member_time(frame, "best_effort_timestamp_time") {
        Some(t) => {
            return Some(t);
        },
        None => {},
    }
    match read_member_time(frame, "pkt_pts_time") {
        Some(t) => {
            return Some(t);
        },
        None => {},
    }
    match read_member_time(frame, "pts_time") {
        Some(t) => {
            return Some(t);
        },
        None => {},
    }
    read_member_time(frame, "pkt_dts_time")
}

/// The size of a frame.
pub fn read_frame_size(frame: &JsonValue) -> (size: Option<u64>)
    ensures
        size is Some == frame_size(frame@) is Some,
        size is Some ==> size->0 == frame_size(frame@)->0,
{
    match frame.text_of("pkt_size") {
        Some(text) => match parse_unsigned(&text) {
            Some(size) => {
                return Some(size);
            },
            None => {},
        },
        None => {},
    }
    match frame.get("pkt_size") {
        Some(member) => member.as_u64(),
        None => None,
    }
}

/// Estimated time of the frame at position `index`, given the frames
/// accepted before it.
pub fn estimate_time(index: usize, accepted: &Vec<FrameRecord>) -> (time: i64)
    ensures
        time == estimated_time(index as int, frame_views(accepted@)),
{
    let n = accepted.len();
    if n == 0 {
        return 0;
    }
    let last = accepted[n - 1].timestamp_us;
    assert(frame_views(accepted@).last() == accepted@[n - 1]@);
    let exact: u128 = if n > 1 && last > 0 {
        assert(index as u128 * last as u128 <= usize::MAX * i64::MAX) by (nonlinear_arith)
            requires
                0 <= index <= usize::MAX,
                0 < last <= i64::MAX,
        ;
        assert(usize::MAX * i64::MAX <= u64::MAX * i64::MAX) by (nonlinear_arith)
            requires
                usize::MAX <= u64::MAX,
        ;
        index as u128 * last as u128 / n as u128
    } else {
        index as u128 * 1_000_000u128 / DEFAULT_FRAMES_PER_SECOND as u128
    };
    if exact > i64::MAX as u128 {
        i64::MAX
    } else {
        exact as i64
    }
}

/// Reads the frames of a parsed frame listing of stream `stream_index`.
pub fn parse_frame_document(document: &JsonValue, stream_index: i32) -> (result: Result<
    Vec<FrameRecord>,
    ProbeError,
>)
    ensures
        is_probe_result(result, frames_of_document(document@, stream_index as int)),
{
    let listing = match document.get("frames") {
        Some(member) => match member.as_array() {
            Some(items) => items,
            None => {
                return Err(ProbeError::NoFramesArray(stream_index));
            },
        },
        None => {
            return Err(ProbeError::NoFramesArray(stream_index));
        },
    };
    let ghost views = json_views(listing@);
    if listing.len() == 0 {
        return Err(ProbeError::NoFrames(stream_index));
    }
    let mut frames: Vec<FrameRecord> = Vec::new();
    let mut i: usize = 0;
    assert(frame_views(frames@) =~= Seq::<FrameView>::empty());
    while i < listing.len()
        invariant
            i <= listing.len(),
            views == json_views(listing@),
            frame_views(frames@) == accepted_frames(views, i as int),
        decreases listing.len() - i,
    {
        let frame = &listing[i];
        assert(views[i as int] == frame@);
        let time = read_frame_time(frame);
        let size = read_frame_size(frame);
        let timestamp_us = match time {
            Some(t) => t,
            None => estimate_time(i, &frames),
        };
        match size {
            Some(size) => {
                if size != 0 {
                    let ghost before = frame_views(frames@);
                    let record = FrameRecord {
                        timestamp_us,
                        size,
                        frame_type: frame.string_of("pict_type"),
                    };
                    let ghost view = record@;
                    frames.push(record);
                    assert(frame_views(frames@) =~= before.push(view));
                }
            },
            None => {},
        }
        i += 1;
    }
    if frames.len() == 0 {
        return Err(ProbeError::NoValidFrames(stream_index));
    }
    Ok(frames)
}

/// Whether a result is the error `expected`.
pub open spec fn fails_with(result: Result<Vec<FrameRecord>, ProbeError>, expected: ProbeErrorView) -> bool {
    is_probe_result(result, Err(expected))
}

/// Whether a result is the error that reports a parser's message.
pub open spec fn fails_with_json_error(result: Result<Vec<FrameRecord>, ProbeError>) -> bool {
    match result {
        Err(ProbeError::Json(_)) => true,
        _ => false,
    }
}

/// Reads the output of a frame-mode probe of stream `stream_index`.
///
/// Blank output and output that is not a JSON document are errors; the
/// message of the latter is the parser's.
pub fn parse_frame_output(output: &str, stream_index: i32) -> (result: Result<
    Vec<FrameRecord>,
    ProbeError,
>)
    ensures
        is_blank(output@) ==> fails_with(result, ProbeErrorView::EmptyOutput(stream_index as int)),
        !is_blank(output@) && json_document(output@) is None ==> fails_with_json_error(result),
        !is_blank(output@) && json_document(output@) is Some ==> is_probe_result(
            result,
            frames_of_document(json_document(output@)->0, stream_index as int),
        ),
{
    let chars = to_chars(output);
    if chars_are_blank(&chars) {
        return Err(ProbeError::EmptyOutput(stream_index));
    }
    match parse_json(output) {
        Ok(document) => parse_frame_document(&document, stream_index),
        Err(message) => Err(ProbeError::Json(message)),
    }
}

/// What a finished packet-mode probe amounts to: the diagnostics if the
/// tool reported failure, an error if the listing holds no packet, and the
/// packets otherwise.
pub open spec fn packet_probe_outcome(
    success: bool,
    output: Seq<char>,
    diagnostics: Seq<char>,
    stream_index: int,
) -> Result<Seq<FrameView>, ProbeErrorView> {
    if !success {
        Err(ProbeErrorView::NonZeroExit(diagnostics))
    } else if packets_of(output).len() == 0 {
        Err(ProbeErrorView::NoPackets(stream_index))
    } else {
        Ok(packets_of(output))
    }
}

/// Evaluates a finished packet-mode probe of stream `stream_index` from its
/// exit status, its output and its diagnostics.
pub fn parse_ffprobe_packets(success: bool, output: &str, diagnostics: &str, stream_index: i32) -> (
    result: Result<Vec<FrameRecord>, ProbeError>)
    ensures
        is_probe_result(
            result,
            packet_probe_outcome(success, output@, diagnostics@, stream_index as int),
        ),
{
    if !success {
        return Err(ProbeError::NonZeroExit(String::from_str(diagnostics)));
    }
    let packets = parse_packet_output(output);
    if packets.len() == 0 {
        return Err(ProbeError::NoPackets(stream_index));
    }
    Ok(packets)
}

/// Evaluates a finished frame-mode probe of stream `stream_index` from its
/// exit status, its output and its diagnostics.
pub fn parse_ffprobe_frames(success: bool, output: &str, diagnostics: &str, stream_index: i32) -> (
    result: Result<Vec<FrameRecord>, ProbeError>)
    ensures
        !success ==> fails_with(result, ProbeErrorView::NonZeroExit(diagnostics@)),
        success && is_blank(output@) ==> fails_with(
            result,
            ProbeErrorView::EmptyOutput(stream_index as int),
        ),
        success && !is_blank(output@) && json_document(output@) is None ==> fails_with_json_error(
            result,
        ),
        success && !is_blank(output@) && json_document(output@) is Some ==> is_probe_result(
            result,
            frames_of_document(json_document(output@)->0, stream_index as int),
        ),
{
    if !success {
        return Err(ProbeError::NonZeroExit(String::from_str(diagnostics)));
    }
    parse_frame_output(output, stream_index)
}

/// The mode in which a stream is probed first.
pub fn first_probe_mode(prefer_accuracy: bool) -> (mode: ProbeMode)
    ensures
        mode == if prefer_accuracy {
            ProbeMode::Frames
        } else {
            ProbeMode::Packets
        },
{
    if prefer_accuracy {
        ProbeMode::Frames
    } else {
        ProbeMode::Packets
    }
}

/// What follows a packet-mode probe when the mode was not pinned.
#[derive(Debug)]
pub enum AutoStep {
    /// The packets are the result.
    Accept(Vec<FrameRecord>),
    /// The stream has to be probed again in frame mode.
    RetryWithFrames,
}

/// Decides what follows a packet-mode probe: its packets are accepted if it
/// succeeded with at least one packet; after an error, or without packets,
/// the stream is probed again in frame mode.
pub fn after_packet_probe(result: Result<Vec<FrameRecord>, ProbeError>) -> (step: AutoStep)
    ensures
        match result {
            Ok(packets) => if packets@.len() > 0 {
                step == AutoStep::Accept(packets)
            } else {
                step is RetryWithFrames
            },
            Err(_) => step is RetryWithFrames,
        },
{
    match result {
        Ok(packets) => {
            if packets.len() > 0 {
                AutoStep::Accept(packets)
            } else {
                AutoStep::RetryWithFrames
            }
        },
        Err(_) => AutoStep::RetryWithFrames,
    }
}

} // verus!
