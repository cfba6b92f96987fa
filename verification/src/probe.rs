//! Invocation of the probe tool: argument lists, deadlines, and the errors
//! that a probe can end in.

use crate::text::{
    append_text, from_chars, push_decimal, push_signed_decimal, decimal_text, signed_decimal_text,
};
use vstd::prelude::*;

verus! {

/// Deadline of a packet-mode probe in seconds.
pub const PACKET_PROBE_TIMEOUT_SECS: u64 = 180;

/// Deadline of a frame-mode probe in seconds.
pub const FRAME_PROBE_TIMEOUT_SECS: u64 = 300;

/// Pause between two polls of a packet-mode probe in milliseconds.
pub const PACKET_POLL_INTERVAL_MS: u64 = 50;

/// Pause between two polls of a frame-mode probe in milliseconds.
pub const FRAME_POLL_INTERVAL_MS: u64 = 100;

/// The two ways of listing a stream.
#[derive(Debug, Clone, Copy, PartialEq, Eq, Structural)]
pub enum ProbeMode {
    /// Container packets, without decoding.
    Packets,
    /// Decoded frames with picture types.
    Frames,
}

/// The kinds of failure that an analysis can end in.
#[derive(Debug, Clone, Copy, PartialEq, Eq, Structural)]
pub enum ErrorKind {
    /// A path does not exist, or a file has no stream with the index asked for.
    NotFound,
    /// The probe or mux tool cannot be found.
    ToolMissing,
    /// The tool could not be started.
    Spawn,
    /// The tool ran past its deadline and was killed.
    Timeout,
    /// The tool exited with a failure status.
    NonZeroExit,
    /// The output of the tool is not of the expected shape.
    Parse,
    /// A cancel request was seen at a checkpoint.
    Cancelled,
    /// The file already has a job.
    AlreadyQueued,
    /// Any other failure of the file system or of a pipe.
    Io,
}

/// Why a probe did not yield frames.
#[derive(Debug)]
pub enum ProbeError {
    /// The tool could not be started.
    Spawn(String),
    /// The tool ran past its deadline, given in seconds, and was killed.
    Timeout(u64),
    /// Waiting for the tool failed.
    Wait(String),
    /// The output of the tool could not be collected.
    Join,
    /// The tool exited with a failure status; its diagnostics are attached.
    NonZeroExit(String),
    /// The packet listing of the stream holds no packet.
    NoPackets(i32),
    /// The tool printed nothing for the stream.
    EmptyOutput(i32),
    /// The frame listing is not a JSON document.
    Json(String),
    /// The frame listing of the stream has no array of frames.
    NoFramesArray(i32),
    /// The array of frames of the stream is empty.
    NoFrames(i32),
    /// No frame of the stream has a size.
    NoValidFrames(i32),
}

/// Mathematical value of a [`ProbeError`].
pub enum ProbeErrorView {
    Spawn(Seq<char>),
    Timeout(nat),
    Wait(Seq<char>),
    Join,
    NonZeroExit(Seq<char>),
    NoPackets(int),
    EmptyOutput(int),
    Json(Seq<char>),
    NoFramesArray(int),
    NoFrames(int),
    NoValidFrames(int),
}

impl View for ProbeError {
    type V = ProbeErrorView;

    open spec fn view(&self) -> ProbeErrorView {
        match self {
            ProbeError::Spawn(m) => ProbeErrorView::Spawn(m@),
            ProbeError::Timeout(s) => ProbeErrorView::Timeout(*s as nat),
            ProbeError::Wait(m) => ProbeErrorView::Wait(m@),
            ProbeError::Join => ProbeErrorView::Join,
            ProbeError::NonZeroExit(m) => ProbeErrorView::NonZeroExit(m@),
            ProbeError::NoPackets(i) => ProbeErrorView::NoPackets(*i as int),
            ProbeError::EmptyOutput(i) => ProbeErrorView::EmptyOutput(*i as int),
            ProbeError::Json(m) => ProbeErrorView::Json(m@),
            ProbeError::NoFramesArray(i) => ProbeErrorView::NoFramesArray(*i as int),
            ProbeError::NoFrames(i) => ProbeErrorView::NoFrames(*i as int),
            ProbeError::NoValidFrames(i) => ProbeErrorView::NoValidFrames(*i as int),
        }
    }
}

/// The message that describes an error to the user.
pub open spec fn error_text(error: ProbeErrorView) -> Seq<char> {
    match error {
        ProbeErrorView::Spawn(m) => "Failed to spawn ffprobe: "@ + m,
        ProbeErrorView::Timeout(s) => "ffprobe timed out after "@ + decimal_text(s) + " seconds"@,
        ProbeErrorView::Wait(m) => "Failed to wait for ffprobe: "@ + m,
        ProbeErrorView::Join => "Failed to join stdout thread"@,
        ProbeErrorView::NonZeroExit(m) => "ffprobe failed: "@ + m,
        ProbeErrorView::NoPackets(i) => "No packets found for stream "@ + signed_decimal_text(i),
        ProbeErrorView::EmptyOutput(i) => "ffprobe returned empty output for stream "@
            + signed_decimal_text(i),
        ProbeErrorView::Json(m) => "Failed to parse JSON: "@ + m,
        ProbeErrorView::NoFramesArray(i) => "No frames array found in ffprobe output for stream "@
            + signed_decimal_text(i),
        ProbeErrorView::NoFrames(i) => "No frames found for stream "@ + signed_decimal_text(i),
        ProbeErrorView::NoValidFrames(i) => "All frames had invalid data for stream "@
            + signed_decimal_text(i),
    }
}

/// The kind of a probe error.
pub open spec fn probe_error_kind(error: ProbeErrorView) -> ErrorKind {
    match error {
        ProbeErrorView::Spawn(_) => ErrorKind::Spawn,
        ProbeErrorView::Timeout(_) => ErrorKind::Timeout,
        ProbeErrorView::Wait(_) => ErrorKind::Io,
        ProbeErrorView::Join => ErrorKind::Io,
        ProbeErrorView::NonZeroExit(_) => ErrorKind::NonZeroExit,
        _ => ErrorKind::Parse,
    }
}

impl ProbeError {
    /// The kind of this error.
    pub fn kind(&self) -> (kind: ErrorKind)
        ensures
            kind == probe_error_kind(self@),
    {
        match self {
            ProbeError::Spawn(_) => ErrorKind::Spawn,
            ProbeError::Timeout(_) => ErrorKind::Timeout,
            ProbeError::Wait(_) => ErrorKind::Io,
            ProbeError::Join => ErrorKind::Io,
            ProbeError::NonZeroExit(_) => ErrorKind::NonZeroExit,
            _ => ErrorKind::Parse,
        }
    }

    /// The message that describes this error to the user.
    pub fn message(&self) -> (text: String)
        ensures
            text@ == error_text(self@),
    {
        let mut out: Vec<char> = Vec::new();
        match self {
            ProbeError::Spawn(m) => {
                append_text(&mut out, "Failed to spawn ffprobe: ");
                append_text(&mut out, m.as_str());
            },
            ProbeError::Timeout(s) => {
                append_text(&mut out, "ffprobe timed out after ");
                push_decimal(&mut out, *s);
                append_text(&mut out, " seconds");
            },
            ProbeError::Wait(m) => {
                append_text(&mut out, "Failed to wait for ffprobe: ");
                append_text(&mut out, m.as_str());
            },
            ProbeError::Join => {
                append_text(&mut out, "Failed to join stdout thread");
            },
            ProbeError::NonZeroExit(m) => {
                append_text(&mut out, "ffprobe failed: ");
                append_text(&mut out, m.as_str());
            },
            ProbeError::NoPackets(i) => {
                append_text(&mut out, "No packets found for stream ");
                push_signed_decimal(&mut out, *i as i64);
            },
            ProbeError::EmptyOutput(i) => {
                append_text(&mut out, "ffprobe returned empty output for stream ");
                push_signed_decimal(&mut out, *i as i64);
            },
            ProbeError::Json(m) => {
                append_text(&mut out, "Failed to parse JSON: ");
                append_text(&mut out, m.as_str());
            },
            ProbeError::NoFramesArray(i) => {
                append_text(&mut out, "No frames array found in ffprobe output for stream ");
                push_signed_decimal(&mut out, *i as i64);
            },
            ProbeError::NoFrames(i) => {
                append_text(&mut out, "No frames found for stream ");
                push_signed_decimal(&mut out, *i as i64);
            },
            ProbeError::NoValidFrames(i) => {
                append_text(&mut out, "All frames had invalid data for stream ");
                push_signed_decimal(&mut out, *i as i64);
            },
        }
        assert(out@ =~= error_text(self@));
        from_chars(&out)
    }
}

/// Deadline of a probe in the given mode, in seconds.
pub open spec fn timeout_secs_of(mode: ProbeMode) -> nat {
    match mode {
        ProbeMode::Packets => PACKET_PROBE_TIMEOUT_SECS as nat,
        ProbeMode::Frames => FRAME_PROBE_TIMEOUT_SECS as nat,
    }
}

/// Pause between two polls of a probe in the given mode, in milliseconds.
pub open spec fn poll_interval_ms_of(mode: ProbeMode) -> nat {
    match mode {
        ProbeMode::Packets => PACKET_POLL_INTERVAL_MS as nat,
        ProbeMode::Frames => FRAME_POLL_INTERVAL_MS as nat,
    }
}

/// Deadline of a probe in the given mode, in seconds.
pub fn probe_timeout_secs(mode: ProbeMode) -> (secs: u64)
    ensures
        secs == timeout_secs_of(mode),
{
    match mode {
        ProbeMode::Packets => PACKET_PROBE_TIMEOUT_SECS,
        ProbeMode::Frames => FRAME_PROBE_TIMEOUT_SECS,
    }
}

/// What the last poll of the child process found.
#[derive(Debug)]
pub enum ChildPoll {
    /// The child has exited; the flag says whether it reported success.
    Exited(bool),
    /// The child still runs.
    Running,
    /// The poll itself failed.
    Failed(String),
}

/// What to do with the child process next.
#[derive(Debug)]
pub enum PollAction {
    /// Kill the child and report the error.
    KillAndFail(ProbeError),
    /// Collect the output; the flag says whether the child reported success.
    Collect(bool),
    /// Sleep for this many milliseconds, then poll again.
    SleepMillis(u64),
}

/// Mathematical value of a [`PollAction`].
pub enum PollActionView {
    KillAndFail(ProbeErrorView),
    Collect(bool),
    SleepMillis(nat),
}

impl View for PollAction {
    type V = PollActionView;

    open spec fn view(&self) -> PollActionView {
        match self {
            PollAction::KillAndFail(e) => PollActionView::KillAndFail(e@),
            PollAction::Collect(s) => PollActionView::Collect(*s),
            PollAction::SleepMillis(ms) => PollActionView::SleepMillis(*ms as nat),
        }
    }
}

/// The next step of the wait for a probe.
///
/// A probe that has run for longer than its deadline is killed whatever the
/// poll found. Otherwise a child that has exited is collected, a child that
/// still runs is polled again after the pause of its mode, and a failed poll
/// ends the probe.
pub open spec fn poll_action_of(mode: ProbeMode, elapsed_ms: nat, poll: ChildPoll) -> PollActionView {
    if elapsed_ms > timeout_secs_of(mode) * 1000 {
        PollActionView::KillAndFail(ProbeErrorView::Timeout(timeout_secs_of(mode)))
    } else {
        match poll {
            ChildPoll::Exited(success) => PollActionView::Collect(success),
            ChildPoll::Running => PollActionView::SleepMillis(poll_interval_ms_of(mode)),
            ChildPoll::Failed(reason) => PollActionView::KillAndFail(ProbeErrorView::Wait(reason@)),
        }
    }
}

/// Decides the next step of the wait for a probe, from the time that has
/// passed since it was started and from the last poll.
pub fn next_poll_action(mode: ProbeMode, elapsed_ms: u64, poll: ChildPoll) -> (action: PollAction)
    ensures
        action@ == poll_action_of(mode, elapsed_ms as nat, poll),
{
    let timeout = probe_timeout_secs(mode);
    if elapsed_ms > timeout * 1000 {
        return PollAction::KillAndFail(ProbeError::Timeout(timeout));
    }
    match poll {
        ChildPoll::Exited(success) => PollAction::Collect(success),
        ChildPoll::Running => PollAction::SleepMillis(
            match mode {
                ProbeMode::Packets => PACKET_POLL_INTERVAL_MS,
                ProbeMode::Frames => FRAME_POLL_INTERVAL_MS,
            },
        ),
        ChildPoll::Failed(reason) => PollAction::KillAndFail(ProbeError::Wait(reason)),
    }
}

/// Texts of a sequence of strings, in order.
pub open spec fn string_views(strings: Seq<String>) -> Seq<Seq<char>> {
    strings.map_values(|s: String| s@)
}

/// Argument list of a packet-mode probe of stream `stream_index` of the file
/// at `path`, restricted to `interval` if one is given.
pub open spec fn packet_arguments(
    stream_index: int,
    interval: Option<Seq<char>>,
    path: Seq<char>,
) -> Seq<Seq<char>> {
    seq!["-v"@, "error"@, "-select_streams"@, signed_decimal_text(stream_index)] + (match interval {
        Some(window) => seq!["-read_intervals"@, window],
        None => Seq::empty(),
    }) + seq![
        "-show_packets"@,
        "-show_entries"@,
        "packet=pts_time,dts_time,size,flags"@,
        "-of"@,
        "csv=p=0"@,
        path,
    ]
}

/// Argument list of a frame-mode probe of stream `stream_index` of the file
/// at `path`.
pub open spec fn frame_arguments(stream_index: int, path: Seq<char>) -> Seq<Seq<char>> {
    seq![
        "-v"@,
        "error"@,
        "-select_streams"@,
        signed_decimal_text(stream_index),
        "-show_frames"@,
        "-show_entries"@,
        "frame=best_effort_timestamp_time,pkt_pts_time,pts_time,pkt_dts_time,pkt_size,pict_type"@,
        "-of"@,
        "json"@,
        path,
    ]
}

/// Argument list of the probe that reports the container format and the
/// streams of the file at `path`.
pub open spec fn metadata_arguments(path: Seq<char>) -> Seq<Seq<char>> {
    seq![
        "-v"@,
        "quiet"@,
        "-print_format"@,
        "json"@,
        "-show_format"@,
        "-show_streams"@,
        path,
    ]
}

/// Appends a copy of `text` to an argument list.
pub fn push_argument(arguments: &mut Vec<String>, text: &str)
    ensures
        string_views(final(arguments)@) == string_views(old(arguments)@).push(text@),
{
    arguments.push(String::from_str(text));
    assert(string_views(arguments@) =~= string_views(old(arguments)@).push(text@));
}

/// Decimal notation of a stream index.
pub fn stream_index_text(stream_index: i32) -> (text: String)
    ensures
        text@ == signed_decimal_text(stream_index as int),
{
    let mut chars: Vec<char> = Vec::new();
    push_signed_decimal(&mut chars, stream_index as i64);
    assert(chars@ =~= signed_decimal_text(stream_index as int));
    from_chars(&chars)
}

/// Argument list of a packet-mode probe.
pub fn packet_probe_arguments(stream_index: i32, read_interval: Option<&str>, path: &str) -> (
    arguments: Vec<String>)
    ensures
        string_views(arguments@) == packet_arguments(
            stream_index as int,
            match read_interval {
                Some(window) => Some(window@),
                None => None,
            },
            path@,
        ),
{
    let mut arguments: Vec<String> = Vec::new();
    assert(string_views(arguments@) =~= Seq::<Seq<char>>::empty());
    push_argument(&mut arguments, "-v");
    push_argument(&mut arguments, "error");
    push_argument(&mut arguments, "-select_streams");
    let index = stream_index_text(stream_index);
    push_argument(&mut arguments, index.as_str());
    match read_interval {
        Some(window) => {
            push_argument(&mut arguments, "-read_intervals");
            push_argument(&mut arguments, window);
        },
        None => {},
    }
    push_argument(&mut arguments, "-show_packets");
    push_argument(&mut arguments, "-show_entries");
    push_argument(&mut arguments, "packet=pts_time,dts_time,size,flags");
    push_argument(&mut arguments, "-of");
    push_argument(&mut arguments, "csv=p=0");
    push_argument(&mut arguments, path);
    assert(string_views(arguments@) =~= packet_arguments(
        stream_index as int,
        match read_interval {
            Some(window) => Some(window@),
            None => None,
        },
        path@,
    ));
    arguments
}

/// Argument list of a frame-mode probe.
pub fn frame_probe_arguments(stream_index: i32, path: &str) -> (arguments: Vec<String>)
    ensures
        string_views(arguments@) == frame_arguments(stream_index as int, path@),
{
    let mut arguments: Vec<String> = Vec::new();
    assert(string_views(arguments@) =~= Seq::<Seq<char>>::empty());
    push_argument(&mut arguments, "-v");
    push_argument(&mut arguments, "error");
    push_argument(&mut arguments, "-select_streams");
    let index = stream_index_text(stream_index);
    push_argument(&mut arguments, index.as_str());
    push_argument(&mut arguments, "-show_frames");
    push_argument(&mut arguments, "-show_entries");
    push_argument(
        &mut arguments,
        "frame=best_effort_timestamp_time,pkt_pts_time,pts_time,pkt_dts_time,pkt_size,pict_type",
    );
    push_argument(&mut arguments, "-of");
    push_argument(&mut arguments, "json");
    push_argument(&mut arguments, path);
    assert(string_views(arguments@) =~= frame_arguments(stream_index as int, path@));
    arguments
}

/// Argument list of the metadata probe.
pub fn metadata_probe_arguments(path: &str) -> (arguments: Vec<String>)
    ensures
        string_views(arguments@) == metadata_arguments(path@),
{
    let mut arguments: Vec<String> = Vec::new();
    assert(string_views(arguments@) =~= Seq::<Seq<char>>::empty());
    push_argument(&mut arguments, "-v");
    push_argument(&mut arguments, "quiet");
    push_argument(&mut arguments, "-print_format");
    push_argument(&mut arguments, "json");
    push_argument(&mut arguments, "-show_format");
    push_argument(&mut arguments, "-show_streams");
    push_argument(&mut arguments, path);
    assert(string_views(arguments@) =~= metadata_arguments(path@));
    arguments
}

/// How a run of the probe tool ended.
#[derive(Debug)]
pub enum ToolRun {
    /// The tool could not be started.
    NotStarted { reason: String },
    /// The tool ran to its end.
    Finished { success: bool, output: String, diagnostics: String },
}

/// The message for a run that gives no answer; `None` for a run that does.
pub open spec fn run_failure(run: ToolRun) -> Option<Seq<char>> {
    match run {
        ToolRun::NotStarted { reason } => Some("Failed to run ffprobe: "@ + reason@),
        ToolRun::Finished { success, output, diagnostics } => if success {
            None
        } else {
            Some("ffprobe failed: "@ + diagnostics@)
        },
    }
}

/// The message for a run that could not be started.
pub fn start_failure(reason: &str) -> (message: String)
    ensures
        message@ == "Failed to run ffprobe: "@ + reason@,
{
    let mut message = String::from_str("Failed to run ffprobe: ");
    message.append(reason);
    message
}

/// The message for a run that reported failure.
pub fn exit_failure(diagnostics: &str) -> (message: String)
    ensures
        message@ == "ffprobe failed: "@ + diagnostics@,
{
    let mut message = String::from_str("ffprobe failed: ");
    message.append(diagnostics);
    message
}

} // verus!
