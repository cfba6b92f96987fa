//! The two analysis workflows, as far as they compute: selection of the
//! streams to analyse, combination of the byte totals of several streams,
//! and assembly of the results.

use crate::aggregate::{
    aggregate_bitrate_intervals, bitrate_from_bytes, bitrate_of, bucket_byte_totals, bucket_bytes,
    count_intervals, frame_views, interval_count, is_bucket_point, point_views, total_bytes,
    total_frame_bytes, BitrateDataPoint, DataPointView, FrameRecord, FrameView,
};
use crate::probe::{error_text, probe_error_kind, ErrorKind, ProbeError, ProbeErrorView};
use crate::statistics::{calculate_statistics, statistics_of, BitrateStatistics};
use crate::streams::{copy_text, stream_views, text_view, StreamInfo, StreamType, StreamView};
use vstd::prelude::*;

verus! {

/// Parts of a whole in which shares are counted.
pub const SHARE_SCALE: u64 = 1_000_000;

/// Why an analysis produced no result.
#[derive(Debug)]
pub enum AnalysisError {
    /// A job for the file is already queued or running; its identifier is attached.
    AlreadyQueued(String),
    /// A cancel request was seen at a checkpoint.
    Cancelled,
    /// The file has no stream with the requested index.
    StreamNotFound,
    /// The metadata of the file declares no duration.
    NoDuration,
    /// No stream of the file could be analysed.
    NoStreamsAnalyzed,
    /// The probe of the stream failed.
    Probe(ProbeError),
}

/// Mathematical value of an [`AnalysisError`].
pub enum AnalysisErrorView {
    AlreadyQueued(Seq<char>),
    Cancelled,
    StreamNotFound,
    NoDuration,
    NoStreamsAnalyzed,
    Probe(ProbeErrorView),
}

impl View for AnalysisError {
    type V = AnalysisErrorView;

    open spec fn view(&self) -> AnalysisErrorView {
        match self {
            AnalysisError::AlreadyQueued(id) => AnalysisErrorView::AlreadyQueued(id@),
            AnalysisError::Cancelled => AnalysisErrorView::Cancelled,
            AnalysisError::StreamNotFound => AnalysisErrorView::StreamNotFound,
            AnalysisError::NoDuration => AnalysisErrorView::NoDuration,
            AnalysisError::NoStreamsAnalyzed => AnalysisErrorView::NoStreamsAnalyzed,
            AnalysisError::Probe(error) => AnalysisErrorView::Probe(error@),
        }
    }
}

/// The message that describes an error to the user.
pub open spec fn analysis_error_text(error: AnalysisErrorView) -> Seq<char> {
    match error {
        AnalysisErrorView::AlreadyQueued(id) =>
            "Analysis already queued or in progress for this file (job "@ + id + ")"@,
        AnalysisErrorView::Cancelled => "Analysis cancelled"@,
        AnalysisErrorView::StreamNotFound => "Stream not found"@,
        AnalysisErrorView::NoDuration => "Could not determine duration"@,
        AnalysisErrorView::NoStreamsAnalyzed => "Failed to analyze any streams in the file"@,
        AnalysisErrorView::Probe(error) => error_text(error),
    }
}

/// The kind of an analysis error.
pub open spec fn analysis_error_kind(error: AnalysisErrorView) -> ErrorKind {
    match error {
        AnalysisErrorView::AlreadyQueued(_) => ErrorKind::AlreadyQueued,
        AnalysisErrorView::Cancelled => ErrorKind::Cancelled,
        AnalysisErrorView::StreamNotFound => ErrorKind::NotFound,
        AnalysisErrorView::NoDuration => ErrorKind::Parse,
        AnalysisErrorView::NoStreamsAnalyzed => ErrorKind::Parse,
        AnalysisErrorView::Probe(error) => probe_error_kind(error),
    }
}

impl AnalysisError {
    /// The kind of this error.
    pub fn kind(&self) -> (kind: ErrorKind)
        ensures
            kind == analysis_error_kind(self@),
    {
        match self {
            AnalysisError::AlreadyQueued(_) => ErrorKind::AlreadyQueued,
            AnalysisError::Cancelled => ErrorKind::Cancelled,
            AnalysisError::StreamNotFound => ErrorKind::NotFound,
            AnalysisError::NoDuration => ErrorKind::Parse,
            AnalysisError::NoStreamsAnalyzed => ErrorKind::Parse,
            AnalysisError::Probe(error) => error.kind(),
        }
    }

    /// The message that describes this error to the user.
    pub fn message(&self) -> (text: String)
        ensures
            text@ == analysis_error_text(self@),
    {
        match self {
            AnalysisError::AlreadyQueued(id) => {
                let mut text = String::from_str(
                    "Analysis already queued or in progress for this file (job ",
                );
                text.append(id.as_str());
                text.append(")");
                text
            },
            AnalysisError::Cancelled => String::from_str("Analysis cancelled"),
            AnalysisError::StreamNotFound => String::from_str("Stream not found"),
            AnalysisError::NoDuration => String::from_str("Could not determine duration"),
            AnalysisError::NoStreamsAnalyzed => String::from_str(
                "Failed to analyze any streams in the file",
            ),
            AnalysisError::Probe(error) => error.message(),
        }
    }
}

/// A checkpoint of a running analysis: a job whose cancel flag is raised
/// goes no further.
pub fn checkpoint(cancelled: bool) -> (passed: Result<(), AnalysisError>)
    ensures
        cancelled ==> passed is Err && passed->Err_0 is Cancelled,
        !cancelled ==> passed is Ok,
{
    if cancelled {
        Err(AnalysisError::Cancelled)
    } else {
        Ok(())
    }
}

/// What an enqueue request means for the analysis that asked for it: the
/// analysis goes ahead under the identifier of the new job, or is refused
/// because the file already has a job.
pub fn admitted_job(outcome: crate::jobs::JobStartResult) -> (admitted: Result<String, AnalysisError>)
    ensures
        match outcome {
            crate::jobs::JobStartResult::Started(id) => admitted == Ok::<String, AnalysisError>(id),
            crate::jobs::JobStartResult::Queued(id) => admitted == Ok::<String, AnalysisError>(id),
            crate::jobs::JobStartResult::AlreadyExists(id) => admitted == Err::<
                String,
                AnalysisError,
            >(AnalysisError::AlreadyQueued(id)),
        },
{
    match outcome {
        crate::jobs::JobStartResult::Started(id) => Ok(id),
        crate::jobs::JobStartResult::Queued(id) => Ok(id),
        crate::jobs::JobStartResult::AlreadyExists(id) => Err(AnalysisError::AlreadyQueued(id)),
    }
}

/// Byte totals of one stream per interval.
#[derive(Debug)]
pub struct StreamBuckets {
    pub stream_index: i32,
    pub stream_type: StreamType,
    pub codec_name: Option<String>,
    /// Bytes of the stream in each interval, in time order.
    pub intervals: Vec<u64>,
}

/// Share of one stream in the combined bitrate.
#[derive(Debug)]
pub struct StreamContribution {
    pub stream_index: i32,
    pub stream_type: StreamType,
    /// Codec of the stream; empty if it is not known.
    pub codec_name: String,
    /// Bytes of the stream over all intervals.
    pub total_bytes: u64,
    /// Bytes of the stream in parts per million of the bytes of all
    /// streams, rounded down; zero if all streams together have no bytes.
    pub share_ppm: u64,
    pub data_points: Vec<BitrateDataPoint>,
}

/// Bitrate analysis of one stream.
#[derive(Debug)]
pub struct BitrateAnalysis {
    pub path: String,
    pub stream_index: i32,
    pub stream_type: StreamType,
    pub duration_us: u64,
    pub data_points: Vec<BitrateDataPoint>,
    pub statistics: BitrateStatistics,
}

/// Bitrate analysis of all video and audio streams of a file together.
#[derive(Debug)]
pub struct OverallBitrateAnalysis {
    pub path: String,
    pub duration_us: u64,
    pub data_points: Vec<BitrateDataPoint>,
    pub statistics: BitrateStatistics,
    pub stream_contributions: Vec<StreamContribution>,
    /// Whether the result was taken from a store of earlier results.
    pub from_cache: bool,
}

/// Whether a stream takes part in the analysis of a whole file.
pub open spec fn is_analysed(stream: StreamView) -> bool {
    stream.stream_type == StreamType::Video || stream.stream_type == StreamType::Audio
}

/// The video and audio streams among the first `n` streams, in order.
pub open spec fn analysed_streams(streams: Seq<StreamView>, n: int) -> Seq<StreamView>
    decreases n,
{
    if n <= 0 {
        Seq::empty()
    } else if is_analysed(streams[n - 1]) {
        analysed_streams(streams, n - 1).push(streams[n - 1])
    } else {
        analysed_streams(streams, n - 1)
    }
}

/// Position of the first stream with index `index` at or behind `from`, or
/// the number of streams if there is none.
pub open spec fn stream_position(streams: Seq<StreamView>, index: i32, from: int) -> int
    decreases streams.len() - from,
{
    if from >= streams.len() {
        streams.len() as int
    } else if from >= 0 && streams[from].index == index {
        from
    } else {
        stream_position(streams, index, from + 1)
    }
}

/// The video and audio streams of a file, in order.
pub fn select_analysis_streams(streams: &Vec<StreamInfo>) -> (selected: Vec<StreamInfo>)
    ensures
        stream_views(selected@) == analysed_streams(stream_views(streams@), streams@.len() as int),
{
    let ghost views = stream_views(streams@);
    let mut selected: Vec<StreamInfo> = Vec::new();
    let mut i: usize = 0;
    assert(stream_views(selected@) =~= Seq::<StreamView>::empty());
    while i < streams.len()
        invariant
            i <= streams.len(),
            views == stream_views(streams@),
            stream_views(selected@) == analysed_streams(views, i as int),
        decreases streams.len() - i,
    {
        let stream = &streams[i];
        assert(views[i as int] == stream@);
        let wanted = match stream.stream_type {
            StreamType::Video => true,
            StreamType::Audio => true,
            _ => false,
        };
        if wanted {
            let ghost before = stream_views(selected@);
            selected.push(stream.clone());
            assert(stream_views(selected@) =~= before.push(stream@));
        }
        i += 1;
    }
    selected
}

/// The first stream with index `stream_index`.
pub fn find_stream(streams: &Vec<StreamInfo>, stream_index: i32) -> (found: Result<
    &StreamInfo,
    AnalysisError,
>)
    ensures
        match found {
            Ok(stream) => stream_position(stream_views(streams@), stream_index, 0) < streams@.len()
                && *stream == streams@[stream_position(stream_views(streams@), stream_index, 0)],
            Err(error) => error is StreamNotFound && stream_position(
                stream_views(streams@),
                stream_index,
                0,
            ) == streams@.len(),
        },
{
    let ghost views = stream_views(streams@);
    let mut i: usize = 0;
    while i < streams.len()
        invariant
            i <= streams.len(),
            views == stream_views(streams@),
            stream_position(views, stream_index, 0) == stream_position(
                views,
                stream_index,
                i as int,
            ),
        decreases streams.len() - i,
    {
        assert(views[i as int] == streams@[i as int]@);
        if streams[i].index == stream_index {
            return Ok(&streams[i]);
        }
        i += 1;
    }
    Err(AnalysisError::StreamNotFound)
}

/// The duration of a file for the analysis: the declared duration, where a
/// negative one counts as zero. A file that declares none cannot be analysed.
pub fn analysis_duration(declared_us: Option<i64>) -> (duration: Result<u64, AnalysisError>)
    ensures
        match declared_us {
            Some(d) => duration == Ok::<u64, AnalysisError>(
                if d < 0 {
                    0u64
                } else {
                    d as u64
                },
            ),
            None => duration is Err && duration->Err_0 is NoDuration,
        },
{
    match declared_us {
        Some(d) => Ok(
            if d < 0 {
                0
            } else {
                d as u64
            },
        ),
        None => Err(AnalysisError::NoDuration),
    }
}

/// Assembles the analysis of one stream from its frames.
pub fn assemble_stream_analysis(
    path: String,
    stream: &StreamInfo,
    duration_us: u64,
    frames: Vec<FrameRecord>,
    interval_us: u64,
) -> (analysis: BitrateAnalysis)
    requires
        interval_us > 0,
        interval_count(duration_us as nat, interval_us as nat) <= usize::MAX,
        total_bytes(frame_views(frames@)) <= u64::MAX,
    ensures
        analysis.path@ == path@,
        analysis.stream_index == stream.index,
        analysis.stream_type == stream.stream_type,
        analysis.duration_us == duration_us,
        frames@.len() == 0 ==> analysis.data_points@.len() == 0,
        frames@.len() > 0 ==> analysis.data_points@.len() == interval_count(
            duration_us as nat,
            interval_us as nat,
        ),
        forall|b: int|
            0 <= b < analysis.data_points@.len() ==> is_bucket_point(
                (#[trigger] analysis.data_points@[b])@,
                frame_views(frames@),
                interval_us as nat,
                b,
            ),
        analysis.statistics@ == statistics_of(point_views(analysis.data_points@)),
{
    let data_points = aggregate_bitrate_intervals(frames, interval_us, duration_us);
    let statistics = calculate_statistics(&data_points);
    BitrateAnalysis {
        path,
        stream_index: stream.index,
        stream_type: stream.stream_type,
        duration_us,
        data_points,
        statistics,
    }
}

/// The byte totals of a sequence of streams, one row per stream.
pub open spec fn bucket_rows(results: Seq<StreamBuckets>) -> Seq<Seq<u64>> {
    results.map_values(|r: StreamBuckets| r.intervals@)
}

/// Sum of the first `n` values of a row.
pub open spec fn row_total(row: Seq<u64>, n: int) -> nat
    decreases n,
{
    if n <= 0 {
        0
    } else {
        row_total(row, n - 1) + row[n - 1] as nat
    }
}

/// Sum of column `column` over the first `count` rows.
pub open spec fn column_total(rows: Seq<Seq<u64>>, column: int, count: int) -> nat
    decreases count,
{
    if count <= 0 {
        0
    } else {
        column_total(rows, column, count - 1) + rows[count - 1][column] as nat
    }
}

/// Sum of all values of the first `count` rows.
pub open spec fn grand_total(rows: Seq<Seq<u64>>, count: int) -> nat
    decreases count,
{
    if count <= 0 {
        0
    } else {
        grand_total(rows, count - 1) + row_total(rows[count - 1], rows[count - 1].len() as int)
    }
}

/// Whether every row has `width` values.
pub open spec fn rows_have_width(rows: Seq<Seq<u64>>, width: int) -> bool {
    forall|r: int| 0 <= r < rows.len() ==> (#[trigger] rows[r]).len() == width
}

/// `part` in parts per million of `whole`, rounded down; zero if `whole` is zero.
pub open spec fn share_of(part: nat, whole: nat) -> nat {
    if whole == 0 {
        0
    } else {
        part * SHARE_SCALE as nat / whole
    }
}

/// Whether `point` is the data point of interval `index` with `bytes` bytes.
pub open spec fn is_total_point(point: DataPointView, bytes: nat, interval: nat, index: int) -> bool {
    &&& point.timestamp_us == index * interval
    &&& point.bitrate == bitrate_of(bytes, interval)
    &&& point.frame_type is None
}

/// A value of a row is at most the total of the row.
proof fn lemma_row_value_bounded(row: Seq<u64>, n: int, at: int)
    requires
        0 <= at < n <= row.len(),
    ensures
        row[at] <= row_total(row, n),
    decreases n,
{
    if at < n - 1 {
        lemma_row_value_bounded(row, n - 1, at);
    }
}

/// The total of a column is at most the total of all values.
proof fn lemma_column_bounded(rows: Seq<Seq<u64>>, width: int, column: int, count: int)
    requires
        0 <= count <= rows.len(),
        0 <= column < width,
        rows_have_width(rows, width),
    ensures
        column_total(rows, column, count) <= grand_total(rows, count),
    decreases count,
{
    if count > 0 {
        lemma_column_bounded(rows, width, column, count - 1);
        assert(rows[count - 1].len() == width);
        lemma_row_value_bounded(rows[count - 1], rows[count - 1].len() as int, column);
    }
}

/// The total of all values grows with the number of rows.
proof fn lemma_grand_total_monotone(rows: Seq<Seq<u64>>, low: int, high: int)
    requires
        0 <= low <= high <= rows.len(),
    ensures
        grand_total(rows, low) <= grand_total(rows, high),
    decreases high - low,
{
    if low < high {
        lemma_grand_total_monotone(rows, low, high - 1);
    }
}

/// The total of a row grows with the number of values.
proof fn lemma_row_total_monotone(row: Seq<u64>, low: int, high: int)
    requires
        0 <= low <= high <= row.len(),
    ensures
        row_total(row, low) <= row_total(row, high),
    decreases high - low,
{
    if low < high {
        lemma_row_total_monotone(row, low, high - 1);
    }
}

/// Sum of all values of a row.
pub fn sum_row(row: &Vec<u64>) -> (total: u64)
    requires
        row_total(row@, row@.len() as int) <= u64::MAX,
    ensures
        total == row_total(row@, row@.len() as int),
{
    let mut total: u64 = 0;
    let mut i: usize = 0;
    while i < row.len()
        invariant
            i <= row.len(),
            total == row_total(row@, i as int),
            row_total(row@, row@.len() as int) <= u64::MAX,
        decreases row.len() - i,
    {
        proof {
            lemma_row_total_monotone(row@, i + 1, row@.len() as int);
        }
        total = total + row[i];
        i += 1;
    }
    total
}

/// Whether the byte totals of all streams together fit in 64 bits.
pub fn totals_fit(results: &Vec<StreamBuckets>) -> (fit: bool)
    ensures
        fit == (grand_total(bucket_rows(results@), results@.len() as int) <= u64::MAX),
{
    let ghost rows = bucket_rows(results@);
    let mut total: u64 = 0;
    let mut r: usize = 0;
    while r < results.len()
        invariant
            r <= results.len(),
            rows == bucket_rows(results@),
            total == grand_total(rows, r as int),
        decreases results.len() - r,
    {
        let row = &results[r].intervals;
        assert(rows[r as int] == row@);
        let mut i: usize = 0;
        let ghost start = total;
        while i < row.len()
            invariant
                i <= row.len(),
                r < results.len(),
                rows == bucket_rows(results@),
                rows[r as int] == row@,
                start == grand_total(rows, r as int),
                total == start + row_total(row@, i as int),
            decreases row.len() - i,
        {
            match total.checked_add(row[i]) {
                Some(next) => {
                    total = next;
                },
                None => {
                    proof {
                        lemma_row_total_monotone(row@, i + 1, row@.len() as int);
                        lemma_grand_total_monotone(rows, r + 1, results@.len() as int);
                    }
                    return false;
                },
            }
            i += 1;
        }
        r += 1;
    }
    true
}

/// Byte totals of all streams together, per interval.
pub fn combine_intervals(results: &Vec<StreamBuckets>, num_intervals: usize) -> (combined: Vec<u64>)
    requires
        rows_have_width(bucket_rows(results@), num_intervals as int),
        grand_total(bucket_rows(results@), results@.len() as int) <= u64::MAX,
    ensures
        combined@.len() == num_intervals,
        forall|c: int|
            0 <= c < num_intervals ==> (#[trigger] combined@[c]) == column_total(
                bucket_rows(results@),
                c,
                results@.len() as int,
            ),
{
    let ghost rows = bucket_rows(results@);
    let mut combined: Vec<u64> = Vec::new();
    let mut c: usize = 0;
    while c < num_intervals
        invariant
            c <= num_intervals,
            combined@.len() == c,
            forall|k: int| 0 <= k < c ==> (#[trigger] combined@[k]) == 0,
        decreases num_intervals - c,
    {
        combined.push(0);
        c += 1;
    }
    let mut r: usize = 0;
    while r < results.len()
        invariant
            r <= results.len(),
            rows == bucket_rows(results@),
            rows_have_width(rows, num_intervals as int),
            grand_total(rows, results@.len() as int) <= u64::MAX,
            combined@.len() == num_intervals,
            forall|k: int|
                0 <= k < num_intervals ==> (#[trigger] combined@[k]) == column_total(
                    rows,
                    k,
                    r as int,
                ),
        decreases results.len() - r,
    {
        let row = &results[r].intervals;
        assert(rows[r as int] == row@);
        let mut i: usize = 0;
        while i < num_intervals
            invariant
                i <= num_intervals,
                r < results.len(),
                rows == bucket_rows(results@),
                rows[r as int] == row@,
                row@.len() == num_intervals,
                rows_have_width(rows, num_intervals as int),
                grand_total(rows, results@.len() as int) <= u64::MAX,
                combined@.len() == num_intervals,
                forall|k: int|
                    0 <= k < i ==> (#[trigger] combined@[k]) == column_total(rows, k, r + 1),
                forall|k: int|
                    i <= k < num_intervals ==> (#[trigger] combined@[k]) == column_total(
                        rows,
                        k,
                        r as int,
                    ),
            decreases num_intervals - i,
        {
            proof {
                lemma_column_bounded(rows, num_intervals as int, i as int, r + 1);
                lemma_grand_total_monotone(rows, r + 1, results@.len() as int);
            }
            let sum = combined[i] + row[i];
            combined.set(i, sum);
            i += 1;
        }
        r += 1;
    }
    combined
}

/// The data points of a series of byte totals, one per interval.
pub fn points_from_totals(totals: &Vec<u64>, interval_us: u64) -> (points: Vec<BitrateDataPoint>)
    requires
        interval_us > 0,
        totals@.len() * interval_us <= u64::MAX,
    ensures
        points@.len() == totals@.len(),
        forall|k: int|
            0 <= k < points@.len() ==> is_total_point(
                (#[trigger] points@[k])@,
                totals@[k] as nat,
                interval_us as nat,
                k,
            ),
{
    let mut points: Vec<BitrateDataPoint> = Vec::new();
    let mut i: usize = 0;
    while i < totals.len()
        invariant
            i <= totals.len(),
            interval_us > 0,
            totals@.len() * interval_us <= u64::MAX,
            points@.len() == i,
            forall|k: int|
                0 <= k < i ==> is_total_point(
                    (#[trigger] points@[k])@,
                    totals@[k] as nat,
                    interval_us as nat,
                    k,
                ),
        decreases totals.len() - i,
    {
        assert(i * interval_us <= totals@.len() * interval_us) by (nonlinear_arith)
            requires
                i <= totals@.len(),
                interval_us > 0,
        ;
        points.push(
            BitrateDataPoint {
                timestamp_us: i as u64 * interval_us,
                bitrate: bitrate_from_bytes(totals[i], interval_us),
                frame_type: None,
            },
        );
        i += 1;
    }
    points
}

/// `part` in parts per million of `whole`.
pub fn share_ppm(part: u64, whole: u64) -> (share: u64)
    requires
        part <= whole,
    ensures
        share == share_of(part as nat, whole as nat),
        share <= SHARE_SCALE,
{
    if whole == 0 {
        return 0;
    }
    let scaled: u128 = part as u128 * 1_000_000u128;
    let share: u128 = scaled / whole as u128;
    assert(share <= 1_000_000) by (nonlinear_arith)
        requires
            share == scaled / whole as u128,
            scaled == part * 1_000_000,
            part <= whole,
            whole > 0,
    ;
    share as u64
}

/// Whether `contribution` describes the stream `result` as one of streams
/// that have `combined_total` bytes together.
pub open spec fn is_contribution_of(
    contribution: StreamContribution,
    result: StreamBuckets,
    combined_total: nat,
    interval: nat,
) -> bool {
    let row = result.intervals@;
    &&& contribution.stream_index == result.stream_index
    &&& contribution.stream_type == result.stream_type
    &&& contribution.codec_name@ == match result.codec_name {
        Some(name) => name@,
        None => Seq::<char>::empty(),
    }
    &&& contribution.total_bytes == row_total(row, row.len() as int)
    &&& contribution.share_ppm == share_of(row_total(row, row.len() as int), combined_total)
    &&& contribution.data_points@.len() == row.len()
    &&& forall|k: int|
        0 <= k < row.len() ==> is_total_point(
            (#[trigger] contribution.data_points@[k])@,
            row[k] as nat,
            interval,
            k,
        )
}

/// One row's total is at most the total of all rows.
proof fn lemma_row_in_grand_total(rows: Seq<Seq<u64>>, count: int, at: int)
    requires
        0 <= at < count <= rows.len(),
    ensures
        row_total(rows[at], rows[at].len() as int) <= grand_total(rows, count),
    decreases count,
{
    if at < count - 1 {
        lemma_row_in_grand_total(rows, count - 1, at);
    }
}

/// Assembles the analysis of a whole file from the byte totals of its
/// streams. A file without an analysed stream has no analysis.
pub fn assemble_overall_analysis(
    path: String,
    duration_us: u64,
    interval_us: u64,
    num_intervals: usize,
    results: Vec<StreamBuckets>,
) -> (analysis: Result<OverallBitrateAnalysis, AnalysisError>)
    requires
        interval_us > 0,
        num_intervals * interval_us <= u64::MAX,
        rows_have_width(bucket_rows(results@), num_intervals as int),
        grand_total(bucket_rows(results@), results@.len() as int) <= u64::MAX,
    ensures
        results@.len() == 0 ==> analysis is Err && analysis->Err_0 is NoStreamsAnalyzed,
        results@.len() > 0 ==> analysis is Ok && ({
            let overall = analysis->Ok_0;
            let rows = bucket_rows(results@);
            let whole = grand_total(rows, results@.len() as int);
            &&& overall.path@ == path@
            &&& overall.duration_us == duration_us
            &&& !overall.from_cache
            &&& overall.data_points@.len() == num_intervals
            &&& forall|c: int|
                0 <= c < num_intervals ==> is_total_point(
                    (#[trigger] overall.data_points@[c])@,
                    column_total(rows, c, results@.len() as int),
                    interval_us as nat,
                    c,
                )
            &&& overall.statistics@ == statistics_of(point_views(overall.data_points@))
            &&& overall.stream_contributions@.len() == results@.len()
            &&& forall|s: int|
                0 <= s < results@.len() ==> is_contribution_of(
                    #[trigger] overall.stream_contributions@[s],
                    results@[s],
                    whole,
                    interval_us as nat,
                )
        }),
{
    if results.len() == 0 {
        return Err(AnalysisError::NoStreamsAnalyzed);
    }
    let ghost rows = bucket_rows(results@);
    let ghost whole = grand_total(rows, results@.len() as int);
    let combined = combine_intervals(&results, num_intervals);
    let data_points = points_from_totals(&combined, interval_us);
    let mut combined_total: u64 = 0;
    let mut r: usize = 0;
    while r < results.len()
        invariant
            r <= results.len(),
            rows == bucket_rows(results@),
            whole == grand_total(rows, results@.len() as int),
            whole <= u64::MAX,
            combined_total == grand_total(rows, r as int),
        decreases results.len() - r,
    {
        proof {
            assert(rows[r as int] == results@[r as int].intervals@);
            lemma_grand_total_monotone(rows, r + 1, results@.len() as int);
        }
        combined_total = combined_total + sum_row(&results[r].intervals);
        r += 1;
    }
    let mut contributions: Vec<StreamContribution> = Vec::new();
    let mut s: usize = 0;
    while s < results.len()
        invariant
            s <= results.len(),
            interval_us > 0,
            num_intervals * interval_us <= u64::MAX,
            rows == bucket_rows(results@),
            rows_have_width(rows, num_intervals as int),
            whole == grand_total(rows, results@.len() as int),
            whole <= u64::MAX,
            combined_total == whole,
            contributions@.len() == s,
            forall|k: int|
                0 <= k < s ==> is_contribution_of(
                    #[trigger] contributions@[k],
                    results@[k],
                    whole,
                    interval_us as nat,
                ),
        decreases results.len() - s,
    {
        let result = &results[s];
        proof {
            assert(rows[s as int] == result.intervals@);
            lemma_row_in_grand_total(rows, results@.len() as int, s as int);
        }
        let total = sum_row(&result.intervals);
        let codec_name = match &result.codec_name {
            Some(name) => name.clone(),
            None => String::new(),
        };
        let contribution = StreamContribution {
            stream_index: result.stream_index,
            stream_type: result.stream_type,
            codec_name,
            total_bytes: total,
            share_ppm: share_ppm(total, combined_total),
            data_points: points_from_totals(&result.intervals, interval_us),
        };
        contributions.push(contribution);
        s += 1;
    }
    let statistics = calculate_statistics(&data_points);
    Ok(
        OverallBitrateAnalysis {
            path,
            duration_us,
            data_points,
            statistics,
            stream_contributions: contributions,
            from_cache: false,
        },
    )
}

/// The number of intervals of an analysis, if the analysis can be carried
/// out: the interval is not empty, and the intervals can be counted and
/// their start times written down in 64 bits.
pub open spec fn planned_intervals(duration: nat, interval: nat) -> Option<nat> {
    if interval > 0 && interval_count(duration, interval) <= usize::MAX && interval_count(
        duration,
        interval,
    ) * interval <= u64::MAX {
        Some(interval_count(duration, interval))
    } else {
        None
    }
}

/// Counts the intervals of an analysis, if the analysis can be carried out.
pub fn plan_intervals(duration_us: u64, interval_us: u64) -> (count: Option<usize>)
    ensures
        count is Some == planned_intervals(duration_us as nat, interval_us as nat) is Some,
        count is Some ==> count->0 == planned_intervals(duration_us as nat, interval_us as nat)->0,
{
    if interval_us == 0 {
        return None;
    }
    let count = count_intervals(duration_us, interval_us);
    if count > usize::MAX as u64 {
        return None;
    }
    match count.checked_mul(interval_us) {
        Some(_) => Some(count as usize),
        None => None,
    }
}

/// Whether `buckets` holds the bytes of `frames` per interval for `stream`.
pub open spec fn is_buckets_of(
    buckets: StreamBuckets,
    stream: StreamInfo,
    frames: Seq<FrameView>,
    interval: nat,
    count: nat,
) -> bool {
    &&& buckets.stream_index == stream.index
    &&& buckets.stream_type == stream.stream_type
    &&& text_view(buckets.codec_name) == text_view(stream.codec_name)
    &&& buckets.intervals@.len() == count
    &&& forall|b: int|
        0 <= b < count ==> (#[trigger] buckets.intervals@[b]) == bucket_bytes(frames, interval, b)
}

/// What one stream adds to an analysis of all streams: the bytes of its
/// frames per interval. A stream adds nothing if the analysis was
/// cancelled, if its probe failed, or if its frames hold more bytes than
/// can be counted.
pub fn stream_buckets_of(
    stream: &StreamInfo,
    probed: &Result<Vec<FrameRecord>, ProbeError>,
    cancelled: bool,
    interval_us: u64,
    num_intervals: usize,
) -> (buckets: Option<StreamBuckets>)
    requires
        interval_us > 0,
    ensures
        buckets is Some == (!cancelled && probed is Ok && total_bytes(
            frame_views(probed->Ok_0@),
        ) <= u64::MAX),
        buckets is Some ==> is_buckets_of(
            buckets->0,
            *stream,
            frame_views(probed->Ok_0@),
            interval_us as nat,
            num_intervals as nat,
        ),
{
    if cancelled {
        return None;
    }
    let frames = match probed {
        Ok(frames) => frames,
        Err(_) => {
            return None;
        },
    };
    if total_frame_bytes(frames).is_none() {
        return None;
    }
    Some(
        StreamBuckets {
            stream_index: stream.index,
            stream_type: stream.stream_type,
            codec_name: copy_text(&stream.codec_name),
            intervals: bucket_byte_totals(frames, interval_us, num_intervals),
        },
    )
}

} // verus!
