//! Progress reports of a running analysis.
//!
//! An analysis passes through a fixed sequence of stages. Each stage has a
//! percentage and a label; percentages never fall from one stage to the next.

use crate::jobs::{JobProgress, JobProgressView};
use crate::sampling::{SAMPLE_COUNT, SAMPLE_DURATION_SECS};
use crate::text::{append_text, decimal_text, from_chars, push_decimal};
use vstd::prelude::*;

verus! {

/// Progress of an analysis as it is shown to the user.
#[derive(Debug)]
pub struct BitrateProgress {
    pub current: usize,
    pub total: usize,
    /// Whole percent, 0 to 100.
    pub percentage: u64,
    pub stage: String,
    /// Estimated milliseconds until the analysis is done.
    pub eta_ms: Option<u64>,
    /// Milliseconds since the analysis began.
    pub elapsed_ms: Option<u64>,
    pub using_sampling: Option<bool>,
    pub stream_count: Option<usize>,
    /// The stream that is analysed, counted from one.
    pub current_stream: Option<usize>,
}

/// The stages of the analysis of one stream, in order.
#[derive(Debug, Clone, Copy, PartialEq, Eq, Structural)]
pub enum StreamStage {
    StreamInfo,
    Metadata,
    Probing,
    Aggregating,
    Statistics,
    Complete,
}

/// The stages of the analysis of a whole file, in order.
#[derive(Debug, Clone, Copy, PartialEq, Eq, Structural)]
pub enum OverallStage {
    StreamInfo,
    Metadata,
    Probing,
    ProbingDone,
    Aggregating,
    Statistics,
    Complete,
}

/// Position of a stage in the analysis of one stream.
pub open spec fn stream_stage_rank(stage: StreamStage) -> nat {
    match stage {
        StreamStage::StreamInfo => 0,
        StreamStage::Metadata => 1,
        StreamStage::Probing => 2,
        StreamStage::Aggregating => 3,
        StreamStage::Statistics => 4,
        StreamStage::Complete => 5,
    }
}

/// Percentage at which a stage of the analysis of one stream begins.
pub open spec fn stream_stage_percent(stage: StreamStage) -> nat {
    match stage {
        StreamStage::StreamInfo => 0,
        StreamStage::Metadata => 10,
        StreamStage::Probing => 20,
        StreamStage::Aggregating => 80,
        StreamStage::Statistics => 90,
        StreamStage::Complete => 100,
    }
}

/// Position of a stage in the analysis of a whole file.
pub open spec fn overall_stage_rank(stage: OverallStage) -> nat {
    match stage {
        OverallStage::StreamInfo => 0,
        OverallStage::Metadata => 1,
        OverallStage::Probing => 2,
        OverallStage::ProbingDone => 3,
        OverallStage::Aggregating => 4,
        OverallStage::Statistics => 5,
        OverallStage::Complete => 6,
    }
}

/// Percentage at which a stage of the analysis of a whole file begins.
pub open spec fn overall_stage_percent(stage: OverallStage) -> nat {
    match stage {
        OverallStage::StreamInfo => 0,
        OverallStage::Metadata => 5,
        OverallStage::Probing => 10,
        OverallStage::ProbingDone => 85,
        OverallStage::Aggregating => 90,
        OverallStage::Statistics => 95,
        OverallStage::Complete => 100,
    }
}

/// Progress is monotone: a later stage never has a lower percentage, in
/// either workflow.
pub proof fn lemma_progress_is_monotone(
    stream_a: StreamStage,
    stream_b: StreamStage,
    overall_a: OverallStage,
    overall_b: OverallStage,
)
    ensures
        stream_stage_rank(stream_a) <= stream_stage_rank(stream_b) ==> stream_stage_percent(
            stream_a,
        ) <= stream_stage_percent(stream_b),
        overall_stage_rank(overall_a) <= overall_stage_rank(overall_b) ==> overall_stage_percent(
            overall_a,
        ) <= overall_stage_percent(overall_b),
        stream_stage_percent(stream_a) <= 100,
        overall_stage_percent(overall_a) <= 100,
{
}

/// Estimated milliseconds until an analysis is done, from the time it has
/// taken to reach `percentage`: the time per percent so far, times the
/// percent that remain, capped at the largest 64-bit value. There is no
/// estimate at five percent or less, nor at a hundred percent or more.
pub open spec fn estimated_remaining_ms(elapsed_ms: nat, percentage: nat) -> Option<nat> {
    if 5 < percentage < 100 {
        let exact = elapsed_ms * (100 - percentage) / percentage as int;
        Some(
            if exact > u64::MAX {
                u64::MAX as nat
            } else {
                exact as nat
            },
        )
    } else {
        None
    }
}

/// Estimated milliseconds until an analysis is done.
pub fn estimate_remaining_ms(elapsed_ms: u64, percentage: u64) -> (eta: Option<u64>)
    ensures
        match eta {
            Some(ms) => estimated_remaining_ms(elapsed_ms as nat, percentage as nat) == Some(
                ms as nat,
            ),
            None => estimated_remaining_ms(elapsed_ms as nat, percentage as nat) is None,
        },
{
    if percentage > 5 && percentage < 100 {
        let remaining: u128 = (100 - percentage) as u128;
        assert(elapsed_ms as u128 * remaining <= u64::MAX * 100) by (nonlinear_arith)
            requires
                0 <= elapsed_ms <= u64::MAX,
                0 <= remaining <= 100,
        ;
        let exact: u128 = elapsed_ms as u128 * remaining / percentage as u128;
        Some(
            if exact > u64::MAX as u128 {
                u64::MAX
            } else {
                exact as u64
            },
        )
    } else {
        None
    }
}

/// A time in seconds with one decimal, rounded to the nearest tenth; a
/// time exactly between two tenths is rounded up.
pub open spec fn tenths_text(millis: nat) -> Seq<char> {
    let tenths = (millis + 50) / 100;
    decimal_text(tenths / 10) + seq!['.'] + decimal_text(tenths % 10)
}

/// The label of the last stage.
pub open spec fn completion_label(elapsed_ms: nat) -> Seq<char> {
    "Complete in "@ + tenths_text(elapsed_ms) + "s"@
}

/// The label of a stage of the analysis of one stream.
pub open spec fn stream_stage_label(stage: StreamStage, elapsed_ms: nat) -> Seq<char> {
    match stage {
        StreamStage::StreamInfo => "Getting stream info..."@,
        StreamStage::Metadata => "Reading file metadata..."@,
        StreamStage::Probing => "Analyzing frames..."@,
        StreamStage::Aggregating => "Aggregating bitrate data..."@,
        StreamStage::Statistics => "Calculating statistics..."@,
        StreamStage::Complete => completion_label(elapsed_ms),
    }
}

/// What a progress report of the analysis of a whole file tells about its
/// streams.
#[derive(Debug, Clone, Copy, PartialEq, Eq, Structural)]
pub struct StreamTally {
    /// Whether the file is large enough to be sampled.
    pub using_sampling: bool,
    /// Number of streams that are analysed.
    pub total: usize,
    /// Number of streams whose probe succeeded.
    pub analyzed: usize,
}

/// The label of a stage of the analysis of a whole file.
pub open spec fn overall_stage_label(stage: OverallStage, elapsed_ms: nat, tally: StreamTally) -> Seq<
    char,
> {
    match stage {
        OverallStage::StreamInfo => "Getting stream information..."@,
        OverallStage::Metadata => "Reading file metadata..."@,
        OverallStage::Probing => if tally.using_sampling {
            "Sampling "@ + decimal_text(tally.total as nat) + " streams ("@ + decimal_text(
                SAMPLE_COUNT as nat,
            ) + " x "@ + decimal_text(SAMPLE_DURATION_SECS as nat) + "s intervals)..."@
        } else {
            "Analyzing "@ + decimal_text(tally.total as nat) + " streams in parallel..."@
        },
        OverallStage::ProbingDone => "Stream analysis complete ("@ + decimal_text(
            tally.analyzed as nat,
        ) + "/"@ + decimal_text(tally.total as nat) + " streams)"@,
        OverallStage::Aggregating => "Aggregating bitrate data..."@,
        OverallStage::Statistics => "Calculating statistics..."@,
        OverallStage::Complete => completion_label(elapsed_ms),
    }
}

/// Appends a time in seconds with one decimal.
fn push_tenths(out: &mut Vec<char>, millis: u64)
    ensures
        final(out)@ == old(out)@ + tenths_text(millis as nat),
{
    let tenths: u128 = (millis as u128 + 50) / 100;
    push_decimal(out, (tenths / 10) as u64);
    out.push('.');
    push_decimal(out, (tenths % 10) as u64);
    assert(out@ =~= old(out)@ + tenths_text(millis as nat));
}

/// Percentage at which a stage of the analysis of one stream begins.
pub fn stream_percentage(stage: StreamStage) -> (percent: u64)
    ensures
        percent == stream_stage_percent(stage),
{
    match stage {
        StreamStage::StreamInfo => 0,
        StreamStage::Metadata => 10,
        StreamStage::Probing => 20,
        StreamStage::Aggregating => 80,
        StreamStage::Statistics => 90,
        StreamStage::Complete => 100,
    }
}

/// Percentage at which a stage of the analysis of a whole file begins.
pub fn overall_percentage(stage: OverallStage) -> (percent: u64)
    ensures
        percent == overall_stage_percent(stage),
{
    match stage {
        OverallStage::StreamInfo => 0,
        OverallStage::Metadata => 5,
        OverallStage::Probing => 10,
        OverallStage::ProbingDone => 85,
        OverallStage::Aggregating => 90,
        OverallStage::Statistics => 95,
        OverallStage::Complete => 100,
    }
}

/// The label of a stage of the analysis of one stream.
pub fn stream_label(stage: StreamStage, elapsed_ms: u64) -> (label: String)
    ensures
        label@ == stream_stage_label(stage, elapsed_ms as nat),
{
    match stage {
        StreamStage::StreamInfo => String::from_str("Getting stream info..."),
        StreamStage::Metadata => String::from_str("Reading file metadata..."),
        StreamStage::Probing => String::from_str("Analyzing frames..."),
        StreamStage::Aggregating => String::from_str("Aggregating bitrate data..."),
        StreamStage::Statistics => String::from_str("Calculating statistics..."),
        StreamStage::Complete => {
            let mut out: Vec<char> = Vec::new();
            append_text(&mut out, "Complete in ");
            push_tenths(&mut out, elapsed_ms);
            append_text(&mut out, "s");
            assert(out@ =~= completion_label(elapsed_ms as nat));
            from_chars(&out)
        },
    }
}

/// The label of a stage of the analysis of a whole file.
pub fn overall_label(stage: OverallStage, elapsed_ms: u64, tally: &StreamTally) -> (label: String)
    ensures
        label@ == overall_stage_label(stage, elapsed_ms as nat, *tally),
{
    let mut out: Vec<char> = Vec::new();
    match stage {
        OverallStage::StreamInfo => {
            append_text(&mut out, "Getting stream information...");
        },
        OverallStage::Metadata => {
            append_text(&mut out, "Reading file metadata...");
        },
        OverallStage::Probing => {
            if tally.using_sampling {
                append_text(&mut out, "Sampling ");
                push_decimal(&mut out, tally.total as u64);
                append_text(&mut out, " streams (");
                push_decimal(&mut out, SAMPLE_COUNT as u64);
                append_text(&mut out, " x ");
                push_decimal(&mut out, SAMPLE_DURATION_SECS);
                append_text(&mut out, "s intervals)...");
            } else {
                append_text(&mut out, "Analyzing ");
                push_decimal(&mut out, tally.total as u64);
                append_text(&mut out, " streams in parallel...");
            }
        },
        OverallStage::ProbingDone => {
            append_text(&mut out, "Stream analysis complete (");
            push_decimal(&mut out, tally.analyzed as u64);
            append_text(&mut out, "/");
            push_decimal(&mut out, tally.total as u64);
            append_text(&mut out, " streams)");
        },
        OverallStage::Aggregating => {
            append_text(&mut out, "Aggregating bitrate data...");
        },
        OverallStage::Statistics => {
            append_text(&mut out, "Calculating statistics...");
        },
        OverallStage::Complete => {
            append_text(&mut out, "Complete in ");
            push_tenths(&mut out, elapsed_ms);
            append_text(&mut out, "s");
        },
    }
    assert(out@ =~= overall_stage_label(stage, elapsed_ms as nat, *tally));
    from_chars(&out)
}

/// The progress report of a stage of the analysis of one stream.
pub fn stream_progress(stage: StreamStage, elapsed_ms: u64) -> (progress: BitrateProgress)
    ensures
        progress.current == stream_stage_percent(stage),
        progress.total == 100,
        progress.percentage == stream_stage_percent(stage),
        progress.stage@ == stream_stage_label(stage, elapsed_ms as nat),
        estimated_remaining_ms(elapsed_ms as nat, stream_stage_percent(stage)) == match progress.eta_ms {
            Some(ms) => Some(ms as nat),
            None => None,
        },
        progress.elapsed_ms == Some(elapsed_ms),
        progress.using_sampling is None,
        progress.stream_count == Some(1usize),
        progress.current_stream == Some(1usize),
{
    let percentage = stream_percentage(stage);
    BitrateProgress {
        current: percentage as usize,
        total: 100,
        percentage,
        stage: stream_label(stage, elapsed_ms),
        eta_ms: estimate_remaining_ms(elapsed_ms, percentage),
        elapsed_ms: Some(elapsed_ms),
        using_sampling: None,
        stream_count: Some(1),
        current_stream: Some(1),
    }
}

/// Whether a stage of the analysis of a whole file reports on its streams.
pub open spec fn reports_streams(stage: OverallStage) -> bool {
    overall_stage_rank(stage) >= 2 && stage != OverallStage::Aggregating
}

/// The progress report of a stage of the analysis of a whole file.
pub fn overall_progress(stage: OverallStage, elapsed_ms: u64, tally: &StreamTally) -> (progress:
    BitrateProgress)
    ensures
        progress.current == overall_stage_percent(stage),
        progress.total == 100,
        progress.percentage == overall_stage_percent(stage),
        progress.stage@ == overall_stage_label(stage, elapsed_ms as nat, *tally),
        estimated_remaining_ms(elapsed_ms as nat, overall_stage_percent(stage)) == match progress.eta_ms {
            Some(ms) => Some(ms as nat),
            None => None,
        },
        progress.elapsed_ms == Some(elapsed_ms),
        progress.using_sampling == if reports_streams(stage) {
            Some(tally.using_sampling)
        } else {
            None
        },
        progress.stream_count == if reports_streams(stage) {
            Some(tally.total)
        } else {
            None
        },
        progress.current_stream == if reports_streams(stage) && stage != OverallStage::Probing {
            Some(tally.total)
        } else {
            None
        },
{
    let percentage = overall_percentage(stage);
    let with_streams = match stage {
        OverallStage::Probing => true,
        OverallStage::ProbingDone => true,
        OverallStage::Statistics => true,
        OverallStage::Complete => true,
        _ => false,
    };
    let probing = match stage {
        OverallStage::Probing => true,
        _ => false,
    };
    BitrateProgress {
        current: percentage as usize,
        total: 100,
        percentage,
        stage: overall_label(stage, elapsed_ms, tally),
        eta_ms: estimate_remaining_ms(elapsed_ms, percentage),
        elapsed_ms: Some(elapsed_ms),
        using_sampling: if with_streams {
            Some(tally.using_sampling)
        } else {
            None
        },
        stream_count: if with_streams {
            Some(tally.total)
        } else {
            None
        },
        current_stream: if with_streams && !probing {
            Some(tally.total)
        } else {
            None
        },
    }
}

/// The progress that the job queue keeps for a report.
pub fn job_progress_of(progress: &BitrateProgress) -> (kept: JobProgress)
    ensures
        kept@ == (JobProgressView {
            current: progress.current as nat,
            total: progress.total as nat,
            percentage: progress.percentage as nat,
            stage: progress.stage@,
        }),
{
    JobProgress {
        current: progress.current,
        total: progress.total,
        percentage: progress.percentage,
        stage: progress.stage.clone(),
    }
}

} // verus!
