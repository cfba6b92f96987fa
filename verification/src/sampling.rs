//! Sampling of very large files: the decision between a full and a sampled
//! probe, the sample positions, the merge of the samples, and the
//! extrapolation of a sampled series to the full duration.

use crate::aggregate::{
    bitrate_from_bytes, bitrate_of, bucket_byte_totals, bucket_bytes, bucket_frames,
    bucket_occupancy, count_intervals, frame_views, interval_count, total_bytes,
    BitrateDataPoint, DataPointView, FrameRecord, FrameView,
};
use crate::text::{append_chars, decimal_text, from_chars, push_decimal, push_padded_decimal,
    padded_decimal_text};
use vstd::prelude::*;

verus! {

/// Files of at least this many bytes are candidates for sampling.
pub const SAMPLING_THRESHOLD_BYTES: u64 = 5_368_709_120;

/// Number of time windows probed when sampling.
pub const SAMPLE_COUNT: usize = 10;

/// Length of one sampled window in whole seconds.
pub const SAMPLE_DURATION_SECS: u64 = 30;

/// Length of one sampled window in microseconds.
pub const SAMPLE_DURATION_US: u64 = 30_000_000;

/// Files no longer than this many microseconds are probed in full whatever
/// their size.
pub const FULL_PROBE_LIMIT_US: u64 = 300_000_000;

/// How a stream is to be probed.
#[derive(Debug)]
pub enum ProbePlan {
    /// One probe over the whole stream.
    Full,
    /// One probe per window; the windows start at these times, in microseconds.
    Sampled(Vec<u64>),
}

/// Whether a file is probed by sampling: it is at least as large as the
/// threshold and longer than the sample windows together.
pub open spec fn wants_sampling(duration_us: nat, file_size: nat) -> bool {
    file_size >= SAMPLING_THRESHOLD_BYTES && duration_us > FULL_PROBE_LIMIT_US
}

/// Start of sample window `index` for a file of the given duration: the
/// windows are spaced evenly by a tenth of the duration, beginning at zero.
pub open spec fn sample_position(duration_us: nat, index: int) -> nat {
    (index * (duration_us / SAMPLE_COUNT as nat)) as nat
}

/// Whether a file of `file_size` bytes is large enough to be sampled.
pub fn exceeds_sampling_threshold(file_size: u64) -> (large: bool)
    ensures
        large == (file_size >= SAMPLING_THRESHOLD_BYTES),
{
    file_size >= SAMPLING_THRESHOLD_BYTES
}

/// Decides how to probe a stream of a file with the given duration and size.
pub fn plan_probe(duration_us: u64, file_size: u64) -> (plan: ProbePlan)
    ensures
        !wants_sampling(duration_us as nat, file_size as nat) ==> plan is Full,
        wants_sampling(duration_us as nat, file_size as nat) ==> plan is Sampled && plan->0@.len()
            == SAMPLE_COUNT && forall|i: int|
            0 <= i < SAMPLE_COUNT ==> (#[trigger] plan->0@[i]) == sample_position(
                duration_us as nat,
                i,
            ),
{
    if file_size < SAMPLING_THRESHOLD_BYTES {
        return ProbePlan::Full;
    }
    if duration_us <= FULL_PROBE_LIMIT_US {
        return ProbePlan::Full;
    }
    let spacing = duration_us / SAMPLE_COUNT as u64;
    let mut positions: Vec<u64> = Vec::new();
    let mut i: usize = 0;
    while i < SAMPLE_COUNT
        invariant
            i <= SAMPLE_COUNT,
            spacing == duration_us / SAMPLE_COUNT as u64,
            positions@.len() == i,
            forall|k: int|
                0 <= k < i ==> (#[trigger] positions@[k]) == sample_position(duration_us as nat, k),
        decreases SAMPLE_COUNT - i,
    {
        assert(i * spacing <= duration_us) by (nonlinear_arith)
            requires
                i < 10,
                spacing == duration_us / 10,
        ;
        positions.push(i as u64 * spacing);
        i += 1;
    }
    ProbePlan::Sampled(positions)
}

/// `text` without the zeros that end it.
pub open spec fn without_trailing_zeros(text: Seq<char>) -> Seq<char>
    decreases text.len(),
{
    if text.len() > 0 && text.last() == '0' {
        without_trailing_zeros(text.drop_last())
    } else {
        text
    }
}

/// Decimal notation of a time in seconds: the whole seconds, and, unless the
/// time is a whole number of seconds, a point and the fractional digits
/// down to microseconds without trailing zeros.
pub open spec fn seconds_text(micros: nat) -> Seq<char> {
    if micros % 1_000_000 == 0 {
        decimal_text(micros / 1_000_000)
    } else {
        decimal_text(micros / 1_000_000) + seq!['.'] + without_trailing_zeros(
            padded_decimal_text(micros % 1_000_000, 6),
        )
    }
}

/// The read-interval argument that restricts a probe to the window that
/// starts at `start` and lasts `length`: start, `%+`, length.
pub open spec fn read_interval_text(start_us: nat, length_us: nat) -> Seq<char> {
    seconds_text(start_us) + seq!['%', '+'] + seconds_text(length_us)
}

/// Appends the decimal notation of a time in seconds.
pub fn push_seconds(out: &mut Vec<char>, micros: u64)
    ensures
        final(out)@ == old(out)@ + seconds_text(micros as nat),
{
    push_decimal(out, micros / 1_000_000);
    let fraction = micros % 1_000_000;
    if fraction != 0 {
        let mut digits: Vec<char> = Vec::new();
        push_padded_decimal(&mut digits, fraction, 6);
        assert(digits@ =~= padded_decimal_text(fraction as nat, 6));
        let ghost full = digits@;
        while digits.len() > 0 && digits[digits.len() - 1] == '0'
            invariant
                without_trailing_zeros(digits@) == without_trailing_zeros(full),
            decreases digits.len(),
        {
            digits.pop();
        }
        out.push('.');
        append_chars(out, &digits);
        assert(out@ =~= old(out)@ + seconds_text(micros as nat));
    } else {
        assert(out@ =~= old(out)@ + seconds_text(micros as nat));
    }
}

/// The read-interval argument for the window that starts at `start_us` and
/// lasts `length_us`.
pub fn read_interval(start_us: u64, length_us: u64) -> (argument: String)
    ensures
        argument@ == read_interval_text(start_us as nat, length_us as nat),
{
    let mut chars: Vec<char> = Vec::new();
    push_seconds(&mut chars, start_us);
    chars.push('%');
    chars.push('+');
    push_seconds(&mut chars, length_us);
    assert(chars@ =~= read_interval_text(start_us as nat, length_us as nat));
    from_chars(&chars)
}

/// The frames of the first `n` sample probes that succeeded, in probe order.
pub open spec fn merged_samples(outcomes: Seq<Option<Vec<FrameRecord>>>, n: int) -> Seq<FrameView>
    decreases n,
{
    if n <= 0 {
        Seq::empty()
    } else {
        merged_samples(outcomes, n - 1) + match outcomes[n - 1] {
            Some(frames) => frame_views(frames@),
            None => Seq::empty(),
        }
    }
}

/// Number of sample probes among the first `n` that succeeded.
pub open spec fn successful_samples(outcomes: Seq<Option<Vec<FrameRecord>>>, n: int) -> nat
    decreases n,
{
    if n <= 0 {
        0
    } else {
        successful_samples(outcomes, n - 1) + if outcomes[n - 1] is Some {
            1nat
        } else {
            0nat
        }
    }
}

/// Where every probe that succeeds yields at least one frame, as a probe
/// does, no frame is sampled exactly if every probe failed.
pub proof fn lemma_no_frames_iff_all_failed(outcomes: Seq<Option<Vec<FrameRecord>>>, n: int)
    requires
        0 <= n <= outcomes.len(),
        forall|i: int|
            0 <= i < n && (#[trigger] outcomes[i]) is Some ==> outcomes[i]->0@.len() > 0,
    ensures
        (merged_samples(outcomes, n).len() == 0) == (successful_samples(outcomes, n) == 0),
    decreases n,
{
    if n > 0 {
        lemma_no_frames_iff_all_failed(outcomes, n - 1);
        match outcomes[n - 1] {
            Some(frames) => {
                assert(frame_views(frames@).len() == frames@.len());
            },
            None => {},
        }
    }
}

/// What the sample probes of one stream amount to.
#[derive(Debug)]
pub enum SampleOutcome {
    /// At least one frame was sampled: the frames of all successful probes
    /// in probe order, and the number of successful probes.
    Sampled { frames: Vec<FrameRecord>, windows: usize },
    /// No frame was sampled; the stream has to be probed in full.
    FallBackToFull,
}

/// Merges the outcomes of the sample probes of one stream; `None` stands for
/// a probe that failed.
pub fn merge_samples(outcomes: &Vec<Option<Vec<FrameRecord>>>) -> (outcome: SampleOutcome)
    ensures
        merged_samples(outcomes@, outcomes@.len() as int).len() == 0 ==> outcome is FallBackToFull,
        merged_samples(outcomes@, outcomes@.len() as int).len() > 0 ==> outcome is Sampled
            && frame_views(outcome->frames@) == merged_samples(outcomes@, outcomes@.len() as int)
            && outcome->windows == successful_samples(outcomes@, outcomes@.len() as int),
{
    let mut frames: Vec<FrameRecord> = Vec::new();
    let mut windows: usize = 0;
    let mut i: usize = 0;
    assert(frame_views(frames@) =~= Seq::<FrameView>::empty());
    while i < outcomes.len()
        invariant
            i <= outcomes.len(),
            frame_views(frames@) == merged_samples(outcomes@, i as int),
            windows == successful_samples(outcomes@, i as int),
            windows <= i,
        decreases outcomes.len() - i,
    {
        match &outcomes[i] {
            Some(sample) => {
                let ghost before = frame_views(frames@);
                let mut k: usize = 0;
                while k < sample.len()
                    invariant
                        k <= sample.len(),
                        frame_views(frames@) == before + frame_views(sample@).take(k as int),
                    decreases sample.len() - k,
                {
                    let ghost so_far = frame_views(frames@);
                    frames.push(sample[k].clone());
                    k += 1;
                    assert(frame_views(frames@) =~= so_far.push(sample@[k - 1]@));
                    assert(frame_views(frames@) =~= before + frame_views(sample@).take(k as int));
                }
                assert(frame_views(sample@).take(k as int) =~= frame_views(sample@));
                windows += 1;
            },
            None => {
                assert(frame_views(frames@) + Seq::<FrameView>::empty() =~= frame_views(frames@));
            },
        }
        i += 1;
    }
    if frames.len() == 0 {
        SampleOutcome::FallBackToFull
    } else {
        SampleOutcome::Sampled { frames, windows }
    }
}

/// Bits per second of `bytes` bytes over `duration` microseconds, rounded
/// down and capped at the largest 64-bit value; zero for a zero duration.
pub open spec fn average_bitrate_of(bytes: nat, duration: nat) -> nat {
    if duration == 0 {
        0
    } else {
        bitrate_of(bytes, duration)
    }
}

/// Whether `point` is the extrapolated data point of bucket `bucket`: a
/// bucket with sampled frames has their bitrate, any other bucket has the
/// average bitrate of all samples. No point has a picture type.
pub open spec fn is_extrapolated_point(
    point: DataPointView,
    frames: Seq<FrameView>,
    sampled_duration: nat,
    interval: nat,
    bucket: int,
) -> bool {
    &&& point.timestamp_us == bucket * interval
    &&& point.frame_type is None
    &&& point.bitrate == if bucket_frames(frames, interval, bucket) > 0 {
        bitrate_of(bucket_bytes(frames, interval, bucket), interval)
    } else {
        average_bitrate_of(total_bytes(frames), sampled_duration)
    }
}

/// Spreads sampled frames over the full duration of a stream.
///
/// The result has one data point per interval needed to cover
/// `full_duration_us`. Without sampled frames the result is empty.
pub fn extrapolate_sampled_data(
    sampled_data: &Vec<FrameRecord>,
    sampled_duration_us: u64,
    full_duration_us: u64,
    interval_us: u64,
) -> (points: Vec<BitrateDataPoint>)
    requires
        interval_us > 0,
        interval_count(full_duration_us as nat, interval_us as nat) <= usize::MAX,
        total_bytes(frame_views(sampled_data@)) <= u64::MAX,
    ensures
        sampled_data@.len() == 0 ==> points@.len() == 0,
        sampled_data@.len() > 0 ==> points@.len() == interval_count(
            full_duration_us as nat,
            interval_us as nat,
        ),
        forall|b: int|
            0 <= b < points@.len() ==> is_extrapolated_point(
                (#[trigger] points@[b])@,
                frame_views(sampled_data@),
                sampled_duration_us as nat,
                interval_us as nat,
                b,
            ),
{
    if sampled_data.len() == 0 {
        return Vec::new();
    }
    let ghost views = frame_views(sampled_data@);
    let total = match crate::aggregate::total_frame_bytes(sampled_data) {
        Some(t) => t,
        None => 0,
    };
    let average = if sampled_duration_us > 0 {
        bitrate_from_bytes(total, sampled_duration_us)
    } else {
        0
    };
    let count = count_intervals(full_duration_us, interval_us) as usize;
    let totals = bucket_byte_totals(sampled_data, interval_us, count);
    let occupied = bucket_occupancy(sampled_data, interval_us, count);
    let mut points: Vec<BitrateDataPoint> = Vec::new();
    let mut b: usize = 0;
    while b < count
        invariant
            b <= count,
            interval_us > 0,
            views == frame_views(sampled_data@),
            count > 0 ==> (count - 1) * interval_us < full_duration_us,
            totals@.len() == count,
            occupied@.len() == count,
            points@.len() == b,
            average == average_bitrate_of(total_bytes(views), sampled_duration_us as nat),
            forall|k: int|
                0 <= k < count ==> (#[trigger] totals@[k]) == bucket_bytes(
                    views,
                    interval_us as nat,
                    k,
                ),
            forall|k: int|
                0 <= k < count ==> (#[trigger] occupied@[k]) == (bucket_frames(
                    views,
                    interval_us as nat,
                    k,
                ) > 0),
            forall|k: int|
                0 <= k < b ==> is_extrapolated_point(
                    (#[trigger] points@[k])@,
                    views,
                    sampled_duration_us as nat,
                    interval_us as nat,
                    k,
                ),
        decreases count - b,
    {
        assert(b * interval_us <= (count - 1) * interval_us) by (nonlinear_arith)
            requires
                b <= count - 1,
                interval_us > 0,
        ;
        let bitrate = if occupied[b] {
            bitrate_from_bytes(totals[b], interval_us)
        } else {
            average
        };
        points.push(BitrateDataPoint { timestamp_us: b as u64 * interval_us, bitrate, frame_type: None });
        b += 1;
    }
    points
}

} // verus!
