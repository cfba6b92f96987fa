//! Binning of timestamped frame sizes into fixed-width intervals.
//!
//! Time is counted in whole microseconds. A frame at time `t` belongs to
//! bucket `t / interval`; frames before time zero belong to bucket 0. A
//! bucket's bitrate is its byte total times eight, divided by the interval
//! length in seconds.

use vstd::prelude::*;

verus! {

/// Microseconds in one second.
pub const MICROS_PER_SECOND: u64 = 1_000_000;

/// One frame or packet reported by the probe tool.
#[derive(Debug)]
pub struct FrameRecord {
    /// Presentation time in microseconds.
    pub timestamp_us: i64,
    /// Payload size in bytes.
    pub size: u64,
    /// Picture type, where the probe reported one.
    pub frame_type: Option<String>,
}

/// Mathematical value of a [`FrameRecord`].
pub struct FrameView {
    pub timestamp_us: int,
    pub size: nat,
    pub frame_type: Option<Seq<char>>,
}

impl View for FrameRecord {
    type V = FrameView;

    open spec fn view(&self) -> FrameView {
        FrameView {
            timestamp_us: self.timestamp_us as int,
            size: self.size as nat,
            frame_type: match self.frame_type {
                Some(t) => Some(t@),
                None => None,
            },
        }
    }
}

impl Clone for FrameRecord {
    fn clone(&self) -> (r: Self)
        ensures
            r@ == self@,
    {
        FrameRecord {
            timestamp_us: self.timestamp_us,
            size: self.size,
            frame_type: match &self.frame_type {
                Some(t) => Some(t.clone()),
                None => None,
            },
        }
    }
}

/// Bitrate of one aggregation interval.
#[derive(Debug)]
pub struct BitrateDataPoint {
    /// Left edge of the interval in microseconds.
    pub timestamp_us: u64,
    /// Bits per second over the interval.
    pub bitrate: u64,
    pub frame_type: Option<String>,
}

/// Mathematical value of a [`BitrateDataPoint`].
pub struct DataPointView {
    pub timestamp_us: nat,
    pub bitrate: nat,
    pub frame_type: Option<Seq<char>>,
}

impl View for BitrateDataPoint {
    type V = DataPointView;

    open spec fn view(&self) -> DataPointView {
        DataPointView {
            timestamp_us: self.timestamp_us as nat,
            bitrate: self.bitrate as nat,
            frame_type: match self.frame_type {
                Some(t) => Some(t@),
                None => None,
            },
        }
    }
}

impl Clone for BitrateDataPoint {
    fn clone(&self) -> (r: Self)
        ensures
            r@ == self@,
    {
        BitrateDataPoint {
            timestamp_us: self.timestamp_us,
            bitrate: self.bitrate,
            frame_type: match &self.frame_type {
                Some(t) => Some(t.clone()),
                None => None,
            },
        }
    }
}

/// Views of a sequence of frames, in order.
pub open spec fn frame_views(frames: Seq<FrameRecord>) -> Seq<FrameView> {
    frames.map_values(|f: FrameRecord| f@)
}

/// Views of a sequence of data points, in order.
pub open spec fn point_views(points: Seq<BitrateDataPoint>) -> Seq<DataPointView> {
    points.map_values(|p: BitrateDataPoint| p@)
}

/// Number of intervals of length `interval` needed to cover `duration`:
/// the quotient rounded up.
pub open spec fn interval_count(duration: nat, interval: nat) -> nat
    recommends
        interval > 0,
{
    if duration % interval == 0 {
        duration / interval
    } else {
        duration / interval + 1
    }
}

/// Bucket that a frame at time `timestamp` belongs to.
pub open spec fn bucket_of(timestamp: int, interval: nat) -> int
    recommends
        interval > 0,
{
    if timestamp < 0 {
        0
    } else {
        timestamp / interval as int
    }
}

/// Sum of the sizes of all frames.
pub open spec fn total_bytes(frames: Seq<FrameView>) -> nat
    decreases frames.len(),
{
    if frames.len() == 0 {
        0
    } else {
        total_bytes(frames.drop_last()) + frames.last().size
    }
}

/// Sum of the sizes of the frames that belong to bucket `bucket`.
pub open spec fn bucket_bytes(frames: Seq<FrameView>, interval: nat, bucket: int) -> nat
    decreases frames.len(),
{
    if frames.len() == 0 {
        0
    } else {
        bucket_bytes(frames.drop_last(), interval, bucket) + if bucket_of(
            frames.last().timestamp_us,
            interval,
        ) == bucket {
            frames.last().size
        } else {
            0
        }
    }
}

/// Number of frames that belong to bucket `bucket`.
pub open spec fn bucket_frames(frames: Seq<FrameView>, interval: nat, bucket: int) -> nat
    decreases frames.len(),
{
    if frames.len() == 0 {
        0
    } else {
        bucket_frames(frames.drop_last(), interval, bucket) + if bucket_of(
            frames.last().timestamp_us,
            interval,
        ) == bucket {
            1nat
        } else {
            0nat
        }
    }
}

/// Picture type of the earliest frame in bucket `bucket` that has one.
pub open spec fn bucket_frame_type(frames: Seq<FrameView>, interval: nat, bucket: int) -> Option<
    Seq<char>,
>
    decreases frames.len(),
{
    if frames.len() == 0 {
        None
    } else {
        match bucket_frame_type(frames.drop_last(), interval, bucket) {
            Some(t) => Some(t),
            None => if bucket_of(frames.last().timestamp_us, interval) == bucket {
                frames.last().frame_type
            } else {
                None
            },
        }
    }
}

/// Sum of the byte totals of buckets `0..count`.
pub open spec fn buckets_total(frames: Seq<FrameView>, interval: nat, count: int) -> nat
    decreases count,
{
    if count <= 0 {
        0
    } else {
        buckets_total(frames, interval, count - 1) + bucket_bytes(frames, interval, count - 1)
    }
}

/// Bits per second of `bytes` bytes spread over `interval` microseconds,
/// rounded down and capped at the largest 64-bit value.
pub open spec fn bitrate_of(bytes: nat, interval: nat) -> nat
    recommends
        interval > 0,
{
    let exact = bytes * 8 * MICROS_PER_SECOND as nat / interval;
    if exact > u64::MAX {
        u64::MAX as nat
    } else {
        exact
    }
}

/// Whether `point` is the data point of bucket `bucket`.
pub open spec fn is_bucket_point(
    point: DataPointView,
    frames: Seq<FrameView>,
    interval: nat,
    bucket: int,
) -> bool {
    &&& point.timestamp_us == bucket * interval
    &&& point.bitrate == bitrate_of(bucket_bytes(frames, interval, bucket), interval)
    &&& point.frame_type == bucket_frame_type(frames, interval, bucket)
}

/// No bucket holds more bytes than all frames together.
pub proof fn lemma_bucket_bytes_bounded(frames: Seq<FrameView>, interval: nat, bucket: int)
    requires
        interval > 0,
    ensures
        bucket_bytes(frames, interval, bucket) <= total_bytes(frames),
    decreases frames.len(),
{
    if frames.len() > 0 {
        lemma_bucket_bytes_bounded(frames.drop_last(), interval, bucket);
    }
}

/// Whether every frame falls into one of the buckets `0..count`.
pub open spec fn all_within(frames: Seq<FrameView>, interval: nat, count: int) -> bool {
    forall|k: int|
        0 <= k < frames.len() ==> 0 <= bucket_of((#[trigger] frames[k]).timestamp_us, interval)
            < count
}

/// The total over the first `count` buckets never exceeds the total over all
/// frames, and equals it when every frame falls into one of those buckets.
pub proof fn lemma_buckets_total(frames: Seq<FrameView>, interval: nat, count: int)
    requires
        interval > 0,
        count >= 0,
    ensures
        buckets_total(frames, interval, count) <= total_bytes(frames),
        all_within(frames, interval, count) ==> buckets_total(frames, interval, count)
            == total_bytes(frames),
    decreases frames.len(),
{
    if frames.len() == 0 {
        assert(frames =~= Seq::<FrameView>::empty());
        lemma_buckets_total_empty(interval, count);
    } else {
        let rest = frames.drop_last();
        lemma_buckets_total(rest, interval, count);
        lemma_buckets_total_step(frames, interval, count);
        assert(total_bytes(frames) == total_bytes(rest) + frames.last().size);
        if all_within(frames, interval, count) {
            assert forall|k: int| 0 <= k < rest.len() implies 0 <= bucket_of(
                (#[trigger] rest[k]).timestamp_us,
                interval,
            ) < count by {
                assert(rest[k] == frames[k]);
            }
            assert(frames[frames.len() - 1] == frames.last());
            assert(0 <= bucket_of(frames[frames.len() - 1].timestamp_us, interval) < count);
        }
    }
}

/// Without frames every bucket total is zero.
proof fn lemma_buckets_total_empty(interval: nat, count: int)
    ensures
        buckets_total(Seq::<FrameView>::empty(), interval, count) == 0,
    decreases count,
{
    if count > 0 {
        lemma_buckets_total_empty(interval, count - 1);
    }
}

/// Appending a frame adds its size to the total over the first `count`
/// buckets if the frame falls into one of them, and nothing otherwise.
proof fn lemma_buckets_total_step(frames: Seq<FrameView>, interval: nat, count: int)
    requires
        interval > 0,
        frames.len() > 0,
    ensures
        buckets_total(frames, interval, count) == buckets_total(
            frames.drop_last(),
            interval,
            count,
        ) + if 0 <= bucket_of(frames.last().timestamp_us, interval) < count {
            frames.last().size
        } else {
            0
        },
    decreases count,
{
    if count > 0 {
        lemma_buckets_total_step(frames, interval, count - 1);
    }
}

/// Aggregation conservation: when every frame lies inside `[0, duration)`,
/// the byte totals of the buckets that cover the duration add up to the byte
/// total of the frames.
pub proof fn lemma_aggregation_conserves_bytes(frames: Seq<FrameView>, interval: nat, duration: nat)
    requires
        interval > 0,
        forall|k: int| 0 <= k < frames.len() ==> 0 <= (#[trigger] frames[k]).timestamp_us < duration,
    ensures
        buckets_total(frames, interval, interval_count(duration, interval) as int) == total_bytes(
            frames,
        ),
{
    let count = interval_count(duration, interval) as int;
    assert forall|k: int| 0 <= k < frames.len() implies 0 <= bucket_of(
        (#[trigger] frames[k]).timestamp_us,
        interval,
    ) < count by {
        lemma_bucket_in_range(frames[k].timestamp_us, interval, duration);
    }
    lemma_buckets_total(frames, interval, count);
}

/// A time inside `[0, duration)` falls into one of the buckets that cover
/// the duration.
pub proof fn lemma_bucket_in_range(timestamp: int, interval: nat, duration: nat)
    requires
        interval > 0,
        0 <= timestamp < duration,
    ensures
        0 <= bucket_of(timestamp, interval) < interval_count(duration, interval),
{
    let i = interval as int;
    let d = duration as int;
    assert(timestamp / i <= d / i) by (nonlinear_arith)
        requires
            0 <= timestamp < d,
            i > 0,
    ;
    assert(timestamp / i >= 0) by (nonlinear_arith)
        requires
            0 <= timestamp,
            i > 0,
    ;
    if d % i == 0 {
        assert(timestamp / i < d / i) by (nonlinear_arith)
            requires
                0 <= timestamp < d,
                i > 0,
                d % i == 0,
        ;
    }
}

/// Number of intervals of length `interval_us` needed to cover `duration_us`.
pub fn count_intervals(duration_us: u64, interval_us: u64) -> (count: u64)
    requires
        interval_us > 0,
    ensures
        count == interval_count(duration_us as nat, interval_us as nat),
        count > 0 ==> (count - 1) * interval_us < duration_us,
{
    let whole = duration_us / interval_us;
    if duration_us % interval_us == 0 {
        assert(whole > 0 ==> (whole - 1) * interval_us < duration_us) by (nonlinear_arith)
            requires
                whole == duration_us / interval_us,
                interval_us > 0,
                duration_us % interval_us == 0,
        ;
        whole
    } else {
        assert(whole * interval_us < duration_us) by (nonlinear_arith)
            requires
                whole == duration_us / interval_us,
                interval_us > 0,
                duration_us % interval_us != 0,
        ;
        assert(whole < u64::MAX) by (nonlinear_arith)
            requires
                whole == duration_us / interval_us,
                interval_us > 0,
                duration_us % interval_us != 0,
                duration_us <= u64::MAX,
        ;
        whole + 1
    }
}

/// Bucket that a frame at time `timestamp_us` belongs to.
pub fn frame_bucket(timestamp_us: i64, interval_us: u64) -> (bucket: u64)
    requires
        interval_us > 0,
    ensures
        bucket == bucket_of(timestamp_us as int, interval_us as nat),
{
    if timestamp_us < 0 {
        0
    } else {
        let t = timestamp_us as u64;
        assert(t as int / interval_us as int >= 0) by (nonlinear_arith)
            requires
                t >= 0,
                interval_us > 0,
        ;
        t / interval_us
    }
}

/// Bits per second of `bytes` bytes spread over `interval_us` microseconds,
/// rounded down and capped at the largest 64-bit value.
pub fn bitrate_from_bytes(bytes: u64, interval_us: u64) -> (bitrate: u64)
    requires
        interval_us > 0,
    ensures
        bitrate == bitrate_of(bytes as nat, interval_us as nat),
{
    let bits: u128 = bytes as u128 * 8u128;
    let scaled: u128 = bits * 1_000_000u128;
    let exact: u128 = scaled / interval_us as u128;
    if exact > u64::MAX as u128 {
        u64::MAX
    } else {
        exact as u64
    }
}

/// Sum of the sizes of all frames, or `None` if it does not fit in 64 bits.
pub fn total_frame_bytes(frames: &Vec<FrameRecord>) -> (total: Option<u64>)
    ensures
        total is Some == (total_bytes(frame_views(frames@)) <= u64::MAX),
        total is Some ==> total->0 == total_bytes(frame_views(frames@)),
{
    let ghost views = frame_views(frames@);
    let mut sum: u64 = 0;
    let mut i: usize = 0;
    assert(views.take(0) =~= Seq::<FrameView>::empty());
    while i < frames.len()
        invariant
            i <= frames.len(),
            views == frame_views(frames@),
            sum == total_bytes(views.take(i as int)),
        decreases frames.len() - i,
    {
        proof {
            assert(views.take(i + 1).drop_last() =~= views.take(i as int));
            assert(views.take(i + 1).last() == frames@[i as int]@);
            lemma_total_bytes_monotone(views, i + 1);
        }
        match sum.checked_add(frames[i].size) {
            Some(next) => {
                sum = next;
            },
            None => {
                return None;
            },
        }
        i += 1;
    }
    assert(views.take(i as int) =~= views);
    Some(sum)
}

/// The byte total of a prefix never exceeds the byte total of the whole.
pub proof fn lemma_total_bytes_monotone(frames: Seq<FrameView>, n: int)
    requires
        0 <= n <= frames.len(),
    ensures
        total_bytes(frames.take(n)) <= total_bytes(frames),
    decreases frames.len() - n,
{
    if n < frames.len() {
        lemma_total_bytes_monotone(frames, n + 1);
        assert(frames.take(n + 1).drop_last() =~= frames.take(n));
    } else {
        assert(frames.take(n) =~= frames);
    }
}

/// Byte total of every bucket `0..count`, in bucket order.
pub fn bucket_byte_totals(frames: &Vec<FrameRecord>, interval_us: u64, count: usize) -> (totals:
    Vec<u64>)
    requires
        interval_us > 0,
        total_bytes(frame_views(frames@)) <= u64::MAX,
    ensures
        totals@.len() == count,
        forall|b: int|
            0 <= b < count ==> (#[trigger] totals@[b]) == bucket_bytes(
                frame_views(frames@),
                interval_us as nat,
                b,
            ),
{
    let ghost views = frame_views(frames@);
    let ghost interval = interval_us as nat;
    let mut totals: Vec<u64> = Vec::new();
    let mut b: usize = 0;
    while b < count
        invariant
            b <= count,
            totals@.len() == b,
            forall|k: int| 0 <= k < b ==> (#[trigger] totals@[k]) == 0,
        decreases count - b,
    {
        totals.push(0);
        b += 1;
    }
    let mut i: usize = 0;
    assert(views.take(0) =~= Seq::<FrameView>::empty());
    while i < frames.len()
        invariant
            i <= frames.len(),
            interval_us > 0,
            interval == interval_us as nat,
            views == frame_views(frames@),
            total_bytes(views) <= u64::MAX,
            totals@.len() == count,
            forall|k: int|
                0 <= k < count ==> (#[trigger] totals@[k]) == bucket_bytes(
                    views.take(i as int),
                    interval,
                    k,
                ),
        decreases frames.len() - i,
    {
        let ghost before = totals@;
        let bucket = frame_bucket(frames[i].timestamp_us, interval_us);
        proof {
            assert(views.take(i + 1).drop_last() =~= views.take(i as int));
            assert(views.take(i + 1).last() == frames@[i as int]@);
        }
        if bucket < count as u64 {
            let slot = bucket as usize;
            proof {
                lemma_bucket_bytes_bounded(views.take(i + 1), interval, slot as int);
                lemma_total_bytes_monotone(views, i + 1);
            }
            let sum = totals[slot] + frames[i].size;
            totals.set(slot, sum);
        }
        i += 1;
    }
    assert(views.take(i as int) =~= views);
    totals
}

/// Aggregates frames into the bitrate series of a stream.
///
/// The result has one data point per interval needed to cover
/// `duration_us`, in time order; frames that fall behind the last interval
/// are left out. Without frames the result is empty.
pub fn aggregate_bitrate_intervals(frames: Vec<FrameRecord>, interval_us: u64, duration_us: u64) -> (
    points: Vec<BitrateDataPoint>)
    requires
        interval_us > 0,
        interval_count(duration_us as nat, interval_us as nat) <= usize::MAX,
        total_bytes(frame_views(frames@)) <= u64::MAX,
    ensures
        frames@.len() == 0 ==> points@.len() == 0,
        frames@.len() > 0 ==> points@.len() == interval_count(
            duration_us as nat,
            interval_us as nat,
        ),
        forall|b: int|
            0 <= b < points@.len() ==> is_bucket_point(
                (#[trigger] points@[b])@,
                frame_views(frames@),
                interval_us as nat,
                b,
            ),
        frames@.len() > 0 && interval_us == MICROS_PER_SECOND && 8 * total_bytes(
            frame_views(frames@),
        ) <= u64::MAX && (forall|k: int|
            0 <= k < frames@.len() ==> 0 <= (#[trigger] frame_views(frames@)[k]).timestamp_us
                < duration_us) ==> bitrates_total(point_views(points@), points@.len() as int) == 8
            * total_bytes(frame_views(frames@)),
{
    if frames.len() == 0 {
        return Vec::new();
    }
    let ghost views = frame_views(frames@);
    let ghost interval = interval_us as nat;
    let count = count_intervals(duration_us, interval_us) as usize;
    let totals = bucket_byte_totals(&frames, interval_us, count);
    let mut types: Vec<Option<String>> = Vec::new();
    let mut b: usize = 0;
    while b < count
        invariant
            b <= count,
            types@.len() == b,
            forall|k: int| 0 <= k < b ==> (#[trigger] types@[k]) is None,
        decreases count - b,
    {
        types.push(None);
        b += 1;
    }
    let mut i: usize = 0;
    assert(views.take(0) =~= Seq::<FrameView>::empty());
    while i < frames.len()
        invariant
            i <= frames.len(),
            interval_us > 0,
            interval == interval_us as nat,
            views == frame_views(frames@),
            types@.len() == count,
            forall|k: int|
                0 <= k < count ==> option_text(#[trigger] types@[k]) == bucket_frame_type(
                    views.take(i as int),
                    interval,
                    k,
                ),
        decreases frames.len() - i,
    {
        let bucket = frame_bucket(frames[i].timestamp_us, interval_us);
        proof {
            assert(views.take(i + 1).drop_last() =~= views.take(i as int));
            assert(views.take(i + 1).last() == frames@[i as int]@);
        }
        if bucket < count as u64 {
            let slot = bucket as usize;
            if types[slot].is_none() {
                let label = match &frames[i].frame_type {
                    Some(t) => Some(t.clone()),
                    None => None,
                };
                types.set(slot, label);
            }
        }
        i += 1;
    }
    assert(views.take(i as int) =~= views);
    let mut points: Vec<BitrateDataPoint> = Vec::new();
    let mut b: usize = 0;
    while b < count
        invariant
            b <= count,
            interval_us > 0,
            interval == interval_us as nat,
            views == frame_views(frames@),
            count == interval_count(duration_us as nat, interval),
            count > 0 ==> (count - 1) * interval_us < duration_us,
            totals@.len() == count,
            types@.len() == count,
            points@.len() == b,
            forall|k: int|
                0 <= k < count ==> (#[trigger] totals@[k]) == bucket_bytes(views, interval, k),
            forall|k: int|
                0 <= k < count ==> option_text(#[trigger] types@[k]) == bucket_frame_type(
                    views,
                    interval,
                    k,
                ),
            forall|k: int|
                0 <= k < b ==> is_bucket_point((#[trigger] points@[k])@, views, interval, k),
        decreases count - b,
    {
        assert(b * interval_us <= (count - 1) * interval_us) by (nonlinear_arith)
            requires
                b <= count - 1,
                interval_us > 0,
        ;
        let label = match &types[b] {
            Some(t) => Some(t.clone()),
            None => None,
        };
        points.push(
            BitrateDataPoint {
                timestamp_us: b as u64 * interval_us,
                bitrate: bitrate_from_bytes(totals[b], interval_us),
                frame_type: label,
            },
        );
        b += 1;
    }
    proof {
        if interval_us == MICROS_PER_SECOND && 8 * total_bytes(views) <= u64::MAX && (forall|
            k: int,
        |
            0 <= k < frames@.len() ==> 0 <= (#[trigger] views[k]).timestamp_us < duration_us) {
            let shown = point_views(points@);
            assert forall|k: int| 0 <= k < shown.len() implies is_bucket_point(
                #[trigger] shown[k],
                views,
                MICROS_PER_SECOND as nat,
                k,
            ) by {
                assert(shown[k] == points@[k]@);
            }
            lemma_bitrates_conserve_bytes(views, shown, duration_us as nat);
        }
    }
    points
}

/// Text of an optional string.
pub open spec fn option_text(value: Option<String>) -> Option<Seq<char>> {
    match value {
        Some(t) => Some(t@),
        None => None,
    }
}

/// For every bucket `0..count`, whether at least one frame belongs to it.
pub fn bucket_occupancy(frames: &Vec<FrameRecord>, interval_us: u64, count: usize) -> (occupied:
    Vec<bool>)
    requires
        interval_us > 0,
    ensures
        occupied@.len() == count,
        forall|b: int|
            0 <= b < count ==> (#[trigger] occupied@[b]) == (bucket_frames(
                frame_views(frames@),
                interval_us as nat,
                b,
            ) > 0),
{
    let ghost views = frame_views(frames@);
    let ghost interval = interval_us as nat;
    let mut occupied: Vec<bool> = Vec::new();
    let mut b: usize = 0;
    while b < count
        invariant
            b <= count,
            occupied@.len() == b,
            forall|k: int| 0 <= k < b ==> !(#[trigger] occupied@[k]),
        decreases count - b,
    {
        occupied.push(false);
        b += 1;
    }
    let mut i: usize = 0;
    assert(views.take(0) =~= Seq::<FrameView>::empty());
    while i < frames.len()
        invariant
            i <= frames.len(),
            interval_us > 0,
            interval == interval_us as nat,
            views == frame_views(frames@),
            occupied@.len() == count,
            forall|k: int|
                0 <= k < count ==> (#[trigger] occupied@[k]) == (bucket_frames(
                    views.take(i as int),
                    interval,
                    k,
                ) > 0),
        decreases frames.len() - i,
    {
        let bucket = frame_bucket(frames[i].timestamp_us, interval_us);
        proof {
            assert(views.take(i + 1).drop_last() =~= views.take(i as int));
            assert(views.take(i + 1).last() == frames@[i as int]@);
        }
        if bucket < count as u64 {
            occupied.set(bucket as usize, true);
        }
        i += 1;
    }
    assert(views.take(i as int) =~= views);
    occupied
}

/// Sum of the bitrates of the first `n` points.
pub open spec fn bitrates_total(points: Seq<DataPointView>, n: int) -> nat
    decreases n,
{
    if n <= 0 {
        0
    } else {
        bitrates_total(points, n - 1) + points[n - 1].bitrate
    }
}

/// With intervals of one second the bitrates of the first `n` buckets add
/// up to eight times their bytes.
proof fn lemma_bitrates_of_buckets(frames: Seq<FrameView>, points: Seq<DataPointView>, n: int)
    requires
        0 <= n <= points.len(),
        forall|b: int|
            0 <= b < points.len() ==> is_bucket_point(
                #[trigger] points[b],
                frames,
                MICROS_PER_SECOND as nat,
                b,
            ),
        8 * total_bytes(frames) <= u64::MAX,
    ensures
        bitrates_total(points, n) == 8 * buckets_total(frames, MICROS_PER_SECOND as nat, n),
    decreases n,
{
    if n > 0 {
        lemma_bitrates_of_buckets(frames, points, n - 1);
        lemma_bucket_bytes_bounded(frames, MICROS_PER_SECOND as nat, n - 1);
        let bytes = bucket_bytes(frames, MICROS_PER_SECOND as nat, n - 1);
        assert(is_bucket_point(points[n - 1], frames, MICROS_PER_SECOND as nat, n - 1));
        assert(bytes * 8 * 1_000_000 / 1_000_000 == bytes * 8) by (nonlinear_arith);
        assert(points[n - 1].bitrate == 8 * bytes);
    }
}

/// Aggregation conservation in bits: with intervals of one second, frames
/// that all lie inside `[0, duration)`, and bits that can be counted in 64
/// bits, the bitrates of the points add up to eight times the bytes of the
/// frames. No byte is dropped or counted twice.
pub proof fn lemma_bitrates_conserve_bytes(
    frames: Seq<FrameView>,
    points: Seq<DataPointView>,
    duration: nat,
)
    requires
        forall|k: int| 0 <= k < frames.len() ==> 0 <= (#[trigger] frames[k]).timestamp_us < duration,
        points.len() == interval_count(duration, MICROS_PER_SECOND as nat),
        forall|b: int|
            0 <= b < points.len() ==> is_bucket_point(
                #[trigger] points[b],
                frames,
                MICROS_PER_SECOND as nat,
                b,
            ),
        8 * total_bytes(frames) <= u64::MAX,
    ensures
        bitrates_total(points, points.len() as int) == 8 * total_bytes(frames),
{
    lemma_bitrates_of_buckets(frames, points, points.len() as int);
    lemma_aggregation_conserves_bytes(frames, MICROS_PER_SECOND as nat, duration);
}

} // verus!
