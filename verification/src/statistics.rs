//! Summary statistics of a bitrate series and detection of peak intervals.
//!
//! Average and median are integer divisions. The variance is the population
//! variance of the series around its integer average, rounded down. A peak
//! is a run of consecutive points above one and a half times the average
//! that is closed by a point at or below that threshold more than five
//! seconds after the run began; a run that is still open at the end of the
//! series is not a peak.

use crate::aggregate::{point_views, BitrateDataPoint, DataPointView};
use vstd::prelude::*;
use vstd::relations::{sorted_by, total_ordering};
use vstd::seq_lib::{group_to_multiset_ensures, lemma_sorted_unique};

verus! {

/// A run above the threshold must last longer than this to count as a peak.
pub const MIN_PEAK_DURATION_US: u64 = 5_000_000;

/// A span of time in which the bitrate stayed above the peak threshold.
#[derive(Debug, Clone, Copy, PartialEq, Eq, Structural)]
pub struct PeakInterval {
    /// Time of the first point of the run, in microseconds.
    pub start_us: u64,
    /// Time of the point that closed the run, in microseconds.
    pub end_us: u64,
    /// Highest bitrate within the run.
    pub peak_bitrate: u64,
    /// `end_us - start_us`.
    pub duration_us: u64,
}

/// Summary of a bitrate series.
#[derive(Debug)]
pub struct BitrateStatistics {
    pub min_bitrate: u64,
    pub max_bitrate: u64,
    pub avg_bitrate: u64,
    pub median_bitrate: u64,
    /// Population variance around `avg_bitrate`, rounded down, capped at the
    /// largest 128-bit value.
    pub variance: u128,
    pub peak_intervals: Vec<PeakInterval>,
    /// Number of points in the series.
    pub total_frames: usize,
}

/// Mathematical value of a [`BitrateStatistics`].
pub struct StatisticsView {
    pub min_bitrate: nat,
    pub max_bitrate: nat,
    pub avg_bitrate: nat,
    pub median_bitrate: nat,
    pub variance: nat,
    pub peak_intervals: Seq<PeakInterval>,
    pub total_frames: nat,
}

impl View for BitrateStatistics {
    type V = StatisticsView;

    open spec fn view(&self) -> StatisticsView {
        StatisticsView {
            min_bitrate: self.min_bitrate as nat,
            max_bitrate: self.max_bitrate as nat,
            avg_bitrate: self.avg_bitrate as nat,
            median_bitrate: self.median_bitrate as nat,
            variance: self.variance as nat,
            peak_intervals: self.peak_intervals@,
            total_frames: self.total_frames as nat,
        }
    }
}

/// The bitrates of a series, in order.
pub open spec fn bitrates_of(points: Seq<DataPointView>) -> Seq<u64> {
    points.map_values(|p: DataPointView| p.bitrate as u64)
}

/// The order on bitrates.
pub open spec fn at_most() -> spec_fn(u64, u64) -> bool {
    |a: u64, b: u64| a <= b
}

/// Sum of the first `n` values.
pub open spec fn sum_of(values: Seq<u64>, n: int) -> nat
    decreases n,
{
    if n <= 0 {
        0
    } else {
        sum_of(values, n - 1) + values[n - 1] as nat
    }
}

/// Smallest of the first `n` values; zero if `n` is zero.
pub open spec fn min_of(values: Seq<u64>, n: int) -> nat
    decreases n,
{
    if n <= 0 {
        0
    } else if n == 1 {
        values[0] as nat
    } else if values[n - 1] < min_of(values, n - 1) {
        values[n - 1] as nat
    } else {
        min_of(values, n - 1)
    }
}

/// Largest of the first `n` values; zero if `n` is zero.
pub open spec fn max_of(values: Seq<u64>, n: int) -> nat
    decreases n,
{
    if n <= 0 {
        0
    } else if values[n - 1] > max_of(values, n - 1) {
        values[n - 1] as nat
    } else {
        max_of(values, n - 1)
    }
}

/// Integer average of a series; zero for the empty series.
pub open spec fn average_of(values: Seq<u64>) -> nat {
    if values.len() == 0 {
        0
    } else {
        sum_of(values, values.len() as int) / values.len()
    }
}

/// Median of a series that is already in ascending order: the middle value,
/// or the integer average of the two middle values.
pub open spec fn median_of_sorted(sorted: Seq<u64>) -> nat {
    let n = sorted.len() as int;
    if n == 0 {
        0
    } else if n % 2 == 0 {
        (sorted[n / 2 - 1] as nat + sorted[n / 2] as nat) / 2
    } else {
        sorted[n / 2] as nat
    }
}

/// Median of a series.
pub open spec fn median_of(values: Seq<u64>) -> nat {
    median_of_sorted(values.sort_by(at_most()))
}

/// Sum of the squared distances of the first `n` values from `center`.
pub open spec fn squared_deviations(values: Seq<u64>, center: nat, n: int) -> nat
    decreases n,
{
    if n <= 0 {
        0
    } else {
        let d = values[n - 1] as int - center as int;
        squared_deviations(values, center, n - 1) + (d * d) as nat
    }
}

/// `value`, or the largest 128-bit value if `value` is larger.
pub open spec fn capped_u128(value: nat) -> nat {
    if value > u128::MAX {
        u128::MAX as nat
    } else {
        value
    }
}

/// Population variance of a series around its integer average, rounded
/// down; the sum of squares is capped at the largest 128-bit value.
pub open spec fn variance_of(values: Seq<u64>) -> nat {
    if values.len() == 0 {
        0
    } else {
        capped_u128(squared_deviations(values, average_of(values), values.len() as int))
            / values.len()
    }
}

/// One and a half times `average`, rounded down, capped at the largest
/// 64-bit value.
pub open spec fn peak_threshold_of(average: nat) -> nat {
    let exact = average + average / 2;
    if exact > u64::MAX {
        u64::MAX as nat
    } else {
        exact
    }
}

/// State of the left-to-right scan for peaks.
pub struct PeakScan {
    /// Whether the last point seen was above the threshold.
    pub in_peak: bool,
    /// Time of the first point of the current run.
    pub start_us: u64,
    /// Highest bitrate of the current run.
    pub peak_bitrate: u64,
    /// Peaks recorded so far, in time order.
    pub found: Seq<PeakInterval>,
}

/// Scan state before any point was seen.
pub open spec fn scan_start() -> PeakScan {
    PeakScan { in_peak: false, start_us: 0, peak_bitrate: 0, found: Seq::empty() }
}

/// Scan state after seeing one more point.
pub open spec fn scan_step(state: PeakScan, point: DataPointView, threshold: nat) -> PeakScan {
    let time = point.timestamp_us as u64;
    let rate = point.bitrate as u64;
    if rate > threshold {
        if state.in_peak {
            PeakScan {
                peak_bitrate: if rate > state.peak_bitrate {
                    rate
                } else {
                    state.peak_bitrate
                },
                ..state
            }
        } else {
            PeakScan { in_peak: true, start_us: time, peak_bitrate: rate, ..state }
        }
    } else if state.in_peak {
        if time > state.start_us && time - state.start_us > MIN_PEAK_DURATION_US {
            PeakScan {
                in_peak: false,
                found: state.found.push(
                    PeakInterval {
                        start_us: state.start_us,
                        end_us: time,
                        peak_bitrate: state.peak_bitrate,
                        duration_us: (time - state.start_us) as u64,
                    },
                ),
                ..state
            }
        } else {
            PeakScan { in_peak: false, ..state }
        }
    } else {
        state
    }
}

/// Scan state after seeing the first `n` points.
pub open spec fn scan_prefix(points: Seq<DataPointView>, threshold: nat, n: int) -> PeakScan
    decreases n,
{
    if n <= 0 {
        scan_start()
    } else {
        scan_step(scan_prefix(points, threshold, n - 1), points[n - 1], threshold)
    }
}

/// The peaks of a series for a given threshold, in time order.
pub open spec fn peaks_of(points: Seq<DataPointView>, threshold: nat) -> Seq<PeakInterval> {
    scan_prefix(points, threshold, points.len() as int).found
}

/// Whether every point of the series fits the executable representation.
pub open spec fn representable(points: Seq<DataPointView>) -> bool {
    forall|i: int|
        0 <= i < points.len() ==> (#[trigger] points[i]).bitrate <= u64::MAX
            && points[i].timestamp_us <= u64::MAX
}

/// The statistics of a series. The empty series has all-zero statistics and
/// no peaks.
pub open spec fn statistics_of(points: Seq<DataPointView>) -> StatisticsView {
    let values = bitrates_of(points);
    let n = values.len() as int;
    StatisticsView {
        min_bitrate: min_of(values, n),
        max_bitrate: max_of(values, n),
        avg_bitrate: average_of(values),
        median_bitrate: median_of(values),
        variance: variance_of(values),
        peak_intervals: if n == 0 {
            Seq::empty()
        } else {
            peaks_of(points, peak_threshold_of(average_of(values)))
        },
        total_frames: points.len(),
    }
}

/// Largest bitrate among points `from..to`.
pub open spec fn run_max(points: Seq<DataPointView>, from: int, to: int) -> nat
    decreases to - from,
{
    if to <= from {
        0
    } else if to == from + 1 {
        points[from].bitrate
    } else if points[to - 1].bitrate > run_max(points, from, to - 1) {
        points[to - 1].bitrate
    } else {
        run_max(points, from, to - 1)
    }
}

/// Whether points `from..to` are a run above the threshold that starts right
/// after a point at or below it (or at the start of the series).
pub open spec fn is_open_run(points: Seq<DataPointView>, threshold: nat, from: int, to: int) -> bool {
    &&& 0 <= from < to <= points.len()
    &&& forall|k: int| from <= k < to ==> (#[trigger] points[k]).bitrate > threshold
    &&& from > 0 ==> points[from - 1].bitrate <= threshold
}

/// Whether `peak` reports the maximal run `from..to`, closed by point `to`.
pub open spec fn is_peak_run(
    points: Seq<DataPointView>,
    threshold: nat,
    peak: PeakInterval,
    from: int,
    to: int,
) -> bool {
    &&& is_open_run(points, threshold, from, to)
    &&& to < points.len()
    &&& points[to].bitrate <= threshold
    &&& peak.start_us == points[from].timestamp_us
    &&& peak.end_us == points[to].timestamp_us
    &&& peak.peak_bitrate == run_max(points, from, to)
    &&& peak.duration_us == peak.end_us - peak.start_us
    &&& peak.end_us > peak.start_us
    &&& peak.duration_us > MIN_PEAK_DURATION_US
    &&& peak.peak_bitrate > threshold
}

/// A run's maximum is above the threshold when all of its points are.
proof fn lemma_run_max_above(points: Seq<DataPointView>, threshold: nat, from: int, to: int)
    requires
        0 <= from < to <= points.len(),
        forall|k: int| from <= k < to ==> (#[trigger] points[k]).bitrate > threshold,
    ensures
        run_max(points, from, to) > threshold,
    decreases to - from,
{
    if to > from + 1 {
        lemma_run_max_above(points, threshold, from, to - 1);
    }
}

/// Whether `peak` reports a maximal run that was closed before point `n`.
pub open spec fn reports_closed_run(
    points: Seq<DataPointView>,
    threshold: nat,
    peak: PeakInterval,
    n: int,
) -> bool {
    exists|from: int, to: int| to < n && #[trigger] is_peak_run(points, threshold, peak, from, to)
}

/// Whether the scan state tracks the run `from..n` that is still open.
pub open spec fn tracks_open_run(
    points: Seq<DataPointView>,
    threshold: nat,
    state: PeakScan,
    from: int,
    n: int,
) -> bool {
    &&& is_open_run(points, threshold, from, n)
    &&& state.start_us == points[from].timestamp_us
    &&& state.peak_bitrate == run_max(points, from, n)
}

/// What the scan knows after `n` points: every recorded peak reports a
/// maximal run that was closed, and while a run is open the scan holds its
/// start time and its maximum so far.
proof fn lemma_scan_invariant(points: Seq<DataPointView>, threshold: nat, n: int)
    requires
        0 <= n <= points.len(),
        representable(points),
    ensures
        forall|p: int|
            0 <= p < scan_prefix(points, threshold, n).found.len() ==> reports_closed_run(
                points,
                threshold,
                #[trigger] scan_prefix(points, threshold, n).found[p],
                n,
            ),
        scan_prefix(points, threshold, n).in_peak ==> exists|from: int| #[trigger]
            tracks_open_run(points, threshold, scan_prefix(points, threshold, n), from, n),
    decreases n,
{
    if n > 0 {
        lemma_scan_invariant(points, threshold, n - 1);
        let before = scan_prefix(points, threshold, n - 1);
        let after = scan_prefix(points, threshold, n);
        assert forall|p: int| 0 <= p < after.found.len() implies reports_closed_run(
            points,
            threshold,
            #[trigger] after.found[p],
            n,
        ) by {
            if p < before.found.len() {
                assert(after.found[p] == before.found[p]);
                assert(reports_closed_run(points, threshold, before.found[p], n - 1));
                let (from, to) = choose|from: int, to: int|
                    to < n - 1 && #[trigger] is_peak_run(
                        points,
                        threshold,
                        before.found[p],
                        from,
                        to,
                    );
                assert(to < n && is_peak_run(points, threshold, after.found[p], from, to));
            } else {
                let from = choose|from: int| #[trigger]
                    tracks_open_run(points, threshold, before, from, n - 1);
                lemma_run_max_above(points, threshold, from, n - 1);
                assert(n - 1 < n && is_peak_run(points, threshold, after.found[p], from, n - 1));
            }
        }
        if after.in_peak {
            if before.in_peak {
                let from = choose|from: int| #[trigger]
                    tracks_open_run(points, threshold, before, from, n - 1);
                assert(tracks_open_run(points, threshold, after, from, n));
            } else {
                assert(tracks_open_run(points, threshold, after, n - 1, n));
            }
        }
    }
}

/// Peak closure: every peak that the scan reports ends after it starts,
/// lasts longer than the minimum duration, reaches above the threshold, and
/// covers exactly one maximal run of points above the threshold together
/// with the point that closed it.
pub proof fn lemma_peaks_are_closed_runs(points: Seq<DataPointView>, threshold: nat, p: int)
    requires
        representable(points),
        0 <= p < peaks_of(points, threshold).len(),
    ensures
        peaks_of(points, threshold)[p].end_us > peaks_of(points, threshold)[p].start_us,
        peaks_of(points, threshold)[p].end_us - peaks_of(points, threshold)[p].start_us
            > MIN_PEAK_DURATION_US,
        peaks_of(points, threshold)[p].peak_bitrate > threshold,
        reports_closed_run(
            points,
            threshold,
            peaks_of(points, threshold)[p],
            points.len() as int,
        ),
{
    lemma_scan_invariant(points, threshold, points.len() as int);
    let peak = peaks_of(points, threshold)[p];
    assert(reports_closed_run(points, threshold, peak, points.len() as int));
    let (from, to) = choose|from: int, to: int|
        to < points.len() && #[trigger] is_peak_run(points, threshold, peak, from, to);
    assert(is_peak_run(points, threshold, peak, from, to));
}

/// The smallest and the largest of the first `n` values bound each of them,
/// and `n` times each bounds their sum.
pub proof fn lemma_min_max_bounds(values: Seq<u64>, n: int)
    requires
        0 < n <= values.len(),
    ensures
        forall|i: int| 0 <= i < n ==> min_of(values, n) <= #[trigger] values[i] <= max_of(values, n),
        exists|i: int| 0 <= i < n && values[i] == min_of(values, n),
        exists|i: int| 0 <= i < n && values[i] == max_of(values, n),
        n * min_of(values, n) <= sum_of(values, n) <= n * max_of(values, n),
    decreases n,
{
    if n == 1 {
        assert(sum_of(values, 1) == sum_of(values, 0) + values[0] as nat);
        assert(max_of(values, 0) == 0);
        assert(values[0] == min_of(values, n));
        assert(values[0] == max_of(values, n));
    } else {
        lemma_min_max_bounds(values, n - 1);
        let lo = min_of(values, n - 1) as int;
        let hi = max_of(values, n - 1) as int;
        let i_lo = choose|i: int| 0 <= i < n - 1 && values[i] == min_of(values, n - 1);
        let i_hi = choose|i: int| 0 <= i < n - 1 && values[i] == max_of(values, n - 1);
        if values[n - 1] < lo {
            assert(values[n - 1] == min_of(values, n));
        } else {
            assert(values[i_lo] == min_of(values, n));
        }
        if values[n - 1] > hi {
            assert(values[n - 1] == max_of(values, n));
        } else {
            assert(values[i_hi] == max_of(values, n));
        }
        let new_lo = min_of(values, n) as int;
        let new_hi = max_of(values, n) as int;
        assert(n * new_lo <= (n - 1) * lo + values[n - 1]) by (nonlinear_arith)
            requires
                new_lo <= lo,
                new_lo <= values[n - 1],
                n >= 1,
        ;
        assert((n - 1) * hi + values[n - 1] <= n * new_hi) by (nonlinear_arith)
            requires
                hi <= new_hi,
                values[n - 1] <= new_hi,
                n >= 1,
        ;
    }
}

/// Statistics sanity: for a series that is not empty the average and the
/// median lie between the smallest and the largest bitrate.
pub proof fn lemma_statistics_sanity(values: Seq<u64>)
    requires
        values.len() > 0,
    ensures
        min_of(values, values.len() as int) <= average_of(values) <= max_of(
            values,
            values.len() as int,
        ),
        min_of(values, values.len() as int) <= median_of(values) <= max_of(
            values,
            values.len() as int,
        ),
{
    broadcast use group_to_multiset_ensures;

    let n = values.len() as int;
    let lo = min_of(values, n) as int;
    let hi = max_of(values, n) as int;
    let sum = sum_of(values, n) as int;
    lemma_min_max_bounds(values, n);
    assert(lo <= sum / n <= hi) by (nonlinear_arith)
        requires
            n > 0,
            n * lo <= sum <= n * hi,
    ;
    lemma_at_most_is_total();
    values.lemma_sort_by_ensures(at_most());
    let sorted = values.sort_by(at_most());
    assert(sorted.len() == n) by {
        assert(sorted.to_multiset().len() == values.to_multiset().len());
    }
    assert forall|k: int| 0 <= k < n implies lo <= #[trigger] sorted[k] <= hi by {
        assert(sorted.contains(sorted[k]));
        assert(values.contains(sorted[k]));
        let i = choose|i: int| 0 <= i < values.len() && values[i] == sorted[k];
        assert(lo <= values[i] <= hi);
    }
    if n % 2 == 0 {
        assert(lo <= sorted[n / 2 - 1] <= hi);
        assert(lo <= sorted[n / 2] <= hi);
    } else {
        assert(lo <= sorted[n / 2] <= hi);
    }
}

/// The order on bitrates is a total order.
pub proof fn lemma_at_most_is_total()
    ensures
        total_ordering(at_most()),
{
    let leq = at_most();
    assert(vstd::relations::reflexive(leq));
    assert(vstd::relations::antisymmetric(leq));
    assert(vstd::relations::transitive(leq));
    assert(vstd::relations::strongly_connected(leq));
}

/// Statistics sanity: a series that consists of one value repeated has that
/// value as its smallest, largest, average and median bitrate, and its
/// variance is zero.
pub proof fn lemma_constant_series(values: Seq<u64>, value: u64)
    requires
        values.len() > 0,
        forall|i: int| 0 <= i < values.len() ==> #[trigger] values[i] == value,
    ensures
        min_of(values, values.len() as int) == value,
        max_of(values, values.len() as int) == value,
        average_of(values) == value,
        median_of(values) == value,
        variance_of(values) == 0,
{
    let n = values.len() as int;
    lemma_min_max_bounds(values, n);
    lemma_statistics_sanity(values);
    lemma_constant_deviations(values, value, n);
}

/// A series of one repeated value has no deviation from that value.
proof fn lemma_constant_deviations(values: Seq<u64>, value: u64, n: int)
    requires
        0 <= n <= values.len(),
        forall|i: int| 0 <= i < values.len() ==> #[trigger] values[i] == value,
    ensures
        squared_deviations(values, value as nat, n) == 0,
    decreases n,
{
    if n > 0 {
        lemma_constant_deviations(values, value, n - 1);
        assert(values[n - 1] == value);
        let d = values[n - 1] as int - value as nat as int;
        assert(d * d == 0) by (nonlinear_arith)
            requires
                d == 0,
        ;
    }
}

/// Whether values are in ascending order.
pub open spec fn ascending(values: Seq<u64>) -> bool {
    forall|i: int, j: int| 0 <= i < j < values.len() ==> values[i] <= values[j]
}

/// A copy of the values `from..to`.
fn copy_values(values: &Vec<u64>, from: usize, to: usize) -> (part: Vec<u64>)
    requires
        from <= to <= values.len(),
    ensures
        part@ == values@.subrange(from as int, to as int),
{
    let mut part: Vec<u64> = Vec::new();
    let mut i: usize = from;
    while i < to
        invariant
            from <= i <= to <= values.len(),
            part@ == values@.subrange(from as int, i as int),
        decreases to - i,
    {
        part.push(values[i]);
        i += 1;
        assert(part@ =~= values@.subrange(from as int, i as int));
    }
    part
}

/// Merges two ascending series into one: the result is ascending and holds
/// the values of both, each as often as they do together.
fn merge_ascending(left: &Vec<u64>, right: &Vec<u64>) -> (merged: Vec<u64>)
    requires
        ascending(left@),
        ascending(right@),
    ensures
        ascending(merged@),
        merged@.to_multiset() == left@.to_multiset().add(right@.to_multiset()),
{
    broadcast use group_to_multiset_ensures;
    broadcast use vstd::multiset::group_multiset_axioms;

    let mut merged: Vec<u64> = Vec::new();
    let mut i: usize = 0;
    let mut j: usize = 0;
    assert(left@.take(0) =~= Seq::<u64>::empty());
    assert(right@.take(0) =~= Seq::<u64>::empty());
    assert(merged@.to_multiset() =~= left@.take(0).to_multiset().add(right@.take(0).to_multiset()));
    while i < left.len() || j < right.len()
        invariant
            i <= left.len(),
            j <= right.len(),
            ascending(left@),
            ascending(right@),
            ascending(merged@),
            forall|k: int|
                0 <= k < merged@.len() ==> (i < left.len() ==> #[trigger] merged@[k] <= left@[i as int])
                    && (j < right.len() ==> merged@[k] <= right@[j as int]),
            merged@.to_multiset() == left@.take(i as int).to_multiset().add(
                right@.take(j as int).to_multiset(),
            ),
        decreases left.len() - i + (right.len() - j),
    {
        let ghost before = merged@;
        let ghost taken_left = left@.take(i as int).to_multiset();
        let ghost taken_right = right@.take(j as int).to_multiset();
        if j >= right.len() || (i < left.len() && left[i] <= right[j]) {
            let value = left[i];
            merged.push(value);
            proof {
                assert(merged@ =~= before.push(value));
                assert(left@.take(i + 1) =~= left@.take(i as int).push(value));
                vstd::seq_lib::to_multiset_build(before, value);
                vstd::seq_lib::to_multiset_build(left@.take(i as int), value);
                assert(merged@.to_multiset() =~= before.to_multiset().insert(value));
                assert(left@.take(i + 1).to_multiset() =~= taken_left.insert(value));
                assert(taken_left.add(taken_right).insert(value) =~= taken_left.insert(value).add(
                    taken_right,
                ));
            }
            i += 1;
        } else {
            let value = right[j];
            merged.push(value);
            proof {
                assert(merged@ =~= before.push(value));
                assert(right@.take(j + 1) =~= right@.take(j as int).push(value));
                vstd::seq_lib::to_multiset_build(before, value);
                vstd::seq_lib::to_multiset_build(right@.take(j as int), value);
                assert(merged@.to_multiset() =~= before.to_multiset().insert(value));
                assert(right@.take(j + 1).to_multiset() =~= taken_right.insert(value));
                assert(taken_left.add(taken_right).insert(value) =~= taken_left.add(
                    taken_right.insert(value),
                ));
            }
            j += 1;
        }
    }
    assert(left@.take(i as int) =~= left@);
    assert(right@.take(j as int) =~= right@);
    merged
}

/// The values in ascending order: the same values, each as often as
/// before.
fn sort_ascending(values: &Vec<u64>) -> (sorted: Vec<u64>)
    ensures
        sorted_by(sorted@, at_most()),
        ascending(sorted@),
        sorted@.to_multiset() == values@.to_multiset(),
        sorted@.len() == values@.len(),
    decreases values.len(),
{
    broadcast use group_to_multiset_ensures;

    let n = values.len();
    if n <= 1 {
        let sorted = copy_values(values, 0, n);
        assert(sorted@ =~= values@);
        return sorted;
    }
    let middle = n / 2;
    let left = copy_values(values, 0, middle);
    let right = copy_values(values, middle, n);
    let sorted_left = sort_ascending(&left);
    let sorted_right = sort_ascending(&right);
    let sorted = merge_ascending(&sorted_left, &sorted_right);
    proof {
        assert(values@ =~= left@ + right@);
        vstd::seq_lib::lemma_multiset_commutative(left@, right@);
        assert(sorted@.to_multiset() =~= values@.to_multiset());
        assert(sorted@.to_multiset().len() == values@.to_multiset().len());
    }
    sorted
}

/// The bitrates of a series, in order.
pub fn collect_bitrates(points: &Vec<BitrateDataPoint>) -> (values: Vec<u64>)
    ensures
        values@ == bitrates_of(point_views(points@)),
{
    let mut values: Vec<u64> = Vec::new();
    let mut i: usize = 0;
    while i < points.len()
        invariant
            i <= points.len(),
            values@.len() == i,
            forall|k: int| 0 <= k < i ==> #[trigger] values@[k] == points@[k].bitrate,
        decreases points.len() - i,
    {
        values.push(points[i].bitrate);
        i += 1;
    }
    assert(values@ =~= bitrates_of(point_views(points@)));
    values
}

/// Median of a series.
pub fn median_bitrate(values: &Vec<u64>) -> (median: u64)
    ensures
        median == median_of(values@),
{
    let n = values.len();
    if n == 0 {
        proof {
            broadcast use group_to_multiset_ensures;

            lemma_at_most_is_total();
            values@.lemma_sort_by_ensures(at_most());
            assert(values@.sort_by(at_most()).to_multiset().len() == values@.to_multiset().len());
        }
        return 0;
    }
    let sorted = sort_ascending(values);
    proof {
        broadcast use group_to_multiset_ensures;

        lemma_at_most_is_total();
        values@.lemma_sort_by_ensures(at_most());
        lemma_sorted_unique(sorted@, values@.sort_by(at_most()), at_most());
    }
    if n % 2 == 0 {
        let low = sorted[n / 2 - 1] as u128;
        let high = sorted[n / 2] as u128;
        ((low + high) / 2) as u64
    } else {
        sorted[n / 2]
    }
}

/// One and a half times `average`, rounded down, capped at the largest
/// 64-bit value.
pub fn peak_threshold(average: u64) -> (threshold: u64)
    ensures
        threshold == peak_threshold_of(average as nat),
{
    let exact: u128 = average as u128 + (average / 2) as u128;
    if exact > u64::MAX as u128 {
        u64::MAX
    } else {
        exact as u64
    }
}

/// The peaks of a series for a given threshold, in time order.
pub fn detect_peaks(points: &Vec<BitrateDataPoint>, threshold: u64) -> (peaks: Vec<PeakInterval>)
    ensures
        peaks@ == peaks_of(point_views(points@), threshold as nat),
{
    let ghost views = point_views(points@);
    let mut peaks: Vec<PeakInterval> = Vec::new();
    let mut in_peak = false;
    let mut start_us: u64 = 0;
    let mut peak_bitrate: u64 = 0;
    let mut i: usize = 0;
    while i < points.len()
        invariant
            i <= points.len(),
            views == point_views(points@),
            scan_prefix(views, threshold as nat, i as int) == (PeakScan {
                in_peak,
                start_us,
                peak_bitrate,
                found: peaks@,
            }),
        decreases points.len() - i,
    {
        let time = points[i].timestamp_us;
        let rate = points[i].bitrate;
        assert(views[i as int] == points@[i as int]@);
        if rate > threshold {
            if in_peak {
                if rate > peak_bitrate {
                    peak_bitrate = rate;
                }
            } else {
                in_peak = true;
                start_us = time;
                peak_bitrate = rate;
            }
        } else if in_peak {
            if time > start_us && time - start_us > MIN_PEAK_DURATION_US {
                peaks.push(
                    PeakInterval {
                        start_us,
                        end_us: time,
                        peak_bitrate,
                        duration_us: time - start_us,
                    },
                );
            }
            in_peak = false;
        }
        i += 1;
    }
    peaks
}

/// Computes the statistics of a bitrate series.
pub fn calculate_statistics(data_points: &Vec<BitrateDataPoint>) -> (stats: BitrateStatistics)
    ensures
        stats@ == statistics_of(point_views(data_points@)),
{
    let ghost views = point_views(data_points@);
    let ghost series = bitrates_of(views);
    let values = collect_bitrates(data_points);
    let n = values.len();
    if n == 0 {
        let median = median_bitrate(&values);
        let stats = BitrateStatistics {
            min_bitrate: 0,
            max_bitrate: 0,
            avg_bitrate: 0,
            median_bitrate: median,
            variance: 0,
            peak_intervals: Vec::new(),
            total_frames: 0,
        };
        assert(stats@.peak_intervals =~= Seq::<PeakInterval>::empty());
        return stats;
    }
    let mut min_bitrate: u64 = values[0];
    let mut max_bitrate: u64 = values[0];
    let mut sum: u128 = values[0] as u128;
    let mut i: usize = 1;
    assert(sum_of(series, 1) == sum_of(series, 0) + series[0] as nat);
    assert(max_of(series, 1) == series[0]) by {
        assert(max_of(series, 0) == 0);
    }
    while i < n
        invariant
            1 <= i <= n,
            n == values.len(),
            values@ == series,
            min_bitrate == min_of(series, i as int),
            max_bitrate == max_of(series, i as int),
            sum == sum_of(series, i as int),
            sum <= i * u64::MAX,
        decreases n - i,
    {
        let value = values[i];
        if value < min_bitrate {
            min_bitrate = value;
        }
        if value > max_bitrate {
            max_bitrate = value;
        }
        assert((i + 1) * u64::MAX <= usize::MAX * u64::MAX) by (nonlinear_arith)
            requires
                i < usize::MAX,
        ;
        assert(usize::MAX * u64::MAX <= u64::MAX * u64::MAX) by (nonlinear_arith)
            requires
                usize::MAX <= u64::MAX,
        ;
        assert(i * u64::MAX + u64::MAX == (i + 1) * u64::MAX) by (nonlinear_arith);
        sum = sum + value as u128;
        i += 1;
    }
    proof {
        lemma_min_max_bounds(series, n as int);
        lemma_statistics_sanity(series);
    }
    let avg_bitrate = (sum / n as u128) as u64;
    let median = median_bitrate(&values);
    let mut squares: u128 = 0;
    let mut i: usize = 0;
    while i < n
        invariant
            i <= n,
            n == values.len(),
            values@ == series,
            squares == capped_u128(squared_deviations(series, avg_bitrate as nat, i as int)),
        decreases n - i,
    {
        let value = values[i];
        let distance: u128 = if value > avg_bitrate {
            (value - avg_bitrate) as u128
        } else {
            (avg_bitrate - value) as u128
        };
        assert(distance * distance <= u64::MAX * u64::MAX) by (nonlinear_arith)
            requires
                0 <= distance <= u64::MAX,
        ;
        let square: u128 = distance * distance;
        proof {
            let d = value as int - avg_bitrate as int;
            assert(d * d == distance * distance) by (nonlinear_arith)
                requires
                    d == distance || d == -distance,
            ;
        }
        squares = if squares > u128::MAX - square {
            u128::MAX
        } else {
            squares + square
        };
        i += 1;
    }
    let variance = squares / n as u128;
    let threshold = peak_threshold(avg_bitrate);
    let peak_intervals = detect_peaks(data_points, threshold);
    BitrateStatistics {
        min_bitrate,
        max_bitrate,
        avg_bitrate,
        median_bitrate: median,
        variance,
        peak_intervals,
        total_frames: data_points.len(),
    }
}

} // verus!
