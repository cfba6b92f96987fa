use seer::aggregate::BitrateDataPoint;
use seer::statistics::{calculate_statistics, detect_peaks, median_bitrate, peak_threshold};

fn point(seconds: u64, bitrate: u64) -> BitrateDataPoint {
    BitrateDataPoint { timestamp_us: seconds * 1_000_000, bitrate, frame_type: None }
}

fn series(values: &[(u64, u64)]) -> Vec<BitrateDataPoint> {
    values.iter().map(|(t, b)| point(*t, *b)).collect()
}

#[test]
fn test_calculate_statistics_empty() {
    let data: Vec<BitrateDataPoint> = vec![];
    let stats = calculate_statistics(&data);
    assert_eq!(stats.min_bitrate, 0);
    assert_eq!(stats.max_bitrate, 0);
    assert_eq!(stats.avg_bitrate, 0);
    assert_eq!(stats.median_bitrate, 0);
    assert_eq!(stats.variance, 0);
    assert_eq!(stats.total_frames, 0);
    assert!(stats.peak_intervals.is_empty());
}

#[test]
fn test_calculate_statistics_single_point() {
    let data = series(&[(0, 5000)]);
    let stats = calculate_statistics(&data);
    assert_eq!(stats.min_bitrate, 5000);
    assert_eq!(stats.max_bitrate, 5000);
    assert_eq!(stats.avg_bitrate, 5000);
    assert_eq!(stats.median_bitrate, 5000);
    assert_eq!(stats.variance, 0);
    assert_eq!(stats.total_frames, 1);
}

#[test]
fn test_calculate_statistics() {
    let data = series(&[(0, 1000), (1, 2000), (2, 3000)]);
    let stats = calculate_statistics(&data);
    assert_eq!(stats.min_bitrate, 1000);
    assert_eq!(stats.max_bitrate, 3000);
    assert_eq!(stats.avg_bitrate, 2000);
    assert_eq!(stats.median_bitrate, 2000);
    assert_eq!(stats.total_frames, 3);
    assert!(stats.variance > 0);
    assert_eq!(stats.variance, 666_666);
    let deviation = (stats.variance as f64).sqrt();
    assert!(deviation > 816.0 && deviation < 817.0);
}

#[test]
fn test_calculate_statistics_median_even() {
    let data = series(&[(0, 1000), (1, 2000), (2, 3000), (3, 4000)]);
    let stats = calculate_statistics(&data);
    assert_eq!(stats.median_bitrate, 2500);
}

#[test]
fn test_calculate_statistics_median_odd() {
    let data = series(&[(0, 1000), (1, 5000), (2, 3000)]);
    let stats = calculate_statistics(&data);
    assert_eq!(stats.median_bitrate, 3000);
}

#[test]
fn test_calculate_statistics_no_peaks() {
    let data = series(&[(0, 1000), (1, 1100), (2, 1200)]);
    let stats = calculate_statistics(&data);
    assert!(stats.peak_intervals.is_empty());
}

fn plateau(from: u64, to: u64, bitrate: u64, data: &mut Vec<BitrateDataPoint>) {
    for i in from..to {
        data.push(point(i, bitrate));
    }
}

#[test]
fn test_calculate_statistics_single_peak() {
    let mut data = vec![];
    plateau(0, 10, 1000, &mut data);
    plateau(10, 16, 5000, &mut data);
    plateau(16, 20, 1000, &mut data);
    let stats = calculate_statistics(&data);
    assert_eq!(stats.avg_bitrate, 2200);
    assert_eq!(stats.peak_intervals.len(), 1);
    assert_eq!(stats.peak_intervals[0].start_us, 10_000_000);
    assert_eq!(stats.peak_intervals[0].end_us, 16_000_000);
    assert!(stats.peak_intervals[0].duration_us > 5_000_000);
    assert_eq!(stats.peak_intervals[0].duration_us, 6_000_000);
    assert_eq!(stats.peak_intervals[0].peak_bitrate, 5000);
}

#[test]
fn test_calculate_statistics_short_peak_ignored() {
    let data = series(&[(0, 1000), (1, 5000), (2, 5000), (3, 1000)]);
    let stats = calculate_statistics(&data);
    assert!(stats.peak_intervals.is_empty());
}

#[test]
fn test_calculate_statistics_multiple_peaks() {
    let mut data = vec![];
    plateau(0, 10, 1000, &mut data);
    plateau(10, 16, 5000, &mut data);
    plateau(16, 20, 1000, &mut data);
    plateau(20, 26, 6000, &mut data);
    plateau(26, 30, 1000, &mut data);
    let stats = calculate_statistics(&data);
    assert_eq!(stats.avg_bitrate, 2800);
    assert_eq!(stats.peak_intervals.len(), 2);
    assert!(stats.peak_intervals[0].duration_us > 5_000_000);
    assert!(stats.peak_intervals[1].duration_us > 5_000_000);
    assert_eq!(stats.peak_intervals[0].peak_bitrate, 5000);
    assert_eq!(stats.peak_intervals[1].peak_bitrate, 6000);
}

#[test]
fn test_open_peak_is_not_reported() {
    let mut data = vec![];
    plateau(0, 10, 1000, &mut data);
    plateau(10, 20, 5000, &mut data);
    let stats = calculate_statistics(&data);
    assert_eq!(stats.avg_bitrate, 3000);
    assert!(stats.peak_intervals.is_empty());
}

#[test]
fn test_peak_of_exactly_five_seconds_is_ignored() {
    let mut data = vec![];
    plateau(0, 10, 1000, &mut data);
    plateau(10, 15, 9000, &mut data);
    plateau(15, 20, 1000, &mut data);
    let peaks = detect_peaks(&data, 4000);
    assert!(peaks.is_empty());
}

#[test]
fn test_peak_keeps_highest_bitrate_of_run() {
    let data = series(&[(0, 10), (1, 500), (4, 900), (6, 700), (8, 10), (9, 10)]);
    let peaks = detect_peaks(&data, 100);
    assert_eq!(peaks.len(), 1);
    assert_eq!(peaks[0].start_us, 1_000_000);
    assert_eq!(peaks[0].end_us, 8_000_000);
    assert_eq!(peaks[0].peak_bitrate, 900);
    assert_eq!(peaks[0].duration_us, 7_000_000);
}

#[test]
fn test_peak_threshold_values() {
    assert_eq!(peak_threshold(2200), 3300);
    assert_eq!(peak_threshold(3), 4);
    assert_eq!(peak_threshold(0), 0);
    assert_eq!(peak_threshold(u64::MAX), u64::MAX);
}

#[test]
fn test_statistics_sanity_on_values() {
    let data = series(&[(0, 7), (1, 1), (2, 9), (3, 3), (4, 3), (5, 8)]);
    let stats = calculate_statistics(&data);
    assert_eq!(stats.min_bitrate, 1);
    assert_eq!(stats.max_bitrate, 9);
    assert_eq!(stats.avg_bitrate, 5);
    assert_eq!(stats.median_bitrate, 5);
    assert!(stats.min_bitrate <= stats.median_bitrate && stats.median_bitrate <= stats.max_bitrate);
    assert!(stats.min_bitrate <= stats.avg_bitrate && stats.avg_bitrate <= stats.max_bitrate);
    assert_eq!(median_bitrate(&vec![9, 1, 5]), 5);
    assert_eq!(median_bitrate(&vec![u64::MAX, u64::MAX]), u64::MAX);
}

#[test]
fn test_constant_series_has_no_variance() {
    let data = series(&[(0, 4242), (1, 4242), (2, 4242), (3, 4242)]);
    let stats = calculate_statistics(&data);
    assert_eq!(stats.variance, 0);
    assert_eq!(stats.min_bitrate, 4242);
    assert_eq!(stats.max_bitrate, 4242);
    assert_eq!(stats.avg_bitrate, 4242);
    assert_eq!(stats.median_bitrate, 4242);
}
