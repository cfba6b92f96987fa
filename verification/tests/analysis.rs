use seer::aggregate::FrameRecord;
use seer::analysis::{
    admitted_job, analysis_duration, assemble_overall_analysis, assemble_stream_analysis,
    checkpoint, combine_intervals, find_stream, plan_intervals, select_analysis_streams, share_ppm,
    stream_buckets_of, totals_fit, AnalysisError, StreamBuckets,
};
use seer::jobs::JobStartResult;
use seer::probe::{
    frame_probe_arguments, metadata_probe_arguments, next_poll_action, packet_probe_arguments,
    probe_timeout_secs, ChildPoll, ErrorKind, PollAction, ProbeError, ProbeMode,
};
use seer::progress::{
    estimate_remaining_ms, job_progress_of, overall_progress, stream_progress, OverallStage,
    StreamStage, StreamTally,
};
use seer::streams::{StreamInfo, StreamType};

fn stream(index: i32, stream_type: StreamType) -> StreamInfo {
    StreamInfo {
        index,
        stream_type,
        codec_name: None,
        codec_long_name: None,
        language: None,
        title: None,
        is_default: false,
        is_forced: false,
        is_hearing_impaired: false,
        is_visual_impaired: false,
        is_commentary: false,
        is_lyrics: false,
        is_karaoke: false,
        is_cover_art: false,
        width: None,
        height: None,
        frame_rate: None,
        pixel_format: None,
        sample_rate: None,
        channels: None,
        channel_layout: None,
        bit_rate: None,
        subtitle_format: None,
        estimated_size: None,
    }
}

fn buckets(index: i32, kind: StreamType, codec: Option<&str>, intervals: &[u64]) -> StreamBuckets {
    StreamBuckets {
        stream_index: index,
        stream_type: kind,
        codec_name: codec.map(|c| c.to_string()),
        intervals: intervals.to_vec(),
    }
}

#[test]
fn test_select_and_find_streams() {
    let streams = vec![
        stream(0, StreamType::Video),
        stream(1, StreamType::Subtitle),
        stream(2, StreamType::Audio),
        stream(3, StreamType::Data),
        stream(2, StreamType::Video),
    ];
    let selected: Vec<(i32, StreamType)> =
        select_analysis_streams(&streams).iter().map(|s| (s.index, s.stream_type)).collect();
    assert_eq!(selected, vec![(0, StreamType::Video), (2, StreamType::Audio), (2, StreamType::Video)]);
    assert_eq!(find_stream(&streams, 2).unwrap().stream_type, StreamType::Audio);
    assert_eq!(find_stream(&streams, 3).unwrap().stream_type, StreamType::Data);
    let missing = find_stream(&streams, 9).unwrap_err();
    assert!(matches!(missing, AnalysisError::StreamNotFound));
    assert_eq!(missing.message(), "Stream not found");
}

#[test]
fn test_analysis_errors() {
    assert!(checkpoint(false).is_ok());
    let cancelled = checkpoint(true).unwrap_err();
    assert!(matches!(cancelled, AnalysisError::Cancelled));
    assert_eq!(cancelled.message(), "Analysis cancelled");
    assert_eq!(analysis_duration(Some(5)).unwrap(), 5);
    assert_eq!(analysis_duration(Some(-5)).unwrap(), 0);
    let none = analysis_duration(None).unwrap_err();
    assert_eq!(none.message(), "Could not determine duration");
    assert_eq!(admitted_job(JobStartResult::Started("a".to_string())).unwrap(), "a");
    assert_eq!(admitted_job(JobStartResult::Queued("b".to_string())).unwrap(), "b");
    let refused = admitted_job(JobStartResult::AlreadyExists("c".to_string())).unwrap_err();
    assert_eq!(
        refused.message(),
        "Analysis already queued or in progress for this file (job c)"
    );
    assert_eq!(AnalysisError::Probe(ProbeError::Timeout(300)).message(), "ffprobe timed out after 300 seconds");
    assert_eq!(AnalysisError::NoStreamsAnalyzed.message(), "Failed to analyze any streams in the file");
}

#[test]
fn test_assemble_stream_analysis() {
    let frames = vec![
        FrameRecord { timestamp_us: 500_000, size: 1000, frame_type: Some("I".to_string()) },
        FrameRecord { timestamp_us: 1_500_000, size: 2000, frame_type: None },
        FrameRecord { timestamp_us: 2_500_000, size: 3000, frame_type: None },
    ];
    let analysis = assemble_stream_analysis(
        "/m/a.mkv".to_string(),
        &stream(4, StreamType::Video),
        3_000_000,
        frames,
        1_000_000,
    );
    assert_eq!(analysis.path, "/m/a.mkv");
    assert_eq!(analysis.stream_index, 4);
    assert_eq!(analysis.stream_type, StreamType::Video);
    assert_eq!(analysis.duration_us, 3_000_000);
    let bitrates: Vec<u64> = analysis.data_points.iter().map(|p| p.bitrate).collect();
    assert_eq!(bitrates, vec![8000, 16000, 24000]);
    assert_eq!(analysis.data_points[0].frame_type, Some("I".to_string()));
    assert_eq!(analysis.statistics.avg_bitrate, 16000);
    assert_eq!(analysis.statistics.median_bitrate, 16000);
    assert_eq!(analysis.statistics.total_frames, 3);
}

#[test]
fn test_assemble_overall_analysis() {
    let results = vec![
        buckets(0, StreamType::Video, Some("h264"), &[3000, 0, 1000]),
        buckets(1, StreamType::Audio, None, &[500, 500, 0]),
    ];
    assert!(totals_fit(&results));
    assert_eq!(combine_intervals(&results, 3), vec![3500, 500, 1000]);
    let overall =
        assemble_overall_analysis("/m/a.mkv".to_string(), 2_500_000, 1_000_000, 3, results).unwrap();
    assert_eq!(overall.path, "/m/a.mkv");
    assert_eq!(overall.duration_us, 2_500_000);
    assert!(!overall.from_cache);
    let points: Vec<(u64, u64)> =
        overall.data_points.iter().map(|p| (p.timestamp_us, p.bitrate)).collect();
    assert_eq!(points, vec![(0, 28000), (1_000_000, 4000), (2_000_000, 8000)]);
    assert!(overall.data_points.iter().all(|p| p.frame_type.is_none()));
    assert_eq!(overall.statistics.min_bitrate, 4000);
    assert_eq!(overall.statistics.max_bitrate, 28000);
    assert_eq!(overall.statistics.avg_bitrate, 13333);
    assert_eq!(overall.statistics.median_bitrate, 8000);
    assert_eq!(overall.stream_contributions.len(), 2);
    let video = &overall.stream_contributions[0];
    assert_eq!((video.stream_index, video.stream_type), (0, StreamType::Video));
    assert_eq!(video.codec_name, "h264");
    assert_eq!(video.total_bytes, 4000);
    assert_eq!(video.share_ppm, 800_000);
    let video_rates: Vec<u64> = video.data_points.iter().map(|p| p.bitrate).collect();
    assert_eq!(video_rates, vec![24000, 0, 8000]);
    let audio = &overall.stream_contributions[1];
    assert_eq!(audio.codec_name, "");
    assert_eq!(audio.total_bytes, 1000);
    assert_eq!(audio.share_ppm, 200_000);
    assert_eq!(audio.data_points[1].timestamp_us, 1_000_000);
}

#[test]
fn test_assemble_overall_analysis_without_streams() {
    let error = assemble_overall_analysis("/m/a.mkv".to_string(), 1, 1, 1, vec![]).unwrap_err();
    assert!(matches!(error, AnalysisError::NoStreamsAnalyzed));
    let silent = assemble_overall_analysis(
        "/m/a.mkv".to_string(),
        2_000_000,
        1_000_000,
        2,
        vec![buckets(0, StreamType::Audio, Some("aac"), &[0, 0])],
    )
    .unwrap();
    assert_eq!(silent.stream_contributions[0].share_ppm, 0);
    assert_eq!(silent.statistics.max_bitrate, 0);
}

#[test]
fn test_shares_and_totals() {
    assert_eq!(share_ppm(1, 3), 333_333);
    assert_eq!(share_ppm(3, 3), 1_000_000);
    assert_eq!(share_ppm(0, 0), 0);
    assert_eq!(share_ppm(u64::MAX, u64::MAX), 1_000_000);
    assert!(totals_fit(&vec![]));
    assert!(totals_fit(&vec![buckets(0, StreamType::Audio, None, &[u64::MAX - 1]), buckets(1, StreamType::Audio, None, &[1])]));
    assert!(!totals_fit(&vec![buckets(0, StreamType::Audio, None, &[u64::MAX - 1]), buckets(1, StreamType::Audio, None, &[1, 1])]));
}

#[test]
fn test_probe_arguments() {
    assert_eq!(
        packet_probe_arguments(2, None, "/m/a b.mkv"),
        vec![
            "-v", "error", "-select_streams", "2", "-show_packets", "-show_entries",
            "packet=pts_time,dts_time,size,flags", "-of", "csv=p=0", "/m/a b.mkv"
        ]
    );
    assert_eq!(
        packet_probe_arguments(-1, Some("720%+30"), "x"),
        vec![
            "-v", "error", "-select_streams", "-1", "-read_intervals", "720%+30", "-show_packets",
            "-show_entries", "packet=pts_time,dts_time,size,flags", "-of", "csv=p=0", "x"
        ]
    );
    assert_eq!(
        frame_probe_arguments(0, "x"),
        vec![
            "-v", "error", "-select_streams", "0", "-show_frames", "-show_entries",
            "frame=best_effort_timestamp_time,pkt_pts_time,pts_time,pkt_dts_time,pkt_size,pict_type",
            "-of", "json", "x"
        ]
    );
    assert_eq!(
        metadata_probe_arguments("x"),
        vec!["-v", "quiet", "-print_format", "json", "-show_format", "-show_streams", "x"]
    );
}

#[test]
fn test_probe_deadlines() {
    assert_eq!(probe_timeout_secs(ProbeMode::Packets), 180);
    assert_eq!(probe_timeout_secs(ProbeMode::Frames), 300);
    assert!(matches!(
        next_poll_action(ProbeMode::Packets, 180_000, ChildPoll::Running),
        PollAction::SleepMillis(50)
    ));
    assert!(matches!(
        next_poll_action(ProbeMode::Frames, 0, ChildPoll::Running),
        PollAction::SleepMillis(100)
    ));
    assert!(matches!(
        next_poll_action(ProbeMode::Packets, 180_001, ChildPoll::Exited(true)),
        PollAction::KillAndFail(ProbeError::Timeout(180))
    ));
    assert!(matches!(
        next_poll_action(ProbeMode::Frames, 180_001, ChildPoll::Exited(false)),
        PollAction::Collect(false)
    ));
    assert!(matches!(
        next_poll_action(ProbeMode::Frames, 300_001, ChildPoll::Running),
        PollAction::KillAndFail(ProbeError::Timeout(300))
    ));
    assert!(matches!(
        next_poll_action(ProbeMode::Frames, 300_000, ChildPoll::Failed("gone".to_string())),
        PollAction::KillAndFail(ProbeError::Wait(reason)) if reason == "gone"
    ));
    assert_eq!(ProbeError::Spawn("x".to_string()).message(), "Failed to spawn ffprobe: x");
    assert_eq!(ProbeError::Wait("x".to_string()).message(), "Failed to wait for ffprobe: x");
    assert_eq!(ProbeError::Join.message(), "Failed to join stdout thread");
}

#[test]
fn test_progress_reports() {
    let first = stream_progress(StreamStage::StreamInfo, 12);
    assert_eq!((first.current, first.total, first.percentage), (0, 100, 0));
    assert_eq!(first.stage, "Getting stream info...");
    assert_eq!(first.eta_ms, None);
    assert_eq!(first.elapsed_ms, Some(12));
    assert_eq!((first.using_sampling, first.stream_count, first.current_stream), (None, Some(1), Some(1)));
    let probing = stream_progress(StreamStage::Probing, 1000);
    assert_eq!(probing.percentage, 20);
    assert_eq!(probing.stage, "Analyzing frames...");
    assert_eq!(probing.eta_ms, Some(4000));
    let done = stream_progress(StreamStage::Complete, 12_349);
    assert_eq!(done.percentage, 100);
    assert_eq!(done.stage, "Complete in 12.3s");
    assert_eq!(done.eta_ms, None);
    assert_eq!(stream_progress(StreamStage::Complete, 12_350).stage, "Complete in 12.4s");
    assert_eq!(stream_progress(StreamStage::Complete, 0).stage, "Complete in 0.0s");
    assert_eq!(stream_progress(StreamStage::Metadata, 0).stage, "Reading file metadata...");
    assert_eq!(stream_progress(StreamStage::Aggregating, 0).stage, "Aggregating bitrate data...");
    assert_eq!(stream_progress(StreamStage::Statistics, 0).stage, "Calculating statistics...");
    let percents: Vec<u64> = [
        StreamStage::StreamInfo,
        StreamStage::Metadata,
        StreamStage::Probing,
        StreamStage::Aggregating,
        StreamStage::Statistics,
        StreamStage::Complete,
    ]
    .iter()
    .map(|s| stream_progress(*s, 0).percentage)
    .collect();
    assert_eq!(percents, vec![0, 10, 20, 80, 90, 100]);
    let kept = job_progress_of(&probing);
    assert_eq!((kept.current, kept.total, kept.percentage), (20, 100, 20));
    assert_eq!(kept.stage, "Analyzing frames...");
}

#[test]
fn test_overall_progress_reports() {
    let tally = StreamTally { using_sampling: true, total: 3, analyzed: 2 };
    let plain = StreamTally { using_sampling: false, total: 3, analyzed: 2 };
    let labels: Vec<(u64, String)> = [
        OverallStage::StreamInfo,
        OverallStage::Metadata,
        OverallStage::Probing,
        OverallStage::ProbingDone,
        OverallStage::Aggregating,
        OverallStage::Statistics,
        OverallStage::Complete,
    ]
    .iter()
    .map(|s| {
        let p = overall_progress(*s, 1500, &tally);
        (p.percentage, p.stage)
    })
    .collect();
    let expected: Vec<(u64, String)> = [
        (0, "Getting stream information..."),
        (5, "Reading file metadata..."),
        (10, "Sampling 3 streams (10 x 30s intervals)..."),
        (85, "Stream analysis complete (2/3 streams)"),
        (90, "Aggregating bitrate data..."),
        (95, "Calculating statistics..."),
        (100, "Complete in 1.5s"),
    ]
    .iter()
    .map(|(p, l)| (*p, l.to_string()))
    .collect();
    assert_eq!(labels, expected);
    let probing = overall_progress(OverallStage::Probing, 0, &plain);
    assert_eq!(probing.stage, "Analyzing 3 streams in parallel...");
    assert_eq!((probing.using_sampling, probing.stream_count, probing.current_stream), (Some(false), Some(3), None));
    let done = overall_progress(OverallStage::ProbingDone, 0, &tally);
    assert_eq!((done.using_sampling, done.stream_count, done.current_stream), (Some(true), Some(3), Some(3)));
    let aggregating = overall_progress(OverallStage::Aggregating, 0, &tally);
    assert_eq!((aggregating.using_sampling, aggregating.stream_count, aggregating.current_stream), (None, None, None));
    let first = overall_progress(OverallStage::Metadata, 0, &tally);
    assert_eq!((first.using_sampling, first.stream_count, first.current_stream), (None, None, None));
    assert_eq!(first.eta_ms, None);
}

#[test]
fn test_estimate_remaining() {
    assert_eq!(estimate_remaining_ms(1000, 5), None);
    assert_eq!(estimate_remaining_ms(1000, 6), Some(15_666));
    assert_eq!(estimate_remaining_ms(1000, 50), Some(1000));
    assert_eq!(estimate_remaining_ms(1000, 99), Some(10));
    assert_eq!(estimate_remaining_ms(1000, 100), None);
    assert_eq!(estimate_remaining_ms(1000, 250), None);
    assert_eq!(estimate_remaining_ms(u64::MAX, 6), Some(u64::MAX));
}

#[test]
fn test_error_kinds() {
    let kinds: Vec<ErrorKind> = vec![
        ProbeError::Spawn(String::new()),
        ProbeError::Timeout(1),
        ProbeError::Wait(String::new()),
        ProbeError::Join,
        ProbeError::NonZeroExit(String::new()),
        ProbeError::NoPackets(0),
        ProbeError::EmptyOutput(0),
        ProbeError::Json(String::new()),
        ProbeError::NoFramesArray(0),
        ProbeError::NoFrames(0),
        ProbeError::NoValidFrames(0),
    ]
    .iter()
    .map(|e| e.kind())
    .collect();
    assert_eq!(
        kinds,
        vec![
            ErrorKind::Spawn,
            ErrorKind::Timeout,
            ErrorKind::Io,
            ErrorKind::Io,
            ErrorKind::NonZeroExit,
            ErrorKind::Parse,
            ErrorKind::Parse,
            ErrorKind::Parse,
            ErrorKind::Parse,
            ErrorKind::Parse,
            ErrorKind::Parse,
        ]
    );
    assert_eq!(AnalysisError::AlreadyQueued(String::new()).kind(), ErrorKind::AlreadyQueued);
    assert_eq!(AnalysisError::Cancelled.kind(), ErrorKind::Cancelled);
    assert_eq!(AnalysisError::StreamNotFound.kind(), ErrorKind::NotFound);
    assert_eq!(AnalysisError::NoDuration.kind(), ErrorKind::Parse);
    assert_eq!(AnalysisError::NoStreamsAnalyzed.kind(), ErrorKind::Parse);
    assert_eq!(AnalysisError::Probe(ProbeError::Timeout(9)).kind(), ErrorKind::Timeout);
}

#[test]
fn test_plan_intervals() {
    assert_eq!(plan_intervals(10_000_000, 1_000_000), Some(10));
    assert_eq!(plan_intervals(10_000_001, 1_000_000), Some(11));
    assert_eq!(plan_intervals(0, 1_000_000), Some(0));
    assert_eq!(plan_intervals(999_999, 1_000_000), Some(1));
    assert_eq!(plan_intervals(10_000_000, 0), None);
    assert_eq!(plan_intervals(u64::MAX, u64::MAX), Some(1));
    assert_eq!(plan_intervals(u64::MAX, u64::MAX - 1), None);
    assert_eq!(plan_intervals(u64::MAX, 3), Some(6_148_914_691_236_517_205));
    assert_eq!(plan_intervals(u64::MAX, 2), None);
}

#[test]
fn test_stream_buckets_of() {
    let mut audio = stream(1, StreamType::Audio);
    audio.codec_name = Some("aac".to_string());
    let frames = vec![
        FrameRecord { timestamp_us: 500_000, size: 1000, frame_type: None },
        FrameRecord { timestamp_us: 1_500_000, size: 2000, frame_type: None },
        FrameRecord { timestamp_us: 1_700_000, size: 50, frame_type: None },
        FrameRecord { timestamp_us: 9_000_000, size: 7, frame_type: None },
    ];
    let buckets = stream_buckets_of(&audio, &Ok(frames.clone()), false, 1_000_000, 3).unwrap();
    assert_eq!(buckets.stream_index, 1);
    assert_eq!(buckets.stream_type, StreamType::Audio);
    assert_eq!(buckets.codec_name, Some("aac".to_string()));
    assert_eq!(buckets.intervals, vec![1000, 2050, 0]);
    assert!(stream_buckets_of(&audio, &Ok(frames), true, 1_000_000, 3).is_none());
    assert!(stream_buckets_of(&audio, &Err(ProbeError::NoPackets(1)), false, 1_000_000, 3).is_none());
    let heavy = vec![
        FrameRecord { timestamp_us: 0, size: u64::MAX, frame_type: None },
        FrameRecord { timestamp_us: 0, size: 1, frame_type: None },
    ];
    assert!(stream_buckets_of(&audio, &Ok(heavy), false, 1_000_000, 3).is_none());
    let none = stream_buckets_of(&audio, &Ok(vec![]), false, 1_000_000, 2).unwrap();
    assert_eq!(none.intervals, vec![0, 0]);
}
