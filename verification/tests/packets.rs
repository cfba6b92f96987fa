use seer::frames::{
    after_packet_probe, parse_ffprobe_frames, parse_ffprobe_packets, first_probe_mode,
    parse_frame_output, AutoStep,
};
use seer::packets::{parse_micros, parse_packet_output};
use seer::probe::{ProbeError, ProbeMode};

fn chars(text: &str) -> Vec<char> {
    text.chars().collect()
}

fn micros(text: &str) -> Option<i64> {
    parse_micros(&chars(text))
}

fn summary(output: &str) -> Vec<(i64, u64, Option<String>)> {
    parse_packet_output(output).into_iter().map(|f| (f.timestamp_us, f.size, f.frame_type)).collect()
}

#[test]
fn test_parse_micros() {
    assert_eq!(micros("0"), Some(0));
    assert_eq!(micros("1"), Some(1_000_000));
    assert_eq!(micros("0.033367"), Some(33_367));
    assert_eq!(micros("12.5"), Some(12_500_000));
    assert_eq!(micros("12.5000009"), Some(12_500_000));
    assert_eq!(micros("12.9999999"), Some(12_999_999));
    assert_eq!(micros("-0.023"), Some(-23_000));
    assert_eq!(micros("+7.000001"), Some(7_000_001));
    assert_eq!(micros(".5"), Some(500_000));
    assert_eq!(micros("5."), Some(5_000_000));
    assert_eq!(micros("007.25"), Some(7_250_000));
    assert_eq!(micros("9223372036854.775807"), Some(i64::MAX));
    assert_eq!(micros("-9223372036854.775807"), Some(-i64::MAX));
}

#[test]
fn test_parse_micros_rejects() {
    for text in ["", ".", "-", "+", "N/A", "1e3", "1.2.3", " 1", "1 ", "--1", "1,5", "inf", "0x10"] {
        assert_eq!(micros(text), None, "{:?}", text);
    }
    assert_eq!(micros("9223372036854.775808"), None);
    assert_eq!(micros("99999999999999999999999999"), None);
}

#[test]
fn test_parse_packet_output() {
    let output = "0.000000,0.000000,1000,K_\n0.040000,0.040000,250,__\r\n0.080000,0.080000,300,_";
    assert_eq!(
        summary(output),
        vec![(0, 1000, Some("I".to_string())), (40_000, 250, None), (80_000, 300, None)]
    );
}

#[test]
fn test_parse_packet_output_falls_back_to_decode_time() {
    assert_eq!(summary("N/A,1.5,10,K\n"), vec![(1_500_000, 10, Some("I".to_string()))]);
    assert_eq!(summary("2.5,N/A,10\n"), vec![(2_500_000, 10, None)]);
    assert_eq!(summary("N/A,N/A,10,K\n"), vec![]);
}

#[test]
fn test_parse_packet_output_skips_invalid_lines() {
    let output = "\n1.0,1.0\nx,y,z\n1.0,1.0,-5,K\n1.0,1.0,5.5,K\n1.0,1.0, 5,K\n3.0,3.0,+7,_K_,extra\n1.0,1.0,18446744073709551616\n4,4,18446744073709551615\n";
    assert_eq!(summary(output), vec![(3_000_000, 7, Some("I".to_string())), (4_000_000, u64::MAX, None)]);
    assert_eq!(summary(""), vec![]);
    assert_eq!(summary("\r\n\r\n"), vec![]);
    assert_eq!(summary("1,1,1,k"), vec![(1_000_000, 1, None)]);
    assert_eq!(summary("1,1,1\r"), vec![(1_000_000, 1, None)]);
    assert_eq!(summary("1,1,1\r\r\n"), vec![]);
}

#[test]
fn test_evaluate_packet_probe() {
    let ok = parse_ffprobe_packets(true, "1,1,5,K\n", "warning", 2).unwrap();
    assert_eq!(ok.len(), 1);
    assert_eq!(ok[0].size, 5);
    let failed = parse_ffprobe_packets(false, "1,1,5,K\n", "no such file", 2).unwrap_err();
    assert!(matches!(&failed, ProbeError::NonZeroExit(text) if text == "no such file"));
    assert_eq!(failed.message(), "ffprobe failed: no such file");
    let empty = parse_ffprobe_packets(true, "N/A\n", "", -3).unwrap_err();
    assert!(matches!(empty, ProbeError::NoPackets(-3)));
    assert_eq!(empty.message(), "No packets found for stream -3");
}

#[test]
fn test_auto_mode() {
    assert_eq!(first_probe_mode(true), ProbeMode::Frames);
    assert_eq!(first_probe_mode(false), ProbeMode::Packets);
    let packets = parse_ffprobe_packets(true, "1,1,5,K\n", "", 0);
    assert!(matches!(after_packet_probe(packets), AutoStep::Accept(frames) if frames.len() == 1 && frames[0].size == 5));
    assert!(matches!(after_packet_probe(Ok(vec![])), AutoStep::RetryWithFrames));
    assert!(matches!(after_packet_probe(Err(ProbeError::Timeout(180))), AutoStep::RetryWithFrames));
}

fn frames(output: &str) -> Vec<(i64, u64, Option<String>)> {
    parse_frame_output(output, 1)
        .unwrap()
        .into_iter()
        .map(|f| (f.timestamp_us, f.size, f.frame_type))
        .collect()
}

#[test]
fn test_parse_frame_output() {
    let output = r#"{"frames":[
        {"best_effort_timestamp_time":"0.000000","pkt_size":"1000","pict_type":"I"},
        {"pkt_pts_time":"0.040000","pkt_size":250,"pict_type":"P"},
        {"best_effort_timestamp_time":"N/A","pts_time":"0.080000","pkt_dts_time":"9","pkt_size":"300"},
        {"pkt_dts_time":"0.120000","pkt_size":"7","pict_type":7}
    ]}"#;
    assert_eq!(
        frames(output),
        vec![
            (0, 1000, Some("I".to_string())),
            (40_000, 250, Some("P".to_string())),
            (80_000, 300, None),
            (120_000, 7, None),
        ]
    );
}

#[test]
fn test_parse_frame_output_estimates_missing_times() {
    let output = r#"{"frames":[
        {"pkt_size":"10"},
        {"pkt_size":"11"},
        {"pkt_size":"0"},
        {"pkt_size":"12","pts_time":"2.0"},
        {"pkt_size":"13"},
        {"pkt_size":"x"},
        {"pts_time":"9"},
        {"pkt_size":"14"}
    ]}"#;
    assert_eq!(
        frames(output),
        vec![
            (0, 10, None),
            (33_333, 11, None),
            (2_000_000, 12, None),
            (2_666_666, 13, None),
            (4_666_665, 14, None),
        ]
    );
}

#[test]
fn test_parse_frame_output_errors() {
    let blank = parse_frame_output(" \n\t", 4).unwrap_err();
    assert!(matches!(blank, ProbeError::EmptyOutput(4)));
    assert_eq!(blank.message(), "ffprobe returned empty output for stream 4");
    let malformed = parse_frame_output("{\"frames\":", 4).unwrap_err();
    assert!(matches!(malformed, ProbeError::Json(_)));
    assert!(malformed.message().starts_with("Failed to parse JSON: "));
    for output in ["{}", "[]", "7", r#"{"frames":{}}"#, r#"{"frames":"x"}"#] {
        let missing = parse_frame_output(output, 4).unwrap_err();
        assert!(matches!(missing, ProbeError::NoFramesArray(4)), "{}", output);
        assert_eq!(missing.message(), "No frames array found in ffprobe output for stream 4");
    }
    let none = parse_frame_output(r#"{"frames":[]}"#, 4).unwrap_err();
    assert!(matches!(none, ProbeError::NoFrames(4)));
    assert_eq!(none.message(), "No frames found for stream 4");
    let invalid = parse_frame_output(r#"{"frames":[{"pkt_size":"0"},{"pts_time":"1"},7]}"#, 4).unwrap_err();
    assert!(matches!(invalid, ProbeError::NoValidFrames(4)));
    assert_eq!(invalid.message(), "All frames had invalid data for stream 4");
}

#[test]
fn test_evaluate_frame_probe() {
    let failed = parse_ffprobe_frames(false, r#"{"frames":[{"pkt_size":"1"}]}"#, "boom", 0).unwrap_err();
    assert!(matches!(failed, ProbeError::NonZeroExit(text) if text == "boom"));
    let ok = parse_ffprobe_frames(true, r#"{"frames":[{"pkt_size":"1"}]}"#, "boom", 0).unwrap();
    assert_eq!(ok.len(), 1);
    assert!(matches!(parse_ffprobe_frames(true, "", "", 0), Err(ProbeError::EmptyOutput(0))));
}
