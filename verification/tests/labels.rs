use seer::labels::{
    codec_labels, codec_probe_arguments, date_label, date_label_from, date_labels, get_resolution,
    get_video_codec, group_by_codec, group_by_date, group_by_resolution, resolution_labels,
    resolution_probe_arguments,
};
use seer::probe::ToolRun;

fn printed(output: &str) -> ToolRun {
    ToolRun::Finished { success: true, output: output.to_string(), diagnostics: String::new() }
}

fn failed(diagnostics: &str) -> ToolRun {
    ToolRun::Finished {
        success: false,
        output: "1920x1080".to_string(),
        diagnostics: diagnostics.to_string(),
    }
}

fn not_started(reason: &str) -> ToolRun {
    ToolRun::NotStarted { reason: reason.to_string() }
}

#[test]
fn test_video_probe_arguments() {
    assert_eq!(
        resolution_probe_arguments("/m/a.mkv"),
        vec![
            "-v",
            "error",
            "-select_streams",
            "v:0",
            "-show_entries",
            "stream=width,height",
            "-of",
            "csv=s=x:p=0",
            "/m/a.mkv"
        ]
    );
    assert_eq!(
        codec_probe_arguments("/m/a.mkv"),
        vec![
            "-v",
            "error",
            "-select_streams",
            "v:0",
            "-show_entries",
            "stream=codec_name",
            "-of",
            "default=noprint_wrappers=1:nokey=1",
            "/m/a.mkv"
        ]
    );
}

#[test]
fn test_get_resolution_names_common_sizes() {
    assert_eq!(get_resolution(&printed("3840x2160\n")), Ok("4K".to_string()));
    assert_eq!(get_resolution(&printed("2560x1440")), Ok("1440p".to_string()));
    assert_eq!(get_resolution(&printed(" 1920x1080 ")), Ok("1080p".to_string()));
    assert_eq!(get_resolution(&printed("1280x720\r\n")), Ok("720p".to_string()));
    assert_eq!(get_resolution(&printed("854x480")), Ok("480p".to_string()));
    assert_eq!(get_resolution(&printed("+1920x01080")), Ok("1080p".to_string()));
}

#[test]
fn test_get_resolution_keeps_other_reports() {
    assert_eq!(get_resolution(&printed("640x360\n")), Ok("640x360".to_string()));
    assert_eq!(get_resolution(&printed("1920x1080x3")), Ok("1920x1080x3".to_string()));
    assert_eq!(get_resolution(&printed("1920")), Ok("1920".to_string()));
    assert_eq!(get_resolution(&printed("1920x")), Ok("1920x".to_string()));
    assert_eq!(get_resolution(&printed("N/AxN/A")), Ok("N/AxN/A".to_string()));
    assert_eq!(get_resolution(&printed("4294967296x1080")), Ok("4294967296x1080".to_string()));
    assert_eq!(get_resolution(&printed("1920 x 1080")), Ok("1920 x 1080".to_string()));
    assert_eq!(get_resolution(&printed("")), Ok("unknown".to_string()));
    assert_eq!(get_resolution(&printed(" \n")), Ok("unknown".to_string()));
}

#[test]
fn test_get_resolution_reports_failed_runs() {
    assert_eq!(get_resolution(&failed("no such file")), Err("ffprobe failed: no such file".to_string()));
    assert_eq!(
        get_resolution(&not_started("permission denied")),
        Err("Failed to run ffprobe: permission denied".to_string())
    );
}

#[test]
fn test_get_video_codec() {
    assert_eq!(get_video_codec(&printed("h264\n")), Ok("h264".to_string()));
    assert_eq!(get_video_codec(&printed("  hevc  ")), Ok("hevc".to_string()));
    assert_eq!(get_video_codec(&printed("\n")), Ok("unknown".to_string()));
    assert_eq!(get_video_codec(&failed("broken")), Err("ffprobe failed: broken".to_string()));
    assert_eq!(get_video_codec(&not_started("gone")), Err("Failed to run ffprobe: gone".to_string()));
}

#[test]
fn test_probe_labels_fall_back_to_unknown() {
    let runs = vec![printed("1920x1080"), failed("bad"), not_started("gone"), printed("7x9")];
    assert_eq!(resolution_labels(true, &runs), Ok(vec!["1080p".into(), "unknown".into(), "unknown".into(), "7x9".into()]));
    let runs = vec![printed("vp9"), failed("bad"), printed("")];
    assert_eq!(codec_labels(true, &runs), Ok(vec!["vp9".into(), "unknown".into(), "unknown".into()]));
    assert_eq!(
        resolution_labels(false, &vec![]),
        Err("ffprobe not found. Required for resolution grouping.".to_string())
    );
    assert_eq!(codec_labels(false, &vec![]), Err("ffprobe not found. Required for codec grouping.".to_string()));
}

#[test]
fn test_group_by_resolution_and_codec() {
    let paths = vec!["/a.mkv".to_string(), "/b.mkv".to_string(), "/c.mkv".to_string()];
    let runs = vec![printed("1280x720"), printed("3840x2160"), printed("1280x720")];
    let groups = group_by_resolution(&paths, true, &runs).unwrap();
    assert_eq!(groups.key_list(), vec!["720p", "4K"]);
    assert_eq!(groups.get("720p"), Some(&vec!["/a.mkv".to_string(), "/c.mkv".to_string()]));
    assert_eq!(groups.get("4K"), Some(&vec!["/b.mkv".to_string()]));
    assert!(group_by_resolution(&paths, false, &runs).is_err());
    let runs = vec![printed("h264"), failed("x"), printed("h264")];
    let groups = group_by_codec(&paths, true, &runs).unwrap();
    assert_eq!(groups.key_list(), vec!["h264", "unknown"]);
    assert_eq!(groups.get("unknown"), Some(&vec!["/b.mkv".to_string()]));
    assert_eq!(
        group_by_codec(&paths, false, &runs).err(),
        Some("ffprobe not found. Required for codec grouping.".to_string())
    );
}

#[test]
fn test_date_label_by_granularity() {
    assert_eq!(date_label(0, "day"), Ok("1970-01-01".to_string()));
    assert_eq!(date_label(1_705_312_800, "day"), Ok("2024-01-15".to_string()));
    assert_eq!(date_label(1_705_312_800, "month"), Ok("2024-01".to_string()));
    assert_eq!(date_label(1_705_312_800, "year"), Ok("2024".to_string()));
    assert_eq!(date_label(1_705_312_800, "week"), Ok("2024-01-15".to_string()));
    assert_eq!(date_label(1_709_251_199, "day"), Ok("2024-02-29".to_string()));
    assert_eq!(date_label(-1, "day"), Ok("1969-12-31".to_string()));
    assert_eq!(date_label(i64::MAX, "day"), Err("Invalid timestamp".to_string()));
    assert_eq!(date_label(i64::MIN, "year"), Err("Invalid timestamp".to_string()));
}

#[test]
fn test_date_label_from() {
    assert_eq!(date_label_from(Some("2024-01".to_string())), Ok("2024-01".to_string()));
    assert_eq!(date_label_from(None), Err("Invalid timestamp".to_string()));
}

#[test]
fn test_date_labels_stop_at_the_first_failure() {
    let times = vec![Ok(0), Ok(86_400), Ok(31 * 86_400)];
    assert_eq!(date_labels(&times, "day"), Ok(vec!["1970-01-01".into(), "1970-01-02".into(), "1970-02-01".into()]));
    assert_eq!(date_labels(&times, "month"), Ok(vec!["1970-01".into(), "1970-01".into(), "1970-02".into()]));
    let times = vec![Ok(0), Err("Failed to read metadata for /b: gone".to_string()), Ok(i64::MAX)];
    assert_eq!(date_labels(&times, "day"), Err("Failed to read metadata for /b: gone".to_string()));
    let times = vec![Ok(0), Ok(i64::MAX), Err("later".to_string())];
    assert_eq!(date_labels(&times, "day"), Err("Invalid timestamp".to_string()));
    assert_eq!(date_labels(&vec![], "day"), Ok(vec![]));
}

#[test]
fn test_group_by_date() {
    let paths = vec!["/a".to_string(), "/b".to_string(), "/c".to_string()];
    let times = vec![Ok(40 * 86_400), Ok(0), Ok(41 * 86_400)];
    let groups = group_by_date(&paths, "month", &times).unwrap();
    assert_eq!(groups.key_list(), vec!["1970-02", "1970-01"]);
    assert_eq!(groups.get("1970-02"), Some(&vec!["/a".to_string(), "/c".to_string()]));
    let groups = group_by_date(&paths, "year", &times).unwrap();
    assert_eq!(groups.key_list(), vec!["1970"]);
    let times = vec![Ok(0), Err("unreadable".to_string()), Ok(0)];
    assert_eq!(group_by_date(&paths, "day", &times).err(), Some("unreadable".to_string()));
}

#[test]
fn test_date_label_at_the_ends_of_the_calendar() {
    assert_eq!(date_label(8_210_266_876_799, "day"), Ok("+262142-12-31".to_string()));
    assert_eq!(date_label(8_210_266_876_800, "day"), Err("Invalid timestamp".to_string()));
    assert_eq!(date_label(-8_334_601_228_800, "year"), Ok("-262143".to_string()));
    assert_eq!(date_label(-8_334_601_228_801, "year"), Err("Invalid timestamp".to_string()));
}
