use seer::dates::date_bounds;
use seer::files::{is_media_file, FileEntry};
use seer::listing::get_available_extensions;
use seer::filters::{
    apply_filters, is_hidden_name, matches_criteria, DateBounds, FileTypeFilter, FilterCriteria, FilterResult,
    FilteredFileEntry, MediaFilters, MediaInfo,
};

fn no_dates() -> DateBounds {
    DateBounds { file_time: None, min_time: None, max_time: None }
}

fn criteria() -> FilterCriteria {
    FilterCriteria {
        size_min: None,
        size_max: None,
        date_min: None,
        date_max: None,
        extensions: vec![],
        media_filters: None,
        file_type: None,
    }
}

fn media_filters() -> MediaFilters {
    MediaFilters {
        video_codecs: vec![],
        audio_codecs: vec![],
        min_width: None,
        max_width: None,
        min_height: None,
        max_height: None,
        min_duration_us: None,
        max_duration_us: None,
    }
}

fn file(name: &str, is_dir: bool, is_media: bool, size: u64) -> FileEntry {
    FileEntry {
        name: name.to_string(),
        path: format!("/path/{}", name),
        is_dir,
        is_media,
        size,
        modified: Some("2024-01-15 12:00:00".to_string()),
    }
}

fn info(video: Option<&str>, audio: Option<&str>, width: Option<i32>, height: Option<i32>, duration_us: Option<i64>) -> Option<MediaInfo> {
    Some(MediaInfo {
        video_codec: video.map(|c| c.to_string()),
        audio_codec: audio.map(|c| c.to_string()),
        width,
        height,
        duration_us,
    })
}

type Known = Option<(Option<String>, Option<String>, Option<i32>, Option<i32>, Option<f64>)>;

fn make_test_file(name: &str, is_dir: bool, is_media: bool, size: u64) -> FileEntry {
    FileEntry {
        name: name.to_string(),
        path: format!("/test/{}", name),
        is_dir,
        is_media,
        size,
        modified: Some("2024-06-15 12:00:00".to_string()),
    }
}

fn shown(file: &FileEntry, criteria: &FilterCriteria, media_info: Known) -> bool {
    let media = media_info.map(|(video_codec, audio_codec, width, height, duration)| MediaInfo {
        video_codec,
        audio_codec,
        width,
        height,
        duration_us: duration.map(|seconds| (seconds * 1_000_000.0).round() as i64),
    });
    matches_criteria(file, criteria, &media, &date_bounds(file, criteria))
}

#[test]
fn test_file_type_filter_all() {
    let filter = FileTypeFilter::All;
    match filter {
        FileTypeFilter::All => assert!(true),
        _ => panic!("Expected All"),
    }
}

#[test]
fn test_file_type_filter_files_only() {
    let filter = FileTypeFilter::FilesOnly;
    match filter {
        FileTypeFilter::FilesOnly => assert!(true),
        _ => panic!("Expected FilesOnly"),
    }
}

#[test]
fn test_file_type_filter_directories_only() {
    let filter = FileTypeFilter::DirectoriesOnly;
    match filter {
        FileTypeFilter::DirectoriesOnly => assert!(true),
        _ => panic!("Expected DirectoriesOnly"),
    }
}

#[test]
fn test_file_type_filter_media_only() {
    let filter = FileTypeFilter::MediaOnly;
    match filter {
        FileTypeFilter::MediaOnly => assert!(true),
        _ => panic!("Expected MediaOnly"),
    }
}

#[test]
fn test_file_type_filter_default_is_all() {
    assert_eq!(FileTypeFilter::default(), FileTypeFilter::All);
}

#[test]
fn test_filter_criteria_default_values() {
    let criteria = FilterCriteria {
        size_min: None,
        size_max: None,
        date_min: None,
        date_max: None,
        extensions: vec![],
        media_filters: None,
        file_type: None,
    };
    assert!(criteria.size_min.is_none());
    assert!(criteria.size_max.is_none());
    assert!(criteria.date_min.is_none());
    assert!(criteria.date_max.is_none());
    assert!(criteria.extensions.is_empty());
    assert!(criteria.media_filters.is_none());
    assert!(criteria.file_type.is_none());
}

#[test]
fn test_filter_result_empty() {
    let result = FilterResult {
        files: vec![],
        total_count: 0,
        filtered_count: 0,
    };
    assert!(result.files.is_empty());
    assert_eq!(result.total_count, 0);
    assert_eq!(result.filtered_count, 0);
}

#[test]
fn test_filtered_file_entry_non_media() {
    let file = FileEntry {
        name: "document.txt".to_string(),
        path: "/path/document.txt".to_string(),
        is_dir: false,
        is_media: false,
        size: 1024,
        modified: Some("2024-01-15 10:30:00".to_string()),
    };
    let filtered = FilteredFileEntry {
        file,
        video_codec: None,
        audio_codec: None,
        width: None,
        height: None,
        duration_us: None,
    };
    assert_eq!(filtered.file.name, "document.txt");
    assert!(filtered.video_codec.is_none());
}

#[test]
fn test_matches_criteria_no_filters() {
    let file = make_test_file("test.mp4", false, true, 1024);
    let criteria = FilterCriteria {
        size_min: None,
        size_max: None,
        date_min: None,
        date_max: None,
        extensions: vec![],
        media_filters: None,
        file_type: None,
    };
    assert!(shown(&file, &criteria, None));
}

#[test]
fn test_matches_criteria_file_type_files_only() {
    let file = make_test_file("test.mp4", false, true, 1024);
    let dir = make_test_file("folder", true, false, 0);
    let criteria = FilterCriteria {
        size_min: None,
        size_max: None,
        date_min: None,
        date_max: None,
        extensions: vec![],
        media_filters: None,
        file_type: Some(FileTypeFilter::FilesOnly),
    };
    assert!(shown(&file, &criteria, None));
    assert!(!shown(&dir, &criteria, None));
}

#[test]
fn test_matches_criteria_file_type_directories_only() {
    let file = make_test_file("test.mp4", false, true, 1024);
    let dir = make_test_file("folder", true, false, 0);
    let criteria = FilterCriteria {
        size_min: None,
        size_max: None,
        date_min: None,
        date_max: None,
        extensions: vec![],
        media_filters: None,
        file_type: Some(FileTypeFilter::DirectoriesOnly),
    };
    assert!(!shown(&file, &criteria, None));
    assert!(shown(&dir, &criteria, None));
}

#[test]
fn test_matches_criteria_file_type_media_only() {
    let media = make_test_file("video.mp4", false, true, 1024);
    let doc = make_test_file("doc.txt", false, false, 1024);
    let criteria = FilterCriteria {
        size_min: None,
        size_max: None,
        date_min: None,
        date_max: None,
        extensions: vec![],
        media_filters: None,
        file_type: Some(FileTypeFilter::MediaOnly),
    };
    assert!(shown(&media, &criteria, None));
    assert!(!shown(&doc, &criteria, None));
}

#[test]
fn test_matches_criteria_size_min() {
    let small = make_test_file("small.mp4", false, true, 500);
    let large = make_test_file("large.mp4", false, true, 2000);
    let criteria = FilterCriteria {
        size_min: Some(1000),
        size_max: None,
        date_min: None,
        date_max: None,
        extensions: vec![],
        media_filters: None,
        file_type: None,
    };
    assert!(!shown(&small, &criteria, None));
    assert!(shown(&large, &criteria, None));
}

#[test]
fn test_matches_criteria_size_max() {
    let small = make_test_file("small.mp4", false, true, 500);
    let large = make_test_file("large.mp4", false, true, 2000);
    let criteria = FilterCriteria {
        size_min: None,
        size_max: Some(1000),
        date_min: None,
        date_max: None,
        extensions: vec![],
        media_filters: None,
        file_type: None,
    };
    assert!(shown(&small, &criteria, None));
    assert!(!shown(&large, &criteria, None));
}

#[test]
fn test_matches_criteria_size_range() {
    let small = make_test_file("small.mp4", false, true, 500);
    let medium = make_test_file("medium.mp4", false, true, 1500);
    let large = make_test_file("large.mp4", false, true, 2500);
    let criteria = FilterCriteria {
        size_min: Some(1000),
        size_max: Some(2000),
        date_min: None,
        date_max: None,
        extensions: vec![],
        media_filters: None,
        file_type: None,
    };
    assert!(!shown(&small, &criteria, None));
    assert!(shown(&medium, &criteria, None));
    assert!(!shown(&large, &criteria, None));
}

#[test]
fn test_matches_criteria_size_ignores_directories() {
    let dir = make_test_file("folder", true, false, 0);
    let criteria = FilterCriteria {
        size_min: Some(1000),
        size_max: Some(2000),
        date_min: None,
        date_max: None,
        extensions: vec![],
        media_filters: None,
        file_type: None,
    };
    // Directories should not be filtered by size
    assert!(shown(&dir, &criteria, None));
}

#[test]
fn test_matches_criteria_extension_single() {
    let mp4 = make_test_file("video.mp4", false, true, 1024);
    let mkv = make_test_file("video.mkv", false, true, 1024);
    let criteria = FilterCriteria {
        size_min: None,
        size_max: None,
        date_min: None,
        date_max: None,
        extensions: vec!["mp4".to_string()],
        media_filters: None,
        file_type: None,
    };
    assert!(shown(&mp4, &criteria, None));
    assert!(!shown(&mkv, &criteria, None));
}

#[test]
fn test_matches_criteria_extension_multiple() {
    let mp4 = make_test_file("video.mp4", false, true, 1024);
    let mkv = make_test_file("video.mkv", false, true, 1024);
    let avi = make_test_file("video.avi", false, true, 1024);
    let criteria = FilterCriteria {
        size_min: None,
        size_max: None,
        date_min: None,
        date_max: None,
        extensions: vec!["mp4".to_string(), "mkv".to_string()],
        media_filters: None,
        file_type: None,
    };
    assert!(shown(&mp4, &criteria, None));
    assert!(shown(&mkv, &criteria, None));
    assert!(!shown(&avi, &criteria, None));
}

#[test]
fn test_matches_criteria_extension_case_insensitive() {
    let upper = make_test_file("video.MP4", false, true, 1024);
    let lower = make_test_file("video.mp4", false, true, 1024);
    let criteria = FilterCriteria {
        size_min: None,
        size_max: None,
        date_min: None,
        date_max: None,
        extensions: vec!["mp4".to_string()],
        media_filters: None,
        file_type: None,
    };
    assert!(shown(&upper, &criteria, None));
    assert!(shown(&lower, &criteria, None));
}

#[test]
fn test_matches_criteria_extension_ignores_directories() {
    let dir = make_test_file("folder.mp4", true, false, 0);
    let criteria = FilterCriteria {
        size_min: None,
        size_max: None,
        date_min: None,
        date_max: None,
        extensions: vec!["mkv".to_string()],
        media_filters: None,
        file_type: None,
    };
    // Directory named folder.mp4 should pass extension filter
    assert!(shown(&dir, &criteria, None));
}

#[test]
fn test_matches_criteria_date_range() {
    let file = FileEntry {
        name: "test.mp4".to_string(),
        path: "/test/test.mp4".to_string(),
        is_dir: false,
        is_media: true,
        size: 1024,
        modified: Some("2024-06-15 12:00:00".to_string()),
    };
    // Within range
    let within_criteria = FilterCriteria {
        size_min: None,
        size_max: None,
        date_min: Some("2024-01-01".to_string()),
        date_max: Some("2024-12-31".to_string()),
        extensions: vec![],
        media_filters: None,
        file_type: None,
    };
    assert!(shown(&file, &within_criteria, None));

    // Before range
    let before_criteria = FilterCriteria {
        size_min: None,
        size_max: None,
        date_min: Some("2024-07-01".to_string()),
        date_max: None,
        extensions: vec![],
        media_filters: None,
        file_type: None,
    };
    assert!(!shown(&file, &before_criteria, None));

    // After range
    let after_criteria = FilterCriteria {
        size_min: None,
        size_max: None,
        date_min: None,
        date_max: Some("2024-05-01".to_string()),
        extensions: vec![],
        media_filters: None,
        file_type: None,
    };
    assert!(!shown(&file, &after_criteria, None));
}

#[test]
fn test_matches_criteria_date_filter_hides_undated_files() {
    let mut c = criteria();
    c.date_min = Some("2024-01-10".to_string());
    let mut undated = file("x.mp4", false, true, 1);
    undated.modified = None;
    assert!(!matches_criteria(&undated, &c, &None, &no_dates()));
    assert!(matches_criteria(&file("unreadable.mp4", false, true, 1), &c, &None, &no_dates()));
    let unreadable_bound = DateBounds { file_time: Some(0), min_time: None, max_time: None };
    assert!(matches_criteria(&file("x.mp4", false, true, 1), &c, &None, &unreadable_bound));
}

#[test]
fn test_matches_criteria_combined_filters() {
    let file = make_test_file("video.mp4", false, true, 1500);
    let criteria = FilterCriteria {
        size_min: Some(1000),
        size_max: Some(2000),
        date_min: None,
        date_max: None,
        extensions: vec!["mp4".to_string()],
        media_filters: None,
        file_type: Some(FileTypeFilter::MediaOnly),
    };
    assert!(shown(&file, &criteria, None));
}

#[test]
fn test_matches_criteria_media_filters_video_codec() {
    let file = make_test_file("video.mp4", false, true, 1024);
    let criteria = FilterCriteria {
        size_min: None,
        size_max: None,
        date_min: None,
        date_max: None,
        extensions: vec![],
        media_filters: Some(MediaFilters {
            video_codecs: vec!["h264".to_string()],
            audio_codecs: vec![],
            min_width: None,
            max_width: None,
            min_height: None,
            max_height: None,
            min_duration_us: None,
            max_duration_us: None,
        }),
        file_type: None,
    };
    let media_info = Some((
        Some("h264".to_string()),
        Some("aac".to_string()),
        Some(1920),
        Some(1080),
        Some(120.0),
    ));
    assert!(shown(&file, &criteria, media_info));

    let wrong_codec_info = Some((
        Some("hevc".to_string()),
        Some("aac".to_string()),
        Some(1920),
        Some(1080),
        Some(120.0),
    ));
    assert!(!shown(&file, &criteria, wrong_codec_info));
}

#[test]
fn test_matches_criteria_media_filters_resolution() {
    let file = make_test_file("video.mp4", false, true, 1024);
    let criteria = FilterCriteria {
        size_min: None,
        size_max: None,
        date_min: None,
        date_max: None,
        extensions: vec![],
        media_filters: Some(MediaFilters {
            video_codecs: vec![],
            audio_codecs: vec![],
            min_width: Some(1920),
            max_width: None,
            min_height: Some(1080),
            max_height: None,
            min_duration_us: None,
            max_duration_us: None,
        }),
        file_type: None,
    };
    let hd_info = Some((
        Some("h264".to_string()),
        Some("aac".to_string()),
        Some(1920),
        Some(1080),
        Some(120.0),
    ));
    assert!(shown(&file, &criteria, hd_info));

    let sd_info = Some((
        Some("h264".to_string()),
        Some("aac".to_string()),
        Some(1280),
        Some(720),
        Some(120.0),
    ));
    assert!(!shown(&file, &criteria, sd_info));
}

#[test]
fn test_matches_criteria_media_filters_duration() {
    let file = make_test_file("video.mp4", false, true, 1024);
    let criteria = FilterCriteria {
        size_min: None,
        size_max: None,
        date_min: None,
        date_max: None,
        extensions: vec![],
        media_filters: Some(MediaFilters {
            video_codecs: vec![],
            audio_codecs: vec![],
            min_width: None,
            max_width: None,
            min_height: None,
            max_height: None,
            min_duration_us: Some(60_000_000),
            max_duration_us: Some(600_000_000),
        }),
        file_type: None,
    };
    let within_info = Some((
        Some("h264".to_string()),
        Some("aac".to_string()),
        Some(1920),
        Some(1080),
        Some(300.0),
    ));
    assert!(shown(&file, &criteria, within_info));

    let too_short = Some((
        Some("h264".to_string()),
        Some("aac".to_string()),
        Some(1920),
        Some(1080),
        Some(30.0),
    ));
    assert!(!shown(&file, &criteria, too_short));

    let too_long = Some((
        Some("h264".to_string()),
        Some("aac".to_string()),
        Some(1920),
        Some(1080),
        Some(900.0),
    ));
    assert!(!shown(&file, &criteria, too_long));
}

#[test]
fn test_is_media_file_by_extension() {
    assert!(is_media_file("/a/b.MP4"));
    assert!(is_media_file("clip.heic"));
    assert!(is_media_file("/a.b/c.opus"));
    assert!(!is_media_file("/a/b.txt"));
    assert!(!is_media_file("/a/mp4"));
    assert!(!is_media_file("/a/.mp4"));
    assert!(!is_media_file(""));
}

#[test]
fn test_hidden_names() {
    assert!(is_hidden_name(".git"));
    assert!(!is_hidden_name("a.git"));
    assert!(!is_hidden_name(""));
}

#[test]
fn test_apply_filters() {
    let files = vec![
        file("Docs", true, false, 0),
        file("a.mkv", false, true, 500),
        file("b.mkv", false, true, 5000),
        file("c.txt", false, false, 9000),
    ];
    let known = vec![
        None,
        info(Some("hevc"), Some("aac"), Some(1920), Some(1080), Some(60_000_000)),
        info(Some("h264"), None, Some(640), Some(360), None),
        info(Some("stray"), None, None, None, None),
    ];
    let dates = vec![no_dates(); 4];
    let mut c = criteria();
    c.size_min = Some(1000);
    let result = apply_filters(files, &c, known, &dates).unwrap();
    assert_eq!(result.total_count, 4);
    assert_eq!(result.filtered_count, 3);
    let shown: Vec<(String, Option<String>, Option<i32>)> =
        result.files.iter().map(|e| (e.file.name.clone(), e.video_codec.clone(), e.width)).collect();
    assert_eq!(
        shown,
        vec![
            ("Docs".to_string(), None, None),
            ("b.mkv".to_string(), Some("h264".to_string()), Some(640)),
            ("c.txt".to_string(), None, None),
        ]
    );
    let mut with_media = criteria();
    let mut m = media_filters();
    m.video_codecs = vec!["HEVC".to_string()];
    with_media.media_filters = Some(m);
    let files = vec![file("a.mkv", false, true, 1), file("b.mkv", false, true, 1), file("c.mkv", false, true, 1)];
    let known = vec![
        info(Some("hevc"), None, None, None, None),
        info(Some("h264"), None, None, None, None),
        None,
    ];
    let result = apply_filters(files, &with_media, known, &vec![no_dates(); 3]).unwrap();
    let names: Vec<String> = result.files.iter().map(|e| e.file.name.clone()).collect();
    assert_eq!(names, vec!["a.mkv".to_string()]);
    let empty = apply_filters(vec![], &criteria(), vec![], &vec![]).unwrap();
    assert_eq!((empty.total_count, empty.filtered_count), (0, 0));
}

#[test]
fn test_get_available_extensions() {
    let paths: Vec<String> = ["/d/b.MKV", "/d/a.txt", "/d/c.mkv", "/d/noext", "/d/.hidden", "/d/x.tar.gz", "/d/y.Txt", "/d/z."]
        .iter()
        .map(|p| p.to_string())
        .collect();
    assert_eq!(
        get_available_extensions(&paths),
        Ok(vec!["".to_string(), "gz".to_string(), "mkv".to_string(), "txt".to_string()])
    );
    assert_eq!(get_available_extensions(&vec![]), Ok(vec![]));
}

#[test]
fn test_filter_criteria_with_size_range() {
    let criteria = FilterCriteria {
        size_min: Some(1024),
        size_max: Some(1048576),
        date_min: None,
        date_max: None,
        extensions: vec![],
        media_filters: None,
        file_type: None,
    };
    assert_eq!(criteria.size_min, Some(1024));
    assert_eq!(criteria.size_max, Some(1048576));
}

#[test]
fn test_filter_criteria_with_extensions() {
    let criteria = FilterCriteria {
        size_min: None,
        size_max: None,
        date_min: None,
        date_max: None,
        extensions: vec!["mp4".to_string(), "mkv".to_string()],
        media_filters: None,
        file_type: None,
    };
    assert_eq!(criteria.extensions.len(), 2);
    assert!(criteria.extensions.contains(&"mp4".to_string()));
    assert!(criteria.extensions.contains(&"mkv".to_string()));
}

#[test]
fn test_media_filters_empty() {
    let filters = MediaFilters {
        video_codecs: vec![],
        audio_codecs: vec![],
        min_width: None,
        max_width: None,
        min_height: None,
        max_height: None,
        min_duration_us: None,
        max_duration_us: None,
    };
    assert!(filters.video_codecs.is_empty());
    assert!(filters.audio_codecs.is_empty());
}

#[test]
fn test_media_filters_with_codecs() {
    let filters = MediaFilters {
        video_codecs: vec!["h264".to_string(), "hevc".to_string()],
        audio_codecs: vec!["aac".to_string()],
        min_width: None,
        max_width: None,
        min_height: None,
        max_height: None,
        min_duration_us: None,
        max_duration_us: None,
    };
    assert_eq!(filters.video_codecs.len(), 2);
    assert_eq!(filters.audio_codecs.len(), 1);
}

#[test]
fn test_media_filters_with_resolution() {
    let filters = MediaFilters {
        video_codecs: vec![],
        audio_codecs: vec![],
        min_width: Some(1920),
        max_width: Some(3840),
        min_height: Some(1080),
        max_height: Some(2160),
        min_duration_us: None,
        max_duration_us: None,
    };
    assert_eq!(filters.min_width, Some(1920));
    assert_eq!(filters.max_width, Some(3840));
    assert_eq!(filters.min_height, Some(1080));
    assert_eq!(filters.max_height, Some(2160));
}

#[test]
fn test_media_filters_with_duration() {
    let filters = MediaFilters {
        video_codecs: vec![],
        audio_codecs: vec![],
        min_width: None,
        max_width: None,
        min_height: None,
        max_height: None,
        min_duration_us: Some(60_000_000),
        max_duration_us: Some(3_600_000_000),
    };
    assert_eq!(filters.min_duration_us, Some(60_000_000));
    assert_eq!(filters.max_duration_us, Some(3_600_000_000));
}

#[test]
fn test_filtered_file_entry_media() {
    let file = FileEntry {
        name: "video.mp4".to_string(),
        path: "/path/video.mp4".to_string(),
        is_dir: false,
        is_media: true,
        size: 104857600,
        modified: Some("2024-01-15 10:30:00".to_string()),
    };
    let filtered = FilteredFileEntry {
        file,
        video_codec: Some("h264".to_string()),
        audio_codec: Some("aac".to_string()),
        width: Some(1920),
        height: Some(1080),
        duration_us: Some(3_600_500_000),
    };
    assert_eq!(filtered.file.name, "video.mp4");
    assert_eq!(filtered.video_codec, Some("h264".to_string()));
    assert_eq!(filtered.audio_codec, Some("aac".to_string()));
    assert_eq!(filtered.width, Some(1920));
    assert_eq!(filtered.height, Some(1080));
    assert_eq!(filtered.duration_us, Some(3_600_500_000));
}

#[test]
fn test_filter_result_with_files() {
    let file = FileEntry {
        name: "test.mp4".to_string(),
        path: "/path/test.mp4".to_string(),
        is_dir: false,
        is_media: true,
        size: 1024,
        modified: None,
    };
    let filtered = FilteredFileEntry {
        file,
        video_codec: None,
        audio_codec: None,
        width: None,
        height: None,
        duration_us: None,
    };
    let result = FilterResult {
        files: vec![filtered],
        total_count: 10,
        filtered_count: 1,
    };
    assert_eq!(result.files.len(), 1);
    assert_eq!(result.total_count, 10);
    assert_eq!(result.filtered_count, 1);
}
