use seer::files::FileMetadata;
use seer::json::{parse_json, JsonValue};
use seer::listing::{check_command, check_dependencies, chars_at_most, listing_entry, sort_entries};
use seer::metadata::{
    check_update, create_backup_path, create_temp_path, exiftool_operation_arguments,
    ffmpeg_operation_arguments, is_image_extension, is_video_audio_extension, list_exif_tags,
    list_metadata, list_probe_tags, parse_ffprobe_tags, select_operations, tool_status, trim_text,
    MetadataAction, MetadataEntry, MetadataOperation, MetadataOrigin, MetadataScope,
    MetadataToolAvailability,
};

fn strings(list: &[&str]) -> Vec<String> {
    list.iter().map(|s| s.to_string()).collect()
}

fn op(action: MetadataAction, key: &str, value: Option<&str>, scope: MetadataScope, stream: Option<i32>) -> MetadataOperation {
    MetadataOperation {
        action,
        key: key.to_string(),
        value: value.map(|v| v.to_string()),
        scope,
        stream_index: stream,
    }
}

fn all_tools() -> MetadataToolAvailability {
    tool_status(true, true, true)
}

fn entry(e: &MetadataEntry) -> (String, String, MetadataScope, Option<i32>, MetadataOrigin, bool) {
    (e.key.clone(), e.value.clone(), e.scope, e.stream_index, e.origin, e.editable)
}

#[test]
fn builds_ffmpeg_delete_all_flag() {
    let ops = vec![op(MetadataAction::Delete, "*", None, MetadataScope::Format, None)];
    let args = ffmpeg_operation_arguments("/tmp/input.mp4", "/tmp/output.mp4", &ops);
    assert!(args.contains(&"-map_metadata".to_string()));
    assert!(args.contains(&"-1".to_string()));
    assert_eq!(
        args,
        strings(&["-y", "-i", "/tmp/input.mp4", "-map", "0", "-c", "copy", "-map_metadata", "-1", "/tmp/output.mp4"])
    );
}

#[test]
fn test_ffmpeg_operation_arguments() {
    let ops = vec![
        op(MetadataAction::SetValue, " title ", Some("My Film"), MetadataScope::Format, None),
        op(MetadataAction::Delete, " * ", None, MetadataScope::Stream, Some(2)),
        op(MetadataAction::Delete, "comment", Some("ignored"), MetadataScope::Format, None),
        op(MetadataAction::SetValue, "language", Some("eng"), MetadataScope::Stream, Some(1)),
        op(MetadataAction::SetValue, "Artist", Some("x"), MetadataScope::File, None),
        op(MetadataAction::SetValue, "*", None, MetadataScope::Stream, None),
        op(MetadataAction::Delete, "*", None, MetadataScope::Stream, None),
    ];
    assert_eq!(
        ffmpeg_operation_arguments("in.mkv", "out.mkv", &ops),
        strings(&[
            "-y", "-i", "in.mkv", "-map", "0", "-c", "copy",
            "-metadata", "title=My Film",
            "-metadata", "comment=",
            "-metadata:s:1", "language=eng",
            "-metadata:s:-1", "*=",
            "-map_metadata:s:2", "-1",
            "-map_metadata:s:-1", "-1",
            "out.mkv"
        ])
    );
    assert_eq!(
        ffmpeg_operation_arguments("in", "out", &vec![]),
        strings(&["-y", "-i", "in", "-map", "0", "-c", "copy", "out"])
    );
}

#[test]
fn test_exiftool_operation_arguments() {
    let ops = vec![
        op(MetadataAction::SetValue, " Artist\t", Some("A B"), MetadataScope::File, None),
        op(MetadataAction::SetValue, "Title", None, MetadataScope::File, None),
        op(MetadataAction::Delete, "Comment", Some("x"), MetadataScope::File, None),
        op(MetadataAction::Delete, " *", None, MetadataScope::File, None),
    ];
    assert_eq!(
        exiftool_operation_arguments("in.jpg", "out.jpg", &ops),
        strings(&["-quiet", "-out", "out.jpg", "-Artist=A B", "-Title=", "-Comment=", "-all=", "in.jpg"])
    );
}

#[test]
fn test_check_update_and_selection() {
    let mixed = vec![
        op(MetadataAction::SetValue, "a", None, MetadataScope::File, None),
        op(MetadataAction::SetValue, "b", None, MetadataScope::Stream, Some(0)),
        op(MetadataAction::SetValue, "c", None, MetadataScope::Format, None),
    ];
    let keys = |ops: Vec<MetadataOperation>| -> Vec<String> { ops.into_iter().map(|o| o.key).collect() };
    assert_eq!(keys(select_operations(&mixed, false)), strings(&["b", "c"]));
    assert_eq!(keys(select_operations(&mixed, true)), strings(&["a"]));
    assert_eq!(check_update(&vec![], &all_tools()), Err("No operations provided".to_string()));
    assert_eq!(check_update(&mixed, &all_tools()), Ok(()));
    assert_eq!(
        check_update(&mixed, &tool_status(false, true, false)),
        Err("ffmpeg is required to edit container/stream metadata".to_string())
    );
    assert_eq!(
        check_update(&mixed, &tool_status(true, false, false)),
        Err("exiftool is required to edit file-level metadata".to_string())
    );
    let file_only = vec![op(MetadataAction::Delete, "a", None, MetadataScope::File, None)];
    assert_eq!(check_update(&file_only, &tool_status(false, false, true)), Ok(()));
}

#[test]
fn test_trim_text() {
    let trimmed = |t: &str| -> String { trim_text(t).into_iter().collect() };
    assert_eq!(trimmed("  a b \n"), "a b");
    assert_eq!(trimmed("\u{a0}x\u{2003}"), "x");
    assert_eq!(trimmed(" \t "), "");
    assert_eq!(trimmed(""), "");
    assert_eq!(trimmed("x"), "x");
}

#[test]
fn test_list_probe_tags() {
    let document = parse_json(
        r#"{"format":{"format_name":"matroska","format_long_name":"Matroska / WebM","duration":"61.5",
              "bit_rate":"1000","tags":{"title":"Film","encoder":"x","n":5}},
            "streams":[
              {"index":0,"codec_type":"video","codec_name":"hevc","codec_long_name":"HEVC","duration":"60","tags":{"language":"eng"}},
              {"codec_type":"audio","bit_rate":"128000","tags":"none"},
              {"index":7,"tags":{"title":"Commentary","handler":null}}]}"#,
    )
    .unwrap();
    let listing = list_probe_tags(&document, &tool_status(false, true, true));
    let format: Vec<_> = listing.format_tags.iter().map(entry).collect();
    assert_eq!(
        format,
        vec![
            ("encoder".to_string(), "x".to_string(), MetadataScope::Format, None, MetadataOrigin::Ffprobe, false),
            ("title".to_string(), "Film".to_string(), MetadataScope::Format, None, MetadataOrigin::Ffprobe, false),
        ]
    );
    let streams: Vec<_> = listing.stream_tags.iter().map(entry).collect();
    assert_eq!(
        streams,
        vec![
            ("language".to_string(), "eng".to_string(), MetadataScope::Stream, Some(0), MetadataOrigin::Ffprobe, false),
            ("title".to_string(), "Commentary".to_string(), MetadataScope::Stream, Some(7), MetadataOrigin::Ffprobe, false),
        ]
    );
    let summaries: Vec<_> = listing
        .stream_summaries
        .iter()
        .map(|s| (s.index, s.codec_type.clone(), s.codec_name.clone(), s.duration_us, s.bit_rate.clone()))
        .collect();
    assert_eq!(
        summaries,
        vec![
            (-1, Some("format".to_string()), Some("Matroska / WebM".to_string()), Some(61_500_000), Some("1000".to_string())),
            (0, Some("video".to_string()), Some("hevc".to_string()), Some(60_000_000), None),
            (-1, Some("audio".to_string()), None, None, Some("128000".to_string())),
            (7, None, None, None, None),
        ]
    );
    assert_eq!(listing.stream_summaries[1].codec_long_name.as_deref(), Some("HEVC"));
    let short = list_probe_tags(&parse_json(r#"{"format":{"format_name":"mp3"}}"#).unwrap(), &all_tools());
    assert_eq!(short.stream_summaries[0].codec_name.as_deref(), Some("mp3"));
    assert!(short.format_tags.is_empty() && short.stream_tags.is_empty());
    let none = parse_ffprobe_tags(&None, &all_tools());
    assert!(none.format_tags.is_empty() && none.stream_summaries.is_empty());
    let broken = parse_ffprobe_tags(&Some("{".to_string()), &all_tools());
    assert!(broken.stream_tags.is_empty() && broken.stream_summaries.is_empty());
    let parsed = parse_ffprobe_tags(&Some(r#"{"streams":[{"index":1,"tags":{"a":"b"}}]}"#.to_string()), &all_tools());
    assert_eq!(parsed.stream_tags.len(), 1);
    assert!(parsed.stream_tags[0].editable);
}

#[test]
fn test_list_exif_tags() {
    let report = parse_json(
        r#"[{"SourceFile":"a.jpg","Make":"Canon","ISO":100,"Aperture":2.8,"Flash":false,
             "Missing":null,"Keywords":["a","b"],"GPS":{"lat":1}},{"Make":"ignored"}]"#,
    )
    .unwrap();
    let entries: Vec<(String, String)> =
        list_exif_tags(&report, &all_tools()).into_iter().map(|e| (e.key, e.value)).collect();
    let expected: Vec<(String, String)> = [
        ("Aperture", "2.8"),
        ("Flash", "false"),
        ("GPS", r#"{"lat":1}"#),
        ("ISO", "100"),
        ("Keywords", r#"["a","b"]"#),
        ("Make", "Canon"),
    ]
    .iter()
    .map(|(k, v)| (k.to_string(), v.to_string()))
    .collect();
    assert_eq!(entries, expected);
    let all = list_exif_tags(&report, &tool_status(true, true, false));
    assert!(all.iter().all(|e| !e.editable && e.scope == MetadataScope::File && e.origin == MetadataOrigin::Exiftool && e.stream_index.is_none()));
    assert!(list_exif_tags(&parse_json("{}").unwrap(), &all_tools()).is_empty());
    assert!(list_exif_tags(&parse_json("[]").unwrap(), &all_tools()).is_empty());
    assert!(list_exif_tags(&parse_json("[7]").unwrap(), &all_tools()).is_empty());
    let nested = parse_json(r#"{"a":[true,null,"x\n",-1.5e3,{"b":[]}]}"#).unwrap();
    assert_eq!(nested.to_text(), r#"{"a":[true,null,"x\n",-1500.0,{"b":[]}]}"#);
    assert_eq!(JsonValue::Null.to_text(), "null");
}

fn file_metadata(extension: Option<&str>, probe: Option<&str>) -> FileMetadata {
    FileMetadata {
        path: "/m/a".to_string(),
        name: "a".to_string(),
        size: 77,
        modified: Some("2024-01-01 00:00:00".to_string()),
        created: None,
        is_media: true,
        extension: extension.map(|e| e.to_string()),
        ffprobe_data: probe.map(|p| p.to_string()),
    }
}

#[test]
fn test_list_metadata() {
    let probe = r#"{"format":{"tags":{"title":"T"}},"streams":[{"index":0}]}"#;
    let exif = Some(parse_json(r#"[{"Make":"Canon"}]"#).unwrap());
    let video = list_metadata("/m/a.MKV".to_string(), Some("a.MKV".to_string()), file_metadata(Some("MKV"), Some(probe)), all_tools(), &exif).unwrap();
    assert_eq!(video.path, "/m/a.MKV");
    assert_eq!(video.file_name, "a.MKV");
    assert_eq!(video.size, 77);
    assert_eq!(video.extension.as_deref(), Some("MKV"));
    assert_eq!(video.modified.as_deref(), Some("2024-01-01 00:00:00"));
    assert_eq!(video.format_tags.len(), 1);
    assert_eq!(video.stream_summaries.len(), 2);
    assert!(video.file_tags.is_empty());
    assert_eq!(video.tool_availability, all_tools());
    let image = list_metadata("/m/a.jpg".to_string(), None, file_metadata(Some("jpg"), Some(probe)), all_tools(), &exif).unwrap();
    assert_eq!(image.file_name, "/m/a.jpg");
    assert!(image.format_tags.is_empty() && image.stream_summaries.is_empty());
    assert_eq!(image.file_tags.len(), 1);
    let other = list_metadata("/m/a".to_string(), None, file_metadata(None, Some(probe)), all_tools(), &exif).unwrap();
    assert_eq!((other.format_tags.len(), other.file_tags.len()), (1, 1));
    let no_tool = list_metadata("/m/a".to_string(), None, file_metadata(None, None), tool_status(true, true, false), &exif).unwrap();
    assert!(no_tool.file_tags.is_empty() && no_tool.format_tags.is_empty());
    assert!(is_image_extension("HEIC") && !is_image_extension("mp4") && !is_image_extension(""));
    assert!(is_video_audio_extension("Opus") && !is_video_audio_extension("png"));
}

#[test]
fn test_temp_paths() {
    assert_eq!(create_temp_path("/m/film.mkv", "ffmpeg", 1700000000123), "/m/film.seer_ffmpeg_1700000000123.mkv");
    assert_eq!(create_temp_path("film", "exif", 5), "film.seer_exif_5");
    assert_eq!(create_temp_path("/", "x", 0), "./file.seer_x_0");
    assert_eq!(create_backup_path("/m/a.b.c", 9), "/m/a.b.seer_backup_9.c");
}

#[test]
fn test_sort_entries() {
    let entry = |name: &str, is_dir: bool| listing_entry(name.to_string(), format!("/d/{}", name), is_dir, 1, None).unwrap();
    let sorted = sort_entries(vec![
        entry("b.txt", false),
        entry("Zeta", true),
        entry("a.MKV", false),
        entry("alpha", true),
        entry("B.txt", false),
        entry("a.mkv", false),
    ]);
    let names: Vec<(String, bool, bool)> = sorted.iter().map(|e| (e.name.clone(), e.is_dir, e.is_media)).collect();
    assert_eq!(
        names,
        vec![
            ("alpha".to_string(), true, false),
            ("Zeta".to_string(), true, false),
            ("a.MKV".to_string(), false, true),
            ("a.mkv".to_string(), false, true),
            ("b.txt".to_string(), false, false),
            ("B.txt".to_string(), false, false),
        ]
    );
    assert!(listing_entry(".hidden".to_string(), "/d/.hidden".to_string(), false, 1, None).is_none());
    assert!(!listing_entry("clip.mp4".to_string(), "/d/clip.mp4".to_string(), true, 1, None).unwrap().is_media);
    assert!(sort_entries(vec![]).is_empty());
    let order = |a: &str, b: &str| chars_at_most(&a.chars().collect(), &b.chars().collect());
    assert!(order("", "") && order("", "a") && !order("a", ""));
    assert!(order("abc", "abd") && !order("abd", "abc") && order("ab", "abc") && !order("abc", "ab"));
    assert!(order("Z", "a") && order("a", "\u{e4}"));
}

#[test]
fn test_check_command() {
    let found = check_command("ffmpeg", true, "ffmpeg version 6.1 Copyright\nbuilt with gcc\n", "ignored");
    assert_eq!(found.name, "ffmpeg");
    assert!(found.installed);
    assert_eq!(found.version.as_deref(), Some("ffmpeg version 6.1 Copyright"));
    let from_stderr = check_command("x", true, "", "  v2 \r\nmore");
    assert_eq!(from_stderr.version.as_deref(), Some("v2"));
    let silent = check_command("x", true, "", "");
    assert!(silent.installed);
    assert_eq!(silent.version, None);
    let blank = check_command("x", true, "\nsecond", "");
    assert_eq!(blank.version.as_deref(), Some(""));
    let missing = check_command("ffprobe", false, "ffprobe version 6", "");
    assert!(!missing.installed);
    assert_eq!(missing.version, None);
    let result = check_dependencies(found, missing, "linux");
    assert!(!result.all_installed);
    assert_eq!(result.platform, "linux");
    assert_eq!(result.dependencies.len(), 2);
    assert_eq!(result.dependencies[1].name, "ffprobe");
    let both = check_dependencies(check_command("a", true, "1", ""), check_command("b", true, "2", ""), "macos");
    assert!(both.all_installed);
}

#[test]
fn test_detect_tools() {
    let tools = seer::metadata::detect_tools(&Some("/usr/bin/ffmpeg".to_string()), &None, &Some("/usr/bin/exiftool".to_string()));
    assert!(tools.ffmpeg && !tools.ffprobe && tools.exiftool);
    let tools = seer::metadata::detect_tools(&None, &Some("/usr/bin/ffprobe".to_string()), &None);
    assert!(!tools.ffmpeg && tools.ffprobe && !tools.exiftool);
}
