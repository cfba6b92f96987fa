use seer::json::{parse_json, JsonValue};
use seer::streams::{
    count_by_kind, estimate_size, parse_disposition, parse_duration, parse_stream, parse_streams,
    get_media_streams, StreamType,
};

fn json(text: &str) -> JsonValue {
    parse_json(text).unwrap()
}

#[test]
fn test_parse_json_values() {
    let value = json(r#"{"b":[1,-2,2.5,"x",true,null,{"k":18446744073709551615}],"a":"first"}"#);
    assert!(matches!(value.get("a"), Some(JsonValue::Text(t)) if t == "first"));
    assert!(value.get("c").is_none());
    assert_eq!(value.string_of("a"), Some("first".to_string()));
    assert_eq!(value.string_of("b"), None);
    let items = value.get("b").unwrap().as_array().unwrap();
    assert_eq!(items.len(), 7);
    assert_eq!((items[0].as_i64(), items[0].as_u64()), (Some(1), Some(1)));
    assert_eq!((items[1].as_i64(), items[1].as_u64()), (Some(-2), None));
    assert_eq!((items[2].as_i64(), items[2].as_u64()), (None, None));
    assert_eq!(items[3].as_str(), Some(&"x".to_string()));
    assert!(matches!(items[4], JsonValue::Bool(true)));
    assert!(matches!(items[5], JsonValue::Null));
    assert_eq!(items[6].get("k").unwrap().as_u64(), Some(u64::MAX));
    assert_eq!(items[6].get("k").unwrap().as_i64(), None);
    assert_eq!(items[6].i64_of("k"), None);
    assert!(items[0].get("k").is_none());
    assert!(items[0].as_array().is_none());
    assert!(items[0].as_str().is_none());
    let copy = value.clone();
    assert_eq!(copy.get("b").unwrap().as_array().unwrap().len(), 7);
    assert_eq!(copy.string_of("a"), Some("first".to_string()));
}

#[test]
fn test_parse_json_errors() {
    assert!(parse_json("").is_err());
    assert!(parse_json("{").is_err());
    assert!(parse_json("{} x").is_err());
    assert!(parse_json("nul").is_err());
    assert!(matches!(parse_json(" null "), Ok(JsonValue::Null)));
}

#[test]
fn test_parse_disposition() {
    let flags = parse_disposition(&json(
        r#"{"default":1,"forced":0,"hearing_impaired":1,"visual_impaired":"1","comment":1,"lyrics":2,"karaoke":1}"#,
    ));
    assert!(flags.is_default);
    assert!(!flags.is_forced);
    assert!(flags.is_hearing_impaired);
    assert!(!flags.is_visual_impaired);
    assert!(flags.is_commentary);
    assert!(!flags.is_lyrics);
    assert!(flags.is_karaoke);
    let none = parse_disposition(&JsonValue::Null);
    assert!(!none.is_default && !none.is_karaoke);
}

#[test]
fn test_parse_stream_video() {
    let stream = parse_stream(&json(
        r#"{"index":0,"codec_type":"video","codec_name":"h264","codec_long_name":"H.264",
            "width":1920,"height":1080,"r_frame_rate":"24000/1001","pix_fmt":"yuv420p",
            "bit_rate":"8000000","duration":"10.5","nb_frames":"252",
            "disposition":{"default":1,"attached_pic":0},
            "tags":{"language":"eng","title":"Main Feature"}}"#,
    ));
    assert_eq!(stream.index, 0);
    assert_eq!(stream.stream_type, StreamType::Video);
    assert_eq!(stream.codec_name.as_deref(), Some("h264"));
    assert_eq!(stream.codec_long_name.as_deref(), Some("H.264"));
    assert_eq!(stream.language.as_deref(), Some("eng"));
    assert_eq!(stream.title.as_deref(), Some("Main Feature"));
    assert!(stream.is_default);
    assert!(!stream.is_forced && !stream.is_hearing_impaired && !stream.is_commentary);
    assert!(!stream.is_cover_art);
    assert_eq!((stream.width, stream.height), (Some(1920), Some(1080)));
    assert_eq!(stream.frame_rate.as_deref(), Some("24000/1001"));
    assert_eq!(stream.pixel_format.as_deref(), Some("yuv420p"));
    assert_eq!(stream.bit_rate.as_deref(), Some("8000000"));
    assert_eq!(stream.subtitle_format, None);
    assert_eq!(stream.estimated_size, Some(10_500_000));
    assert_eq!((stream.sample_rate, stream.channels, stream.channel_layout), (None, None, None));
}

#[test]
fn test_parse_stream_subtitle_hints_from_title() {
    let stream = parse_stream(&json(
        r#"{"index":3,"codec_type":"subtitle","codec_name":"subrip",
            "tags":{"title":"English (SDH) Forced COMMENTARY","NUMBER_OF_BYTES-eng":"4096","NUMBER_OF_BYTES":"x"}}"#,
    ));
    assert_eq!(stream.stream_type, StreamType::Subtitle);
    assert_eq!(stream.subtitle_format.as_deref(), Some("subrip"));
    assert!(stream.is_hearing_impaired && stream.is_forced && stream.is_commentary);
    assert!(!stream.is_default);
    assert_eq!(stream.estimated_size, Some(4096));
    let cc = parse_stream(&json(r#"{"codec_type":"subtitle","tags":{"title":"Accent"}}"#));
    assert!(cc.is_hearing_impaired);
    assert_eq!(cc.index, -1);
    assert_eq!(cc.subtitle_format, None);
}

#[test]
fn test_parse_stream_defaults_and_narrowing() {
    let stream = parse_stream(&json(r#"{"index":4294967297,"codec_type":"teletext","width":-1,"channels":4294967298}"#));
    assert_eq!(stream.index, 1);
    assert_eq!(stream.stream_type, StreamType::Unknown);
    assert_eq!(stream.width, Some(-1));
    assert_eq!(stream.channels, Some(2));
    assert_eq!(stream.estimated_size, None);
    let empty = parse_stream(&JsonValue::Null);
    assert_eq!(empty.index, -1);
    assert_eq!(empty.stream_type, StreamType::Unknown);
    for (name, kind) in [
        ("audio", StreamType::Audio),
        ("attachment", StreamType::Attachment),
        ("data", StreamType::Data),
        ("Video", StreamType::Unknown),
    ] {
        let text = format!(r#"{{"codec_type":"{}"}}"#, name);
        assert_eq!(parse_stream(&json(&text)).stream_type, kind);
    }
}

#[test]
fn test_cover_art() {
    let art = |text: &str| parse_stream(&json(text)).is_cover_art;
    assert!(art(r#"{"codec_type":"video","codec_name":"h264","disposition":{"attached_pic":1}}"#));
    assert!(art(r#"{"codec_type":"video","codec_name":"MJPEG"}"#));
    assert!(art(r#"{"codec_type":"video","codec_name":"png","nb_frames":"1"}"#));
    assert!(art(r#"{"codec_type":"video","codec_name":"png","nb_frames":"-1"}"#));
    assert!(art(r#"{"codec_type":"video","codec_name":"png","nb_frames":"many"}"#));
    assert!(!art(r#"{"codec_type":"video","codec_name":"png","nb_frames":"2"}"#));
    assert!(!art(r#"{"codec_type":"video","codec_name":"h264","nb_frames":"1"}"#));
    assert!(!art(r#"{"codec_type":"audio","codec_name":"png","disposition":{"attached_pic":1}}"#));
    assert!(!art(r#"{"codec_type":"video"}"#));
}

#[test]
fn test_estimate_size() {
    assert_eq!(estimate_size(10_500_000, 8_000_000), 10_500_000);
    assert_eq!(estimate_size(1_000_000, 7), 0);
    assert_eq!(estimate_size(1_000_000, 8), 1);
    assert_eq!(estimate_size(0, 8_000_000), 0);
    assert_eq!(estimate_size(-5, 8_000_000), 0);
    assert_eq!(estimate_size(i64::MAX, u64::MAX), u64::MAX);
}

#[test]
fn test_summarize_media() {
    let document = json(
        r#"{"format":{"duration":"61.25"},"streams":[
            {"index":0,"codec_type":"video","codec_name":"hevc"},
            {"index":1,"codec_type":"audio"},
            {"index":2,"codec_type":"audio"},
            {"index":3,"codec_type":"subtitle"},
            {"index":4,"codec_type":"video","codec_name":"mjpeg"},
            {"index":5,"codec_type":"attachment"},
            {"index":6,"codec_type":"data"}]}"#,
    );
    let summary = get_media_streams("/m/a.mkv".to_string(), &document, 1234);
    assert_eq!(summary.path, "/m/a.mkv");
    assert_eq!(summary.total_size, 1234);
    assert_eq!(summary.duration_us, 61_250_000);
    assert_eq!(summary.streams.len(), 7);
    assert_eq!(summary.video_count, 1);
    assert_eq!(summary.audio_count, 2);
    assert_eq!(summary.subtitle_count, 1);
    assert_eq!(summary.attachment_count, 2);
    let counts = count_by_kind(&summary.streams);
    assert_eq!((counts.video, counts.audio, counts.subtitle, counts.attachment), (1, 2, 1, 2));
    assert_eq!(parse_duration(&document), Some(61_250_000));
    assert_eq!(parse_duration(&json(r#"{"format":{"duration":"N/A"}}"#)), None);
    assert_eq!(parse_duration(&json(r#"{"format":{"duration":12}}"#)), None);
    assert_eq!(parse_duration(&json("{}")), None);
    assert!(parse_streams(&json(r#"{"streams":{}}"#)).is_empty());
    let bare = get_media_streams(String::new(), &json("{}"), 0);
    assert_eq!(bare.duration_us, 0);
    assert!(bare.streams.is_empty());
}
