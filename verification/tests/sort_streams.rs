use seer::streams::{sort_streams_audio_first, StreamInfo, StreamType};

fn stream(index: i32, stream_type: StreamType, codec: &str) -> StreamInfo {
    StreamInfo {
        index,
        stream_type,
        codec_name: Some(codec.to_string()),
        codec_long_name: None,
        language: None,
        title: None,
        is_default: false,
        is_forced: false,
        is_hearing_impaired: false,
        is_visual_impaired: false,
        is_commentary: false,
        is_lyrics: false,
        is_karaoke: false,
        is_cover_art: false,
        width: None,
        height: None,
        frame_rate: None,
        pixel_format: None,
        sample_rate: None,
        channels: None,
        channel_layout: None,
        bit_rate: None,
        subtitle_format: None,
        estimated_size: None,
    }
}

fn video(index: i32, width: i32, height: i32, bit_rate: &str) -> StreamInfo {
    let mut info = stream(index, StreamType::Video, "h264");
    info.width = Some(width);
    info.height = Some(height);
    info.frame_rate = Some("30".to_string());
    info.bit_rate = Some(bit_rate.to_string());
    info
}

fn audio(index: i32, codec: &str, bit_rate: &str) -> StreamInfo {
    let mut info = stream(index, StreamType::Audio, codec);
    info.sample_rate = Some("48000".to_string());
    info.channels = Some(2);
    info.channel_layout = Some("stereo".to_string());
    info.bit_rate = Some(bit_rate.to_string());
    info
}

#[test]
fn test_sort_streams_empty() {
    let mut streams: Vec<&StreamInfo> = vec![];
    sort_streams_audio_first(&mut streams);
    assert!(streams.is_empty());
}

#[test]
fn test_sort_streams_audio_first_order() {
    let video1 = video(0, 1920, 1080, "5000000");
    let audio1 = audio(1, "aac", "128000");
    let video2 = video(2, 1280, 720, "2500000");

    let mut streams = vec![&video1, &audio1, &video2];
    sort_streams_audio_first(&mut streams);

    assert_eq!(streams[0].index, 1);
    assert_eq!(streams[1].index, 0);
    assert_eq!(streams[2].index, 2);
}

#[test]
fn test_sort_streams_same_type_by_index() {
    let audio1 = audio(2, "aac", "128000");
    let audio2 = audio(1, "mp3", "192000");

    let mut streams = vec![&audio1, &audio2];
    sort_streams_audio_first(&mut streams);

    assert_eq!(streams[0].index, 1);
    assert_eq!(streams[1].index, 2);
}

#[test]
fn test_sort_streams_other_type_last() {
    let video = video(0, 1920, 1080, "5000000");
    let audio = audio(1, "aac", "128000");
    let mut subtitle = stream(2, StreamType::Subtitle, "subrip");
    subtitle.subtitle_format = Some("subrip".to_string());

    let mut streams = vec![&subtitle, &video, &audio];
    sort_streams_audio_first(&mut streams);

    assert_eq!(streams[0].stream_type, StreamType::Audio);
    assert_eq!(streams[1].stream_type, StreamType::Video);
    assert_eq!(streams[2].stream_type, StreamType::Subtitle);
}

#[test]
fn test_sort_streams_keeps_every_stream_and_breaks_ties_by_position() {
    let a = stream(5, StreamType::Data, "bin");
    let b = stream(5, StreamType::Attachment, "ttf");
    let c = audio(9, "aac", "1");
    let d = video(7, 1, 1, "1");
    let e = audio(3, "mp3", "1");
    let mut streams = vec![&a, &b, &c, &d, &e];
    sort_streams_audio_first(&mut streams);
    let order: Vec<(i32, StreamType)> = streams.iter().map(|s| (s.index, s.stream_type)).collect();
    assert_eq!(
        order,
        vec![
            (3, StreamType::Audio),
            (9, StreamType::Audio),
            (7, StreamType::Video),
            (5, StreamType::Data),
            (5, StreamType::Attachment),
        ]
    );
}
