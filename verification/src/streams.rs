//! Streams of a media file, as the metadata probe reports them.

use crate::json::{json_views, JsonValue, JsonView};
use crate::packets::{micros_value, parse_micros};
use crate::text::{
    contains_text, has_literal, is_text, lowercase_chars, lowercased, parse_signed,
    parse_unsigned, signed_value, to_chars, unsigned_value,
};
use crate::ties::{keeps_ties, lemma_insert_after_ties, with_key};
use vstd::prelude::*;

verus! {

/// Kind of a stream.
#[derive(Debug, Clone, Copy, PartialEq, Eq, Structural)]
pub enum StreamType {
    Video,
    Audio,
    Subtitle,
    Attachment,
    Data,
    Unknown,
}

/// One stream of a media file.
#[derive(Debug)]
pub struct StreamInfo {
    pub index: i32,
    pub stream_type: StreamType,
    pub codec_name: Option<String>,
    pub codec_long_name: Option<String>,
    pub language: Option<String>,
    pub title: Option<String>,
    pub is_default: bool,
    pub is_forced: bool,
    pub is_hearing_impaired: bool,
    pub is_visual_impaired: bool,
    pub is_commentary: bool,
    pub is_lyrics: bool,
    pub is_karaoke: bool,
    pub is_cover_art: bool,
    pub width: Option<i32>,
    pub height: Option<i32>,
    pub frame_rate: Option<String>,
    pub pixel_format: Option<String>,
    pub sample_rate: Option<String>,
    pub channels: Option<i32>,
    pub channel_layout: Option<String>,
    pub bit_rate: Option<String>,
    pub subtitle_format: Option<String>,
    pub estimated_size: Option<u64>,
}

/// Mathematical value of a [`StreamInfo`].
pub struct StreamView {
    pub index: i32,
    pub stream_type: StreamType,
    pub codec_name: Option<Seq<char>>,
    pub codec_long_name: Option<Seq<char>>,
    pub language: Option<Seq<char>>,
    pub title: Option<Seq<char>>,
    pub is_default: bool,
    pub is_forced: bool,
    pub is_hearing_impaired: bool,
    pub is_visual_impaired: bool,
    pub is_commentary: bool,
    pub is_lyrics: bool,
    pub is_karaoke: bool,
    pub is_cover_art: bool,
    pub width: Option<i32>,
    pub height: Option<i32>,
    pub frame_rate: Option<Seq<char>>,
    pub pixel_format: Option<Seq<char>>,
    pub sample_rate: Option<Seq<char>>,
    pub channels: Option<i32>,
    pub channel_layout: Option<Seq<char>>,
    pub bit_rate: Option<Seq<char>>,
    pub subtitle_format: Option<Seq<char>>,
    pub estimated_size: Option<u64>,
}

/// Text of an optional string.
pub open spec fn text_view(value: Option<String>) -> Option<Seq<char>> {
    match value {
        Some(text) => Some(text@),
        None => None,
    }
}

impl View for StreamInfo {
    type V = StreamView;

    open spec fn view(&self) -> StreamView {
        StreamView {
            index: self.index,
            stream_type: self.stream_type,
            codec_name: text_view(self.codec_name),
            codec_long_name: text_view(self.codec_long_name),
            language: text_view(self.language),
            title: text_view(self.title),
            is_default: self.is_default,
            is_forced: self.is_forced,
            is_hearing_impaired: self.is_hearing_impaired,
            is_visual_impaired: self.is_visual_impaired,
            is_commentary: self.is_commentary,
            is_lyrics: self.is_lyrics,
            is_karaoke: self.is_karaoke,
            is_cover_art: self.is_cover_art,
            width: self.width,
            height: self.height,
            frame_rate: text_view(self.frame_rate),
            pixel_format: text_view(self.pixel_format),
            sample_rate: text_view(self.sample_rate),
            channels: self.channels,
            channel_layout: text_view(self.channel_layout),
            bit_rate: text_view(self.bit_rate),
            subtitle_format: text_view(self.subtitle_format),
            estimated_size: self.estimated_size,
        }
    }
}

/// A copy of an optional string.
pub fn copy_text(value: &Option<String>) -> (copy: Option<String>)
    ensures
        text_view(copy) == text_view(*value),
{
    match value {
        Some(text) => Some(text.clone()),
        None => None,
    }
}

impl Clone for StreamInfo {
    fn clone(&self) -> (copy: Self)
        ensures
            copy@ == self@,
    {
        StreamInfo {
            index: self.index,
            stream_type: self.stream_type,
            codec_name: copy_text(&self.codec_name),
            codec_long_name: copy_text(&self.codec_long_name),
            language: copy_text(&self.language),
            title: copy_text(&self.title),
            is_default: self.is_default,
            is_forced: self.is_forced,
            is_hearing_impaired: self.is_hearing_impaired,
            is_visual_impaired: self.is_visual_impaired,
            is_commentary: self.is_commentary,
            is_lyrics: self.is_lyrics,
            is_karaoke: self.is_karaoke,
            is_cover_art: self.is_cover_art,
            width: self.width,
            height: self.height,
            frame_rate: copy_text(&self.frame_rate),
            pixel_format: copy_text(&self.pixel_format),
            sample_rate: copy_text(&self.sample_rate),
            channels: self.channels,
            channel_layout: copy_text(&self.channel_layout),
            bit_rate: copy_text(&self.bit_rate),
            subtitle_format: copy_text(&self.subtitle_format),
            estimated_size: self.estimated_size,
        }
    }
}

/// Disposition flags of a stream.
#[derive(Debug, Clone, Copy, PartialEq, Eq, Structural)]
pub struct Disposition {
    pub is_default: bool,
    pub is_forced: bool,
    pub is_hearing_impaired: bool,
    pub is_visual_impaired: bool,
    pub is_commentary: bool,
    pub is_lyrics: bool,
    pub is_karaoke: bool,
}

/// Whether the member `key` of a disposition object is the number one.
pub open spec fn flag_is_set(disposition: JsonView, key: Seq<char>) -> bool {
    disposition.i64_of(key) == Some(1i64)
}

/// The flags that a disposition object sets.
pub open spec fn disposition_of(disposition: JsonView) -> Disposition {
    Disposition {
        is_default: flag_is_set(disposition, "default"@),
        is_forced: flag_is_set(disposition, "forced"@),
        is_hearing_impaired: flag_is_set(disposition, "hearing_impaired"@),
        is_visual_impaired: flag_is_set(disposition, "visual_impaired"@),
        is_commentary: flag_is_set(disposition, "comment"@),
        is_lyrics: flag_is_set(disposition, "lyrics"@),
        is_karaoke: flag_is_set(disposition, "karaoke"@),
    }
}

/// Whether the member `key` of a disposition object is the number one.
fn read_flag(disposition: &JsonValue, key: &str) -> (set: bool)
    ensures
        set == flag_is_set(disposition@, key@),
{
    match disposition.i64_of(key) {
        Some(value) => value == 1,
        None => false,
    }
}

/// Reads the disposition flags of a stream.
pub fn parse_disposition(disposition: &JsonValue) -> (flags: Disposition)
    ensures
        flags == disposition_of(disposition@),
{
    Disposition {
        is_default: read_flag(disposition, "default"),
        is_forced: read_flag(disposition, "forced"),
        is_hearing_impaired: read_flag(disposition, "hearing_impaired"),
        is_visual_impaired: read_flag(disposition, "visual_impaired"),
        is_commentary: read_flag(disposition, "comment"),
        is_lyrics: read_flag(disposition, "lyrics"),
        is_karaoke: read_flag(disposition, "karaoke"),
    }
}

/// The kind of stream that a codec type names.
pub open spec fn stream_type_of(codec_type: Option<Seq<char>>) -> StreamType {
    match codec_type {
        Some(name) => if name == "video"@ {
            StreamType::Video
        } else if name == "audio"@ {
            StreamType::Audio
        } else if name == "subtitle"@ {
            StreamType::Subtitle
        } else if name == "attachment"@ {
            StreamType::Attachment
        } else if name == "data"@ {
            StreamType::Data
        } else {
            StreamType::Unknown
        },
        None => StreamType::Unknown,
    }
}

/// The disposition object of a stream; the null value if it has none.
pub open spec fn disposition_member(stream: JsonView) -> JsonView {
    match stream.get("disposition"@) {
        Some(member) => member,
        None => JsonView::Null,
    }
}

/// The text of the member `key` of the tags of a stream.
pub open spec fn tag_of(stream: JsonView, key: Seq<char>) -> Option<Seq<char>> {
    match stream.get("tags"@) {
        Some(tags) => tags.text_of(key),
        None => None,
    }
}

/// The title of a stream in lower case; empty if it has none.
pub open spec fn lower_title(stream: JsonView) -> Seq<char> {
    match tag_of(stream, "title"@) {
        Some(title) => lowercased(title),
        None => Seq::empty(),
    }
}

/// Whether a codec name, in lower case, is that of a still image.
pub open spec fn is_image_codec(lower_name: Seq<char>) -> bool {
    ||| lower_name == "mjpeg"@
    ||| lower_name == "png"@
    ||| lower_name == "bmp"@
    ||| lower_name == "gif"@
    ||| lower_name == "webp"@
    ||| lower_name == "jpeg"@
}

/// Number of frames that a stream declares; `-1` if it declares none.
pub open spec fn declared_frames(stream: JsonView) -> int {
    match stream.text_of("nb_frames"@) {
        Some(text) => match signed_value(text) {
            Some(count) => if i64::MIN <= count <= i64::MAX {
                count
            } else {
                -1
            },
            None => -1,
        },
        None => -1,
    }
}

/// The codec name of a stream; empty if it has none.
pub open spec fn codec_or_empty(stream: JsonView) -> Seq<char> {
    match stream.text_of("codec_name"@) {
        Some(name) => name,
        None => Seq::empty(),
    }
}

/// Whether a stream is cover art: a video stream that is marked as an
/// attached picture, or whose codec is that of a still image and that
/// declares one frame or none.
pub open spec fn is_cover_art(stream: JsonView) -> bool {
    &&& stream_type_of(stream.text_of("codec_type"@)) == StreamType::Video
    &&& (flag_is_set(disposition_member(stream), "attached_pic"@) || (is_image_codec(
        lowercased(codec_or_empty(stream)),
    ) && (declared_frames(stream) == 1 || declared_frames(stream) == -1)))
}

/// The number that the text member `key` of a stream stands for, if it fits
/// in 64 bits.
pub open spec fn unsigned_member(stream: JsonView, key: Seq<char>) -> Option<u64> {
    match stream.text_of(key) {
        Some(text) => match unsigned_value(text) {
            Some(value) => if value <= u64::MAX {
                Some(value as u64)
            } else {
                None
            },
            None => None,
        },
        None => None,
    }
}

/// The number that the tag `key` of a stream stands for, if it fits in 64 bits.
pub open spec fn unsigned_tag(stream: JsonView, key: Seq<char>) -> Option<u64> {
    match tag_of(stream, key) {
        Some(text) => match unsigned_value(text) {
            Some(value) => if value <= u64::MAX {
                Some(value as u64)
            } else {
                None
            },
            None => None,
        },
        None => None,
    }
}

/// Bytes of a stream of the given duration in microseconds and bit rate in
/// bits per second, rounded down and capped at the largest 64-bit value; a
/// negative duration gives zero.
pub open spec fn size_from_rate(duration_us: int, bit_rate: nat) -> u64 {
    if duration_us <= 0 {
        0
    } else if duration_us * bit_rate / 8_000_000 > u64::MAX {
        u64::MAX
    } else {
        (duration_us * bit_rate / 8_000_000) as u64
    }
}

/// The size of a stream in bytes: the byte count in its tags if there is
/// one, and else its duration times its bit rate if it declares both.
pub open spec fn estimated_size_of(stream: JsonView) -> Option<u64> {
    if unsigned_tag(stream, "NUMBER_OF_BYTES"@) is Some {
        unsigned_tag(stream, "NUMBER_OF_BYTES"@)
    } else if unsigned_tag(stream, "NUMBER_OF_BYTES-eng"@) is Some {
        unsigned_tag(stream, "NUMBER_OF_BYTES-eng"@)
    } else {
        let duration = match stream.text_of("duration"@) {
            Some(text) => micros_value(text),
            None => None,
        };
        match (duration, unsigned_member(stream, "bit_rate"@)) {
            (Some(d), Some(rate)) => Some(size_from_rate(d, rate as nat)),
            _ => None,
        }
    }
}

/// The low 32 bits of the signed integer member `key` of a stream.
pub open spec fn narrow_member(stream: JsonView, key: Seq<char>) -> Option<i32> {
    match stream.i64_of(key) {
        Some(value) => Some(value as i32),
        None => None,
    }
}

/// The stream that an entry of the stream list of the metadata probe
/// describes.
pub open spec fn stream_of(stream: JsonView) -> StreamView {
    let flags = disposition_of(disposition_member(stream));
    let title = lower_title(stream);
    let kind = stream_type_of(stream.text_of("codec_type"@));
    StreamView {
        index: match stream.i64_of("index"@) {
            Some(value) => value as i32,
            None => -1i32,
        },
        stream_type: kind,
        codec_name: stream.text_of("codec_name"@),
        codec_long_name: stream.text_of("codec_long_name"@),
        language: tag_of(stream, "language"@),
        title: tag_of(stream, "title"@),
        is_default: flags.is_default,
        is_forced: flags.is_forced || contains_text(title, "forced"@),
        is_hearing_impaired: flags.is_hearing_impaired || contains_text(title, "sdh"@)
            || contains_text(title, "hearing impaired"@) || contains_text(title, "cc"@),
        is_visual_impaired: flags.is_visual_impaired,
        is_commentary: flags.is_commentary || contains_text(title, "commentary"@),
        is_lyrics: flags.is_lyrics,
        is_karaoke: flags.is_karaoke,
        is_cover_art: is_cover_art(stream),
        width: narrow_member(stream, "width"@),
        height: narrow_member(stream, "height"@),
        frame_rate: stream.text_of("r_frame_rate"@),
        pixel_format: stream.text_of("pix_fmt"@),
        sample_rate: stream.text_of("sample_rate"@),
        channels: narrow_member(stream, "channels"@),
        channel_layout: stream.text_of("channel_layout"@),
        bit_rate: stream.text_of("bit_rate"@),
        subtitle_format: if kind == StreamType::Subtitle {
            stream.text_of("codec_name"@)
        } else {
            None
        },
        estimated_size: estimated_size_of(stream),
    }
}

/// The kind of stream that a codec type names.
fn read_stream_type(stream: &JsonValue) -> (kind: StreamType)
    ensures
        kind == stream_type_of(stream@.text_of("codec_type"@)),
{
    match stream.text_of("codec_type") {
        Some(name) => {
            if is_text(&name, "video") {
                StreamType::Video
            } else if is_text(&name, "audio") {
                StreamType::Audio
            } else if is_text(&name, "subtitle") {
                StreamType::Subtitle
            } else if is_text(&name, "attachment") {
                StreamType::Attachment
            } else if is_text(&name, "data") {
                StreamType::Data
            } else {
                StreamType::Unknown
            }
        },
        None => StreamType::Unknown,
    }
}

/// A copy of the tag `key` of a stream.
fn read_tag(stream: &JsonValue, key: &str) -> (text: Option<String>)
    ensures
        text_view(text) == tag_of(stream@, key@),
{
    match stream.get("tags") {
        Some(tags) => tags.string_of(key),
        None => None,
    }
}

/// A copy of the text member `key` of a stream.
fn read_text(stream: &JsonValue, key: &str) -> (text: Option<String>)
    ensures
        text_view(text) == stream@.text_of(key@),
{
    stream.string_of(key)
}

/// The low 32 bits of the signed integer member `key` of a stream.
fn read_narrow(stream: &JsonValue, key: &str) -> (value: Option<i32>)
    ensures
        value == narrow_member(stream@, key@),
{
    match stream.i64_of(key) {
        Some(value) => Some(#[verifier::truncate] (value as i32)),
        None => None,
    }
}

/// The number that an optional text stands for, if it fits in 64 bits.
fn read_unsigned(text: &Option<String>) -> (value: Option<u64>)
    ensures
        value == match text_view(*text) {
            Some(t) => match unsigned_value(t) {
                Some(v) => if v <= u64::MAX {
                    Some(v as u64)
                } else {
                    None
                },
                None => None,
            },
            None => None,
        },
{
    match text {
        Some(t) => {
            let chars = to_chars(t.as_str());
            parse_unsigned(&chars)
        },
        None => None,
    }
}

/// Bytes of a stream of the given duration and bit rate.
pub fn estimate_size(duration_us: i64, bit_rate: u64) -> (size: u64)
    ensures
        size == size_from_rate(duration_us as int, bit_rate as nat),
{
    if duration_us <= 0 {
        return 0;
    }
    assert(duration_us as u128 * bit_rate as u128 <= i64::MAX * u64::MAX) by (nonlinear_arith)
        requires
            0 < duration_us <= i64::MAX,
            0 <= bit_rate <= u64::MAX,
    ;
    let exact: u128 = duration_us as u128 * bit_rate as u128 / 8_000_000u128;
    if exact > u64::MAX as u128 {
        u64::MAX
    } else {
        exact as u64
    }
}

/// Whether a stream is cover art.
fn read_cover_art(stream: &JsonValue, kind: StreamType) -> (cover: bool)
    requires
        kind == stream_type_of(stream@.text_of("codec_type"@)),
    ensures
        cover == is_cover_art(stream@),
{
    match kind {
        StreamType::Video => {},
        _ => {
            return false;
        },
    }
    let attached = match stream.get("disposition") {
        Some(disposition) => read_flag(disposition, "attached_pic"),
        None => {
            assert(JsonView::Null.i64_of("attached_pic"@) is None);
            false
        },
    };
    if attached {
        return true;
    }
    let codec = match stream.text_of("codec_name") {
        Some(name) => name,
        None => Vec::new(),
    };
    assert(codec@ =~= codec_or_empty(stream@));
    let lower = lowercase_chars(&codec);
    let image = is_text(&lower, "mjpeg") || is_text(&lower, "png") || is_text(&lower, "bmp")
        || is_text(&lower, "gif") || is_text(&lower, "webp") || is_text(&lower, "jpeg");
    if !image {
        return false;
    }
    let frames: i64 = match stream.text_of("nb_frames") {
        Some(text) => match parse_signed(&text) {
            Some(count) => count,
            None => -1,
        },
        None => -1,
    };
    frames == 1 || frames == -1
}

/// The size of a stream in bytes, as far as it can be told.
fn read_estimated_size(stream: &JsonValue) -> (size: Option<u64>)
    ensures
        size == estimated_size_of(stream@),
{
    let tagged = read_unsigned(&read_tag(stream, "NUMBER_OF_BYTES"));
    if tagged.is_some() {
        return tagged;
    }
    let tagged_eng = read_unsigned(&read_tag(stream, "NUMBER_OF_BYTES-eng"));
    if tagged_eng.is_some() {
        return tagged_eng;
    }
    let duration = match stream.text_of("duration") {
        Some(text) => parse_micros(&text),
        None => None,
    };
    let rate = read_unsigned(&read_text(stream, "bit_rate"));
    match (duration, rate) {
        (Some(d), Some(r)) => Some(estimate_size(d, r)),
        _ => None,
    }
}

/// Reads one entry of the stream list of the metadata probe.
pub fn parse_stream(stream: &JsonValue) -> (info: StreamInfo)
    ensures
        info@ == stream_of(stream@),
{
    let index: i32 = match stream.i64_of("index") {
        Some(value) => #[verifier::truncate] (value as i32),
        None => -1,
    };
    let stream_type = read_stream_type(stream);
    let language = read_tag(stream, "language");
    let title = read_tag(stream, "title");
    let flags = match stream.get("disposition") {
        Some(disposition) => parse_disposition(disposition),
        None => {
            let null = JsonValue::Null;
            parse_disposition(&null)
        },
    };
    let title_lower: Vec<char> = match &title {
        Some(text) => {
            let chars = to_chars(text.as_str());
            lowercase_chars(&chars)
        },
        None => Vec::new(),
    };
    assert(title_lower@ =~= lower_title(stream@));
    let is_hearing_impaired = flags.is_hearing_impaired || has_literal(&title_lower, "sdh")
        || has_literal(&title_lower, "hearing impaired") || has_literal(&title_lower, "cc");
    let is_commentary = flags.is_commentary || has_literal(&title_lower, "commentary");
    let is_forced = flags.is_forced || has_literal(&title_lower, "forced");
    let is_cover_art = read_cover_art(stream, stream_type);
    let estimated_size = read_estimated_size(stream);
    let subtitle_format = match stream_type {
        StreamType::Subtitle => read_text(stream, "codec_name"),
        _ => None,
    };
    StreamInfo {
        index,
        stream_type,
        codec_name: read_text(stream, "codec_name"),
        codec_long_name: read_text(stream, "codec_long_name"),
        language,
        title,
        is_default: flags.is_default,
        is_forced,
        is_hearing_impaired,
        is_visual_impaired: flags.is_visual_impaired,
        is_commentary,
        is_lyrics: flags.is_lyrics,
        is_karaoke: flags.is_karaoke,
        is_cover_art,
        width: read_narrow(stream, "width"),
        height: read_narrow(stream, "height"),
        frame_rate: read_text(stream, "r_frame_rate"),
        pixel_format: read_text(stream, "pix_fmt"),
        sample_rate: read_text(stream, "sample_rate"),
        channels: read_narrow(stream, "channels"),
        channel_layout: read_text(stream, "channel_layout"),
        bit_rate: read_text(stream, "bit_rate"),
        subtitle_format,
        estimated_size,
    }
}

/// Views of a sequence of streams, in order.
pub open spec fn stream_views(streams: Seq<StreamInfo>) -> Seq<StreamView> {
    streams.map_values(|s: StreamInfo| s@)
}

/// The streams that a metadata document lists, in order; none if the
/// document has no stream list.
pub open spec fn streams_of(document: JsonView) -> Seq<StreamView> {
    match document.get("streams"@) {
        Some(member) => match member.as_array() {
            Some(entries) => entries.map_values(|entry: JsonView| stream_of(entry)),
            None => Seq::empty(),
        },
        None => Seq::empty(),
    }
}

/// The duration that a metadata document declares for the container, in
/// microseconds.
pub open spec fn declared_duration(document: JsonView) -> Option<int> {
    match document.get("format"@) {
        Some(format) => match format.text_of("duration"@) {
            Some(text) => micros_value(text),
            None => None,
        },
        None => None,
    }
}

/// Reads the stream list of a metadata document.
pub fn parse_streams(document: &JsonValue) -> (streams: Vec<StreamInfo>)
    ensures
        stream_views(streams@) == streams_of(document@),
{
    let entries = match document.get("streams") {
        Some(member) => match member.as_array() {
            Some(entries) => entries,
            None => {
                let none: Vec<StreamInfo> = Vec::new();
                assert(stream_views(none@) =~= Seq::<StreamView>::empty());
                return none;
            },
        },
        None => {
            let none: Vec<StreamInfo> = Vec::new();
            assert(stream_views(none@) =~= Seq::<StreamView>::empty());
            return none;
        },
    };
    let mut streams: Vec<StreamInfo> = Vec::new();
    let mut i: usize = 0;
    while i < entries.len()
        invariant
            i <= entries.len(),
            streams@.len() == i,
            forall|k: int| 0 <= k < i ==> (#[trigger] streams@[k])@ == stream_of(entries@[k]@),
        decreases entries.len() - i,
    {
        streams.push(parse_stream(&entries[i]));
        i += 1;
    }
    assert(stream_views(streams@) =~= json_views(entries@).map_values(
        |entry: JsonView| stream_of(entry),
    ));
    streams
}

/// Reads the duration of the container from a metadata document.
pub fn parse_duration(document: &JsonValue) -> (duration_us: Option<i64>)
    ensures
        duration_us is Some == declared_duration(document@) is Some,
        duration_us is Some ==> duration_us->0 == declared_duration(document@)->0,
{
    match document.get("format") {
        Some(format) => match format.text_of("duration") {
            Some(text) => parse_micros(&text),
            None => None,
        },
        None => None,
    }
}

/// Rank of a stream kind in the order of analysis: audio first, then video,
/// then everything else.
pub open spec fn analysis_rank(kind: StreamType) -> int {
    match kind {
        StreamType::Audio => 0,
        StreamType::Video => 1,
        _ => 2,
    }
}

/// Whether stream `a` is analysed no later than stream `b`: by rank of
/// kind, and within a kind by index.
pub open spec fn analysed_before(a: StreamView, b: StreamView) -> bool {
    analysis_rank(a.stream_type) < analysis_rank(b.stream_type) || (analysis_rank(a.stream_type)
        == analysis_rank(b.stream_type) && a.index <= b.index)
}

/// Whether a sequence of streams is in the order of analysis.
pub open spec fn in_analysis_order(streams: Seq<StreamView>) -> bool {
    forall|i: int, j: int|
        0 <= i < j < streams.len() ==> analysed_before(#[trigger] streams[i], #[trigger] streams[j])
}

/// Rank of a stream kind in the order of analysis.
fn rank_of(kind: StreamType) -> (rank: u8)
    ensures
        rank == analysis_rank(kind),
{
    match kind {
        StreamType::Audio => 0,
        StreamType::Video => 1,
        _ => 2,
    }
}

/// Whether stream `a` is analysed no later than stream `b`.
fn goes_before(a: &StreamInfo, b: &StreamInfo) -> (before: bool)
    ensures
        before == analysed_before(a@, b@),
{
    let rank_a = rank_of(a.stream_type);
    let rank_b = rank_of(b.stream_type);
    rank_a < rank_b || (rank_a == rank_b && a.index <= b.index)
}

/// Views of a sequence of borrowed streams, in order.
pub open spec fn borrowed_views(streams: Seq<&StreamInfo>) -> Seq<StreamView> {
    streams.map_values(|s: &StreamInfo| s@)
}

/// The function from a stream to what the order of analysis looks at: the
/// rank of its kind and its index.
pub open spec fn analysis_key() -> spec_fn(StreamView) -> (int, int) {
    |stream: StreamView| (analysis_rank(stream.stream_type), stream.index as int)
}

/// Puts streams into the order of analysis: audio streams first, then video
/// streams, then all others, and by index within each kind. Streams that
/// tie keep their order.
pub fn sort_streams_audio_first(streams: &mut Vec<&StreamInfo>)
    ensures
        in_analysis_order(borrowed_views(final(streams)@)),
        borrowed_views(final(streams)@).to_multiset() == borrowed_views(old(streams)@).to_multiset(),
        keeps_ties(
            borrowed_views(old(streams)@),
            borrowed_views(final(streams)@),
            analysis_key(),
        ),
{
    let n = streams.len();
    let mut sorted: Vec<&StreamInfo> = Vec::new();
    let mut i: usize = 0;
    proof {
        assert(borrowed_views(streams@).take(0) =~= Seq::<StreamView>::empty());
        assert(borrowed_views(sorted@) =~= Seq::<StreamView>::empty());
    }
    while i < n
        invariant
            i <= n,
            n == streams.len(),
            streams@ == old(streams)@,
            sorted@.len() == i,
            in_analysis_order(borrowed_views(sorted@)),
            borrowed_views(sorted@).to_multiset() == borrowed_views(streams@).take(
                i as int,
            ).to_multiset(),
            keeps_ties(
                borrowed_views(streams@).take(i as int),
                borrowed_views(sorted@),
                analysis_key(),
            ),
        decreases n - i,
    {
        let item: &StreamInfo = streams[i];
        let mut at: usize = sorted.len();
        while at > 0 && !goes_before(sorted[at - 1], item)
            invariant
                at <= sorted.len(),
                forall|k: int|
                    at <= k < sorted@.len() ==> !analysed_before(
                        (#[trigger] sorted@[k])@,
                        item@,
                    ),
            decreases at,
        {
            at -= 1;
        }
        let ghost before = borrowed_views(sorted@);
        sorted.insert(at, item);
        proof {
            let after = borrowed_views(sorted@);
            assert(after =~= before.insert(at as int, item@));
            assert forall|a: int, b: int| 0 <= a < b < after.len() implies analysed_before(
                #[trigger] after[a],
                #[trigger] after[b],
            ) by {
                if b < at {
                    assert(after[a] == before[a] && after[b] == before[b]);
                } else if b == at {
                    assert(after[a] == before[a]);
                    assert(analysed_before(before[at - 1], item@));
                    if a < at - 1 {
                        assert(analysed_before(before[a], before[at - 1]));
                    }
                } else if a < at {
                    assert(after[a] == before[a] && after[b] == before[b - 1]);
                } else if a == at {
                    assert(after[b] == before[b - 1]);
                    assert(!analysed_before(before[b - 1], item@));
                } else {
                    assert(after[a] == before[a - 1] && after[b] == before[b - 1]);
                }
            }
            let prefix = borrowed_views(streams@).take(i as int);
            let next = borrowed_views(streams@).take(i + 1);
            assert(next =~= prefix.push(item@));
            vstd::seq_lib::to_multiset_build(prefix, item@);
            lemma_insert_multiset(before, at as int, item@);
            assert forall|k: int| at <= k < before.len() implies analysis_key()(#[trigger] before[k])
                != analysis_key()(item@) by {
                assert(before[k] == sorted@[k + 1]@);
                assert(after[k + 1] == before[k]);
                assert(!analysed_before(before[k], item@));
            }
            assert forall|k: (int, int)| #[trigger]
                with_key(after, analysis_key(), k) == with_key(next, analysis_key(), k) by {
                lemma_insert_after_ties(before, at as int, item@, analysis_key(), k);
                assert(next.drop_last() =~= prefix);
                assert(with_key(before, analysis_key(), k) == with_key(prefix, analysis_key(), k));
            }
        }
        i += 1;
    }
    assert(borrowed_views(streams@).take(n as int) =~= borrowed_views(streams@));
    *streams = sorted;
}

/// Inserting a value into a sequence adds one occurrence of it.
proof fn lemma_insert_multiset(values: Seq<StreamView>, at: int, value: StreamView)
    requires
        0 <= at <= values.len(),
    ensures
        values.insert(at, value).to_multiset() == values.to_multiset().insert(value),
{
    broadcast use vstd::seq_lib::group_to_multiset_ensures;

    let left = values.take(at);
    let right = values.skip(at);
    assert(values =~= left + right);
    assert(values.insert(at, value) =~= left.push(value) + right);
    vstd::seq_lib::lemma_multiset_commutative(left, right);
    vstd::seq_lib::lemma_multiset_commutative(left.push(value), right);
    assert(left.push(value).to_multiset() =~= left.to_multiset().insert(value));
    assert(values.insert(at, value).to_multiset() =~= values.to_multiset().insert(value));
}

/// Summary of the streams of a media file.
#[derive(Debug)]
pub struct MediaStreams {
    pub path: String,
    pub streams: Vec<StreamInfo>,
    /// Video streams that are not cover art.
    pub video_count: usize,
    pub audio_count: usize,
    pub subtitle_count: usize,
    /// Attachments and cover art.
    pub attachment_count: usize,
    /// Size of the file in bytes.
    pub total_size: u64,
    /// Duration of the container in microseconds; zero if it declares none.
    pub duration_us: i64,
}

/// The four counts of a media summary.
#[derive(Debug, Clone, Copy, PartialEq, Eq, Structural)]
pub struct StreamCounts {
    pub video: usize,
    pub audio: usize,
    pub subtitle: usize,
    pub attachment: usize,
}

/// Whether a stream counts as video: a video stream that is not cover art.
pub open spec fn counts_as_video(stream: StreamView) -> bool {
    stream.stream_type == StreamType::Video && !stream.is_cover_art
}

/// Whether a stream counts as attachment: an attachment or cover art.
pub open spec fn counts_as_attachment(stream: StreamView) -> bool {
    stream.stream_type == StreamType::Attachment || stream.is_cover_art
}

/// Number of streams among the first `n` that satisfy `wanted`.
pub open spec fn count_streams(
    streams: Seq<StreamView>,
    wanted: spec_fn(StreamView) -> bool,
    n: int,
) -> nat
    decreases n,
{
    if n <= 0 {
        0
    } else {
        count_streams(streams, wanted, n - 1) + if wanted(streams[n - 1]) {
            1nat
        } else {
            0nat
        }
    }
}

/// Counts the streams of each kind.
pub fn count_by_kind(streams: &Vec<StreamInfo>) -> (counts: StreamCounts)
    ensures
        counts.video == count_streams(
            stream_views(streams@),
            |s: StreamView| counts_as_video(s),
            streams@.len() as int,
        ),
        counts.audio == count_streams(
            stream_views(streams@),
            |s: StreamView| s.stream_type == StreamType::Audio,
            streams@.len() as int,
        ),
        counts.subtitle == count_streams(
            stream_views(streams@),
            |s: StreamView| s.stream_type == StreamType::Subtitle,
            streams@.len() as int,
        ),
        counts.attachment == count_streams(
            stream_views(streams@),
            |s: StreamView| counts_as_attachment(s),
            streams@.len() as int,
        ),
{
    let ghost views = stream_views(streams@);
    let mut video: usize = 0;
    let mut audio: usize = 0;
    let mut subtitle: usize = 0;
    let mut attachment: usize = 0;
    let mut i: usize = 0;
    while i < streams.len()
        invariant
            i <= streams.len(),
            views == stream_views(streams@),
            video <= i,
            audio <= i,
            subtitle <= i,
            attachment <= i,
            video == count_streams(views, |s: StreamView| counts_as_video(s), i as int),
            audio == count_streams(
                views,
                |s: StreamView| s.stream_type == StreamType::Audio,
                i as int,
            ),
            subtitle == count_streams(
                views,
                |s: StreamView| s.stream_type == StreamType::Subtitle,
                i as int,
            ),
            attachment == count_streams(views, |s: StreamView| counts_as_attachment(s), i as int),
        decreases streams.len() - i,
    {
        let stream = &streams[i];
        assert(views[i as int] == stream@);
        match stream.stream_type {
            StreamType::Video => {
                if !stream.is_cover_art {
                    video += 1;
                }
            },
            StreamType::Audio => {
                audio += 1;
            },
            StreamType::Subtitle => {
                subtitle += 1;
            },
            _ => {},
        }
        let is_attachment = match stream.stream_type {
            StreamType::Attachment => true,
            _ => stream.is_cover_art,
        };
        if is_attachment {
            attachment += 1;
        }
        i += 1;
    }
    StreamCounts { video, audio, subtitle, attachment }
}

/// Builds the summary of the streams of the file at `path` from its
/// metadata document and its size.
pub fn get_media_streams(path: String, document: &JsonValue, file_size: u64) -> (summary: MediaStreams)
    ensures
        summary.path@ == path@,
        stream_views(summary.streams@) == streams_of(document@),
        summary.total_size == file_size,
        summary.duration_us == match declared_duration(document@) {
            Some(d) => d,
            None => 0,
        },
        summary.video_count == count_streams(
            streams_of(document@),
            |s: StreamView| counts_as_video(s),
            streams_of(document@).len() as int,
        ),
        summary.audio_count == count_streams(
            streams_of(document@),
            |s: StreamView| s.stream_type == StreamType::Audio,
            streams_of(document@).len() as int,
        ),
        summary.subtitle_count == count_streams(
            streams_of(document@),
            |s: StreamView| s.stream_type == StreamType::Subtitle,
            streams_of(document@).len() as int,
        ),
        summary.attachment_count == count_streams(
            streams_of(document@),
            |s: StreamView| counts_as_attachment(s),
            streams_of(document@).len() as int,
        ),
{
    let streams = parse_streams(document);
    let counts = count_by_kind(&streams);
    let duration_us = match parse_duration(document) {
        Some(d) => d,
        None => 0,
    };
    MediaStreams {
        path,
        streams,
        video_count: counts.video,
        audio_count: counts.audio,
        subtitle_count: counts.subtitle,
        attachment_count: counts.attachment,
        total_size: file_size,
        duration_us,
    }
}

} // verus!
