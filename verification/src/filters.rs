//! Filters on a directory listing.

use crate::files::FileEntry;
use crate::json::{json_views, JsonValue, JsonView};
use crate::paths::{extension, extension_of};
use crate::streams::{narrow_member, text_view};
use crate::text::{is_text, lowercase_chars, lowercased, same_text, to_chars};
use vstd::prelude::*;

verus! {

/// Which kinds of entries a listing shows.
#[derive(Debug, Clone, Copy, PartialEq, Eq, Structural)]
pub enum FileTypeFilter {
    All,
    FilesOnly,
    DirectoriesOnly,
    MediaOnly,
}

impl Default for FileTypeFilter {
    fn default() -> (filter: Self)
        ensures
            filter == FileTypeFilter::All,
    {
        FileTypeFilter::All
    }
}

/// Filters on the media in a file.
#[derive(Debug)]
pub struct MediaFilters {
    /// Video codecs to show; empty for all.
    pub video_codecs: Vec<String>,
    /// Audio codecs to show; empty for all.
    pub audio_codecs: Vec<String>,
    pub min_width: Option<i32>,
    pub max_width: Option<i32>,
    pub min_height: Option<i32>,
    pub max_height: Option<i32>,
    /// Shortest duration to show, in microseconds.
    pub min_duration_us: Option<i64>,
    /// Longest duration to show, in microseconds.
    pub max_duration_us: Option<i64>,
}

/// Filters on a listing.
#[derive(Debug)]
pub struct FilterCriteria {
    /// Smallest size to show, in bytes.
    pub size_min: Option<u64>,
    /// Largest size to show, in bytes.
    pub size_max: Option<u64>,
    /// Earliest day to show, as `YYYY-MM-DD`.
    pub date_min: Option<String>,
    /// Latest day to show, as `YYYY-MM-DD`.
    pub date_max: Option<String>,
    /// Extensions to show; empty for all.
    pub extensions: Vec<String>,
    pub media_filters: Option<MediaFilters>,
    pub file_type: Option<FileTypeFilter>,
}

/// What is known of the media in a file.
#[derive(Debug)]
pub struct MediaInfo {
    pub video_codec: Option<String>,
    pub audio_codec: Option<String>,
    pub width: Option<i32>,
    pub height: Option<i32>,
    /// Duration in microseconds.
    pub duration_us: Option<i64>,
}

/// The dates of a file and of the criteria as points in time, in seconds
/// since the epoch; `None` for a date that is missing or cannot be read.
#[derive(Debug, Clone, Copy, PartialEq, Eq, Structural)]
pub struct DateBounds {
    /// Time of the last change of the file.
    pub file_time: Option<i64>,
    /// Start of the earliest day to show.
    pub min_time: Option<i64>,
    /// End of the latest day to show.
    pub max_time: Option<i64>,
}

/// A file with what is known of its media.
#[derive(Debug)]
pub struct FilteredFileEntry {
    pub file: FileEntry,
    pub video_codec: Option<String>,
    pub audio_codec: Option<String>,
    pub width: Option<i32>,
    pub height: Option<i32>,
    /// Duration in microseconds.
    pub duration_us: Option<i64>,
}

/// A filtered listing.
#[derive(Debug)]
pub struct FilterResult {
    pub files: Vec<FilteredFileEntry>,
    /// Number of entries before filtering.
    pub total_count: usize,
    /// Number of entries after filtering.
    pub filtered_count: usize,
}

/// Whether the kind of an entry is shown.
pub open spec fn kind_is_shown(file: FileEntry, filter: Option<FileTypeFilter>) -> bool {
    match filter {
        Some(FileTypeFilter::FilesOnly) => !file.is_dir,
        Some(FileTypeFilter::DirectoriesOnly) => file.is_dir,
        Some(FileTypeFilter::MediaOnly) => file.is_media,
        _ => true,
    }
}

/// Whether the size of an entry is shown; directories are shown whatever
/// their size.
pub open spec fn size_is_shown(file: FileEntry, criteria: FilterCriteria) -> bool {
    file.is_dir || ((criteria.size_min is Some ==> file.size >= criteria.size_min->0) && (
    criteria.size_max is Some ==> file.size <= criteria.size_max->0))
}

/// Whether the date of an entry is shown. With a date filter set, an entry
/// without a date is hidden; a date or a bound that cannot be read hides
/// nothing.
pub open spec fn date_is_shown(file: FileEntry, criteria: FilterCriteria, dates: DateBounds) -> bool {
    if criteria.date_min is None && criteria.date_max is None {
        true
    } else if file.modified is None {
        false
    } else if dates.file_time is None {
        true
    } else {
        &&& (criteria.date_min is Some && dates.min_time is Some ==> dates.file_time->0
            >= dates.min_time->0)
        &&& (criteria.date_max is Some && dates.max_time is Some ==> dates.file_time->0
            <= dates.max_time->0)
    }
}

/// Whether a list names `wanted`, a text in lower case, without regard to
/// the case of the list.
pub open spec fn names_lowercase(list: Seq<String>, wanted: Seq<char>) -> bool {
    exists|i: int| 0 <= i < list.len() && lowercased(#[trigger] list[i]@) == wanted
}

/// The extension of a path in lower case; empty if it has none.
pub open spec fn lower_extension(path: Seq<char>) -> Seq<char> {
    match extension_of(path) {
        Some(ext) => lowercased(ext),
        None => Seq::empty(),
    }
}

/// Whether the extension of an entry is shown; directories are shown
/// whatever their name.
pub open spec fn extension_is_shown(file: FileEntry, criteria: FilterCriteria) -> bool {
    file.is_dir || criteria.extensions@.len() == 0 || names_lowercase(
        criteria.extensions@,
        lower_extension(file.path@),
    )
}

/// Whether a codec is shown: with a codec filter set, the codec must be
/// known and be named by the filter.
pub open spec fn codec_is_shown(codec: Option<String>, wanted: Seq<String>) -> bool {
    wanted.len() == 0 || (codec is Some && names_lowercase(wanted, lowercased(codec->0@)))
}

/// Whether a value lies within bounds: with a bound set, the value must be
/// known and respect it.
pub open spec fn within_bounds(value: Option<int>, min: Option<int>, max: Option<int>) -> bool {
    &&& (min is Some ==> value is Some && value->0 >= min->0)
    &&& (max is Some ==> value is Some && value->0 <= max->0)
}

/// An optional number as an integer.
pub open spec fn as_int32(value: Option<i32>) -> Option<int> {
    match value {
        Some(v) => Some(v as int),
        None => None,
    }
}

/// An optional number as an integer.
pub open spec fn as_int64(value: Option<i64>) -> Option<int> {
    match value {
        Some(v) => Some(v as int),
        None => None,
    }
}

/// Whether the media in a file is shown.
pub open spec fn media_is_shown(info: MediaInfo, filters: MediaFilters) -> bool {
    &&& codec_is_shown(info.video_codec, filters.video_codecs@)
    &&& codec_is_shown(info.audio_codec, filters.audio_codecs@)
    &&& within_bounds(as_int32(info.width), as_int32(filters.min_width), as_int32(filters.max_width))
    &&& within_bounds(
        as_int32(info.height),
        as_int32(filters.min_height),
        as_int32(filters.max_height),
    )
    &&& within_bounds(
        as_int64(info.duration_us),
        as_int64(filters.min_duration_us),
        as_int64(filters.max_duration_us),
    )
}

/// Whether an entry is shown under the criteria. Media filters apply to
/// media files only, and hide a media file of which nothing is known.
pub open spec fn is_shown(
    file: FileEntry,
    criteria: FilterCriteria,
    media_info: Option<MediaInfo>,
    dates: DateBounds,
) -> bool {
    &&& kind_is_shown(file, criteria.file_type)
    &&& size_is_shown(file, criteria)
    &&& date_is_shown(file, criteria, dates)
    &&& extension_is_shown(file, criteria)
    &&& (file.is_media && criteria.media_filters is Some ==> media_info is Some && media_is_shown(
        media_info->0,
        criteria.media_filters->0,
    ))
}

/// Whether a list names `wanted`, a text in lower case.
fn list_names(list: &Vec<String>, wanted: &Vec<char>) -> (named: bool)
    ensures
        named == names_lowercase(list@, wanted@),
{
    let mut i: usize = 0;
    while i < list.len()
        invariant
            i <= list.len(),
            forall|k: int| 0 <= k < i ==> lowercased(#[trigger] list@[k]@) != wanted@,
        decreases list.len() - i,
    {
        let chars = to_chars(list[i].as_str());
        let lower = lowercase_chars(&chars);
        if same_text(&lower, wanted) {
            return true;
        }
        i += 1;
    }
    false
}

/// Whether a codec is shown.
fn codec_passes(codec: &Option<String>, wanted: &Vec<String>) -> (shown: bool)
    ensures
        shown == codec_is_shown(*codec, wanted@),
{
    if wanted.len() == 0 {
        return true;
    }
    match codec {
        Some(name) => {
            let chars = to_chars(name.as_str());
            let lower = lowercase_chars(&chars);
            list_names(wanted, &lower)
        },
        None => false,
    }
}

/// Whether a dimension lies within bounds.
fn dimension_passes(value: Option<i32>, min: Option<i32>, max: Option<i32>) -> (shown: bool)
    ensures
        shown == within_bounds(as_int32(value), as_int32(min), as_int32(max)),
{
    match min {
        Some(low) => match value {
            Some(v) => {
                if v < low {
                    return false;
                }
            },
            None => {
                return false;
            },
        },
        None => {},
    }
    match max {
        Some(high) => match value {
            Some(v) => v <= high,
            None => false,
        },
        None => true,
    }
}

/// Whether a duration lies within bounds.
fn duration_passes(value: Option<i64>, min: Option<i64>, max: Option<i64>) -> (shown: bool)
    ensures
        shown == within_bounds(as_int64(value), as_int64(min), as_int64(max)),
{
    match min {
        Some(low) => match value {
            Some(v) => {
                if v < low {
                    return false;
                }
            },
            None => {
                return false;
            },
        },
        None => {},
    }
    match max {
        Some(high) => match value {
            Some(v) => v <= high,
            None => false,
        },
        None => true,
    }
}

/// Decides whether an entry is shown under the criteria.
pub fn matches_criteria(
    file: &FileEntry,
    criteria: &FilterCriteria,
    media_info: &Option<MediaInfo>,
    dates: &DateBounds,
) -> (shown: bool)
    ensures
        shown == is_shown(*file, *criteria, *media_info, *dates),
{
    match criteria.file_type {
        Some(FileTypeFilter::FilesOnly) => {
            if file.is_dir {
                return false;
            }
        },
        Some(FileTypeFilter::DirectoriesOnly) => {
            if !file.is_dir {
                return false;
            }
        },
        Some(FileTypeFilter::MediaOnly) => {
            if !file.is_media {
                return false;
            }
        },
        _ => {},
    }
    if !file.is_dir {
        match criteria.size_min {
            Some(min) => {
                if file.size < min {
                    return false;
                }
            },
            None => {},
        }
        match criteria.size_max {
            Some(max) => {
                if file.size > max {
                    return false;
                }
            },
            None => {},
        }
    }
    if criteria.date_min.is_some() || criteria.date_max.is_some() {
        if file.modified.is_none() {
            return false;
        }
        match dates.file_time {
            Some(file_time) => {
                if criteria.date_min.is_some() {
                    match dates.min_time {
                        Some(min_time) => {
                            if file_time < min_time {
                                return false;
                            }
                        },
                        None => {},
                    }
                }
                if criteria.date_max.is_some() {
                    match dates.max_time {
                        Some(max_time) => {
                            if file_time > max_time {
                                return false;
                            }
                        },
                        None => {},
                    }
                }
            },
            None => {},
        }
    }
    if !file.is_dir && criteria.extensions.len() > 0 {
        let chars = to_chars(file.path.as_str());
        let ext: Vec<char> = match extension(&chars) {
            Some(e) => lowercase_chars(&e),
            None => {
                let empty: Vec<char> = Vec::new();
                assert(empty@ =~= Seq::<char>::empty());
                empty
            },
        };
        if !list_names(&criteria.extensions, &ext) {
            return false;
        }
    }
    if file.is_media {
        match &criteria.media_filters {
            Some(filters) => match media_info {
                Some(info) => {
                    if !codec_passes(&info.video_codec, &filters.video_codecs) {
                        return false;
                    }
                    if !codec_passes(&info.audio_codec, &filters.audio_codecs) {
                        return false;
                    }
                    if !dimension_passes(info.width, filters.min_width, filters.max_width) {
                        return false;
                    }
                    if !dimension_passes(info.height, filters.min_height, filters.max_height) {
                        return false;
                    }
                    if !duration_passes(
                        info.duration_us,
                        filters.min_duration_us,
                        filters.max_duration_us,
                    ) {
                        return false;
                    }
                },
                None => {
                    return false;
                },
            },
            None => {},
        }
    }
    true
}

/// Whether an entry of a listing is hidden because its name begins with a dot.
pub fn is_hidden_name(name: &str) -> (hidden: bool)
    ensures
        hidden == (name@.len() > 0 && name@[0] == '.'),
{
    let chars = to_chars(name);
    chars.len() > 0 && chars[0] == '.'
}

/// Mathematical value of a [`MediaInfo`].
pub struct MediaInfoView {
    pub video_codec: Option<Seq<char>>,
    pub audio_codec: Option<Seq<char>>,
    pub width: Option<i32>,
    pub height: Option<i32>,
    pub duration_us: Option<i64>,
}

impl View for MediaInfo {
    type V = MediaInfoView;

    open spec fn view(&self) -> MediaInfoView {
        MediaInfoView {
            video_codec: text_view(self.video_codec),
            audio_codec: text_view(self.audio_codec),
            width: self.width,
            height: self.height,
            duration_us: self.duration_us,
        }
    }
}

/// What is known of the media after a look at one more stream: as long as
/// no video codec is known, a video stream sets the video codec and the
/// picture size; as long as no audio codec is known, an audio stream sets
/// the audio codec.
pub open spec fn media_info_step(info: MediaInfoView, stream: JsonView) -> MediaInfoView {
    let kind = stream.text_of("codec_type"@);
    if kind == Some("video"@) && info.video_codec is None {
        MediaInfoView {
            video_codec: stream.text_of("codec_name"@),
            width: narrow_member(stream, "width"@),
            height: narrow_member(stream, "height"@),
            ..info
        }
    } else if kind == Some("audio"@) && info.audio_codec is None {
        MediaInfoView { audio_codec: stream.text_of("codec_name"@), ..info }
    } else {
        info
    }
}

/// What is known of the media after a look at the first `n` streams.
pub open spec fn media_info_upto(streams: Seq<JsonView>, duration_us: Option<i64>, n: int) -> MediaInfoView
    decreases n,
{
    if n <= 0 {
        MediaInfoView { video_codec: None, audio_codec: None, width: None, height: None, duration_us }
    } else {
        media_info_step(media_info_upto(streams, duration_us, n - 1), streams[n - 1])
    }
}

/// What a metadata document tells of the media in a file.
pub open spec fn media_info_in(document: JsonView) -> MediaInfoView {
    let duration = match crate::streams::declared_duration(document) {
        Some(d) => Some(d as i64),
        None => None,
    };
    let streams = crate::metadata::listed_streams(document);
    media_info_upto(streams, duration, streams.len() as int)
}

/// Reads what a metadata document tells of the media in a file.
pub fn media_info_of(document: &JsonValue) -> (info: MediaInfo)
    ensures
        info@ == media_info_in(document@),
{
    let duration_us = crate::streams::parse_duration(document);
    let mut info = MediaInfo {
        video_codec: None,
        audio_codec: None,
        width: None,
        height: None,
        duration_us,
    };
    let streams = match document.get("streams") {
        Some(member) => match member.as_array() {
            Some(streams) => streams,
            None => {
                return info;
            },
        },
        None => {
            return info;
        },
    };
    let ghost views = json_views(streams@);
    let mut i: usize = 0;
    while i < streams.len()
        invariant
            i <= streams.len(),
            views == json_views(streams@),
            info@ == media_info_upto(views, duration_us, i as int),
        decreases streams.len() - i,
    {
        let stream = &streams[i];
        assert(views[i as int] == stream@);
        proof {
            reveal_strlit("video");
            reveal_strlit("audio");
            assert("video"@[0] != "audio"@[0]);
        }
        match stream.text_of("codec_type") {
            Some(kind) => {
                if is_text(&kind, "video") {
                    if info.video_codec.is_none() {
                        info.video_codec = stream.string_of("codec_name");
                        info.width = match stream.i64_of("width") {
                            Some(w) => Some(#[verifier::truncate] (w as i32)),
                            None => None,
                        };
                        info.height = match stream.i64_of("height") {
                            Some(h) => Some(#[verifier::truncate] (h as i32)),
                            None => None,
                        };
                    }
                } else if is_text(&kind, "audio") {
                    if info.audio_codec.is_none() {
                        info.audio_codec = stream.string_of("codec_name");
                    }
                }
            },
            None => {},
        }
        i += 1;
    }
    info
}

/// The entry of a filtered listing for a file: the file with what is known
/// of its media, if it is a media file.
pub open spec fn shown_entry(file: FileEntry, known: Option<MediaInfo>) -> FilteredFileEntry {
    match known {
        Some(info) => if file.is_media {
            FilteredFileEntry {
                file,
                video_codec: info.video_codec,
                audio_codec: info.audio_codec,
                width: info.width,
                height: info.height,
                duration_us: info.duration_us,
            }
        } else {
            FilteredFileEntry {
                file,
                video_codec: None,
                audio_codec: None,
                width: None,
                height: None,
                duration_us: None,
            }
        },
        None => FilteredFileEntry {
            file,
            video_codec: None,
            audio_codec: None,
            width: None,
            height: None,
            duration_us: None,
        },
    }
}

/// What is known of a file for the decision whether it is shown: the media
/// count only for media files under a media filter.
pub open spec fn known_for_filter(file: FileEntry, criteria: FilterCriteria, known: Option<MediaInfo>) -> Option<
    MediaInfo,
> {
    if file.is_media && criteria.media_filters is Some {
        known
    } else {
        None
    }
}

/// The shown entries among the first `n` files, in order.
pub open spec fn filtered(
    files: Seq<FileEntry>,
    criteria: FilterCriteria,
    known: Seq<Option<MediaInfo>>,
    dates: Seq<DateBounds>,
    n: int,
) -> Seq<FilteredFileEntry>
    decreases n,
{
    if n <= 0 {
        Seq::empty()
    } else if is_shown(
        files[n - 1],
        criteria,
        known_for_filter(files[n - 1], criteria, known[n - 1]),
        dates[n - 1],
    ) {
        filtered(files, criteria, known, dates, n - 1).push(shown_entry(files[n - 1], known[n - 1]))
    } else {
        filtered(files, criteria, known, dates, n - 1)
    }
}

/// Filters a listing. `known` and `dates` hold, for each file in order,
/// what is known of its media and its dates as points in time.
pub fn apply_filters(
    all_files: Vec<FileEntry>,
    criteria: &FilterCriteria,
    known: Vec<Option<MediaInfo>>,
    dates: &Vec<DateBounds>,
) -> (result: Result<FilterResult, String>)
    requires
        known@.len() == all_files@.len(),
        dates@.len() == all_files@.len(),
    ensures
        result is Ok,
        result->Ok_0.total_count == all_files@.len(),
        result->Ok_0.files@ == filtered(
            all_files@,
            *criteria,
            known@,
            dates@,
            all_files@.len() as int,
        ),
        result->Ok_0.filtered_count == result->Ok_0.files@.len(),
{
    let ghost files = all_files@;
    let ghost infos = known@;
    let total_count = all_files.len();
    let mut rest_files = all_files;
    let mut rest_known = known;
    let mut shown: Vec<FilteredFileEntry> = Vec::new();
    let no_media: Option<MediaInfo> = None;
    while rest_files.len() > 0
        invariant
            rest_files@.len() == rest_known@.len(),
            rest_files@.len() <= total_count,
            total_count == files.len(),
            infos.len() == total_count,
            dates@.len() == total_count,
            no_media is None,
            rest_files@ == files.take(rest_files@.len() as int),
            rest_known@ == infos.take(rest_files@.len() as int),
            filtered(files, *criteria, infos, dates@, total_count as int) == filtered(
                files,
                *criteria,
                infos,
                dates@,
                rest_files@.len() as int,
            ) + shown@,
        decreases rest_files.len(),
    {
        let n = rest_files.len();
        let ghost tail = shown@;
        let file = match rest_files.pop() {
            Some(file) => file,
            None => {
                assert(false);
                return Ok(FilterResult { files: shown, total_count, filtered_count: 0 });
            },
        };
        let info = match rest_known.pop() {
            Some(info) => info,
            None => {
                assert(false);
                return Ok(FilterResult { files: shown, total_count, filtered_count: 0 });
            },
        };
        assert(file == files[n - 1] && info == infos[n - 1]);
        assert(rest_files@ =~= files.take(n - 1));
        assert(rest_known@ =~= infos.take(n - 1));
        let for_filter = if file.is_media && criteria.media_filters.is_some() {
            &info
        } else {
            &no_media
        };
        if matches_criteria(&file, criteria, for_filter, &dates[n - 1]) {
            let is_media = file.is_media;
            let entry = match info {
                Some(media) => if is_media {
                    FilteredFileEntry {
                        file,
                        video_codec: media.video_codec,
                        audio_codec: media.audio_codec,
                        width: media.width,
                        height: media.height,
                        duration_us: media.duration_us,
                    }
                } else {
                    FilteredFileEntry {
                        file,
                        video_codec: None,
                        audio_codec: None,
                        width: None,
                        height: None,
                        duration_us: None,
                    }
                },
                None => FilteredFileEntry {
                    file,
                    video_codec: None,
                    audio_codec: None,
                    width: None,
                    height: None,
                    duration_us: None,
                },
            };
            shown.insert(0, entry);
            assert(shown@ =~= seq![entry] + tail);
            assert(filtered(files, *criteria, infos, dates@, n as int) + tail =~= filtered(
                files,
                *criteria,
                infos,
                dates@,
                n - 1,
            ) + shown@);
        }
    }
    assert(filtered(files, *criteria, infos, dates@, 0) + shown@ =~= shown@);
    let filtered_count = shown.len();
    Ok(FilterResult { files: shown, total_count, filtered_count })
}

} // verus!
