//! Files as the browser lists them.

use crate::paths::{extension, extension_of};
use crate::text::{is_text, lowercase_chars, lowercased, to_chars};
use vstd::prelude::*;

verus! {

/// Name of the database file.
pub const DATABASE_NAME: &'static str = "seer.db";

/// One entry of a directory listing.
#[derive(Debug)]
pub struct FileEntry {
    pub name: String,
    pub path: String,
    pub is_dir: bool,
    pub is_media: bool,
    pub size: u64,
    /// Time of the last change, as `YYYY-MM-DD HH:MM:SS`.
    pub modified: Option<String>,
}

/// What is known about one file.
#[derive(Debug)]
pub struct FileMetadata {
    pub path: String,
    pub name: String,
    pub size: u64,
    pub modified: Option<String>,
    pub created: Option<String>,
    pub is_media: bool,
    pub extension: Option<String>,
    /// Output of the metadata probe, if the file is a media file.
    pub ffprobe_data: Option<String>,
}

/// Outcome of an operation on a file.
#[derive(Debug)]
pub struct FileOperationResult {
    pub success: bool,
    pub message: String,
    pub new_path: Option<String>,
}

/// Outcome of the removal of streams from a file.
#[derive(Debug)]
pub struct StreamRemovalResult {
    pub success: bool,
    pub output_path: String,
    pub message: String,
}

/// Whether one external tool is installed.
#[derive(Debug)]
pub struct DependencyStatus {
    pub name: String,
    pub installed: bool,
    pub version: Option<String>,
}

/// Whether the external tools are installed.
#[derive(Debug)]
pub struct DependenciesResult {
    pub all_installed: bool,
    pub dependencies: Vec<DependencyStatus>,
    pub platform: String,
}

/// Size of the store of analysis results.
#[derive(Debug)]
pub struct CacheStats {
    pub entry_count: usize,
    pub total_size_bytes: u64,
    pub cache_dir: String,
}

/// Outcome of the validation of a path that the user typed.
#[derive(Debug)]
pub struct PathValidationResult {
    pub valid: bool,
    pub exists: bool,
    pub created: bool,
    pub path: String,
    pub error: Option<String>,
}

/// Whether an extension, in lower case, is that of a media file.
pub open spec fn is_media_extension(ext: Seq<char>) -> bool {
    ||| ext == "mp4"@
    ||| ext == "mkv"@
    ||| ext == "avi"@
    ||| ext == "mov"@
    ||| ext == "wmv"@
    ||| ext == "flv"@
    ||| ext == "webm"@
    ||| ext == "m4v"@
    ||| ext == "mp3"@
    ||| ext == "flac"@
    ||| ext == "wav"@
    ||| ext == "aac"@
    ||| ext == "ogg"@
    ||| ext == "wma"@
    ||| ext == "m4a"@
    ||| ext == "opus"@
    ||| ext == "jpg"@
    ||| ext == "jpeg"@
    ||| ext == "png"@
    ||| ext == "gif"@
    ||| ext == "bmp"@
    ||| ext == "webp"@
    ||| ext == "tiff"@
    ||| ext == "heic"@
}

/// Whether a path names a media file, by its extension without regard to case.
pub open spec fn names_media_file(path: Seq<char>) -> bool {
    match extension_of(path) {
        Some(ext) => is_media_extension(lowercased(ext)),
        None => false,
    }
}

/// Whether a path names a media file.
pub fn is_media_file(path: &str) -> (media: bool)
    ensures
        media == names_media_file(path@),
{
    let chars = to_chars(path);
    match extension(&chars) {
        Some(ext) => {
            let lower = lowercase_chars(&ext);
            is_text(&lower, "mp4") || is_text(&lower, "mkv") || is_text(&lower, "avi") || is_text(
                &lower,
                "mov",
            ) || is_text(&lower, "wmv") || is_text(&lower, "flv") || is_text(&lower, "webm")
                || is_text(&lower, "m4v") || is_text(&lower, "mp3") || is_text(&lower, "flac")
                || is_text(&lower, "wav") || is_text(&lower, "aac") || is_text(&lower, "ogg")
                || is_text(&lower, "wma") || is_text(&lower, "m4a") || is_text(&lower, "opus")
                || is_text(&lower, "jpg") || is_text(&lower, "jpeg") || is_text(&lower, "png")
                || is_text(&lower, "gif") || is_text(&lower, "bmp") || is_text(&lower, "webp")
                || is_text(&lower, "tiff") || is_text(&lower, "heic")
        },
        None => false,
    }
}

/// Address of the database: the scheme `sqlite:` and the name of the
/// database file.
pub fn get_database_url() -> (url: String)
    ensures
        url@ == "sqlite:"@ + DATABASE_NAME@,
{
    let mut url = String::from_str("sqlite:");
    url.append(DATABASE_NAME);
    url
}

} // verus!
