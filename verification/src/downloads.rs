//! Installation of a tool from a downloaded archive, as far as it decides:
//! where the archive comes from, what is checked before it is unpacked, and
//! which of its entries is the tool.
use crate::hasher::{compute_sha256, sha256_hex};
use crate::installer::{tool_display_name, tool_name, InstallMethod, Tool};
use crate::locate::Platform;
use crate::paths::{file_name, file_name_of};
use crate::text::{
    append_text, decimal_text, from_chars, has_match_at, matches_at, padded_decimal_text,
    push_decimal, push_padded_decimal, same_text, to_chars,
};
use vstd::prelude::*;

verus! {

/// Major version of the build of the media tools for macOS.
pub const FFMPEG_MAJOR: u64 = 7;

/// Minor version of the build of the media tools for macOS.
pub const FFMPEG_MINOR: u64 = 1;

/// Major version of the metadata tool.
pub const EXIFTOOL_MAJOR: u64 = 13;

/// Minor version of the metadata tool, written with two digits.
pub const EXIFTOOL_MINOR: u64 = 9;

/// The name of the program of a tool on a platform.
pub open spec fn binary_name_of(tool: Tool, platform: Option<Platform>) -> Seq<char> {
    match (tool, platform) {
        (Tool::FFmpeg, Some(Platform::Windows)) => "ffmpeg.exe"@,
        (Tool::FFmpeg, _) => "ffmpeg"@,
        (Tool::ExifTool, Some(Platform::Windows)) => "exiftool.exe"@,
        (Tool::ExifTool, _) => "exiftool"@,
    }
}

/// The name of the program of a tool on a platform.
pub fn get_binary_name(tool: &Tool, platform: Option<Platform>) -> (name: String)
    ensures
        name@ == binary_name_of(*tool, platform),
{
    match (tool, platform) {
        (Tool::FFmpeg, Some(Platform::Windows)) => String::from_str("ffmpeg.exe"),
        (Tool::FFmpeg, _) => String::from_str("ffmpeg"),
        (Tool::ExifTool, Some(Platform::Windows)) => String::from_str("exiftool.exe"),
        (Tool::ExifTool, _) => String::from_str("exiftool"),
    }
}

/// A version as it is written in the name of an archive: the major
/// version, a dot, and the minor version with at least `width` digits.
pub open spec fn version_text(major: nat, minor: nat, width: nat) -> Seq<char> {
    decimal_text(major) + "."@ + padded_decimal_text(minor, width)
}

/// The address of the archive of a tool for a platform; `None` for an
/// unknown platform.
pub open spec fn download_address(tool: Tool, platform: Option<Platform>) -> Option<Seq<char>> {
    match (tool, platform) {
        (Tool::FFmpeg, Some(Platform::MacOs)) => Some(
            "https://evermeet.cx/ffmpeg/ffmpeg-"@ + version_text(
                FFMPEG_MAJOR as nat,
                FFMPEG_MINOR as nat,
                1,
            ) + ".zip"@,
        ),
        (Tool::FFmpeg, Some(Platform::Windows)) => Some(
            "https://www.gyan.dev/ffmpeg/builds/ffmpeg-release-essentials.zip"@,
        ),
        (Tool::FFmpeg, Some(Platform::Linux)) => Some(
            "https://johnvansickle.com/ffmpeg/releases/ffmpeg-release-amd64-static.tar.xz"@,
        ),
        (Tool::ExifTool, Some(Platform::Windows)) => Some(
            "https://exiftool.org/exiftool-"@ + version_text(
                EXIFTOOL_MAJOR as nat,
                EXIFTOOL_MINOR as nat,
                2,
            ) + ".zip"@,
        ),
        (Tool::ExifTool, Some(_)) => Some(
            "https://exiftool.org/Image-ExifTool-"@ + version_text(
                EXIFTOOL_MAJOR as nat,
                EXIFTOOL_MINOR as nat,
                2,
            ) + ".tar.gz"@,
        ),
        (_, None) => None,
    }
}

/// An address made of a stem, a version and an ending.
fn versioned_address(stem: &str, major: u64, minor: u64, width: usize, ending: &str) -> (address:
    String)
    ensures
        address@ == stem@ + version_text(major as nat, minor as nat, width as nat) + ending@,
{
    let mut chars = to_chars(stem);
    push_decimal(&mut chars, major);
    chars.push('.');
    push_padded_decimal(&mut chars, minor, width);
    append_text(&mut chars, ending);
    proof {
        reveal_strlit(".");
        assert("."@ =~= seq!['.']);
        assert(chars@ =~= stem@ + version_text(major as nat, minor as nat, width as nat) + ending@);
    }
    from_chars(&chars)
}

/// The address of the archive of a tool for a platform, and the checksum
/// that the archive must have. No checksum is known for any archive.
pub fn get_download_info(tool: &Tool, platform: Option<Platform>) -> (info: Option<
    (String, Option<String>),
>)
    ensures
        info is Some == download_address(*tool, platform) is Some,
        info is Some ==> (info->0).0@ == download_address(*tool, platform)->0 && (info->0).1 is None,
{
    let address = match (tool, platform) {
        (Tool::FFmpeg, Some(Platform::MacOs)) => versioned_address(
            "https://evermeet.cx/ffmpeg/ffmpeg-",
            FFMPEG_MAJOR,
            FFMPEG_MINOR,
            1,
            ".zip",
        ),
        (Tool::FFmpeg, Some(Platform::Windows)) => String::from_str(
            "https://www.gyan.dev/ffmpeg/builds/ffmpeg-release-essentials.zip",
        ),
        (Tool::FFmpeg, Some(Platform::Linux)) => String::from_str(
            "https://johnvansickle.com/ffmpeg/releases/ffmpeg-release-amd64-static.tar.xz",
        ),
        (Tool::ExifTool, Some(Platform::Windows)) => versioned_address(
            "https://exiftool.org/exiftool-",
            EXIFTOOL_MAJOR,
            EXIFTOOL_MINOR,
            2,
            ".zip",
        ),
        (Tool::ExifTool, Some(_)) => versioned_address(
            "https://exiftool.org/Image-ExifTool-",
            EXIFTOOL_MAJOR,
            EXIFTOOL_MINOR,
            2,
            ".tar.gz",
        ),
        (_, None) => {
            return None;
        },
    };
    Some((address, None))
}

/// Checks a download against the checksum that it must have, if one is
/// known.
pub fn verify_checksum(data: &Vec<u8>, expected: &Option<String>) -> (checked: Result<(), String>)
    ensures
        checked is Ok == (expected is None || sha256_hex(data@) == expected->0@),
        checked is Err ==> checked->Err_0@
            == "Checksum verification failed! Download may be corrupted or tampered with."@,
{
    match expected {
        None => Ok(()),
        Some(expected) => {
            let actual = to_chars(compute_sha256(data).as_str());
            let wanted = to_chars(expected.as_str());
            if same_text(&actual, &wanted) {
                Ok(())
            } else {
                Err(
                    String::from_str(
                        "Checksum verification failed! Download may be corrupted or tampered with.",
                    ),
                )
            }
        },
    }
}

/// How an archive is packed.
#[derive(Debug, Clone, Copy, PartialEq, Eq, Structural)]
pub enum ArchiveKind {
    Zip,
    Tar,
}

/// Whether `data` begins with the signature of a ZIP archive.
pub open spec fn has_zip_signature(data: Seq<u8>) -> bool {
    data.len() >= 2 && data[0] == 0x50 && data[1] == 0x4B
}

/// How the archive for a platform is packed: on Linux a TAR archive, on
/// the other platforms a ZIP archive if the data has the signature of one.
pub open spec fn archive_kind_of(platform: Option<Platform>, data: Seq<u8>) -> Option<ArchiveKind> {
    match platform {
        Some(Platform::Linux) => Some(ArchiveKind::Tar),
        Some(_) => if has_zip_signature(data) {
            Some(ArchiveKind::Zip)
        } else {
            None
        },
        None => None,
    }
}

/// Decides how a downloaded archive is unpacked.
pub fn archive_kind(platform: Option<Platform>, data: &Vec<u8>) -> (kind: Result<ArchiveKind, String>)
    ensures
        kind is Ok == archive_kind_of(platform, data@) is Some,
        kind is Ok ==> kind->Ok_0 == archive_kind_of(platform, data@)->0,
        kind is Err ==> kind->Err_0@ == "Unsupported archive format"@,
{
    match platform {
        Some(Platform::Linux) => Ok(ArchiveKind::Tar),
        Some(_) => {
            if data.len() >= 2 && data[0] == 0x50 && data[1] == 0x4B {
                Ok(ArchiveKind::Zip)
            } else {
                Err(String::from_str("Unsupported archive format"))
            }
        },
        None => Err(String::from_str("Unsupported archive format")),
    }
}

/// Whether `text` ends with `ending`.
pub open spec fn ends_with(text: Seq<char>, ending: Seq<char>) -> bool {
    ending.len() <= text.len() && matches_at(text, ending, text.len() - ending.len())
}

/// Whether `text` ends with `ending`.
fn has_ending(text: &Vec<char>, ending: &Vec<char>) -> (found: bool)
    ensures
        found == ends_with(text@, ending@),
{
    if ending.len() > text.len() {
        return false;
    }
    has_match_at(text, ending, text.len() - ending.len())
}

/// Whether an entry of a ZIP archive is the program: its name ends with
/// the name of the program, with or without the ending of executables.
pub open spec fn is_program_in_zip(entry: Seq<char>, binary_name: Seq<char>) -> bool {
    ends_with(entry, binary_name) || ends_with(entry, binary_name + ".exe"@)
}

/// Whether an entry of a ZIP archive is the program.
pub fn is_zip_entry_wanted(entry: &str, binary_name: &str) -> (wanted: bool)
    ensures
        wanted == is_program_in_zip(entry@, binary_name@),
{
    let name = to_chars(entry);
    let mut program = to_chars(binary_name);
    if has_ending(&name, &program) {
        return true;
    }
    append_text(&mut program, ".exe");
    has_ending(&name, &program)
}

/// Whether an entry of a TAR archive is the program: the last part of its
/// path is the name of the program.
pub fn is_tar_entry_wanted(entry: &str, binary_name: &str) -> (wanted: bool)
    ensures
        wanted == (file_name_of(entry@) == Some(binary_name@)),
{
    let path = to_chars(entry);
    let program = to_chars(binary_name);
    match file_name(&path) {
        Some(name) => same_text(&name, &program),
        None => false,
    }
}

/// The message for an archive without the program.
pub fn missing_program(binary_name: &str) -> (message: String)
    ensures
        message@ == "Binary "@ + binary_name@ + " not found in archive"@,
{
    let mut message = String::from_str("Binary ");
    message.append(binary_name);
    message.append(" not found in archive");
    message
}

/// Outcome of an installation.
#[derive(Debug)]
pub struct InstallResult {
    pub success: bool,
    pub tool: String,
    pub method: InstallMethod,
    pub message: String,
    pub installed_path: Option<String>,
    pub version: Option<String>,
}

/// Mathematical value of an [`InstallResult`].
pub struct InstallResultView {
    pub success: bool,
    pub tool: Seq<char>,
    pub method: InstallMethod,
    pub message: Seq<char>,
    pub installed_path: Option<Seq<char>>,
    pub version: Option<Seq<char>>,
}

impl View for InstallResult {
    type V = InstallResultView;

    open spec fn view(&self) -> InstallResultView {
        InstallResultView {
            success: self.success,
            tool: self.tool@,
            method: self.method,
            message: self.message@,
            installed_path: match self.installed_path {
                Some(path) => Some(path@),
                None => None,
            },
            version: match self.version {
                Some(version) => Some(version@),
                None => None,
            },
        }
    }
}

/// The outcome of an installation that failed with `message`.
pub open spec fn failed_install(tool: Tool, method: InstallMethod, message: Seq<char>) -> InstallResultView {
    InstallResultView {
        success: false,
        tool: tool_name(tool),
        method,
        message,
        installed_path: None,
        version: None,
    }
}

/// The outcome of an installation that succeeded.
pub open spec fn finished_install(
    tool: Tool,
    method: InstallMethod,
    installed_path: Option<Seq<char>>,
) -> InstallResultView {
    InstallResultView {
        success: true,
        tool: tool_name(tool),
        method,
        message: tool_display_name(tool) + " installed successfully"@,
        installed_path,
        version: None,
    }
}

/// The outcome of an installation that failed with `message`.
pub fn installation_failed(tool: &Tool, method: InstallMethod, message: String) -> (result:
    InstallResult)
    ensures
        result@ == failed_install(*tool, method, message@),
{
    InstallResult {
        success: false,
        tool: String::from_str(tool.name()),
        method,
        message,
        installed_path: None,
        version: None,
    }
}

/// The outcome of an installation that succeeded.
pub fn installation_finished(tool: &Tool, method: InstallMethod, installed_path: Option<String>) -> (
    result: InstallResult)
    ensures
        result@ == finished_install(
            *tool,
            method,
            match installed_path {
                Some(path) => Some(path@),
                None => None,
            },
        ),
{
    let mut message = String::from_str(tool.display_name());
    message.append(" installed successfully");
    InstallResult {
        success: true,
        tool: String::from_str(tool.name()),
        method,
        message,
        installed_path,
        version: None,
    }
}

/// How the command of a package manager ended.
#[derive(Debug)]
pub enum CommandOutcome {
    /// The command ran to its end.
    Finished { success: bool, output: String, diagnostics: String },
    /// The command could not be run, or did not end in time.
    Unfinished,
}

/// What the end of a package manager's command means for the installation.
pub open spec fn command_result(tool: Tool, method: InstallMethod, outcome: CommandOutcome) -> InstallResultView {
    match outcome {
        CommandOutcome::Finished { success, output, diagnostics } => if success {
            finished_install(tool, method, None)
        } else {
            failed_install(tool, method, "Installation failed: "@ + diagnostics@)
        },
        CommandOutcome::Unfinished => failed_install(
            tool,
            method,
            "Installation timed out or failed to execute"@,
        ),
    }
}

/// Judges an installation by the end of the package manager's command.
pub fn handle_command_result(outcome: &CommandOutcome, tool: &Tool, method: InstallMethod) -> (result:
    InstallResult)
    ensures
        result@ == command_result(*tool, method, *outcome),
{
    match outcome {
        CommandOutcome::Finished { success, output: _, diagnostics } => {
            if *success {
                installation_finished(tool, method, None)
            } else {
                let mut message = String::from_str("Installation failed: ");
                message.append(diagnostics.as_str());
                installation_failed(tool, method, message)
            }
        },
        CommandOutcome::Unfinished => installation_failed(
            tool,
            method,
            String::from_str("Installation timed out or failed to execute"),
        ),
    }
}

} // verus!
