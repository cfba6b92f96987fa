use seer::downloads::{
    archive_kind, get_binary_name, get_download_info, handle_command_result, installation_failed,
    installation_finished, is_tar_entry_wanted, is_zip_entry_wanted, missing_program,
    verify_checksum, ArchiveKind, CommandOutcome,
};
use seer::hasher::compute_sha256;
use seer::installer::{InstallMethod, Tool};
use seer::locate::Platform;

#[test]
fn test_get_binary_name() {
    assert_eq!(get_binary_name(&Tool::FFmpeg, Some(Platform::Windows)), "ffmpeg.exe");
    assert_eq!(get_binary_name(&Tool::FFmpeg, Some(Platform::Linux)), "ffmpeg");
    assert_eq!(get_binary_name(&Tool::FFmpeg, None), "ffmpeg");
    assert_eq!(get_binary_name(&Tool::ExifTool, Some(Platform::Windows)), "exiftool.exe");
    assert_eq!(get_binary_name(&Tool::ExifTool, Some(Platform::MacOs)), "exiftool");
}

#[test]
fn test_get_download_info() {
    let address = |tool, platform| get_download_info(&tool, platform).map(|(address, _)| address);
    assert_eq!(
        address(Tool::FFmpeg, Some(Platform::MacOs)).as_deref(),
        Some("https://evermeet.cx/ffmpeg/ffmpeg-7.1.zip")
    );
    assert_eq!(
        address(Tool::FFmpeg, Some(Platform::Windows)).as_deref(),
        Some("https://www.gyan.dev/ffmpeg/builds/ffmpeg-release-essentials.zip")
    );
    assert_eq!(
        address(Tool::FFmpeg, Some(Platform::Linux)).as_deref(),
        Some("https://johnvansickle.com/ffmpeg/releases/ffmpeg-release-amd64-static.tar.xz")
    );
    assert_eq!(
        address(Tool::ExifTool, Some(Platform::MacOs)).as_deref(),
        Some("https://exiftool.org/Image-ExifTool-13.09.tar.gz")
    );
    assert_eq!(
        address(Tool::ExifTool, Some(Platform::Linux)).as_deref(),
        Some("https://exiftool.org/Image-ExifTool-13.09.tar.gz")
    );
    assert_eq!(
        address(Tool::ExifTool, Some(Platform::Windows)).as_deref(),
        Some("https://exiftool.org/exiftool-13.09.zip")
    );
    assert_eq!(address(Tool::FFmpeg, None), None);
    assert_eq!(address(Tool::ExifTool, None), None);
    assert_eq!(get_download_info(&Tool::FFmpeg, Some(Platform::Linux)).unwrap().1, None);
}

#[test]
fn test_compute_sha256() {
    assert_eq!(
        compute_sha256(&vec![]),
        "e3b0c44298fc1c149afbf4c8996fb92427ae41e4649b934ca495991b7852b855"
    );
    assert_eq!(
        compute_sha256(&b"abc".to_vec()),
        "ba7816bf8f01cfea414140de5dae2223b00361a396177a9cb410ff61f20015ad"
    );
}

#[test]
fn test_verify_checksum() {
    let data = b"abc".to_vec();
    let right = "ba7816bf8f01cfea414140de5dae2223b00361a396177a9cb410ff61f20015ad".to_string();
    assert_eq!(verify_checksum(&data, &None), Ok(()));
    assert_eq!(verify_checksum(&data, &Some(right.clone())), Ok(()));
    let refused =
        Err("Checksum verification failed! Download may be corrupted or tampered with.".to_string());
    assert_eq!(verify_checksum(&data, &Some(right.to_uppercase())), refused);
    assert_eq!(verify_checksum(&b"abd".to_vec(), &Some(right)), refused);
    assert_eq!(verify_checksum(&data, &Some(String::new())), refused);
}

#[test]
fn test_archive_kind() {
    let zip = b"PK\x03\x04rest".to_vec();
    let other = b"\x1f\x8brest".to_vec();
    assert_eq!(archive_kind(Some(Platform::MacOs), &zip), Ok(ArchiveKind::Zip));
    assert_eq!(archive_kind(Some(Platform::Windows), &zip), Ok(ArchiveKind::Zip));
    assert_eq!(archive_kind(Some(Platform::Linux), &zip), Ok(ArchiveKind::Tar));
    assert_eq!(archive_kind(Some(Platform::Linux), &other), Ok(ArchiveKind::Tar));
    assert_eq!(archive_kind(Some(Platform::Linux), &vec![]), Ok(ArchiveKind::Tar));
    let refused = Err("Unsupported archive format".to_string());
    assert_eq!(archive_kind(Some(Platform::MacOs), &other), refused);
    assert_eq!(archive_kind(Some(Platform::Windows), &b"P".to_vec()), refused);
    assert_eq!(archive_kind(Some(Platform::Windows), &vec![]), refused);
    assert_eq!(archive_kind(None, &zip), refused);
}

#[test]
fn test_archive_entries() {
    assert!(is_zip_entry_wanted("ffmpeg-7/bin/ffmpeg", "ffmpeg"));
    assert!(is_zip_entry_wanted("ffmpeg", "ffmpeg"));
    assert!(is_zip_entry_wanted("build/bin/ffmpeg.exe", "ffmpeg"));
    assert!(is_zip_entry_wanted("build/bin/ffmpeg.exe", "ffmpeg.exe"));
    assert!(is_zip_entry_wanted("build/bin/ffmpeg.exe.exe", "ffmpeg.exe"));
    assert!(is_zip_entry_wanted("notffmpeg", "ffmpeg"));
    assert!(!is_zip_entry_wanted("build/bin/ffprobe.exe", "ffmpeg"));
    assert!(!is_zip_entry_wanted("mpeg", "ffmpeg"));
    assert!(!is_zip_entry_wanted("", "ffmpeg"));
    assert!(is_tar_entry_wanted("ffmpeg-static/ffmpeg", "ffmpeg"));
    assert!(is_tar_entry_wanted("ffmpeg", "ffmpeg"));
    assert!(!is_tar_entry_wanted("ffmpeg-static/notffmpeg", "ffmpeg"));
    assert!(!is_tar_entry_wanted("ffmpeg-static/ffmpeg.exe", "ffmpeg"));
    assert!(!is_tar_entry_wanted("ffmpeg/readme", "ffmpeg"));
    assert_eq!(missing_program("ffmpeg"), "Binary ffmpeg not found in archive");
}

#[test]
fn test_install_results() {
    let failed = installation_failed(&Tool::FFmpeg, InstallMethod::DirectDownload, "Download failed: 404".to_string());
    assert!(!failed.success);
    assert_eq!(failed.tool, "ffmpeg");
    assert_eq!(failed.method, InstallMethod::DirectDownload);
    assert_eq!(failed.message, "Download failed: 404");
    assert_eq!((failed.installed_path, failed.version), (None, None));
    let done = installation_finished(&Tool::ExifTool, InstallMethod::DirectDownload, Some("/bin/exiftool".to_string()));
    assert!(done.success);
    assert_eq!(done.tool, "exiftool");
    assert_eq!(done.message, format!("{} installed successfully", Tool::ExifTool.display_name()));
    assert_eq!(done.installed_path, Some("/bin/exiftool".to_string()));
    assert_eq!(done.version, None);
}

#[test]
fn test_handle_command_result() {
    let finished = |success| CommandOutcome::Finished {
        success,
        output: "done".to_string(),
        diagnostics: "E: no".to_string(),
    };
    let result = handle_command_result(&finished(true), &Tool::FFmpeg, InstallMethod::Apt);
    assert!(result.success);
    assert_eq!(result.tool, "ffmpeg");
    assert_eq!(result.method, InstallMethod::Apt);
    assert_eq!(result.message, format!("{} installed successfully", Tool::FFmpeg.display_name()));
    assert_eq!((result.installed_path, result.version), (None, None));
    let result = handle_command_result(&finished(false), &Tool::FFmpeg, InstallMethod::Snap);
    assert!(!result.success);
    assert_eq!(result.message, "Installation failed: E: no");
    let result = handle_command_result(&CommandOutcome::Unfinished, &Tool::ExifTool, InstallMethod::Homebrew);
    assert!(!result.success);
    assert_eq!(result.tool, "exiftool");
    assert_eq!(result.method, InstallMethod::Homebrew);
    assert_eq!(result.message, "Installation timed out or failed to execute");
}
