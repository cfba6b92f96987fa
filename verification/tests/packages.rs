use seer::downloads::CommandOutcome;
use seer::installer::{InstallMethod, Tool};
use seer::packages::{
    install_command, install_via_package_manager, package_name, progress_stage,
    simulate_progress, INSTALL_TIMEOUT_SECS, PROGRESS_LIMIT, PROGRESS_START,
};

fn ended(success: bool) -> CommandOutcome {
    CommandOutcome::Finished { success, output: "ok".to_string(), diagnostics: "bad".to_string() }
}

#[test]
fn test_package_names() {
    assert_eq!(package_name(InstallMethod::Homebrew, &Tool::FFmpeg), Some("ffmpeg"));
    assert_eq!(package_name(InstallMethod::Homebrew, &Tool::ExifTool), Some("exiftool"));
    assert_eq!(package_name(InstallMethod::Winget, &Tool::FFmpeg), Some("Gyan.FFmpeg"));
    assert_eq!(package_name(InstallMethod::Winget, &Tool::ExifTool), Some("Oliver-Scherer.ExifTool"));
    assert_eq!(package_name(InstallMethod::Chocolatey, &Tool::ExifTool), Some("exiftool"));
    assert_eq!(package_name(InstallMethod::Scoop, &Tool::FFmpeg), Some("ffmpeg"));
    assert_eq!(package_name(InstallMethod::Apt, &Tool::FFmpeg), Some("ffmpeg"));
    assert_eq!(package_name(InstallMethod::Apt, &Tool::ExifTool), Some("libimage-exiftool-perl"));
    assert_eq!(package_name(InstallMethod::Dnf, &Tool::ExifTool), Some("perl-Image-ExifTool"));
    assert_eq!(package_name(InstallMethod::Pacman, &Tool::ExifTool), Some("perl-image-exiftool"));
    assert_eq!(package_name(InstallMethod::Snap, &Tool::FFmpeg), Some("ffmpeg"));
    assert_eq!(package_name(InstallMethod::Snap, &Tool::ExifTool), None);
    assert_eq!(package_name(InstallMethod::DirectDownload, &Tool::FFmpeg), None);
}

#[test]
fn test_install_commands() {
    let command = |method, tool| install_command(method, &tool).unwrap().join(" ");
    assert_eq!(command(InstallMethod::Homebrew, Tool::FFmpeg), "brew install ffmpeg");
    assert_eq!(
        command(InstallMethod::Winget, Tool::ExifTool),
        "winget install --id Oliver-Scherer.ExifTool --silent --accept-source-agreements"
    );
    assert_eq!(command(InstallMethod::Chocolatey, Tool::FFmpeg), "choco install ffmpeg -y");
    assert_eq!(command(InstallMethod::Scoop, Tool::ExifTool), "scoop install exiftool");
    assert_eq!(
        command(InstallMethod::Apt, Tool::ExifTool),
        "sudo apt install -y libimage-exiftool-perl"
    );
    assert_eq!(command(InstallMethod::Dnf, Tool::FFmpeg), "sudo dnf install -y ffmpeg");
    assert_eq!(
        command(InstallMethod::Pacman, Tool::ExifTool),
        "sudo pacman -S --noconfirm perl-image-exiftool"
    );
    assert_eq!(command(InstallMethod::Snap, Tool::FFmpeg), "sudo snap install ffmpeg");
    assert_eq!(
        install_command(InstallMethod::Snap, &Tool::ExifTool),
        Err("ExifTool not available via Snap".to_string())
    );
    assert_eq!(
        install_command(InstallMethod::DirectDownload, &Tool::FFmpeg),
        Err("Package manager DirectDownload not implemented".to_string())
    );
}

#[test]
fn test_simulated_progress() {
    assert_eq!(INSTALL_TIMEOUT_SECS, 300);
    assert_eq!(simulate_progress(PROGRESS_START), 40);
    assert_eq!(simulate_progress(84), 89);
    assert_eq!(simulate_progress(85), 90);
    assert_eq!(simulate_progress(86), 90);
    assert_eq!(simulate_progress(PROGRESS_LIMIT), 90);
    assert_eq!(simulate_progress(u64::MAX), 90);
    assert_eq!(simulate_progress(0), 5);
    assert_eq!(progress_stage(40), "Installing... 40%");
    assert_eq!(progress_stage(0), "Installing... 0%");
}

#[test]
fn test_install_via_package_manager() {
    let result = install_via_package_manager(InstallMethod::Homebrew, &Tool::FFmpeg, &ended(true));
    assert!(result.success);
    assert_eq!(result.method, InstallMethod::Homebrew);
    assert_eq!(result.message, format!("{} installed successfully via Homebrew", Tool::FFmpeg.display_name()));
    assert_eq!(result.installed_path, Some("/opt/homebrew/bin/ffmpeg".to_string()));
    let result = install_via_package_manager(InstallMethod::Homebrew, &Tool::ExifTool, &ended(false));
    assert!(!result.success);
    assert_eq!(result.message, "Installation failed: bad");
    assert_eq!(result.installed_path, None);
    let result = install_via_package_manager(InstallMethod::Homebrew, &Tool::ExifTool, &CommandOutcome::Unfinished);
    assert_eq!(result.message, "Installation timed out or failed to execute");
    let result = install_via_package_manager(InstallMethod::Apt, &Tool::ExifTool, &ended(true));
    assert!(result.success);
    assert_eq!(result.method, InstallMethod::Apt);
    assert_eq!(result.message, format!("{} installed successfully", Tool::ExifTool.display_name()));
    assert_eq!(result.installed_path, None);
    let result = install_via_package_manager(InstallMethod::Dnf, &Tool::FFmpeg, &ended(false));
    assert_eq!((result.success, result.message.as_str()), (false, "Installation failed: bad"));
}
