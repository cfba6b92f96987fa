//! Installation of a tool by a package manager, as far as it decides: the
//! command that is run, how its progress is shown while it runs, and what
//! its end means.
use crate::downloads::{
    command_result, failed_install, handle_command_result, CommandOutcome, InstallResult,
    InstallResultView,
};
use crate::installer::{tool_display_name, tool_name, InstallMethod, Tool};
use crate::probe::{push_argument, string_views};
use crate::text::{append_text, decimal_text, from_chars, push_decimal};
use vstd::prelude::*;

verus! {

/// Seconds after which the command of a package manager is given up.
pub const INSTALL_TIMEOUT_SECS: u64 = 300;

/// Seconds between two steps of the progress that is shown while the
/// command runs.
pub const PROGRESS_STEP_SECS: u64 = 3;

/// Percentage at which the shown progress begins.
pub const PROGRESS_START: u64 = 35;

/// Percentage beyond which the shown progress does not go while the
/// command runs.
pub const PROGRESS_LIMIT: u64 = 90;

/// The name of a tool's package in a package manager; `None` where the
/// package manager has none.
pub open spec fn package_of(method: InstallMethod, tool: Tool) -> Option<Seq<char>> {
    match (method, tool) {
        (InstallMethod::Winget, Tool::FFmpeg) => Some("Gyan.FFmpeg"@),
        (InstallMethod::Winget, Tool::ExifTool) => Some("Oliver-Scherer.ExifTool"@),
        (InstallMethod::Apt, Tool::ExifTool) => Some("libimage-exiftool-perl"@),
        (InstallMethod::Dnf, Tool::ExifTool) => Some("perl-Image-ExifTool"@),
        (InstallMethod::Pacman, Tool::ExifTool) => Some("perl-image-exiftool"@),
        (InstallMethod::Snap, Tool::ExifTool) => None,
        (InstallMethod::DirectDownload, _) => None,
        (_, Tool::FFmpeg) => Some("ffmpeg"@),
        (_, Tool::ExifTool) => Some("exiftool"@),
    }
}

/// The name of a tool's package in a package manager.
pub fn package_name(method: InstallMethod, tool: &Tool) -> (name: Option<&'static str>)
    ensures
        name is Some == package_of(method, *tool) is Some,
        name is Some ==> name->0@ == package_of(method, *tool)->0,
{
    match (method, tool) {
        (InstallMethod::Winget, Tool::FFmpeg) => Some("Gyan.FFmpeg"),
        (InstallMethod::Winget, Tool::ExifTool) => Some("Oliver-Scherer.ExifTool"),
        (InstallMethod::Apt, Tool::ExifTool) => Some("libimage-exiftool-perl"),
        (InstallMethod::Dnf, Tool::ExifTool) => Some("perl-Image-ExifTool"),
        (InstallMethod::Pacman, Tool::ExifTool) => Some("perl-image-exiftool"),
        (InstallMethod::Snap, Tool::ExifTool) => None,
        (InstallMethod::DirectDownload, _) => None,
        (_, Tool::FFmpeg) => Some("ffmpeg"),
        (_, Tool::ExifTool) => Some("exiftool"),
    }
}

/// The command by which a package manager installs `package`: the program,
/// then its arguments.
pub open spec fn command_for(method: InstallMethod, package: Seq<char>) -> Seq<Seq<char>> {
    match method {
        InstallMethod::Homebrew => seq!["brew"@, "install"@, package],
        InstallMethod::Winget => seq![
            "winget"@,
            "install"@,
            "--id"@,
            package,
            "--silent"@,
            "--accept-source-agreements"@,
        ],
        InstallMethod::Chocolatey => seq!["choco"@, "install"@, package, "-y"@],
        InstallMethod::Scoop => seq!["scoop"@, "install"@, package],
        InstallMethod::Apt => seq!["sudo"@, "apt"@, "install"@, "-y"@, package],
        InstallMethod::Dnf => seq!["sudo"@, "dnf"@, "install"@, "-y"@, package],
        InstallMethod::Pacman => seq!["sudo"@, "pacman"@, "-S"@, "--noconfirm"@, package],
        InstallMethod::Snap => seq!["sudo"@, "snap"@, "install"@, package],
        InstallMethod::DirectDownload => Seq::empty(),
    }
}

/// Why a package manager cannot install a tool.
pub open spec fn refusal(method: InstallMethod) -> Seq<char> {
    match method {
        InstallMethod::Snap => "ExifTool not available via Snap"@,
        _ => "Package manager DirectDownload not implemented"@,
    }
}

/// The command by which a package manager installs a tool, or why it
/// cannot.
pub fn install_command(method: InstallMethod, tool: &Tool) -> (command: Result<Vec<String>, String>)
    ensures
        command is Ok == package_of(method, *tool) is Some,
        command is Ok ==> string_views(command->Ok_0@) == command_for(
            method,
            package_of(method, *tool)->0,
        ),
        command is Err ==> command->Err_0@ == refusal(method),
{
    let package = match package_name(method, tool) {
        Some(package) => package,
        None => {
            return match method {
                InstallMethod::Snap => Err(String::from_str("ExifTool not available via Snap")),
                _ => Err(String::from_str("Package manager DirectDownload not implemented")),
            };
        },
    };
    let mut command: Vec<String> = Vec::new();
    assert(string_views(command@) =~= Seq::<Seq<char>>::empty());
    match method {
        InstallMethod::Homebrew => {
            push_argument(&mut command, "brew");
            push_argument(&mut command, "install");
            push_argument(&mut command, package);
        },
        InstallMethod::Winget => {
            push_argument(&mut command, "winget");
            push_argument(&mut command, "install");
            push_argument(&mut command, "--id");
            push_argument(&mut command, package);
            push_argument(&mut command, "--silent");
            push_argument(&mut command, "--accept-source-agreements");
        },
        InstallMethod::Chocolatey => {
            push_argument(&mut command, "choco");
            push_argument(&mut command, "install");
            push_argument(&mut command, package);
            push_argument(&mut command, "-y");
        },
        InstallMethod::Scoop => {
            push_argument(&mut command, "scoop");
            push_argument(&mut command, "install");
            push_argument(&mut command, package);
        },
        InstallMethod::Apt => {
            push_argument(&mut command, "sudo");
            push_argument(&mut command, "apt");
            push_argument(&mut command, "install");
            push_argument(&mut command, "-y");
            push_argument(&mut command, package);
        },
        InstallMethod::Dnf => {
            push_argument(&mut command, "sudo");
            push_argument(&mut command, "dnf");
            push_argument(&mut command, "install");
            push_argument(&mut command, "-y");
            push_argument(&mut command, package);
        },
        InstallMethod::Pacman => {
            push_argument(&mut command, "sudo");
            push_argument(&mut command, "pacman");
            push_argument(&mut command, "-S");
            push_argument(&mut command, "--noconfirm");
            push_argument(&mut command, package);
        },
        InstallMethod::Snap => {
            push_argument(&mut command, "sudo");
            push_argument(&mut command, "snap");
            push_argument(&mut command, "install");
            push_argument(&mut command, package);
        },
        InstallMethod::DirectDownload => {},
    }
    assert(string_views(command@) =~= command_for(method, package@));
    Ok(command)
}

/// The percentage that is shown one step after `current`: five more, up to
/// the limit.
pub open spec fn next_progress(current: nat) -> nat {
    if current + 5 > PROGRESS_LIMIT {
        PROGRESS_LIMIT as nat
    } else {
        current + 5
    }
}

/// The percentage that is shown one step after `current`.
pub fn simulate_progress(current: u64) -> (next: u64)
    ensures
        next == next_progress(current as nat),
        next <= PROGRESS_LIMIT,
{
    if current >= PROGRESS_LIMIT - 5 {
        PROGRESS_LIMIT
    } else {
        current + 5
    }
}

/// The label of the shown progress.
pub fn progress_stage(percentage: u64) -> (stage: String)
    ensures
        stage@ == "Installing... "@ + decimal_text(percentage as nat) + "%"@,
{
    let mut chars: Vec<char> = Vec::new();
    append_text(&mut chars, "Installing... ");
    push_decimal(&mut chars, percentage);
    append_text(&mut chars, "%");
    assert(chars@ =~= "Installing... "@ + decimal_text(percentage as nat) + "%"@);
    from_chars(&chars)
}

/// What the end of the command of Homebrew means for the installation: a
/// success names the place where Homebrew puts programs.
pub open spec fn homebrew_result(tool: Tool, outcome: CommandOutcome) -> InstallResultView {
    match outcome {
        CommandOutcome::Finished { success, output, diagnostics } => if success {
            InstallResultView {
                success: true,
                tool: tool_name(tool),
                method: InstallMethod::Homebrew,
                message: tool_display_name(tool) + " installed successfully via Homebrew"@,
                installed_path: Some("/opt/homebrew/bin/"@ + tool_name(tool)),
                version: None,
            }
        } else {
            failed_install(tool, InstallMethod::Homebrew, "Installation failed: "@ + diagnostics@)
        },
        CommandOutcome::Unfinished => failed_install(
            tool,
            InstallMethod::Homebrew,
            "Installation timed out or failed to execute"@,
        ),
    }
}

/// What the end of a package manager's command means for the installation.
pub open spec fn package_result(method: InstallMethod, tool: Tool, outcome: CommandOutcome) -> InstallResultView {
    if method == InstallMethod::Homebrew {
        homebrew_result(tool, outcome)
    } else {
        command_result(tool, method, outcome)
    }
}

/// Judges an installation by a package manager by the end of its command.
pub fn install_via_package_manager(method: InstallMethod, tool: &Tool, outcome: &CommandOutcome) -> (
    result: InstallResult)
    ensures
        result@ == package_result(method, *tool, *outcome),
{
    match (method, outcome) {
        (InstallMethod::Homebrew, CommandOutcome::Finished { success: true, output: _, diagnostics: _ }) => {
            let mut message = String::from_str(tool.display_name());
            message.append(" installed successfully via Homebrew");
            let mut path = String::from_str("/opt/homebrew/bin/");
            path.append(tool.name());
            InstallResult {
                success: true,
                tool: String::from_str(tool.name()),
                method: InstallMethod::Homebrew,
                message,
                installed_path: Some(path),
                version: None,
            }
        },
        _ => handle_command_result(outcome, tool, method),
    }
}

} // verus!
