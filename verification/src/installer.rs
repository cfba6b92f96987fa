//! Installation of the external tools: which tools there are, and which
//! ways of installing them a platform offers.

use crate::locate::{join_path, joined, Platform};
use crate::text::{is_text, lowercase_chars, lowercased, to_chars};
use vstd::prelude::*;

verus! {

/// The tools that can be installed.
#[derive(Debug, Clone, Copy, PartialEq, Eq, Structural)]
pub enum Tool {
    FFmpeg,
    ExifTool,
}

/// The ways of installing a tool.
#[derive(Debug, Clone, Copy, PartialEq, Eq, Structural)]
pub enum InstallMethod {
    Homebrew,
    Winget,
    Scoop,
    Chocolatey,
    Apt,
    Dnf,
    Pacman,
    Snap,
    DirectDownload,
}

/// One way of installing a tool on this machine.
#[derive(Debug)]
pub struct InstallStrategy {
    pub method: InstallMethod,
    pub requires_admin: bool,
    pub available: bool,
    pub tool_name: String,
    pub install_location: String,
    pub estimated_size_mb: u64,
}

/// Mathematical value of an [`InstallStrategy`].
pub struct StrategyView {
    pub method: InstallMethod,
    pub requires_admin: bool,
    pub available: bool,
    pub tool_name: Seq<char>,
    pub install_location: Seq<char>,
    pub estimated_size_mb: nat,
}

impl View for InstallStrategy {
    type V = StrategyView;

    open spec fn view(&self) -> StrategyView {
        StrategyView {
            method: self.method,
            requires_admin: self.requires_admin,
            available: self.available,
            tool_name: self.tool_name@,
            install_location: self.install_location@,
            estimated_size_mb: self.estimated_size_mb as nat,
        }
    }
}

/// Which package managers were found on this machine.
#[derive(Debug, Clone, Copy, PartialEq, Eq, Structural)]
pub struct PackageManagers {
    pub homebrew: bool,
    pub winget: bool,
    pub scoop: bool,
    pub chocolatey: bool,
    pub apt: bool,
    pub dnf: bool,
    pub pacman: bool,
    pub snap: bool,
}

/// The name by which a tool is invoked.
pub open spec fn tool_name(tool: Tool) -> Seq<char> {
    match tool {
        Tool::FFmpeg => "ffmpeg"@,
        Tool::ExifTool => "exiftool"@,
    }
}

/// The name by which a tool is shown.
pub open spec fn tool_display_name(tool: Tool) -> Seq<char> {
    match tool {
        Tool::FFmpeg => "FFmpeg"@,
        Tool::ExifTool => "ExifTool"@,
    }
}

/// The tool that a name means, without regard to case.
pub open spec fn tool_named(name: Seq<char>) -> Option<Tool> {
    if lowercased(name) == "ffmpeg"@ {
        Some(Tool::FFmpeg)
    } else if lowercased(name) == "exiftool"@ {
        Some(Tool::ExifTool)
    } else {
        None
    }
}

impl Tool {
    /// The tool that `s` names, without regard to case. Any other name is
    /// answered with a message that quotes it.
    pub fn from_string(s: &str) -> (tool: Result<Self, String>)
        ensures
            match tool_named(s@) {
                Some(named) => tool == Ok::<Tool, String>(named),
                None => tool is Err && tool->Err_0@ == "Unknown tool: "@ + s@,
            },
    {
        let chars = to_chars(s);
        let lower = lowercase_chars(&chars);
        if is_text(&lower, "ffmpeg") {
            Ok(Tool::FFmpeg)
        } else if is_text(&lower, "exiftool") {
            Ok(Tool::ExifTool)
        } else {
            let mut message = String::from_str("Unknown tool: ");
            message.append(s);
            Err(message)
        }
    }

    /// The name by which the tool is invoked.
    pub fn name(&self) -> (name: &'static str)
        ensures
            name@ == tool_name(*self),
    {
        match self {
            Tool::FFmpeg => "ffmpeg",
            Tool::ExifTool => "exiftool",
        }
    }

    /// The name by which the tool is shown.
    pub fn display_name(&self) -> (name: &'static str)
        ensures
            name@ == tool_display_name(*self),
    {
        match self {
            Tool::FFmpeg => "FFmpeg",
            Tool::ExifTool => "ExifTool",
        }
    }
}

/// An available strategy for `tool`; `sizes` gives the download size in
/// megabytes for each of the two tools.
pub open spec fn strategy_for(
    tool: Tool,
    method: InstallMethod,
    requires_admin: bool,
    location: Seq<char>,
    sizes: (nat, nat),
) -> StrategyView {
    StrategyView {
        method,
        requires_admin,
        available: true,
        tool_name: tool_display_name(tool),
        install_location: location,
        estimated_size_mb: match tool {
            Tool::FFmpeg => sizes.0,
            Tool::ExifTool => sizes.1,
        },
    }
}

/// The strategy if `offered`, else nothing.
pub open spec fn when(offered: bool, strategy: StrategyView) -> Seq<StrategyView> {
    if offered {
        seq![strategy]
    } else {
        Seq::empty()
    }
}

/// The strategies on macOS, in order of preference.
pub open spec fn macos_strategies(tool: Tool, found: PackageManagers) -> Seq<StrategyView> {
    when(
        found.homebrew,
        strategy_for(
            tool,
            InstallMethod::Homebrew,
            false,
            "/opt/homebrew/bin or /usr/local/bin"@,
            (85, 5),
        ),
    ) + seq![
        strategy_for(
            tool,
            InstallMethod::DirectDownload,
            false,
            "~/Library/Application Support/Seer/bin"@,
            (80, 5),
        ),
    ]
}

/// The strategies on Windows, in order of preference.
pub open spec fn windows_strategies(tool: Tool, found: PackageManagers) -> Seq<StrategyView> {
    when(
        found.winget,
        strategy_for(tool, InstallMethod::Winget, false, "System-managed location"@, (80, 15)),
    ) + when(
        found.scoop,
        strategy_for(tool, InstallMethod::Scoop, false, "%USERPROFILE%\\scoop\\apps"@, (80, 15)),
    ) + when(
        found.chocolatey,
        strategy_for(
            tool,
            InstallMethod::Chocolatey,
            true,
            "%ProgramData%\\chocolatey\\bin"@,
            (80, 15),
        ),
    ) + seq![
        strategy_for(tool, InstallMethod::DirectDownload, false, "%APPDATA%\\Seer\\bin"@, (80, 15)),
    ]
}

/// The strategies on Linux, in order of preference. Snap offers only FFmpeg.
pub open spec fn linux_strategies(tool: Tool, found: PackageManagers) -> Seq<StrategyView> {
    when(found.apt, strategy_for(tool, InstallMethod::Apt, true, "/usr/bin"@, (50, 3))) + when(
        found.dnf,
        strategy_for(tool, InstallMethod::Dnf, true, "/usr/bin"@, (50, 3)),
    ) + when(found.pacman, strategy_for(tool, InstallMethod::Pacman, true, "/usr/bin"@, (50, 3)))
        + when(
        found.snap && tool == Tool::FFmpeg,
        strategy_for(tool, InstallMethod::Snap, true, "/snap/bin"@, (60, 60)),
    ) + seq![
        strategy_for(
            tool,
            InstallMethod::DirectDownload,
            false,
            "~/.local/share/Seer/bin"@,
            (80, 5),
        ),
    ]
}

/// The strategies on a platform, in order of preference; none on a
/// platform that is not known.
pub open spec fn available_strategies(
    platform: Option<Platform>,
    tool: Tool,
    found: PackageManagers,
) -> Seq<StrategyView> {
    match platform {
        Some(Platform::MacOs) => macos_strategies(tool, found),
        Some(Platform::Windows) => windows_strategies(tool, found),
        Some(Platform::Linux) => linux_strategies(tool, found),
        None => Seq::empty(),
    }
}

/// Views of a sequence of strategies, in order.
pub open spec fn strategy_views(strategies: Seq<InstallStrategy>) -> Seq<StrategyView> {
    strategies.map_values(|s: InstallStrategy| s@)
}

/// Appends an available strategy for `tool` if it is offered.
fn push_strategy(
    strategies: &mut Vec<InstallStrategy>,
    offered: bool,
    tool: &Tool,
    method: InstallMethod,
    requires_admin: bool,
    location: &str,
    ffmpeg_mb: u64,
    exiftool_mb: u64,
)
    ensures
        strategy_views(final(strategies)@) == strategy_views(old(strategies)@) + when(
            offered,
            strategy_for(
                *tool,
                method,
                requires_admin,
                location@,
                (ffmpeg_mb as nat, exiftool_mb as nat),
            ),
        ),
{
    if offered {
        strategies.push(
            InstallStrategy {
                method,
                requires_admin,
                available: true,
                tool_name: String::from_str(tool.display_name()),
                install_location: String::from_str(location),
                estimated_size_mb: match tool {
                    Tool::FFmpeg => ffmpeg_mb,
                    Tool::ExifTool => exiftool_mb,
                },
            },
        );
    }
    assert(strategy_views(strategies@) =~= strategy_views(old(strategies)@) + when(
        offered,
        strategy_for(
            *tool,
            method,
            requires_admin,
            location@,
            (ffmpeg_mb as nat, exiftool_mb as nat),
        ),
    ));
}

/// The strategies on macOS.
pub fn detect_macos_strategies(tool: &Tool, found: &PackageManagers) -> (strategies: Vec<
    InstallStrategy,
>)
    ensures
        strategy_views(strategies@) == macos_strategies(*tool, *found),
{
    let mut strategies: Vec<InstallStrategy> = Vec::new();
    assert(strategy_views(strategies@) =~= Seq::<StrategyView>::empty());
    push_strategy(
        &mut strategies,
        found.homebrew,
        tool,
        InstallMethod::Homebrew,
        false,
        "/opt/homebrew/bin or /usr/local/bin",
        85,
        5,
    );
    push_strategy(
        &mut strategies,
        true,
        tool,
        InstallMethod::DirectDownload,
        false,
        "~/Library/Application Support/Seer/bin",
        80,
        5,
    );
    assert(strategy_views(strategies@) =~= macos_strategies(*tool, *found));
    strategies
}

/// The strategies on Windows.
pub fn detect_windows_strategies(tool: &Tool, found: &PackageManagers) -> (strategies: Vec<
    InstallStrategy,
>)
    ensures
        strategy_views(strategies@) == windows_strategies(*tool, *found),
{
    let mut strategies: Vec<InstallStrategy> = Vec::new();
    assert(strategy_views(strategies@) =~= Seq::<StrategyView>::empty());
    push_strategy(
        &mut strategies,
        found.winget,
        tool,
        InstallMethod::Winget,
        false,
        "System-managed location",
        80,
        15,
    );
    push_strategy(
        &mut strategies,
        found.scoop,
        tool,
        InstallMethod::Scoop,
        false,
        "%USERPROFILE%\\scoop\\apps",
        80,
        15,
    );
    push_strategy(
        &mut strategies,
        found.chocolatey,
        tool,
        InstallMethod::Chocolatey,
        true,
        "%ProgramData%\\chocolatey\\bin",
        80,
        15,
    );
    push_strategy(
        &mut strategies,
        true,
        tool,
        InstallMethod::DirectDownload,
        false,
        "%APPDATA%\\Seer\\bin",
        80,
        15,
    );
    assert(strategy_views(strategies@) =~= windows_strategies(*tool, *found));
    strategies
}

/// The strategies on Linux.
pub fn detect_linux_strategies(tool: &Tool, found: &PackageManagers) -> (strategies: Vec<
    InstallStrategy,
>)
    ensures
        strategy_views(strategies@) == linux_strategies(*tool, *found),
{
    let mut strategies: Vec<InstallStrategy> = Vec::new();
    assert(strategy_views(strategies@) =~= Seq::<StrategyView>::empty());
    push_strategy(&mut strategies, found.apt, tool, InstallMethod::Apt, true, "/usr/bin", 50, 3);
    push_strategy(&mut strategies, found.dnf, tool, InstallMethod::Dnf, true, "/usr/bin", 50, 3);
    push_strategy(
        &mut strategies,
        found.pacman,
        tool,
        InstallMethod::Pacman,
        true,
        "/usr/bin",
        50,
        3,
    );
    let snap = found.snap && match tool {
        Tool::FFmpeg => true,
        Tool::ExifTool => false,
    };
    push_strategy(&mut strategies, snap, tool, InstallMethod::Snap, true, "/snap/bin", 60, 60);
    push_strategy(
        &mut strategies,
        true,
        tool,
        InstallMethod::DirectDownload,
        false,
        "~/.local/share/Seer/bin",
        80,
        5,
    );
    assert(strategy_views(strategies@) =~= linux_strategies(*tool, *found));
    strategies
}

/// The strategies on a platform; none on a platform that is not known.
pub fn detect_available_strategies(
    platform: Option<Platform>,
    tool: &Tool,
    found: &PackageManagers,
) -> (strategies: Vec<InstallStrategy>)
    ensures
        strategy_views(strategies@) == available_strategies(platform, *tool, *found),
{
    match platform {
        Some(Platform::MacOs) => detect_macos_strategies(tool, found),
        Some(Platform::Windows) => detect_windows_strategies(tool, found),
        Some(Platform::Linux) => detect_linux_strategies(tool, found),
        None => {
            let none: Vec<InstallStrategy> = Vec::new();
            assert(strategy_views(none@) =~= Seq::<StrategyView>::empty());
            none
        },
    }
}

/// The ways of installing `tool` on a platform, in order of preference.
pub fn get_install_strategies(platform: Option<Platform>, tool: &Tool, found: &PackageManagers) -> (
    strategies: Vec<InstallStrategy>)
    ensures
        strategy_views(strategies@) == available_strategies(platform, *tool, *found),
{
    detect_available_strategies(platform, tool, found)
}

/// Position of the strategy to use: the first available one with the
/// preferred method, else the first one. `None` if there is no strategy.
pub open spec fn chosen_position(strategies: Seq<StrategyView>, preferred: Option<InstallMethod>) -> Option<
    int,
> {
    if strategies.len() == 0 {
        None
    } else {
        match preferred {
            Some(method) => if preferred_position(strategies, method, 0) < strategies.len() {
                Some(preferred_position(strategies, method, 0))
            } else {
                Some(0)
            },
            None => Some(0),
        }
    }
}

/// Position of the first available strategy with method `method` at or
/// behind `from`, or the number of strategies if there is none.
pub open spec fn preferred_position(strategies: Seq<StrategyView>, method: InstallMethod, from: int) -> int
    decreases strategies.len() - from,
{
    if from >= strategies.len() {
        strategies.len() as int
    } else if from >= 0 && strategies[from].method == method && strategies[from].available {
        from
    } else {
        preferred_position(strategies, method, from + 1)
    }
}

/// Picks the strategy to use.
pub fn choose_strategy(strategies: &Vec<InstallStrategy>, preferred: Option<InstallMethod>) -> (
    position: Option<usize>)
    ensures
        match position {
            Some(at) => chosen_position(strategy_views(strategies@), preferred) == Some(at as int)
                && at < strategies@.len(),
            None => chosen_position(strategy_views(strategies@), preferred) is None,
        },
{
    if strategies.len() == 0 {
        return None;
    }
    match preferred {
        Some(method) => {
            let ghost views = strategy_views(strategies@);
            let mut i: usize = 0;
            while i < strategies.len()
                invariant
                    i <= strategies.len(),
                    strategies@.len() > 0,
                    preferred == Some(method),
                    views == strategy_views(strategies@),
                    preferred_position(views, method, 0) == preferred_position(
                        views,
                        method,
                        i as int,
                    ),
                decreases strategies.len() - i,
            {
                assert(views[i as int] == strategies@[i as int]@);
                if strategies[i].method == method && strategies[i].available {
                    return Some(i);
                }
                i += 1;
            }
            Some(0)
        },
        None => Some(0),
    }
}

/// Cancels a running installation of `tool`. Installations are not tracked,
/// so there is never one to cancel.
pub fn cancel_installation(tool: &str) -> (cancelled: bool)
    ensures
        !cancelled,
{
    false
}

/// The method that a name means, without regard to case.
pub open spec fn method_named(name: Seq<char>) -> Option<InstallMethod> {
    let lower = lowercased(name);
    if lower == "homebrew"@ {
        Some(InstallMethod::Homebrew)
    } else if lower == "winget"@ {
        Some(InstallMethod::Winget)
    } else if lower == "chocolatey"@ {
        Some(InstallMethod::Chocolatey)
    } else if lower == "scoop"@ {
        Some(InstallMethod::Scoop)
    } else if lower == "apt"@ {
        Some(InstallMethod::Apt)
    } else if lower == "dnf"@ {
        Some(InstallMethod::Dnf)
    } else if lower == "pacman"@ {
        Some(InstallMethod::Pacman)
    } else if lower == "snap"@ {
        Some(InstallMethod::Snap)
    } else if lower == "direct_download"@ || lower == "directdownload"@ {
        Some(InstallMethod::DirectDownload)
    } else {
        None
    }
}

/// The method that `method` names, without regard to case. Any other name
/// is answered with a message that quotes it.
pub fn parse_install_method(method: &str) -> (parsed: Result<InstallMethod, String>)
    ensures
        match method_named(method@) {
            Some(named) => parsed == Ok::<InstallMethod, String>(named),
            None => parsed is Err && parsed->Err_0@ == "Unknown install method: "@ + method@,
        },
{
    let chars = to_chars(method);
    let lower = lowercase_chars(&chars);
    if is_text(&lower, "homebrew") {
        Ok(InstallMethod::Homebrew)
    } else if is_text(&lower, "winget") {
        Ok(InstallMethod::Winget)
    } else if is_text(&lower, "chocolatey") {
        Ok(InstallMethod::Chocolatey)
    } else if is_text(&lower, "scoop") {
        Ok(InstallMethod::Scoop)
    } else if is_text(&lower, "apt") {
        Ok(InstallMethod::Apt)
    } else if is_text(&lower, "dnf") {
        Ok(InstallMethod::Dnf)
    } else if is_text(&lower, "pacman") {
        Ok(InstallMethod::Pacman)
    } else if is_text(&lower, "snap") {
        Ok(InstallMethod::Snap)
    } else if is_text(&lower, "direct_download") || is_text(&lower, "directdownload") {
        Ok(InstallMethod::DirectDownload)
    } else {
        let mut message = String::from_str("Unknown install method: ");
        message.append(method);
        Err(message)
    }
}

/// The directory for downloaded tools below the application's data
/// directory.
pub fn get_bin_directory(app_data_dir: &str) -> (directory: String)
    ensures
        directory@ == joined(app_data_dir@, "bin"@, crate::paths::SEPARATOR),
{
    join_path(app_data_dir, "bin", crate::paths::SEPARATOR)
}

/// The files whose presence shows that a package manager is installed.
pub open spec fn marker_paths_of(method: InstallMethod) -> Seq<Seq<char>> {
    match method {
        InstallMethod::Homebrew => seq!["/opt/homebrew/bin/brew"@, "/usr/local/bin/brew"@],
        InstallMethod::Apt => seq!["/usr/bin/apt"@, "/usr/bin/apt-get"@, "/etc/debian_version"@],
        InstallMethod::Dnf => seq!["/usr/bin/dnf"@, "/etc/fedora-release"@, "/etc/redhat-release"@],
        InstallMethod::Pacman => seq!["/usr/bin/pacman"@, "/etc/arch-release"@],
        _ => Seq::empty(),
    }
}

/// The command that finds the program of a package manager, and the name
/// of that program, for the package managers that are looked up so.
pub open spec fn finder_of(method: InstallMethod) -> Option<(Seq<char>, Seq<char>)> {
    match method {
        InstallMethod::Homebrew => Some(("which"@, "brew"@)),
        InstallMethod::Snap => Some(("which"@, "snap"@)),
        InstallMethod::Winget => Some(("where"@, "winget"@)),
        InstallMethod::Chocolatey => Some(("where"@, "choco"@)),
        InstallMethod::Scoop => Some(("where"@, "scoop"@)),
        _ => None,
    }
}

/// Appends a path to a list of paths.
fn push_path(paths: &mut Vec<String>, path: &str)
    ensures
        path_views(final(paths)@) == path_views(old(paths)@).push(path@),
{
    paths.push(String::from_str(path));
    assert(path_views(paths@) =~= path_views(old(paths)@).push(path@));
}

/// Texts of a sequence of paths, in order.
pub open spec fn path_views(paths: Seq<String>) -> Seq<Seq<char>> {
    paths.map_values(|path: String| path@)
}

/// The files whose presence shows that a package manager is installed.
pub fn marker_paths(method: InstallMethod) -> (paths: Vec<String>)
    ensures
        path_views(paths@) == marker_paths_of(method),
{
    let mut paths: Vec<String> = Vec::new();
    assert(path_views(paths@) =~= Seq::<Seq<char>>::empty());
    match method {
        InstallMethod::Homebrew => {
            push_path(&mut paths, "/opt/homebrew/bin/brew");
            push_path(&mut paths, "/usr/local/bin/brew");
        },
        InstallMethod::Apt => {
            push_path(&mut paths, "/usr/bin/apt");
            push_path(&mut paths, "/usr/bin/apt-get");
            push_path(&mut paths, "/etc/debian_version");
        },
        InstallMethod::Dnf => {
            push_path(&mut paths, "/usr/bin/dnf");
            push_path(&mut paths, "/etc/fedora-release");
            push_path(&mut paths, "/etc/redhat-release");
        },
        InstallMethod::Pacman => {
            push_path(&mut paths, "/usr/bin/pacman");
            push_path(&mut paths, "/etc/arch-release");
        },
        _ => {},
    }
    assert(path_views(paths@) =~= marker_paths_of(method));
    paths
}

/// Texts of a pair of names.
pub open spec fn pair_text(pair: (&'static str, &'static str)) -> (Seq<char>, Seq<char>) {
    (pair.0@, pair.1@)
}

/// The command that finds the program of a package manager, and the name
/// of that program.
pub fn finder_command(method: InstallMethod) -> (finder: Option<(&'static str, &'static str)>)
    ensures
        finder is Some == finder_of(method) is Some,
        finder is Some ==> pair_text(finder->0) == finder_of(method)->0,
{
    match method {
        InstallMethod::Homebrew => Some(("which", "brew")),
        InstallMethod::Snap => Some(("which", "snap")),
        InstallMethod::Winget => Some(("where", "winget")),
        InstallMethod::Chocolatey => Some(("where", "choco")),
        InstallMethod::Scoop => Some(("where", "scoop")),
        _ => None,
    }
}

/// Whether one of the markers of a package manager was found.
pub open spec fn any_found(markers: Seq<bool>) -> bool {
    exists|i: int| 0 <= i < markers.len() && markers[i]
}

/// Whether a package manager is installed: one of its markers exists, or
/// its program was found. `markers` says of each marker whether it exists.
pub fn is_manager_available(markers: &Vec<bool>, program_found: bool) -> (available: bool)
    ensures
        available == (any_found(markers@) || program_found),
{
    let mut i: usize = 0;
    while i < markers.len()
        invariant
            i <= markers.len(),
            forall|k: int| 0 <= k < i ==> !markers@[k],
        decreases markers.len() - i,
    {
        if markers[i] {
            return true;
        }
        i += 1;
    }
    program_found
}

/// Whether the package manager of Debian is installed, from whether each
/// of its markers exists.
pub fn is_apt_available(markers: &Vec<bool>) -> (available: bool)
    ensures
        available == any_found(markers@),
{
    is_manager_available(markers, false)
}

/// Whether the package manager of Fedora is installed, from whether each
/// of its markers exists.
pub fn is_dnf_available(markers: &Vec<bool>) -> (available: bool)
    ensures
        available == any_found(markers@),
{
    is_manager_available(markers, false)
}

/// Whether the package manager of Arch is installed, from whether each of
/// its markers exists.
pub fn is_pacman_available(markers: &Vec<bool>) -> (available: bool)
    ensures
        available == any_found(markers@),
{
    is_manager_available(markers, false)
}

} // verus!
