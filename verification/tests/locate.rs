use seer::locate::{
    command_candidates, find_command, get_search_paths, join_path, Environment, Platform,
};

fn env(home: Option<&str>, path: Option<&str>) -> Environment {
    Environment {
        home: home.map(|s| s.to_string()),
        appdata: None,
        local_app_data: None,
        program_data: None,
        userprofile: None,
        path: path.map(|s| s.to_string()),
    }
}

fn strings(list: &[&str]) -> Vec<String> {
    list.iter().map(|s| s.to_string()).collect()
}

#[test]
fn test_search_paths_linux() {
    let found = get_search_paths(
        Platform::Linux,
        &env(Some("/home/u"), Some("/usr/bin:/custom/bin::/home/u/bin:/custom/bin:/other")),
    );
    assert_eq!(
        found,
        strings(&[
            "/home/u/.local/share/Seer/bin",
            "/usr/local/bin",
            "/usr/bin",
            "/bin",
            "/opt/homebrew/bin",
            "/opt/local/bin",
            "/snap/bin",
            "/var/lib/flatpak/exports/bin",
            "/home/u/.local/bin",
            "/home/u/bin",
            "/home/u/.linuxbrew/bin",
            "/custom/bin",
            "/other",
        ])
    );
}

#[test]
fn test_search_paths_macos_without_environment() {
    let found = get_search_paths(Platform::MacOs, &env(None, None));
    assert_eq!(
        found,
        strings(&[
            "/usr/local/bin",
            "/usr/bin",
            "/bin",
            "/opt/homebrew/bin",
            "/opt/local/bin",
            "/snap/bin",
            "/var/lib/flatpak/exports/bin",
        ])
    );
    let with_home = get_search_paths(Platform::MacOs, &env(Some("/Users/u"), Some("")));
    assert_eq!(with_home[0], "/Users/u/Library/Application Support/Seer/bin");
    assert_eq!(with_home.len(), 11);
}

#[test]
fn test_search_paths_windows() {
    let environment = Environment {
        home: Some("ignored".to_string()),
        appdata: Some(r"C:\Users\u\AppData\Roaming".to_string()),
        local_app_data: Some(r"C:\Users\u\AppData\Local".to_string()),
        program_data: Some(r"C:\ProgramData".to_string()),
        userprofile: Some(r"C:\Users\u".to_string()),
        path: Some(r"C:\Windows;C:\ffmpeg\bin;D:\tools".to_string()),
    };
    let found = get_search_paths(Platform::Windows, &environment);
    assert_eq!(
        found,
        strings(&[
            r"C:\Users\u\AppData\Roaming\Seer\bin",
            r"C:\Program Files\ffmpeg\bin",
            r"C:\Program Files (x86)\ffmpeg\bin",
            r"C:\ffmpeg\bin",
            r"C:\Program Files\exiftool",
            r"C:\Program Files (x86)\exiftool",
            r"C:\Users\u\AppData\Local\Microsoft\WindowsApps",
            r"C:\ProgramData\chocolatey\bin",
            r"C:\Users\u\scoop\shims",
            r"C:\Users\u\.local\bin",
            r"C:\Windows",
            r"D:\tools",
        ])
    );
}

#[test]
fn test_command_candidates() {
    let dirs = strings(&["/usr/bin", "/opt/tools/"]);
    assert_eq!(
        command_candidates(Platform::Linux, &dirs, "ffprobe"),
        strings(&["/usr/bin/ffprobe", "/opt/tools/ffprobe"])
    );
    let dirs = strings(&[r"C:\a", r"C:\b\"]);
    assert_eq!(
        command_candidates(Platform::Windows, &dirs, "ffprobe"),
        strings(&[
            r"C:\a\ffprobe",
            r"C:\a\ffprobe.exe",
            r"C:\a\ffprobe.cmd",
            r"C:\a\ffprobe.bat",
            r"C:\b\ffprobe",
            r"C:\b\ffprobe.exe",
            r"C:\b\ffprobe.cmd",
            r"C:\b\ffprobe.bat",
        ])
    );
    assert!(command_candidates(Platform::MacOs, &vec![], "x").is_empty());
}

#[test]
fn test_join_path() {
    assert_eq!(join_path("/a", "b", '/'), "/a/b");
    assert_eq!(join_path("/a/", "b", '/'), "/a/b");
    assert_eq!(join_path("", "b", '/'), "b");
    assert_eq!(join_path("/a", "/b", '/'), "/b");
    assert_eq!(join_path("/a", "", '/'), "/a/");
    assert_eq!(join_path("/", "b", '/'), "/b");
}

#[test]
fn test_find_command_picks_first_existing() {
    let candidates = strings(&["/a/x", "/b/x", "/c/x"]);
    assert_eq!(find_command(&candidates, &vec![false, true, true]), Some("/b/x".to_string()));
    assert_eq!(find_command(&candidates, &vec![false, false, false]), None);
    assert_eq!(find_command(&candidates, &vec![false]), None);
    assert_eq!(find_command(&candidates, &vec![true, false, false, true]), Some("/a/x".to_string()));
    assert_eq!(find_command(&vec![], &vec![true]), None);
}
