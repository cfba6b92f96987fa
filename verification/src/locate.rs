//! Search for the probe and mux tools.
//!
//! The directories to search are listed in a fixed order: the
//! application's own tool directory, the directories that package managers
//! install into, and then the entries of the search path of the
//! environment. Which of the candidate files exist is for the caller to
//! find out.

use crate::text::{append_chars, from_chars, split_on, split_range, texts_of, to_chars};
use vstd::prelude::*;

verus! {

/// The operating systems that differ in where tools are found.
#[derive(Debug, Clone, Copy, PartialEq, Eq, Structural)]
pub enum Platform {
    Windows,
    MacOs,
    Linux,
}

/// The environment variables that the search reads; `None` for a variable
/// that is not set.
#[derive(Debug)]
pub struct Environment {
    pub home: Option<String>,
    pub appdata: Option<String>,
    pub local_app_data: Option<String>,
    pub program_data: Option<String>,
    pub userprofile: Option<String>,
    pub path: Option<String>,
}

/// Mathematical value of an [`Environment`].
pub struct EnvironmentView {
    pub home: Option<Seq<char>>,
    pub appdata: Option<Seq<char>>,
    pub local_app_data: Option<Seq<char>>,
    pub program_data: Option<Seq<char>>,
    pub userprofile: Option<Seq<char>>,
    pub path: Option<Seq<char>>,
}

/// Text of an optional string.
pub open spec fn optional_text(value: Option<String>) -> Option<Seq<char>> {
    match value {
        Some(text) => Some(text@),
        None => None,
    }
}

impl View for Environment {
    type V = EnvironmentView;

    open spec fn view(&self) -> EnvironmentView {
        EnvironmentView {
            home: optional_text(self.home),
            appdata: optional_text(self.appdata),
            local_app_data: optional_text(self.local_app_data),
            program_data: optional_text(self.program_data),
            userprofile: optional_text(self.userprofile),
            path: optional_text(self.path),
        }
    }
}

/// The directory `base` followed by `suffix`, if `base` is set.
pub open spec fn below(base: Option<Seq<char>>, suffix: Seq<char>) -> Seq<Seq<char>> {
    match base {
        Some(directory) => seq![directory + suffix],
        None => Seq::empty(),
    }
}

/// The directories that are searched whatever the search path holds, in
/// search order.
pub open spec fn fixed_directories(platform: Platform, env: EnvironmentView) -> Seq<Seq<char>> {
    match platform {
        Platform::Windows => below(env.appdata, "\\Seer\\bin"@) + seq![
            "C:\\Program Files\\ffmpeg\\bin"@,
            "C:\\Program Files (x86)\\ffmpeg\\bin"@,
            "C:\\ffmpeg\\bin"@,
            "C:\\Program Files\\exiftool"@,
            "C:\\Program Files (x86)\\exiftool"@,
        ] + below(env.local_app_data, "\\Microsoft\\WindowsApps"@) + below(
            env.program_data,
            "\\chocolatey\\bin"@,
        ) + below(env.userprofile, "\\scoop\\shims"@) + below(env.userprofile, "\\.local\\bin"@),
        Platform::MacOs => below(env.home, "/Library/Application Support/Seer/bin"@)
            + common_unix_directories(env),
        Platform::Linux => below(env.home, "/.local/share/Seer/bin"@) + common_unix_directories(
            env,
        ),
    }
}

/// The directories that package managers install into on systems other than
/// Windows.
pub open spec fn common_unix_directories(env: EnvironmentView) -> Seq<Seq<char>> {
    seq![
        "/usr/local/bin"@,
        "/usr/bin"@,
        "/bin"@,
        "/opt/homebrew/bin"@,
        "/opt/local/bin"@,
        "/snap/bin"@,
        "/var/lib/flatpak/exports/bin"@,
    ] + below(env.home, "/.local/bin"@) + below(env.home, "/bin"@) + below(
        env.home,
        "/.linuxbrew/bin"@,
    )
}

/// The character that separates the entries of the search path.
pub open spec fn list_separator(platform: Platform) -> char {
    match platform {
        Platform::Windows => ';',
        _ => ':',
    }
}

/// The character that separates a directory from a file name.
pub open spec fn path_separator(platform: Platform) -> char {
    match platform {
        Platform::Windows => '\\',
        _ => '/',
    }
}

/// `directories` extended by the first `n` of `entries`, leaving out empty
/// entries and entries that are already listed.
pub open spec fn extended_by(directories: Seq<Seq<char>>, entries: Seq<Seq<char>>, n: int) -> Seq<
    Seq<char>,
>
    decreases n,
{
    if n <= 0 {
        directories
    } else {
        let before = extended_by(directories, entries, n - 1);
        let entry = entries[n - 1];
        if entry.len() > 0 && !before.contains(entry) {
            before.push(entry)
        } else {
            before
        }
    }
}

/// All directories to search, in search order.
pub open spec fn search_directories(platform: Platform, env: EnvironmentView) -> Seq<Seq<char>> {
    match env.path {
        Some(list) => {
            let entries = split_on(list, list_separator(platform));
            extended_by(fixed_directories(platform, env), entries, entries.len() as int)
        },
        None => fixed_directories(platform, env),
    }
}

/// Texts of a sequence of strings, in order.
pub open spec fn directory_texts(directories: Seq<String>) -> Seq<Seq<char>> {
    directories.map_values(|directory: String| directory@)
}

/// Appends the directory `base` followed by `suffix`, if `base` is set.
fn push_below(directories: &mut Vec<String>, base: &Option<String>, suffix: &str)
    ensures
        directory_texts(final(directories)@) == directory_texts(old(directories)@) + below(
            optional_text(*base),
            suffix@,
        ),
{
    match base {
        Some(directory) => {
            let mut full = directory.clone();
            full.append(suffix);
            directories.push(full);
            assert(directory_texts(directories@) =~= directory_texts(old(directories)@) + below(
                optional_text(*base),
                suffix@,
            ));
        },
        None => {
            assert(directory_texts(directories@) =~= directory_texts(old(directories)@) + below(
                optional_text(*base),
                suffix@,
            ));
        },
    }
}

/// Appends the directory `text`.
fn push_directory(directories: &mut Vec<String>, text: &str)
    ensures
        directory_texts(final(directories)@) == directory_texts(old(directories)@) + seq![text@],
{
    directories.push(String::from_str(text));
    assert(directory_texts(directories@) =~= directory_texts(old(directories)@) + seq![text@]);
}

/// Appends the directories that package managers install into on systems
/// other than Windows.
fn push_common_unix(directories: &mut Vec<String>, env: &Environment)
    ensures
        directory_texts(final(directories)@) == directory_texts(old(directories)@)
            + common_unix_directories(env@),
{
    push_directory(directories, "/usr/local/bin");
    push_directory(directories, "/usr/bin");
    push_directory(directories, "/bin");
    push_directory(directories, "/opt/homebrew/bin");
    push_directory(directories, "/opt/local/bin");
    push_directory(directories, "/snap/bin");
    push_directory(directories, "/var/lib/flatpak/exports/bin");
    push_below(directories, &env.home, "/.local/bin");
    push_below(directories, &env.home, "/bin");
    push_below(directories, &env.home, "/.linuxbrew/bin");
    assert(directory_texts(directories@) =~= directory_texts(old(directories)@)
        + common_unix_directories(env@));
}

/// Whether `directories` lists `entry`.
fn lists(directories: &Vec<String>, entry: &String) -> (listed: bool)
    ensures
        listed == directory_texts(directories@).contains(entry@),
{
    let mut i: usize = 0;
    while i < directories.len()
        invariant
            i <= directories.len(),
            forall|k: int| 0 <= k < i ==> directory_texts(directories@)[k] != entry@,
        decreases directories.len() - i,
    {
        if directories[i] == *entry {
            assert(directory_texts(directories@)[i as int] == entry@);
            return true;
        }
        i += 1;
    }
    false
}

/// The directories to search for tools, in search order.
pub fn get_search_paths(platform: Platform, env: &Environment) -> (directories: Vec<String>)
    ensures
        directory_texts(directories@) == search_directories(platform, env@),
{
    let mut directories: Vec<String> = Vec::new();
    assert(directory_texts(directories@) =~= Seq::<Seq<char>>::empty());
    match platform {
        Platform::Windows => {
            push_below(&mut directories, &env.appdata, "\\Seer\\bin");
            push_directory(&mut directories, "C:\\Program Files\\ffmpeg\\bin");
            push_directory(&mut directories, "C:\\Program Files (x86)\\ffmpeg\\bin");
            push_directory(&mut directories, "C:\\ffmpeg\\bin");
            push_directory(&mut directories, "C:\\Program Files\\exiftool");
            push_directory(&mut directories, "C:\\Program Files (x86)\\exiftool");
            push_below(&mut directories, &env.local_app_data, "\\Microsoft\\WindowsApps");
            push_below(&mut directories, &env.program_data, "\\chocolatey\\bin");
            push_below(&mut directories, &env.userprofile, "\\scoop\\shims");
            push_below(&mut directories, &env.userprofile, "\\.local\\bin");
        },
        Platform::MacOs => {
            push_below(&mut directories, &env.home, "/Library/Application Support/Seer/bin");
            push_common_unix(&mut directories, env);
        },
        Platform::Linux => {
            push_below(&mut directories, &env.home, "/.local/share/Seer/bin");
            push_common_unix(&mut directories, env);
        },
    }
    assert(directory_texts(directories@) =~= fixed_directories(platform, env@));
    match &env.path {
        Some(list) => {
            let separator = match platform {
                Platform::Windows => ';',
                _ => ':',
            };
            let chars = to_chars(list.as_str());
            let entries = split_range(&chars, 0, chars.len(), separator);
            assert(chars@.subrange(0, chars.len() as int) =~= chars@);
            let ghost wanted = split_on(list@, separator);
            let mut i: usize = 0;
            while i < entries.len()
                invariant
                    i <= entries.len(),
                    texts_of(entries@) == wanted,
                    directory_texts(directories@) == extended_by(
                        fixed_directories(platform, env@),
                        wanted,
                        i as int,
                    ),
                decreases entries.len() - i,
            {
                assert(wanted[i as int] == entries@[i as int]@);
                if entries[i].len() > 0 {
                    let entry = from_chars(&entries[i]);
                    if !lists(&directories, &entry) {
                        let ghost before = directory_texts(directories@);
                        directories.push(entry);
                        assert(directory_texts(directories@) =~= before.push(wanted[i as int]));
                    }
                }
                i += 1;
            }
            assert(wanted.len() == entries@.len());
        },
        None => {},
    }
    directories
}

/// The suffixes that are tried behind a tool name, in order.
pub open spec fn tool_suffixes(platform: Platform) -> Seq<Seq<char>> {
    match platform {
        Platform::Windows => seq![""@, ".exe"@, ".cmd"@, ".bat"@],
        _ => seq![""@],
    }
}

/// The path of the file `name` in `directory`. An empty directory and a
/// name that begins with the separator yield the name alone.
pub open spec fn joined(directory: Seq<char>, name: Seq<char>, separator: char) -> Seq<char> {
    if directory.len() == 0 || (name.len() > 0 && name[0] == separator) {
        name
    } else if directory.last() == separator {
        directory + name
    } else {
        directory + seq![separator] + name
    }
}

/// The candidate at position `index`: directories are tried in search
/// order, and within a directory the suffixes in their order.
pub open spec fn candidate(
    platform: Platform,
    directories: Seq<Seq<char>>,
    command: Seq<char>,
    index: int,
) -> Seq<char> {
    let per_directory = tool_suffixes(platform).len() as int;
    joined(
        directories[index / per_directory],
        command + tool_suffixes(platform)[index % per_directory],
        path_separator(platform),
    )
}

/// The path of the file `name` in `directory`.
pub fn join_path(directory: &str, name: &str, separator: char) -> (path: String)
    ensures
        path@ == joined(directory@, name@, separator),
{
    let dir_chars = to_chars(directory);
    let name_chars = to_chars(name);
    if dir_chars.len() == 0 || (name_chars.len() > 0 && name_chars[0] == separator) {
        return String::from_str(name);
    }
    let mut path = dir_chars;
    if path[path.len() - 1] != separator {
        path.push(separator);
    }
    append_chars(&mut path, &name_chars);
    assert(path@ =~= joined(directory@, name@, separator));
    from_chars(&path)
}

/// The files that may be the tool `command`, in the order in which they are
/// to be tried.
pub fn command_candidates(platform: Platform, directories: &Vec<String>, command: &str) -> (
    candidates: Vec<String>)
    requires
        directories@.len() * 4 <= usize::MAX,
    ensures
        candidates@.len() == directories@.len() * tool_suffixes(platform).len(),
        forall|k: int|
            0 <= k < candidates@.len() ==> (#[trigger] candidates@[k])@ == candidate(
                platform,
                directory_texts(directories@),
                command@,
                k,
            ),
{
    let mut suffixes: Vec<&str> = Vec::new();
    suffixes.push("");
    match platform {
        Platform::Windows => {
            suffixes.push(".exe");
            suffixes.push(".cmd");
            suffixes.push(".bat");
        },
        _ => {},
    }
    let separator = match platform {
        Platform::Windows => '\\',
        _ => '/',
    };
    let count = suffixes.len();
    let ghost texts = directory_texts(directories@);
    assert(forall|s: int| 0 <= s < count ==> (#[trigger] suffixes@[s])@ == tool_suffixes(platform)[s]);
    let mut candidates: Vec<String> = Vec::new();
    let mut d: usize = 0;
    while d < directories.len()
        invariant
            d <= directories.len(),
            count == tool_suffixes(platform).len(),
            1 <= count <= 4,
            suffixes@.len() == count,
            forall|s: int|
                0 <= s < count ==> (#[trigger] suffixes@[s])@ == tool_suffixes(platform)[s],
            separator == path_separator(platform),
            texts == directory_texts(directories@),
            candidates@.len() == d * count,
            forall|k: int|
                0 <= k < candidates@.len() ==> (#[trigger] candidates@[k])@ == candidate(
                    platform,
                    texts,
                    command@,
                    k,
                ),
        decreases directories.len() - d,
    {
        let mut s: usize = 0;
        while s < count
            invariant
                d < directories.len(),
                s <= count,
                count == tool_suffixes(platform).len(),
                1 <= count <= 4,
                suffixes@.len() == count,
                forall|x: int|
                    0 <= x < count ==> (#[trigger] suffixes@[x])@ == tool_suffixes(platform)[x],
                separator == path_separator(platform),
                texts == directory_texts(directories@),
                candidates@.len() == d * count + s,
                forall|k: int|
                    0 <= k < candidates@.len() ==> (#[trigger] candidates@[k])@ == candidate(
                        platform,
                        texts,
                        command@,
                        k,
                    ),
            decreases count - s,
        {
            let mut name = String::from_str(command);
            name.append(suffixes[s]);
            let path = join_path(directories[d].as_str(), name.as_str(), separator);
            proof {
                let k = (d * count + s) as int;
                assert(k / (count as int) == d && k % (count as int) == s) by (nonlinear_arith)
                    requires
                        k == d * count + s,
                        0 <= s < count,
                        0 <= d,
                ;
                assert(texts[d as int] == directories@[d as int]@);
            }
            candidates.push(path);
            s += 1;
        }
        assert((d + 1) * count == d * count + count) by (nonlinear_arith);
        d += 1;
    }
    candidates
}

/// Position of the first candidate that exists, or `limit` if none of the
/// candidates before `limit` exists.
pub open spec fn first_existing(exists: Seq<bool>, from: int, limit: int) -> int
    decreases limit - from,
{
    if from >= limit {
        limit
    } else if 0 <= from < exists.len() && exists[from] {
        from
    } else {
        first_existing(exists, from + 1, limit)
    }
}

/// Picks the tool among the candidates: the first one that exists.
///
/// `exists` says for each candidate, by position, whether the file exists;
/// candidates without an answer count as missing.
pub fn find_command(candidates: &Vec<String>, exists: &Vec<bool>) -> (found: Option<String>)
    ensures
        match found {
            Some(path) => first_existing(exists@, 0, candidates@.len() as int) < candidates@.len()
                && path@ == candidates@[first_existing(exists@, 0, candidates@.len() as int)]@,
            None => first_existing(exists@, 0, candidates@.len() as int) == candidates@.len(),
        },
{
    let mut i: usize = 0;
    while i < candidates.len()
        invariant
            i <= candidates.len(),
            first_existing(exists@, 0, candidates@.len() as int) == first_existing(
                exists@,
                i as int,
                candidates@.len() as int,
            ),
        decreases candidates.len() - i,
    {
        if i < exists.len() && exists[i] {
            return Some(candidates[i].clone());
        }
        i += 1;
    }
    None
}

} // verus!
