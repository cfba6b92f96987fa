//! Application configuration: the directories in which files may be
//! touched.
//!
//! Paths are compared in their canonical form, which the caller asks the
//! file system for.

use crate::files::PathValidationResult;
use crate::grouping::path_texts;
use crate::text::to_chars;
use vstd::prelude::*;

verus! {

/// Application configuration.
#[derive(Debug)]
pub struct AppConfig {
    /// Directories in which files may be touched, in canonical form.
    pub allowed_directories: Vec<String>,
}

/// What the file system says about a path.
#[derive(Debug)]
pub enum Resolved {
    /// The path exists; its canonical form, and whether it is a directory.
    Found { canonical: String, is_dir: bool },
    /// The path could not be resolved; the reason in words.
    Failed { reason: String },
}

/// Whether the canonical path `path` is `directory` or lies below it.
pub open spec fn is_within(path: Seq<char>, directory: Seq<char>) -> bool {
    &&& directory.len() > 0
    &&& path.len() >= directory.len()
    &&& path.take(directory.len() as int) == directory
    &&& (path.len() == directory.len() || directory.last() == '/' || path[directory.len() as int]
        == '/')
}

/// Position of the first directory at or behind `from` that `path` lies
/// within, or the number of directories if there is none.
pub open spec fn allowing_position(path: Seq<char>, directories: Seq<Seq<char>>, from: int) -> int
    decreases directories.len() - from,
{
    if from >= directories.len() {
        directories.len() as int
    } else if from >= 0 && is_within(path, directories[from]) {
        from
    } else {
        allowing_position(path, directories, from + 1)
    }
}

/// Whether `path` lies within one of the directories.
pub open spec fn is_allowed(path: Seq<char>, directories: Seq<Seq<char>>) -> bool {
    allowing_position(path, directories, 0) < directories.len()
}

/// The message for a path that could not be resolved.
pub open spec fn invalid_path_message(reason: Seq<char>) -> Seq<char> {
    "Invalid path: "@ + reason
}

/// The message for a configuration without directories.
pub open spec fn unconfigured_message() -> Seq<char> {
    "No allowed directories configured. Please configure allowed directories in settings."@
}

/// The message for a path outside the allowed directories.
pub open spec fn denied_message(path: Seq<char>) -> Seq<char> {
    "Access denied: path '"@ + path + "' is not within allowed directories"@
}

/// Whether the canonical path `path` is `directory` or lies below it.
pub fn path_is_within(path: &Vec<char>, directory: &Vec<char>) -> (within: bool)
    ensures
        within == is_within(path@, directory@),
{
    let n = directory.len();
    if n == 0 || path.len() < n {
        return false;
    }
    let mut i: usize = 0;
    while i < n
        invariant
            i <= n,
            n == directory.len(),
            n <= path.len(),
            path@.take(i as int) == directory@.take(i as int),
        decreases n - i,
    {
        if path[i] != directory[i] {
            assert(path@.take(n as int)[i as int] != directory@[i as int]);
            return false;
        }
        i += 1;
        assert(path@.take(i as int) =~= path@.take(i - 1).push(path@[i - 1]));
        assert(directory@.take(i as int) =~= directory@.take(i - 1).push(directory@[i - 1]));
    }
    assert(directory@.take(n as int) =~= directory@);
    path.len() == n || directory[n - 1] == '/' || path[n] == '/'
}

/// Checks that a path lies within the allowed directories.
///
/// `resolved` is what the file system says about the path, `shown` the path
/// as the user gave it, and `allowed` the canonical forms of the configured
/// directories, `None` for a directory that cannot be resolved. Answers with
/// the canonical path.
pub fn validate_path(
    config: &AppConfig,
    shown: &str,
    resolved: &Resolved,
    allowed: &Vec<Option<String>>,
) -> (result: Result<String, String>)
    ensures
        match *resolved {
            Resolved::Failed { reason } => result is Err && result->Err_0@ == invalid_path_message(
                reason@,
            ),
            Resolved::Found { canonical, is_dir } => if config.allowed_directories@.len() == 0 {
                result is Err && result->Err_0@ == unconfigured_message()
            } else if is_allowed(canonical@, resolvable(allowed@)) {
                result is Ok && result->Ok_0@ == canonical@
            } else {
                result is Err && result->Err_0@ == denied_message(shown@)
            },
        },
{
    let canonical = match resolved {
        Resolved::Failed { reason } => {
            let mut message = String::from_str("Invalid path: ");
            message.append(reason.as_str());
            return Err(message);
        },
        Resolved::Found { canonical, is_dir } => canonical,
    };
    if config.allowed_directories.len() == 0 {
        return Err(
            String::from_str(
                "No allowed directories configured. Please configure allowed directories in settings.",
            ),
        );
    }
    let path = to_chars(canonical.as_str());
    let ghost directories = resolvable(allowed@);
    let mut i: usize = 0;
    while i < allowed.len()
        invariant
            i <= allowed.len(),
            path@ == canonical@,
            config.allowed_directories@.len() > 0,
            *resolved is Found,
            resolved->Found_canonical == *canonical,
            directories == resolvable(allowed@),
            directories.len() == allowed@.len(),
            allowing_position(canonical@, directories, 0) == allowing_position(
                canonical@,
                directories,
                i as int,
            ),
        decreases allowed.len() - i,
    {
        match &allowed[i] {
            Some(directory) => {
                let chars = to_chars(directory.as_str());
                assert(directories[i as int] == directory@);
                if path_is_within(&path, &chars) {
                    return Ok(canonical.clone());
                }
            },
            None => {
                assert(directories[i as int] =~= Seq::<char>::empty());
            },
        }
        i += 1;
    }
    let mut message = String::from_str("Access denied: path '");
    message.append(shown);
    message.append("' is not within allowed directories");
    Err(message)
}

/// The canonical forms of the configured directories; a directory that
/// cannot be resolved is the empty path, within which nothing lies.
pub open spec fn resolvable(allowed: Seq<Option<String>>) -> Seq<Seq<char>> {
    allowed.map_values(
        |directory: Option<String>|
            match directory {
                Some(d) => d@,
                None => Seq::<char>::empty(),
            },
    )
}

/// Whether `directories` lists `directory`.
fn lists_directory(directories: &Vec<String>, directory: &String) -> (listed: bool)
    ensures
        listed == path_texts(directories@).contains(directory@),
{
    let mut i: usize = 0;
    while i < directories.len()
        invariant
            i <= directories.len(),
            forall|k: int| 0 <= k < i ==> path_texts(directories@)[k] != directory@,
        decreases directories.len() - i,
    {
        if directories[i] == *directory {
            assert(path_texts(directories@)[i as int] == directory@);
            return true;
        }
        i += 1;
    }
    false
}

/// Adds a directory to the allowed directories, unless it is there already.
/// A path that cannot be resolved or is no directory is rejected and leaves
/// the configuration as it was.
pub fn add_allowed_directory(config: &mut AppConfig, resolved: Resolved) -> (result: Result<
    (),
    String,
>)
    ensures
        match resolved {
            Resolved::Failed { reason } => result is Err && result->Err_0@ == "Invalid directory: "@
                + reason@ && final(config).allowed_directories@ == old(config).allowed_directories@,
            Resolved::Found { canonical, is_dir } => if !is_dir {
                result is Err && result->Err_0@ == "Path must be a directory"@ && final(config).allowed_directories@ == old(config).allowed_directories@
            } else if path_texts(old(config).allowed_directories@).contains(canonical@) {
                result is Ok && final(config).allowed_directories@ == old(config).allowed_directories@
            } else {
                result is Ok && path_texts(final(config).allowed_directories@) == path_texts(
                    old(config).allowed_directories@,
                ).push(canonical@)
            },
        },
{
    match resolved {
        Resolved::Failed { reason } => {
            let mut message = String::from_str("Invalid directory: ");
            message.append(reason.as_str());
            Err(message)
        },
        Resolved::Found { canonical, is_dir } => {
            if !is_dir {
                return Err(String::from_str("Path must be a directory"));
            }
            if !lists_directory(&config.allowed_directories, &canonical) {
                let ghost before = path_texts(config.allowed_directories@);
                config.allowed_directories.push(canonical);
                assert(path_texts(config.allowed_directories@) =~= before.push(canonical@));
            }
            Ok(())
        },
    }
}

/// The first `n` directories without those equal to `removed`, in order.
pub open spec fn without(directories: Seq<Seq<char>>, removed: Seq<char>, n: int) -> Seq<Seq<char>>
    decreases n,
{
    if n <= 0 {
        Seq::empty()
    } else if directories[n - 1] == removed {
        without(directories, removed, n - 1)
    } else {
        without(directories, removed, n - 1).push(directories[n - 1])
    }
}

/// Removes a directory from the allowed directories. A path that cannot be
/// resolved is rejected and leaves the configuration as it was.
pub fn remove_allowed_directory(config: &mut AppConfig, resolved: &Resolved) -> (result: Result<
    (),
    String,
>)
    ensures
        match *resolved {
            Resolved::Failed { reason } => result is Err && result->Err_0@ == "Invalid directory: "@
                + reason@ && final(config).allowed_directories@ == old(config).allowed_directories@,
            Resolved::Found { canonical, is_dir } => result is Ok && path_texts(
                final(config).allowed_directories@,
            ) == without(
                path_texts(old(config).allowed_directories@),
                canonical@,
                old(config).allowed_directories@.len() as int,
            ),
        },
{
    match resolved {
        Resolved::Failed { reason } => {
            let mut message = String::from_str("Invalid directory: ");
            message.append(reason.as_str());
            Err(message)
        },
        Resolved::Found { canonical, is_dir } => {
            let ghost before = path_texts(config.allowed_directories@);
            let mut kept: Vec<String> = Vec::new();
            let mut i: usize = 0;
            assert(path_texts(kept@) =~= Seq::<Seq<char>>::empty());
            while i < config.allowed_directories.len()
                invariant
                    i <= config.allowed_directories@.len(),
                    config.allowed_directories@ == old(config).allowed_directories@,
                    before == path_texts(config.allowed_directories@),
                    path_texts(kept@) == without(before, canonical@, i as int),
                decreases config.allowed_directories@.len() - i,
            {
                assert(before[i as int] == config.allowed_directories@[i as int]@);
                if config.allowed_directories[i] != *canonical {
                    let ghost so_far = path_texts(kept@);
                    kept.push(config.allowed_directories[i].clone());
                    assert(path_texts(kept@) =~= so_far.push(before[i as int]));
                }
                i += 1;
            }
            config.allowed_directories = kept;
            Ok(())
        },
    }
}

/// A copy of the allowed directories.
pub fn get_allowed_directories(config: &AppConfig) -> (directories: Result<Vec<String>, String>)
    ensures
        directories is Ok,
        path_texts(directories->Ok_0@) == path_texts(config.allowed_directories@),
{
    let mut copy: Vec<String> = Vec::new();
    let mut i: usize = 0;
    while i < config.allowed_directories.len()
        invariant
            i <= config.allowed_directories@.len(),
            copy@.len() == i,
            forall|k: int| 0 <= k < i ==> (#[trigger] copy@[k])@ == config.allowed_directories@[k]@,
        decreases config.allowed_directories@.len() - i,
    {
        copy.push(config.allowed_directories[i].clone());
        i += 1;
    }
    assert(path_texts(copy@) =~= path_texts(config.allowed_directories@));
    Ok(copy)
}

/// A directory that is to be allowed: the path as the user gave it, and
/// what the file system says about it.
#[derive(Debug)]
pub struct Candidate {
    pub shown: String,
    pub resolved: Resolved,
}

/// Why the candidate is rejected; `None` if it is accepted.
pub open spec fn rejection(candidate: Candidate) -> Option<Seq<char>> {
    match candidate.resolved {
        Resolved::Failed { reason } => Some(
            "Invalid directory '"@ + candidate.shown@ + "': "@ + reason@,
        ),
        Resolved::Found { canonical, is_dir } => if is_dir {
            None
        } else {
            Some("Path '"@ + candidate.shown@ + "' is not a directory"@)
        },
    }
}

/// Position of the first candidate at or behind `from` that is rejected, or
/// the number of candidates if none is.
pub open spec fn first_rejected(candidates: Seq<Candidate>, from: int) -> int
    decreases candidates.len() - from,
{
    if from >= candidates.len() {
        candidates.len() as int
    } else if from >= 0 && rejection(candidates[from]) is Some {
        from
    } else {
        first_rejected(candidates, from + 1)
    }
}

/// The canonical form of a candidate that is accepted.
pub open spec fn accepted_form(candidate: Candidate) -> Seq<char> {
    match candidate.resolved {
        Resolved::Found { canonical, is_dir } => canonical@,
        Resolved::Failed { reason } => Seq::empty(),
    }
}

/// Replaces the allowed directories. If a candidate is rejected, the first
/// rejection is the answer and the configuration stays as it was.
pub fn set_allowed_directories(config: &mut AppConfig, directories: Vec<Candidate>) -> (result:
    Result<(), String>)
    ensures
        first_rejected(directories@, 0) < directories@.len() ==> result is Err && result->Err_0@
            == rejection(directories@[first_rejected(directories@, 0)])->0 && final(config).allowed_directories@ == old(config).allowed_directories@,
        first_rejected(directories@, 0) >= directories@.len() ==> result is Ok && path_texts(
            final(config).allowed_directories@,
        ) == directories@.map_values(|c: Candidate| accepted_form(c)),
{
    let mut validated: Vec<String> = Vec::new();
    let mut i: usize = 0;
    while i < directories.len()
        invariant
            i <= directories.len(),
            config.allowed_directories@ == old(config).allowed_directories@,
            first_rejected(directories@, 0) == first_rejected(directories@, i as int),
            validated@.len() == i,
            forall|k: int|
                0 <= k < i ==> (#[trigger] validated@[k])@ == accepted_form(directories@[k]),
        decreases directories.len() - i,
    {
        let candidate = &directories[i];
        match &candidate.resolved {
            Resolved::Failed { reason } => {
                let mut message = String::from_str("Invalid directory '");
                message.append(candidate.shown.as_str());
                message.append("': ");
                message.append(reason.as_str());
                return Err(message);
            },
            Resolved::Found { canonical, is_dir } => {
                if !*is_dir {
                    let mut message = String::from_str("Path '");
                    message.append(candidate.shown.as_str());
                    message.append("' is not a directory");
                    return Err(message);
                }
                validated.push(canonical.clone());
            },
        }
        i += 1;
    }
    assert(path_texts(validated@) =~= directories@.map_values(|c: Candidate| accepted_form(c)));
    config.allowed_directories = validated;
    Ok(())
}

/// `path` with a leading tilde replaced by the home directory, if the home
/// directory is known.
pub open spec fn tilde_expanded(path: Seq<char>, home: Option<Seq<char>>) -> Seq<char> {
    match home {
        Some(directory) => if path.len() > 0 && path[0] == '~' {
            directory + path.skip(1)
        } else {
            path
        },
        None => path,
    }
}

/// Replaces a leading tilde by the home directory.
pub fn expand_tilde(path: &str, home: Option<&str>) -> (expanded: String)
    ensures
        expanded@ == tilde_expanded(
            path@,
            match home {
                Some(directory) => Some(directory@),
                None => None,
            },
        ),
{
    let chars = to_chars(path);
    match home {
        Some(directory) => {
            if chars.len() > 0 && chars[0] == '~' {
                let mut expanded = to_chars(directory);
                let rest = crate::text::slice_chars(&chars, 1, chars.len());
                assert(rest@ =~= path@.skip(1));
                crate::text::append_chars(&mut expanded, &rest);
                crate::text::from_chars(&expanded)
            } else {
                String::from_str(path)
            }
        },
        None => String::from_str(path),
    }
}

/// What the file system says about a directory that the user typed.
#[derive(Debug)]
pub enum Found {
    /// The path is a directory.
    Directory,
    /// The path exists and is no directory.
    OtherFile,
    /// Nothing exists at the path, and nothing was to be created.
    Nothing,
    /// Nothing existed at the path, and the directory was created.
    Created,
    /// Nothing existed at the path, and the directory could not be created.
    CreationFailed { reason: String },
}

/// Mathematical value of a [`PathValidationResult`].
pub struct ValidationView {
    pub valid: bool,
    pub exists: bool,
    pub created: bool,
    pub path: Seq<char>,
    pub error: Option<Seq<char>>,
}

/// The value of a validation result.
pub open spec fn validation_view(result: PathValidationResult) -> ValidationView {
    ValidationView {
        valid: result.valid,
        exists: result.exists,
        created: result.created,
        path: result.path@,
        error: match result.error {
            Some(message) => Some(message@),
            None => None,
        },
    }
}

/// The verdict on a directory that the user typed: it is valid if it is a
/// directory or was created. The empty path is invalid whatever was found.
pub open spec fn validation_of(path: Seq<char>, found: Found) -> ValidationView {
    let invalid = ValidationView { valid: false, exists: false, created: false, path, error: None };
    if path.len() == 0 {
        ValidationView { error: Some("Path cannot be empty"@), ..invalid }
    } else {
        match found {
            Found::Directory => ValidationView { valid: true, exists: true, ..invalid },
            Found::OtherFile => ValidationView {
                exists: true,
                error: Some("Path exists but is not a directory"@),
                ..invalid
            },
            Found::Nothing => ValidationView { error: Some("Directory does not exist"@), ..invalid },
            Found::Created => ValidationView { valid: true, exists: true, created: true, ..invalid },
            Found::CreationFailed { reason } => ValidationView {
                error: Some("Failed to create directory: "@ + reason@),
                ..invalid
            },
        }
    }
}

/// Judges a directory that the user typed.
pub fn path_validation(path: String, found: Found) -> (result: PathValidationResult)
    ensures
        validation_view(result) == validation_of(path@, found),
{
    if path.as_str().unicode_len() == 0 {
        return PathValidationResult {
            valid: false,
            exists: false,
            created: false,
            path,
            error: Some(String::from_str("Path cannot be empty")),
        };
    }
    match found {
        Found::Directory => PathValidationResult {
            valid: true,
            exists: true,
            created: false,
            path,
            error: None,
        },
        Found::OtherFile => PathValidationResult {
            valid: false,
            exists: true,
            created: false,
            path,
            error: Some(String::from_str("Path exists but is not a directory")),
        },
        Found::Nothing => PathValidationResult {
            valid: false,
            exists: false,
            created: false,
            path,
            error: Some(String::from_str("Directory does not exist")),
        },
        Found::Created => PathValidationResult {
            valid: true,
            exists: true,
            created: true,
            path,
            error: None,
        },
        Found::CreationFailed { reason } => {
            let mut message = String::from_str("Failed to create directory: ");
            message.append(reason.as_str());
            PathValidationResult {
                valid: false,
                exists: false,
                created: false,
                path,
                error: Some(message),
            }
        },
    }
}

} // verus!
