//! Preview of a bulk rename: the new name of every file, with conflicts
//! between new names found and, on request, resolved.

use crate::grouping::path_texts;
use crate::locate::{join_path, joined};
use crate::paths::{
    extension, extension_of, file_name, file_name_of, file_stem, file_stem_of, parent, parent_of,
};
use crate::rename::{
    apply_case_transform, apply_find_replace, apply_sequential_numbering, apply_template,
    case_folds_evenly, case_transformed, find_replaced, holds_names, numbered_names, or_empty,
    template_name, CaseMode, MediaFacts, MediaFactsView,
};
use crate::text::{
    append_chars, decimal_text, from_chars, lowercase_chars, push_decimal, push_signed_decimal,
    signed_decimal_text, to_chars,
};
use vstd::prelude::*;

verus! {

/// Number of numbered names that are tried before a conflict is resolved
/// with a time stamp.
pub const CONFLICT_ATTEMPTS: u64 = 10_000;

/// How files are renamed.
#[derive(Debug)]
pub enum RenamePattern {
    FindReplace { find: String, replace: String, case_sensitive: bool },
    Sequential { pattern: String, start: usize, padding: usize },
    CaseTransform { mode: CaseMode },
    Template { template: String },
}

/// What a rename would do to one file.
#[derive(Debug)]
pub struct RenamePreview {
    pub original_path: String,
    pub original_name: String,
    pub new_name: String,
    pub new_path: String,
    /// Whether an earlier file of the preview gets the same new name.
    pub conflict: bool,
    pub error: Option<String>,
}

/// Mathematical value of a [`RenamePreview`].
pub struct PreviewView {
    pub original_path: Seq<char>,
    pub original_name: Seq<char>,
    pub new_name: Seq<char>,
    pub new_path: Seq<char>,
    pub conflict: bool,
    pub error: Option<Seq<char>>,
}

impl View for RenamePreview {
    type V = PreviewView;

    open spec fn view(&self) -> PreviewView {
        PreviewView {
            original_path: self.original_path@,
            original_name: self.original_name@,
            new_name: self.new_name@,
            new_path: self.new_path@,
            conflict: self.conflict,
            error: crate::streams::text_view(self.error),
        }
    }
}

/// What a preview needs to know beyond the paths.
#[derive(Debug)]
pub struct RenameContext {
    /// Today's date, for templates.
    pub date: String,
    /// Seconds since the epoch, for names that cannot be made unique by
    /// numbering.
    pub stamp: i64,
    /// What is known of the media in each file, by position, for templates.
    pub media: Vec<Option<MediaFacts>>,
}

/// The candidate with number `number` for a name with the given stem and
/// extension that is taken.
pub open spec fn numbered_candidate(stem: Seq<char>, ext: Seq<char>, number: nat) -> Seq<char> {
    if ext.len() == 0 {
        stem + seq![' ', '('] + decimal_text(number) + seq![')']
    } else {
        stem + seq![' ', '('] + decimal_text(number) + seq![')', '.'] + ext
    }
}

/// The name with a time stamp for a name with the given stem and extension.
pub open spec fn stamped_candidate(stem: Seq<char>, ext: Seq<char>, stamp: int) -> Seq<char> {
    if ext.len() == 0 {
        stem + seq!['_'] + signed_decimal_text(stamp)
    } else {
        stem + seq!['_'] + signed_decimal_text(stamp) + seq!['.'] + ext
    }
}

/// The first number from `from` up to the number of attempts whose
/// candidate is free, or the number of attempts if none is.
pub open spec fn first_free_number(
    taken: Seq<Seq<char>>,
    stem: Seq<char>,
    ext: Seq<char>,
    from: nat,
) -> nat
    decreases CONFLICT_ATTEMPTS - from,
{
    if from >= CONFLICT_ATTEMPTS {
        CONFLICT_ATTEMPTS as nat
    } else if !taken.contains(numbered_candidate(stem, ext, from)) {
        from
    } else {
        first_free_number(taken, stem, ext, from + 1)
    }
}

/// The stem of a name that is taken: the name without its extension, or
/// the whole name if it has no file name.
pub open spec fn conflict_stem(name: Seq<char>) -> Seq<char> {
    match file_stem_of(name) {
        Some(stem) => stem,
        None => name,
    }
}

/// A name that is not taken: `name` itself if it is free, else the first
/// free candidate `stem (1)`, `stem (2)` and so on with the extension of
/// `name`, else the name with the time stamp.
pub open spec fn free_name(name: Seq<char>, taken: Seq<Seq<char>>, stamp: int) -> Seq<char> {
    let stem = conflict_stem(name);
    let ext = or_empty(extension_of(name));
    if !taken.contains(name) {
        name
    } else if first_free_number(taken, stem, ext, 1) < CONFLICT_ATTEMPTS {
        numbered_candidate(stem, ext, first_free_number(taken, stem, ext, 1))
    } else {
        stamped_candidate(stem, ext, stamp)
    }
}

/// Whether `names` lists `name`.
fn lists_name(names: &Vec<String>, name: &String) -> (listed: bool)
    ensures
        listed == path_texts(names@).contains(name@),
{
    let mut i: usize = 0;
    while i < names.len()
        invariant
            i <= names.len(),
            forall|k: int| 0 <= k < i ==> path_texts(names@)[k] != name@,
        decreases names.len() - i,
    {
        if names[i] == *name {
            assert(path_texts(names@)[i as int] == name@);
            return true;
        }
        i += 1;
    }
    false
}

/// Finds a name that is not taken.
pub fn resolve_conflict(base_name: &str, existing: &Vec<String>, stamp: i64) -> (name: String)
    ensures
        name@ == free_name(base_name@, path_texts(existing@), stamp as int),
{
    let base = String::from_str(base_name);
    if !lists_name(existing, &base) {
        return base;
    }
    let chars = to_chars(base_name);
    let ext: Vec<char> = match extension(&chars) {
        Some(e) => e,
        None => {
            let empty: Vec<char> = Vec::new();
            assert(empty@ =~= Seq::<char>::empty());
            empty
        },
    };
    let stem: Vec<char> = match file_stem(&chars) {
        Some(s) => s,
        None => to_chars(base_name),
    };
    let ghost taken = path_texts(existing@);
    let mut number: u64 = 1;
    while number < CONFLICT_ATTEMPTS
        invariant
            1 <= number <= CONFLICT_ATTEMPTS,
            taken == path_texts(existing@),
            taken.contains(base_name@),
            stem@ == conflict_stem(base_name@),
            ext@ == or_empty(extension_of(base_name@)),
            first_free_number(taken, stem@, ext@, 1) == first_free_number(
                taken,
                stem@,
                ext@,
                number as nat,
            ),
        decreases CONFLICT_ATTEMPTS - number,
    {
        let mut candidate: Vec<char> = Vec::new();
        append_chars(&mut candidate, &stem);
        candidate.push(' ');
        candidate.push('(');
        push_decimal(&mut candidate, number);
        candidate.push(')');
        if ext.len() > 0 {
            candidate.push('.');
            append_chars(&mut candidate, &ext);
        }
        assert(candidate@ =~= numbered_candidate(stem@, ext@, number as nat));
        let text = from_chars(&candidate);
        if !lists_name(existing, &text) {
            return text;
        }
        number += 1;
    }
    let mut stamped: Vec<char> = Vec::new();
    append_chars(&mut stamped, &stem);
    stamped.push('_');
    push_signed_decimal(&mut stamped, stamp);
    if ext.len() > 0 {
        stamped.push('.');
        append_chars(&mut stamped, &ext);
    }
    assert(stamped@ =~= stamped_candidate(stem@, ext@, stamp as int));
    from_chars(&stamped)
}

/// Mathematical value of a [`RenamePattern`].
pub enum PatternView {
    FindReplace { find: Seq<char>, replace: Seq<char>, case_sensitive: bool },
    Sequential { pattern: Seq<char>, start: nat, padding: nat },
    CaseTransform { mode: CaseMode },
    Template { template: Seq<char> },
}

impl View for RenamePattern {
    type V = PatternView;

    open spec fn view(&self) -> PatternView {
        match self {
            RenamePattern::FindReplace { find, replace, case_sensitive } => PatternView::FindReplace {
                find: find@,
                replace: replace@,
                case_sensitive: *case_sensitive,
            },
            RenamePattern::Sequential { pattern, start, padding } => PatternView::Sequential {
                pattern: pattern@,
                start: *start as nat,
                padding: *padding as nat,
            },
            RenamePattern::CaseTransform { mode } => PatternView::CaseTransform { mode: *mode },
            RenamePattern::Template { template } => PatternView::Template { template: template@ },
        }
    }
}

/// Mathematical value of a [`RenameContext`].
pub struct ContextView {
    pub date: Seq<char>,
    pub stamp: int,
    pub media: Seq<Option<MediaFactsView>>,
}

impl View for RenameContext {
    type V = ContextView;

    open spec fn view(&self) -> ContextView {
        ContextView {
            date: self.date@,
            stamp: self.stamp as int,
            media: self.media@.map_values(
                |facts: Option<MediaFacts>|
                    match facts {
                        Some(f) => Some(f@),
                        None => None,
                    },
            ),
        }
    }
}

/// What is known of the media in the file at position `index`.
pub open spec fn media_at(context: ContextView, index: int) -> Option<MediaFactsView> {
    if 0 <= index < context.media.len() {
        context.media[index]
    } else {
        None
    }
}

/// The name that the pattern gives to the file at position `index`, before
/// conflicts are looked at.
pub open spec fn pattern_name(
    paths: Seq<Seq<char>>,
    pattern: PatternView,
    context: ContextView,
    index: int,
) -> Seq<char> {
    let path = paths[index];
    let original = or_empty(file_name_of(path));
    match pattern {
        PatternView::FindReplace { find, replace, case_sensitive } => find_replaced(
            original,
            find,
            replace,
            case_sensitive,
        ),
        PatternView::Sequential { pattern, start, padding } => numbered_names(
            paths,
            pattern,
            start,
            padding,
            paths.len() as int,
        )[path],
        PatternView::CaseTransform { mode } => case_transformed(original, mode),
        PatternView::Template { template } => template_name(
            path,
            template,
            index as nat,
            (index + 1) as nat,
            context.date,
            media_at(context, index),
        ),
    }
}

/// The new name of the file at position `index`, given the new names of the
/// files before it.
pub open spec fn settled_name(
    paths: Seq<Seq<char>>,
    pattern: PatternView,
    context: ContextView,
    resolve: bool,
    index: int,
) -> Seq<char>
    decreases index, 1int,
{
    let wanted = pattern_name(paths, pattern, context, index);
    let taken = settled_names(paths, pattern, context, resolve, index);
    if taken.contains(wanted) && resolve && wanted.len() > 0 {
        free_name(wanted, taken, context.stamp)
    } else {
        wanted
    }
}

/// The new names of the first `n` files, in order.
pub open spec fn settled_names(
    paths: Seq<Seq<char>>,
    pattern: PatternView,
    context: ContextView,
    resolve: bool,
    n: int,
) -> Seq<Seq<char>>
    decreases n, 0int,
{
    if n <= 0 {
        Seq::empty()
    } else {
        settled_names(paths, pattern, context, resolve, n - 1).push(
            settled_name(paths, pattern, context, resolve, n - 1),
        )
    }
}

/// The message for a new name that is empty.
pub open spec fn empty_name_message() -> Seq<char> {
    "Name cannot be empty"@
}

/// The preview of the file at position `index`.
pub open spec fn preview_at(
    paths: Seq<Seq<char>>,
    pattern: PatternView,
    context: ContextView,
    resolve: bool,
    index: int,
) -> PreviewView {
    let path = paths[index];
    let wanted = pattern_name(paths, pattern, context, index);
    let taken = settled_names(paths, pattern, context, resolve, index);
    let new_name = settled_name(paths, pattern, context, resolve, index);
    PreviewView {
        original_path: path,
        original_name: or_empty(file_name_of(path)),
        new_name,
        new_path: joined(or_empty(parent_of(path)), new_name, crate::paths::SEPARATOR),
        conflict: taken.contains(wanted) && !(resolve && wanted.len() > 0),
        error: if wanted.len() == 0 {
            Some(empty_name_message())
        } else {
            None
        },
    }
}

/// Whether the search of a pattern is defined for every file: a search
/// without regard to case is not defined for texts that change their
/// length when put in lower case.
pub open spec fn pattern_applies(paths: Seq<Seq<char>>, pattern: PatternView) -> bool {
    match pattern {
        PatternView::FindReplace { find, replace, case_sensitive } => case_sensitive || find.len()
            == 0 || forall|i: int|
            0 <= i < paths.len() ==> case_folds_evenly(
                or_empty(file_name_of(#[trigger] paths[i])),
                find,
            ),
        PatternView::Sequential { pattern, start, padding } => start + paths.len() <= usize::MAX,
        _ => true,
    }
}

/// The file name of a path; empty if it has none.
fn name_of(path: &str) -> (name: String)
    ensures
        name@ == or_empty(file_name_of(path@)),
{
    let chars = to_chars(path);
    match file_name(&chars) {
        Some(n) => from_chars(&n),
        None => String::new(),
    }
}

/// The directory of a path; empty if it has none.
fn directory_of(path: &str) -> (dir: String)
    ensures
        dir@ == or_empty(parent_of(path@)),
{
    let chars = to_chars(path);
    match parent(&chars) {
        Some(d) => from_chars(&d),
        None => String::new(),
    }
}

/// Previews a bulk rename of `paths` by `pattern`.
///
/// With `auto_rename_conflicts` set, a new name that an earlier file of the
/// preview already has is replaced by a free one; otherwise it is flagged
/// as a conflict. An empty new name is an error of its file.
pub fn preview_renames(
    paths: Vec<String>,
    pattern: RenamePattern,
    auto_rename_conflicts: bool,
    context: &RenameContext,
) -> (previews: Result<Vec<RenamePreview>, String>)
    requires
        pattern_applies(path_texts(paths@), pattern@),
    ensures
        previews is Ok,
        previews->Ok_0@.len() == paths@.len(),
        forall|i: int|
            0 <= i < paths@.len() ==> (#[trigger] previews->Ok_0@[i])@ == preview_at(
                path_texts(paths@),
                pattern@,
                context@,
                auto_rename_conflicts,
                i,
            ),
{
    let ghost texts = path_texts(paths@);
    let numbered = match &pattern {
        RenamePattern::Sequential { pattern: seq_pattern, start, padding } => Some(
            apply_sequential_numbering(&paths, seq_pattern.as_str(), *start, *padding),
        ),
        _ => None,
    };
    let mut previews: Vec<RenamePreview> = Vec::new();
    let mut seen: Vec<String> = Vec::new();
    let mut i: usize = 0;
    assert(path_texts(seen@) =~= Seq::<Seq<char>>::empty());
    while i < paths.len()
        invariant
            i <= paths.len(),
            texts == path_texts(paths@),
            pattern_applies(texts, pattern@),
            pattern is Sequential ==> numbered is Some && numbered->0.wf() && holds_names(
                numbered->0@,
                numbered_names(
                    texts,
                    pattern@->Sequential_pattern,
                    pattern@->Sequential_start,
                    pattern@->Sequential_padding,
                    paths@.len() as int,
                ),
            ),
            previews@.len() == i,
            path_texts(seen@) == settled_names(
                texts,
                pattern@,
                context@,
                auto_rename_conflicts,
                i as int,
            ),
            forall|k: int|
                0 <= k < i ==> (#[trigger] previews@[k])@ == preview_at(
                    texts,
                    pattern@,
                    context@,
                    auto_rename_conflicts,
                    k,
                ),
        decreases paths.len() - i,
    {
        let path = &paths[i];
        assert(texts[i as int] == path@);
        let original_name = name_of(path.as_str());
        let wanted: String = match &pattern {
            RenamePattern::FindReplace { find, replace, case_sensitive } => apply_find_replace(
                original_name.as_str(),
                find.as_str(),
                replace.as_str(),
                *case_sensitive,
            ),
            RenamePattern::Sequential { .. } => {
                let names = match &numbered {
                    Some(names) => names,
                    None => {
                        assert(false);
                        return Ok(previews);
                    },
                };
                proof {
                    lemma_numbered_has_key(
                        texts,
                        pattern@->Sequential_pattern,
                        pattern@->Sequential_start,
                        pattern@->Sequential_padding,
                        paths@.len() as int,
                        i as int,
                    );
                }
                match names.get(path.as_str()) {
                    Some(name) => name.clone(),
                    None => {
                        assert(false);
                        original_name.clone()
                    },
                }
            },
            RenamePattern::CaseTransform { mode } => apply_case_transform(
                original_name.as_str(),
                mode,
            ),
            RenamePattern::Template { template } => {
                let no_facts: Option<MediaFacts> = None;
                let facts = if i < context.media.len() {
                    &context.media[i]
                } else {
                    &no_facts
                };
                match apply_template(
                    path.as_str(),
                    template.as_str(),
                    i,
                    i + 1,
                    context.date.as_str(),
                    facts,
                ) {
                    Ok(name) => name,
                    Err(_) => {
                        assert(false);
                        original_name.clone()
                    },
                }
            },
        };
        assert(wanted@ == pattern_name(texts, pattern@, context@, i as int));
        let taken = lists_name(&seen, &wanted);
        let empty = wanted.as_str().unicode_len() == 0;
        let error = if empty {
            Some(String::from_str("Name cannot be empty"))
        } else {
            None
        };
        let resolved = taken && auto_rename_conflicts && !empty;
        let new_name = if resolved {
            resolve_conflict(wanted.as_str(), &seen, context.stamp)
        } else {
            wanted
        };
        let ghost before = path_texts(seen@);
        proof {
            assert(new_name@ == settled_name(
                texts,
                pattern@,
                context@,
                auto_rename_conflicts,
                i as int,
            ));
            assert(settled_names(texts, pattern@, context@, auto_rename_conflicts, i + 1)
                == before.push(new_name@));
        }
        seen.push(new_name.clone());
        assert(path_texts(seen@) =~= before.push(new_name@));
        let directory = directory_of(path.as_str());
        let new_path = join_path(directory.as_str(), new_name.as_str(), crate::paths::SEPARATOR);
        previews.push(
            RenamePreview {
                original_path: path.clone(),
                original_name,
                new_name,
                new_path,
                conflict: taken && !resolved,
                error,
            },
        );
        i += 1;
    }
    Ok(previews)
}

/// Every path among the first `n` has a name in the numbering of those paths.
proof fn lemma_numbered_has_key(
    paths: Seq<Seq<char>>,
    pattern: Seq<char>,
    start: nat,
    padding: nat,
    n: int,
    index: int,
)
    requires
        0 <= index < n <= paths.len(),
    ensures
        numbered_names(paths, pattern, start, padding, n).contains_key(paths[index]),
    decreases n,
{
    if index < n - 1 {
        lemma_numbered_has_key(paths, pattern, start, padding, n - 1, index);
    }
}

/// Whether the search of a pattern is defined for every file.
pub fn check_pattern_applies(paths: &Vec<String>, pattern: &RenamePattern) -> (applies: bool)
    ensures
        applies == pattern_applies(path_texts(paths@), pattern@),
{
    match pattern {
        RenamePattern::FindReplace { find, replace, case_sensitive } => {
            if *case_sensitive {
                return true;
            }
            let find_chars = to_chars(find.as_str());
            if find_chars.len() == 0 {
                return true;
            }
            let lower_find = lowercase_chars(&find_chars);
            let find_even = lower_find.len() == find_chars.len();
            let ghost texts = path_texts(paths@);
            let mut i: usize = 0;
            while i < paths.len()
                invariant
                    i <= paths.len(),
                    texts == path_texts(paths@),
                    pattern@ is FindReplace,
                    pattern@->FindReplace_find == find@,
                    !pattern@->FindReplace_case_sensitive,
                    find@.len() > 0,
                    find_chars@ == find@,
                    find_even == (crate::text::lowercased(find@).len() == find@.len()),
                    forall|k: int|
                        0 <= k < i ==> case_folds_evenly(
                            or_empty(file_name_of(#[trigger] texts[k])),
                            find@,
                        ),
                decreases paths.len() - i,
            {
                assert(texts[i as int] == paths@[i as int]@);
                let name = name_of(paths[i].as_str());
                let name_chars = to_chars(name.as_str());
                let lower_name = lowercase_chars(&name_chars);
                if !find_even || lower_name.len() != name_chars.len() {
                    assert(!case_folds_evenly(or_empty(file_name_of(texts[i as int])), find@));
                    return false;
                }
                i += 1;
            }
            true
        },
        RenamePattern::Sequential { pattern, start, padding } => *start <= usize::MAX - paths.len(),
        _ => true,
    }
}

/// Previews a bulk rename, if the search of the pattern is defined for
/// every file.
pub fn try_preview_renames(
    paths: Vec<String>,
    pattern: RenamePattern,
    auto_rename_conflicts: bool,
    context: &RenameContext,
) -> (previews: Option<Vec<RenamePreview>>)
    ensures
        previews is Some == pattern_applies(path_texts(paths@), pattern@),
        previews is Some ==> previews->0@.len() == paths@.len() && forall|i: int|
            0 <= i < paths@.len() ==> (#[trigger] previews->0@[i])@ == preview_at(
                path_texts(paths@),
                pattern@,
                context@,
                auto_rename_conflicts,
                i,
            ),
{
    if !check_pattern_applies(&paths, &pattern) {
        return None;
    }
    match preview_renames(paths, pattern, auto_rename_conflicts, context) {
        Ok(previews) => Some(previews),
        Err(_) => None,
    }
}

/// Outcome of a bulk rename.
#[derive(Debug)]
pub struct BulkRenameResult {
    /// Number of files that have their new name.
    pub success: usize,
    /// Number of files that could not be renamed.
    pub failed: usize,
    pub errors: Vec<String>,
}

/// The errors of the first `n` previews, in order.
pub open spec fn preview_errors(previews: Seq<RenamePreview>, n: int) -> Seq<Seq<char>>
    decreases n,
{
    if n <= 0 {
        Seq::empty()
    } else {
        match previews[n - 1].error {
            Some(error) => preview_errors(previews, n - 1).push(error@),
            None => preview_errors(previews, n - 1),
        }
    }
}

/// Whether one of the first `n` previews is flagged as a conflict.
pub open spec fn any_conflict(previews: Seq<RenamePreview>, n: int) -> bool
    decreases n,
{
    if n <= 0 {
        false
    } else {
        any_conflict(previews, n - 1) || previews[n - 1].conflict
    }
}

/// The first `n` texts, separated by a comma and a space.
pub open spec fn comma_joined(texts: Seq<Seq<char>>, n: int) -> Seq<char>
    decreases n,
{
    if n <= 0 {
        Seq::empty()
    } else if n == 1 {
        texts[0]
    } else {
        comma_joined(texts, n - 1) + ", "@ + texts[n - 1]
    }
}

/// Why a preview must not be carried out; `None` if it may. Errors come
/// before conflicts.
pub open spec fn preview_obstacle(previews: Seq<RenamePreview>) -> Option<Seq<char>> {
    let errors = preview_errors(previews, previews.len() as int);
    if errors.len() > 0 {
        Some("Validation errors: "@ + comma_joined(errors, errors.len() as int))
    } else if any_conflict(previews, previews.len() as int) {
        Some("Naming conflicts detected. Enable auto-rename or fix manually."@)
    } else {
        None
    }
}

/// Checks that a preview may be carried out: no file has an error, and no
/// two files get the same name.
pub fn check_previews(previews: &Vec<RenamePreview>) -> (checked: Result<(), String>)
    ensures
        match preview_obstacle(previews@) {
            Some(message) => checked is Err && checked->Err_0@ == message,
            None => checked is Ok,
        },
{
    let mut errors: Vec<char> = Vec::new();
    let mut count: usize = 0;
    let mut conflict = false;
    let mut i: usize = 0;
    while i < previews.len()
        invariant
            i <= previews.len(),
            count == preview_errors(previews@, i as int).len(),
            count <= i,
            errors@ == comma_joined(preview_errors(previews@, i as int), count as int),
            conflict == any_conflict(previews@, i as int),
        decreases previews.len() - i,
    {
        let ghost before = preview_errors(previews@, i as int);
        match &previews[i].error {
            Some(error) => {
                if count > 0 {
                    crate::text::append_text(&mut errors, ", ");
                }
                crate::text::append_text(&mut errors, error.as_str());
                proof {
                    let after = preview_errors(previews@, i + 1);
                    assert(after == before.push(error@));
                    lemma_comma_joined_prefix(before, after, count as int);
                    if count == 0 {
                        assert(errors@ =~= after[0]);
                    }
                }
                count += 1;
            },
            None => {},
        }
        if previews[i].conflict {
            conflict = true;
        }
        i += 1;
    }
    if count > 0 {
        let mut message = String::from_str("Validation errors: ");
        let joined = from_chars(&errors);
        message.append(joined.as_str());
        return Err(message);
    }
    if conflict {
        return Err(
            String::from_str("Naming conflicts detected. Enable auto-rename or fix manually."),
        );
    }
    Ok(())
}

/// Joining the same texts gives the same text.
proof fn lemma_comma_joined_prefix(a: Seq<Seq<char>>, b: Seq<Seq<char>>, n: int)
    requires
        0 <= n <= a.len(),
        n <= b.len(),
        forall|k: int| 0 <= k < n ==> a[k] == b[k],
    ensures
        comma_joined(a, n) == comma_joined(b, n),
    decreases n,
{
    if n > 1 {
        lemma_comma_joined_prefix(a, b, n - 1);
    }
}

/// Whether a preview changes the path of its file.
pub fn changes_path(preview: &RenamePreview) -> (changed: bool)
    ensures
        changed == (preview.original_path@ != preview.new_path@),
{
    preview.original_path != preview.new_path
}

/// Number of renames among the first `n` that did not fail.
pub open spec fn renamed_count(outcomes: Seq<Option<String>>, n: int) -> nat
    decreases n,
{
    if n <= 0 {
        0
    } else {
        renamed_count(outcomes, n - 1) + if outcomes[n - 1] is None {
            1nat
        } else {
            0nat
        }
    }
}

/// The messages for the failed renames among the first `n`, in order: the
/// old name of the file and the reason.
pub open spec fn rename_failures(
    previews: Seq<RenamePreview>,
    outcomes: Seq<Option<String>>,
    n: int,
) -> Seq<Seq<char>>
    decreases n,
{
    if n <= 0 {
        Seq::empty()
    } else {
        match outcomes[n - 1] {
            Some(reason) => rename_failures(previews, outcomes, n - 1).push(
                previews[n - 1].original_name@ + ": "@ + reason@,
            ),
            None => rename_failures(previews, outcomes, n - 1),
        }
    }
}

/// Tallies what the file system made of a bulk rename. `outcomes` holds,
/// for each preview in order, the reason why the rename failed, or `None`
/// if the file has its new name.
pub fn tally_renames(previews: &Vec<RenamePreview>, outcomes: &Vec<Option<String>>) -> (result:
    BulkRenameResult)
    requires
        outcomes@.len() == previews@.len(),
    ensures
        result.success == renamed_count(outcomes@, outcomes@.len() as int),
        result.failed == outcomes@.len() - renamed_count(outcomes@, outcomes@.len() as int),
        path_texts(result.errors@) == rename_failures(previews@, outcomes@, outcomes@.len() as int),
{
    let mut success: usize = 0;
    let mut failed: usize = 0;
    let mut errors: Vec<String> = Vec::new();
    let mut i: usize = 0;
    assert(path_texts(errors@) =~= Seq::<Seq<char>>::empty());
    while i < outcomes.len()
        invariant
            i <= outcomes.len(),
            outcomes@.len() == previews@.len(),
            success == renamed_count(outcomes@, i as int),
            failed == i - renamed_count(outcomes@, i as int),
            success <= i,
            path_texts(errors@) == rename_failures(previews@, outcomes@, i as int),
        decreases outcomes.len() - i,
    {
        match &outcomes[i] {
            None => {
                success += 1;
            },
            Some(reason) => {
                failed += 1;
                let mut message = previews[i].original_name.clone();
                message.append(": ");
                message.append(reason.as_str());
                let ghost before = path_texts(errors@);
                let ghost text = message@;
                errors.push(message);
                assert(path_texts(errors@) =~= before.push(text));
            },
        }
        i += 1;
    }
    BulkRenameResult { success, failed, errors }
}

} // verus!
