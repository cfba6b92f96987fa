//! Creation of folders from a selection of files: the plan of folders and
//! moves, and the tally of what the file system made of it.

use crate::grouping::{
    extension_label, first_occurrences, group_by_extension, group_by_labels, group_by_media_type,
    is_grouping_of, labels_of, media_type_label, members_of, path_texts,
};
use crate::locate::{join_path, joined};
use crate::paths::{file_name, file_name_of, file_stem, file_stem_of, SEPARATOR};
use crate::rename::or_empty;
use crate::text::{from_chars, to_chars};
use crate::textmap::TextMap;
use vstd::prelude::*;

verus! {

/// By what files are grouped.
#[derive(Debug)]
pub enum GroupCriteria {
    Extension,
    /// By the day, month or year of the last change.
    DateModified { granularity: String },
    MediaType,
    Resolution,
    Codec,
}

/// How folders are made from files.
#[derive(Debug)]
pub enum FolderCreationMode {
    /// One folder per file, named after the file.
    PerFile,
    /// One folder per group of files.
    Grouped { criteria: GroupCriteria },
    /// One folder for all files.
    Single { name: String },
}

/// What became of a plan.
#[derive(Debug)]
pub struct FolderCreationResult {
    /// Number of files that were moved.
    pub success: usize,
    /// Number of files that were not moved.
    pub failed: usize,
    pub folders_created: Vec<String>,
    pub errors: Vec<String>,
}

/// One file to move.
#[derive(Debug)]
pub struct PlannedMove {
    pub source: String,
    /// Name of the file, as it appears in messages.
    pub file_name: String,
    pub destination: String,
}

/// One folder to create, and the files to move into it.
#[derive(Debug)]
pub struct PlannedFolder {
    pub folder: String,
    /// Name of the folder, as it appears in messages.
    pub label: String,
    pub moves: Vec<PlannedMove>,
}

/// Mathematical value of a [`PlannedMove`].
pub struct MoveView {
    pub source: Seq<char>,
    pub file_name: Seq<char>,
    pub destination: Seq<char>,
}

/// Mathematical value of a [`PlannedFolder`].
pub struct FolderView {
    pub folder: Seq<char>,
    pub label: Seq<char>,
    pub moves: Seq<MoveView>,
}

impl View for PlannedMove {
    type V = MoveView;

    open spec fn view(&self) -> MoveView {
        MoveView { source: self.source@, file_name: self.file_name@, destination: self.destination@ }
    }
}

impl View for PlannedFolder {
    type V = FolderView;

    open spec fn view(&self) -> FolderView {
        FolderView {
            folder: self.folder@,
            label: self.label@,
            moves: self.moves@.map_values(|m: PlannedMove| m@),
        }
    }
}

/// The move of the file at `path` into `folder`; a path without a file
/// name moves under the empty name.
pub open spec fn move_into(path: Seq<char>, folder: Seq<char>) -> MoveView {
    let name = or_empty(file_name_of(path));
    MoveView { source: path, file_name: name, destination: joined(folder, name, SEPARATOR) }
}

/// The moves of `paths` into `folder`, in order.
pub open spec fn moves_into(paths: Seq<Seq<char>>, folder: Seq<char>) -> Seq<MoveView> {
    paths.map_values(|path: Seq<char>| move_into(path, folder))
}

/// The folder of its own for the file at `path`: it is named after the
/// file without its extension.
pub open spec fn folder_for_file(path: Seq<char>, parent: Seq<char>) -> FolderView {
    let label = match file_stem_of(path) {
        Some(stem) => stem,
        None => or_empty(file_name_of(path)),
    };
    let folder = joined(parent, label, SEPARATOR);
    FolderView { folder, label: or_empty(file_name_of(path)), moves: seq![move_into(path, folder)] }
}

/// The folder named `label` below `parent` for `paths`.
pub open spec fn folder_for_group(label: Seq<char>, paths: Seq<Seq<char>>, parent: Seq<char>) -> FolderView {
    let folder = joined(parent, label, SEPARATOR);
    FolderView { folder, label, moves: moves_into(paths, folder) }
}

/// Position of the first path at or behind `from` without a file name, or
/// the number of paths if every path has one.
pub open spec fn first_unnamed(paths: Seq<Seq<char>>, from: int) -> int
    decreases paths.len() - from,
{
    if from >= paths.len() {
        paths.len() as int
    } else if from >= 0 && file_name_of(paths[from]) is None {
        from
    } else {
        first_unnamed(paths, from + 1)
    }
}

/// The message for a path without a file name.
pub open spec fn invalid_name_message(path: Seq<char>) -> Seq<char> {
    "Invalid file name: "@ + path
}

/// Views of a sequence of planned folders, in order.
pub open spec fn folder_views(plan: Seq<PlannedFolder>) -> Seq<FolderView> {
    plan.map_values(|f: PlannedFolder| f@)
}

/// Plans the move of the file at `path` into `folder`.
fn plan_move(path: &String, folder: &String) -> (planned: PlannedMove)
    ensures
        planned@ == move_into(path@, folder@),
{
    let chars = to_chars(path.as_str());
    let name = match file_name(&chars) {
        Some(n) => from_chars(&n),
        None => String::new(),
    };
    let destination = join_path(folder.as_str(), name.as_str(), SEPARATOR);
    PlannedMove { source: path.clone(), file_name: name, destination }
}

/// Plans the moves of `paths` into `folder`.
fn plan_moves(paths: &Vec<String>, folder: &String) -> (moves: Vec<PlannedMove>)
    ensures
        moves@.map_values(|m: PlannedMove| m@) == moves_into(path_texts(paths@), folder@),
{
    let mut moves: Vec<PlannedMove> = Vec::new();
    let mut i: usize = 0;
    while i < paths.len()
        invariant
            i <= paths.len(),
            moves@.len() == i,
            forall|k: int| 0 <= k < i ==> (#[trigger] moves@[k])@ == move_into(paths@[k]@, folder@),
        decreases paths.len() - i,
    {
        moves.push(plan_move(&paths[i], folder));
        i += 1;
    }
    assert(moves@.map_values(|m: PlannedMove| m@) =~= moves_into(path_texts(paths@), folder@));
    moves
}

/// Checks that every path has a file name.
fn check_named(paths: &Vec<String>) -> (checked: Result<(), String>)
    ensures
        first_unnamed(path_texts(paths@), 0) >= paths@.len() ==> checked is Ok,
        first_unnamed(path_texts(paths@), 0) < paths@.len() ==> checked is Err && checked->Err_0@
            == invalid_name_message(paths@[first_unnamed(path_texts(paths@), 0)]@),
{
    let ghost texts = path_texts(paths@);
    let mut i: usize = 0;
    while i < paths.len()
        invariant
            i <= paths.len(),
            texts == path_texts(paths@),
            first_unnamed(texts, 0) == first_unnamed(texts, i as int),
        decreases paths.len() - i,
    {
        assert(texts[i as int] == paths@[i as int]@);
        let chars = to_chars(paths[i].as_str());
        if file_name(&chars).is_none() {
            let mut message = String::from_str("Invalid file name: ");
            message.append(paths[i].as_str());
            return Err(message);
        }
        i += 1;
    }
    Ok(())
}

/// Plans one folder per file. A path without a file name is rejected.
pub fn plan_folder_per_file(paths: &Vec<String>, parent: &str) -> (plan: Result<
    Vec<PlannedFolder>,
    String,
>)
    ensures
        first_unnamed(path_texts(paths@), 0) < paths@.len() ==> plan is Err && plan->Err_0@
            == invalid_name_message(paths@[first_unnamed(path_texts(paths@), 0)]@),
        first_unnamed(path_texts(paths@), 0) >= paths@.len() ==> plan is Ok && folder_views(
            plan->Ok_0@,
        ) == path_texts(paths@).map_values(|path: Seq<char>| folder_for_file(path, parent@)),
{
    match check_named(paths) {
        Err(message) => {
            return Err(message);
        },
        Ok(_) => {},
    }
    let mut plan: Vec<PlannedFolder> = Vec::new();
    let mut i: usize = 0;
    while i < paths.len()
        invariant
            i <= paths.len(),
            plan@.len() == i,
            forall|k: int|
                0 <= k < i ==> (#[trigger] plan@[k])@ == folder_for_file(paths@[k]@, parent@),
        decreases paths.len() - i,
    {
        let chars = to_chars(paths[i].as_str());
        let name: String = match file_name(&chars) {
            Some(n) => from_chars(&n),
            None => String::new(),
        };
        let base: String = match file_stem(&chars) {
            Some(stem) => from_chars(&stem),
            None => name.clone(),
        };
        let folder = join_path(parent, base.as_str(), SEPARATOR);
        let mut moves: Vec<PlannedMove> = Vec::new();
        moves.push(plan_move(&paths[i], &folder));
        assert(moves@.map_values(|m: PlannedMove| m@) =~= seq![move_into(paths@[i as int]@, folder@)]);
        plan.push(PlannedFolder { folder, label: name, moves });
        i += 1;
    }
    assert(folder_views(plan@) =~= path_texts(paths@).map_values(
        |path: Seq<char>| folder_for_file(path, parent@),
    ));
    Ok(plan)
}

/// Plans one folder for all files. A path without a file name is rejected.
pub fn plan_single_folder(paths: &Vec<String>, name: &str, parent: &str) -> (plan: Result<
    Vec<PlannedFolder>,
    String,
>)
    ensures
        first_unnamed(path_texts(paths@), 0) < paths@.len() ==> plan is Err && plan->Err_0@
            == invalid_name_message(paths@[first_unnamed(path_texts(paths@), 0)]@),
        first_unnamed(path_texts(paths@), 0) >= paths@.len() ==> plan is Ok && folder_views(
            plan->Ok_0@,
        ) == seq![folder_for_group(name@, path_texts(paths@), parent@)],
{
    match check_named(paths) {
        Err(message) => {
            return Err(message);
        },
        Ok(_) => {},
    }
    let folder = join_path(parent, name, SEPARATOR);
    let moves = plan_moves(paths, &folder);
    let mut plan: Vec<PlannedFolder> = Vec::new();
    plan.push(PlannedFolder { folder, label: String::from_str(name), moves });
    assert(folder_views(plan@) =~= seq![folder_for_group(name@, path_texts(paths@), parent@)]);
    Ok(plan)
}

/// Whether `plan` has one folder for each group of `groups`, in the order
/// of its keys, each with the files of its group.
pub open spec fn is_plan_of(
    plan: Seq<FolderView>,
    keys: Seq<Seq<char>>,
    groups: Map<Seq<char>, Vec<String>>,
    parent: Seq<char>,
) -> bool {
    &&& plan.len() == keys.len()
    &&& forall|k: int|
        0 <= k < keys.len() ==> groups.contains_key(#[trigger] keys[k]) && plan[k]
            == folder_for_group(keys[k], path_texts(groups[keys[k]]@), parent)
}

/// Plans one folder per group.
pub fn plan_grouped_folders(groups: &TextMap<Vec<String>>, parent: &str) -> (plan: Vec<PlannedFolder>)
    requires
        groups.wf(),
    ensures
        is_plan_of(folder_views(plan@), groups.keys(), groups@, parent@),
{
    let keys = groups.key_list();
    proof {
        groups.lemma_keys();
    }
    let mut plan: Vec<PlannedFolder> = Vec::new();
    let mut i: usize = 0;
    while i < keys.len()
        invariant
            i <= keys.len(),
            groups.wf(),
            keys@.map_values(|key: String| key@) == groups.keys(),
            forall|k: int| 0 <= k < groups.keys().len() ==> groups@.contains_key(#[trigger] groups.keys()[k]),
            plan@.len() == i,
            forall|k: int|
                0 <= k < i ==> (#[trigger] plan@[k])@ == folder_for_group(
                    groups.keys()[k],
                    path_texts(groups@[groups.keys()[k]]@),
                    parent@,
                ),
        decreases keys.len() - i,
    {
        let key = &keys[i];
        assert(groups.keys()[i as int] == key@);
        assert(groups@.contains_key(groups.keys()[i as int]));
        let folder = join_path(parent, key.as_str(), SEPARATOR);
        let moves = match groups.get(key.as_str()) {
            Some(files) => plan_moves(files, &folder),
            None => Vec::new(),
        };
        plan.push(PlannedFolder { folder, label: key.clone(), moves });
        i += 1;
    }
    assert(groups.keys().len() == keys@.len());
    assert(folder_views(plan@).len() == groups.keys().len());
    plan
}

/// The label of each file under a criterion: its extension or media type,
/// or, for the criteria that look into the files or at their dates, the
/// label that the caller supplies.
pub open spec fn criteria_labels(
    paths: Seq<Seq<char>>,
    criteria: GroupCriteria,
    supplied: Seq<Seq<char>>,
) -> Seq<Seq<char>> {
    match criteria {
        GroupCriteria::Extension => labels_of(paths, |p: Seq<char>| extension_label(p)),
        GroupCriteria::MediaType => labels_of(paths, |p: Seq<char>| media_type_label(p)),
        _ => supplied,
    }
}

/// The folders for files in groups: one folder per label, in the order in
/// which the labels first occur, each with the files of its label in their
/// order.
pub open spec fn grouped_plan(paths: Seq<Seq<char>>, labels: Seq<Seq<char>>, parent: Seq<char>) -> Seq<
    FolderView,
> {
    first_occurrences(labels, paths.len() as int).map_values(
        |label: Seq<char>|
            folder_for_group(label, members_of(paths, labels, label, paths.len() as int), parent),
    )
}

/// Plans the folders for a selection of files.
///
/// `labels` names the group of each file, by position, for the criteria
/// that look into the files or at their dates; it is not read otherwise.
pub fn create_folders_from_selection(
    paths: Vec<String>,
    mode: FolderCreationMode,
    parent_dir: String,
    labels: &Vec<String>,
) -> (plan: Result<Vec<PlannedFolder>, String>)
    requires
        mode matches FolderCreationMode::Grouped { criteria } ==> criteria is Extension
            || criteria is MediaType || labels@.len() == paths@.len(),
    ensures
        mode is PerFile ==> (first_unnamed(path_texts(paths@), 0) < paths@.len() ==> plan is Err
            && plan->Err_0@ == invalid_name_message(
            paths@[first_unnamed(path_texts(paths@), 0)]@,
        )) && (first_unnamed(path_texts(paths@), 0) >= paths@.len() ==> plan is Ok && folder_views(
            plan->Ok_0@,
        ) == path_texts(paths@).map_values(|path: Seq<char>| folder_for_file(path, parent_dir@))),
        mode is Single ==> (first_unnamed(path_texts(paths@), 0) < paths@.len() ==> plan is Err
            && plan->Err_0@ == invalid_name_message(
            paths@[first_unnamed(path_texts(paths@), 0)]@,
        )) && (first_unnamed(path_texts(paths@), 0) >= paths@.len() ==> plan is Ok && folder_views(
            plan->Ok_0@,
        ) == seq![folder_for_group(mode->name@, path_texts(paths@), parent_dir@)]),
        mode is Grouped ==> plan is Ok && folder_views(plan->Ok_0@) == grouped_plan(
            path_texts(paths@),
            criteria_labels(path_texts(paths@), mode->criteria, path_texts(labels@)),
            parent_dir@,
        ),
{
    match mode {
        FolderCreationMode::PerFile => plan_folder_per_file(&paths, parent_dir.as_str()),
        FolderCreationMode::Single { name } => plan_single_folder(
            &paths,
            name.as_str(),
            parent_dir.as_str(),
        ),
        FolderCreationMode::Grouped { criteria } => {
            let ghost texts = path_texts(paths@);
            let ghost names = criteria_labels(texts, criteria, path_texts(labels@));
            let groups = match criteria {
                GroupCriteria::Extension => match group_by_extension(&paths) {
                    Ok(g) => g,
                    Err(message) => {
                        return Err(message);
                    },
                },
                GroupCriteria::MediaType => match group_by_media_type(&paths) {
                    Ok(g) => g,
                    Err(message) => {
                        return Err(message);
                    },
                },
                _ => group_by_labels(&paths, labels),
            };
            assert(is_grouping_of(groups@, texts, names, texts.len() as int));
            assert(groups.keys() == first_occurrences(names, texts.len() as int));
            let plan = plan_grouped_folders(&groups, parent_dir.as_str());
            proof {
                let views = folder_views(plan@);
                let wanted = grouped_plan(texts, names, parent_dir@);
                assert(views.len() == wanted.len());
                assert forall|k: int| 0 <= k < views.len() implies views[k] == wanted[k] by {
                    let label = groups.keys()[k];
                    assert(groups@.contains_key(label));
                    assert(path_texts(groups@[label]@) == members_of(
                        texts,
                        names,
                        label,
                        texts.len() as int,
                    ));
                }
                assert(views =~= wanted);
            }
            Ok(plan)
        },
    }
}

/// What the file system made of one planned folder.
#[derive(Debug)]
pub enum FolderOutcome {
    /// The folder was created; for each move, in order, the reason why it
    /// failed, or `None` if it succeeded.
    Created { moves: Vec<Option<String>> },
    /// The folder could not be created; the reason in words.
    Failed { reason: String },
}

/// Number of moves among the first `n` that succeeded.
pub open spec fn moved_count(moves: Seq<Option<String>>, n: int) -> nat
    decreases n,
{
    if n <= 0 {
        0
    } else {
        moved_count(moves, n - 1) + if moves[n - 1] is None {
            1nat
        } else {
            0nat
        }
    }
}

/// Files moved by the first `n` folders of a plan.
pub open spec fn files_moved(outcomes: Seq<FolderOutcome>, n: int) -> nat
    decreases n,
{
    if n <= 0 {
        0
    } else {
        files_moved(outcomes, n - 1) + match outcomes[n - 1] {
            FolderOutcome::Created { moves } => moved_count(moves@, moves@.len() as int),
            FolderOutcome::Failed { reason } => 0,
        }
    }
}

/// Files of the first `n` folders of a plan that were not moved: the
/// failed moves into folders that were created, and all files of folders
/// that were not.
pub open spec fn files_left(plan: Seq<PlannedFolder>, outcomes: Seq<FolderOutcome>, n: int) -> nat
    decreases n,
{
    if n <= 0 {
        0
    } else {
        files_left(plan, outcomes, n - 1) + match outcomes[n - 1] {
            FolderOutcome::Created { moves } => (moves@.len() - moved_count(
                moves@,
                moves@.len() as int,
            )) as nat,
            FolderOutcome::Failed { reason } => plan[n - 1].moves@.len(),
        }
    }
}

/// The folders among the first `n` of a plan that were created, in order.
pub open spec fn folders_made(plan: Seq<PlannedFolder>, outcomes: Seq<FolderOutcome>, n: int) -> Seq<
    Seq<char>,
>
    decreases n,
{
    if n <= 0 {
        Seq::empty()
    } else if outcomes[n - 1] is Created {
        folders_made(plan, outcomes, n - 1).push(plan[n - 1].folder@)
    } else {
        folders_made(plan, outcomes, n - 1)
    }
}

/// The messages for the failed moves among the first `n` moves into a
/// folder, in order: the name of the file and the reason.
pub open spec fn move_failures(moves: Seq<PlannedMove>, answers: Seq<Option<String>>, n: int) -> Seq<
    Seq<char>,
>
    decreases n,
{
    if n <= 0 {
        Seq::empty()
    } else {
        match answers[n - 1] {
            Some(reason) => move_failures(moves, answers, n - 1).push(
                moves[n - 1].file_name@ + ": "@ + reason@,
            ),
            None => move_failures(moves, answers, n - 1),
        }
    }
}

/// The message for a folder that could not be created.
pub open spec fn folder_failure(label: Seq<char>, reason: Seq<char>, per_file: bool) -> Seq<char> {
    if per_file {
        "Failed to create folder for "@ + label + ": "@ + reason
    } else {
        "Failed to create folder '"@ + label + "': "@ + reason
    }
}

/// The messages for the first `n` folders of a plan, in order: those of
/// the failed moves into a folder that was created, and one for a folder
/// that was not.
pub open spec fn failures(
    plan: Seq<PlannedFolder>,
    outcomes: Seq<FolderOutcome>,
    per_file: bool,
    n: int,
) -> Seq<Seq<char>>
    decreases n,
{
    if n <= 0 {
        Seq::empty()
    } else {
        failures(plan, outcomes, per_file, n - 1) + match outcomes[n - 1] {
            FolderOutcome::Created { moves } => move_failures(
                plan[n - 1].moves@,
                moves@,
                moves@.len() as int,
            ),
            FolderOutcome::Failed { reason } => seq![
                folder_failure(plan[n - 1].label@, reason@, per_file),
            ],
        }
    }
}

/// Whether the outcomes fit the plan: one outcome per folder, and one
/// answer per move of a folder that was created.
pub open spec fn outcomes_fit(plan: Seq<PlannedFolder>, outcomes: Seq<FolderOutcome>) -> bool {
    &&& outcomes.len() == plan.len()
    &&& forall|k: int|
        0 <= k < plan.len() ==> ((#[trigger] outcomes[k]) matches FolderOutcome::Created { moves }
            ==> moves@.len() == plan[k].moves@.len())
}

/// The count of succeeded moves is at most the number of moves.
proof fn lemma_moved_count(moves: Seq<Option<String>>, n: int)
    requires
        0 <= n <= moves.len(),
    ensures
        moved_count(moves, n) <= n,
    decreases n,
{
    if n > 0 {
        lemma_moved_count(moves, n - 1);
    }
}

/// Tallies what the file system made of a plan.
///
/// Every file of the plan is counted once, as moved or as not moved. The
/// messages name the file or the folder that failed; `per_file` says
/// whether the folders were planned one per file, which changes the wording
/// for a folder that could not be created.
pub fn tally_folder_outcomes(plan: &Vec<PlannedFolder>, outcomes: &Vec<FolderOutcome>, per_file: bool) -> (
    result: FolderCreationResult)
    requires
        outcomes_fit(plan@, outcomes@),
        files_moved(outcomes@, plan@.len() as int) + files_left(
            plan@,
            outcomes@,
            plan@.len() as int,
        ) <= usize::MAX,
    ensures
        result.success == files_moved(outcomes@, plan@.len() as int),
        result.failed == files_left(plan@, outcomes@, plan@.len() as int),
        path_texts(result.folders_created@) == folders_made(plan@, outcomes@, plan@.len() as int),
        path_texts(result.errors@) == failures(plan@, outcomes@, per_file, plan@.len() as int),
{
    let mut success: usize = 0;
    let mut failed: usize = 0;
    let mut folders_created: Vec<String> = Vec::new();
    let mut errors: Vec<String> = Vec::new();
    let mut i: usize = 0;
    assert(path_texts(folders_created@) =~= Seq::<Seq<char>>::empty());
    assert(path_texts(errors@) =~= Seq::<Seq<char>>::empty());
    while i < plan.len()
        invariant
            i <= plan.len(),
            outcomes_fit(plan@, outcomes@),
            files_moved(outcomes@, plan@.len() as int) + files_left(
                plan@,
                outcomes@,
                plan@.len() as int,
            ) <= usize::MAX,
            success == files_moved(outcomes@, i as int),
            failed == files_left(plan@, outcomes@, i as int),
            path_texts(folders_created@) == folders_made(plan@, outcomes@, i as int),
            path_texts(errors@) == failures(plan@, outcomes@, per_file, i as int),
        decreases plan.len() - i,
    {
        proof {
            lemma_tally_monotone(plan@, outcomes@, i + 1, plan@.len() as int);
        }
        let folder = &plan[i];
        let ghost errors_before = path_texts(errors@);
        match &outcomes[i] {
            FolderOutcome::Failed { reason } => {
                failed = failed + folder.moves.len();
                let mut message = String::new();
                if per_file {
                    message.append("Failed to create folder for ");
                    message.append(folder.label.as_str());
                    message.append(": ");
                } else {
                    message.append("Failed to create folder '");
                    message.append(folder.label.as_str());
                    message.append("': ");
                }
                message.append(reason.as_str());
                assert(message@ =~= folder_failure(folder.label@, reason@, per_file));
                errors.push(message);
                assert(path_texts(errors@) =~= errors_before + seq![
                    folder_failure(folder.label@, reason@, per_file),
                ]);
            },
            FolderOutcome::Created { moves } => {
                let ghost before = path_texts(folders_created@);
                folders_created.push(folder.folder.clone());
                assert(path_texts(folders_created@) =~= before.push(folder.folder@));
                let ghost base_success = success;
                let ghost base_failed = failed;
                let mut k: usize = 0;
                assert(errors_before + move_failures(folder.moves@, moves@, 0) =~= errors_before);
                while k < moves.len()
                    invariant
                        k <= moves.len(),
                        moves@.len() == folder.moves@.len(),
                        success == base_success + moved_count(moves@, k as int),
                        failed == base_failed + k - moved_count(moves@, k as int),
                        path_texts(errors@) == errors_before + move_failures(
                            folder.moves@,
                            moves@,
                            k as int,
                        ),
                        base_success + moved_count(moves@, moves@.len() as int) + base_failed
                            + moves@.len() - moved_count(moves@, moves@.len() as int)
                            <= usize::MAX,
                        moved_count(moves@, k as int) <= k,
                    decreases moves.len() - k,
                {
                    proof {
                        lemma_moved_count_monotone(moves@, k + 1, moves@.len() as int);
                        lemma_moved_count(moves@, moves@.len() as int);
                    }
                    match &moves[k] {
                        None => {
                            success = success + 1;
                        },
                        Some(reason) => {
                            failed = failed + 1;
                            let mut message = folder.moves[k].file_name.clone();
                            message.append(": ");
                            message.append(reason.as_str());
                            let ghost so_far = path_texts(errors@);
                            let ghost text = message@;
                            errors.push(message);
                            assert(path_texts(errors@) =~= so_far.push(text));
                            assert(errors_before + move_failures(folder.moves@, moves@, k + 1)
                                =~= so_far.push(text));
                        },
                    }
                    k += 1;
                }
            },
        }
        i += 1;
    }
    FolderCreationResult { success, failed, folders_created, errors }
}

/// The count of succeeded moves grows with the number of moves looked at,
/// and so does the count of failed ones.
proof fn lemma_moved_count_monotone(moves: Seq<Option<String>>, low: int, high: int)
    requires
        0 <= low <= high <= moves.len(),
    ensures
        moved_count(moves, low) <= moved_count(moves, high),
        low - moved_count(moves, low) <= high - moved_count(moves, high),
    decreases high - low,
{
    if low < high {
        lemma_moved_count_monotone(moves, low, high - 1);
    }
}

/// The tallies grow with the number of folders looked at.
proof fn lemma_tally_monotone(plan: Seq<PlannedFolder>, outcomes: Seq<FolderOutcome>, low: int, high: int)
    requires
        0 <= low <= high <= plan.len(),
        outcomes_fit(plan, outcomes),
    ensures
        files_moved(outcomes, low) <= files_moved(outcomes, high),
        files_left(plan, outcomes, low) <= files_left(plan, outcomes, high),
    decreases high - low,
{
    if low < high {
        lemma_tally_monotone(plan, outcomes, low, high - 1);
        match outcomes[high - 1] {
            FolderOutcome::Created { moves } => {
                lemma_moved_count(moves@, moves@.len() as int);
            },
            FolderOutcome::Failed { reason } => {},
        }
    }
}

} // verus!
