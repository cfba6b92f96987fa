use seer::folders::{
    create_folders_from_selection, plan_grouped_folders, tally_folder_outcomes, FolderCreationMode,
    FolderOutcome, GroupCriteria, PlannedFolder,
};
use seer::grouping::group_by_labels;
use seer::removal::{
    check_replacement, modified_output_path, removal_result, removal_tool_arguments,
    temporary_output_path,
};

fn strings(list: &[&str]) -> Vec<String> {
    list.iter().map(|s| s.to_string()).collect()
}

fn shape(plan: &[PlannedFolder]) -> Vec<(String, String, Vec<(String, String, String)>)> {
    plan.iter()
        .map(|f| {
            (
                f.folder.clone(),
                f.label.clone(),
                f.moves
                    .iter()
                    .map(|m| (m.source.clone(), m.file_name.clone(), m.destination.clone()))
                    .collect(),
            )
        })
        .collect()
}

fn mv(source: &str, name: &str, destination: &str) -> (String, String, String) {
    (source.to_string(), name.to_string(), destination.to_string())
}

#[test]
fn test_plan_folder_per_file() {
    let plan = create_folders_from_selection(
        strings(&["/in/movie.mp4", "/in/notes", "/in/a.b.c"]),
        FolderCreationMode::PerFile,
        "/out".to_string(),
        &vec![],
    )
    .unwrap();
    assert_eq!(
        shape(&plan),
        vec![
            ("/out/movie".to_string(), "movie.mp4".to_string(), vec![mv("/in/movie.mp4", "movie.mp4", "/out/movie/movie.mp4")]),
            ("/out/notes".to_string(), "notes".to_string(), vec![mv("/in/notes", "notes", "/out/notes/notes")]),
            ("/out/a.b".to_string(), "a.b.c".to_string(), vec![mv("/in/a.b.c", "a.b.c", "/out/a.b/a.b.c")]),
        ]
    );
    let error = create_folders_from_selection(
        strings(&["/in/ok", "/in/..", "/"]),
        FolderCreationMode::PerFile,
        "/out".to_string(),
        &vec![],
    )
    .unwrap_err();
    assert_eq!(error, "Invalid file name: /in/..");
}

#[test]
fn test_plan_single_folder() {
    let plan = create_folders_from_selection(
        strings(&["/in/a.mkv", "/elsewhere/b.mkv"]),
        FolderCreationMode::Single { name: "Season 1".to_string() },
        "/out/".to_string(),
        &vec![],
    )
    .unwrap();
    assert_eq!(
        shape(&plan),
        vec![(
            "/out/Season 1".to_string(),
            "Season 1".to_string(),
            vec![
                mv("/in/a.mkv", "a.mkv", "/out/Season 1/a.mkv"),
                mv("/elsewhere/b.mkv", "b.mkv", "/out/Season 1/b.mkv")
            ]
        )]
    );
    let error = create_folders_from_selection(
        strings(&[""]),
        FolderCreationMode::Single { name: "x".to_string() },
        "/out".to_string(),
        &vec![],
    )
    .unwrap_err();
    assert_eq!(error, "Invalid file name: ");
}

#[test]
fn test_plan_grouped_folders() {
    let paths = strings(&["/in/a.MKV", "/in/b.mp3", "/in/c.mkv", "/in/d"]);
    let by_extension = create_folders_from_selection(
        paths.clone(),
        FolderCreationMode::Grouped { criteria: GroupCriteria::Extension },
        "/out".to_string(),
        &vec![],
    )
    .unwrap();
    assert_eq!(
        shape(&by_extension),
        vec![
            (
                "/out/mkv".to_string(),
                "mkv".to_string(),
                vec![mv("/in/a.MKV", "a.MKV", "/out/mkv/a.MKV"), mv("/in/c.mkv", "c.mkv", "/out/mkv/c.mkv")]
            ),
            ("/out/mp3".to_string(), "mp3".to_string(), vec![mv("/in/b.mp3", "b.mp3", "/out/mp3/b.mp3")]),
            ("/out/no_extension".to_string(), "no_extension".to_string(), vec![mv("/in/d", "d", "/out/no_extension/d")]),
        ]
    );
    let by_type = create_folders_from_selection(
        paths.clone(),
        FolderCreationMode::Grouped { criteria: GroupCriteria::MediaType },
        "/out".to_string(),
        &vec![],
    )
    .unwrap();
    let folders: Vec<(String, usize)> = by_type.iter().map(|f| (f.folder.clone(), f.moves.len())).collect();
    assert_eq!(
        folders,
        vec![("/out/video".to_string(), 2), ("/out/audio".to_string(), 1), ("/out/other".to_string(), 1)]
    );
    let by_date = create_folders_from_selection(
        paths.clone(),
        FolderCreationMode::Grouped {
            criteria: GroupCriteria::DateModified { granularity: "month".to_string() },
        },
        "/out".to_string(),
        &strings(&["2024-01", "2024-02", "2024-02", "2024-01"]),
    )
    .unwrap();
    let folders: Vec<(String, usize)> = by_date.iter().map(|f| (f.folder.clone(), f.moves.len())).collect();
    assert_eq!(folders, vec![("/out/2024-01".to_string(), 2), ("/out/2024-02".to_string(), 2)]);
    let groups = group_by_labels(&strings(&["/x/.."]), &strings(&["unknown"]));
    let odd = plan_grouped_folders(&groups, "");
    assert_eq!(shape(&odd), vec![("unknown".to_string(), "unknown".to_string(), vec![mv("/x/..", "", "unknown/")])]);
}

#[test]
fn test_tally_folder_outcomes() {
    let plan = create_folders_from_selection(
        strings(&["/in/a.mkv", "/in/b.mkv", "/in/c.mp3", "/in/d.txt", "/in/e.txt"]),
        FolderCreationMode::Grouped { criteria: GroupCriteria::Extension },
        "/out".to_string(),
        &vec![],
    )
    .unwrap();
    let outcomes = vec![
        FolderOutcome::Created { moves: vec![None, Some("busy".to_string())] },
        FolderOutcome::Created { moves: vec![None] },
        FolderOutcome::Failed { reason: "denied".to_string() },
    ];
    let result = tally_folder_outcomes(&plan, &outcomes, false);
    assert_eq!((result.success, result.failed), (2, 3));
    assert_eq!(result.folders_created, strings(&["/out/mkv", "/out/mp3"]));
    assert_eq!(result.errors, strings(&["b.mkv: busy", "Failed to create folder 'txt': denied"]));
    let per_file = create_folders_from_selection(
        strings(&["/in/a.mkv"]),
        FolderCreationMode::PerFile,
        "/out".to_string(),
        &vec![],
    )
    .unwrap();
    let result = tally_folder_outcomes(&per_file, &vec![FolderOutcome::Failed { reason: "full".to_string() }], true);
    assert_eq!((result.success, result.failed), (0, 1));
    assert!(result.folders_created.is_empty());
    assert_eq!(result.errors, strings(&["Failed to create folder for a.mkv: full"]));
    let nothing = tally_folder_outcomes(&vec![], &vec![], false);
    assert_eq!((nothing.success, nothing.failed), (0, 0));
}

#[test]
fn test_removal_paths() {
    assert_eq!(modified_output_path("/m/film.mkv"), "/m/film_modified.mkv");
    assert_eq!(modified_output_path("film"), "film_modified.mkv");
    assert_eq!(modified_output_path("/film.tar.gz"), "/film.tar_modified.gz");
    assert_eq!(modified_output_path("/"), "./output_modified.mkv");
    assert_eq!(temporary_output_path("/m/film.mkv", 4242), "/m/film_temp_4242.mkv");
    assert_eq!(temporary_output_path("a/b", 0), "a/b_temp_0.mkv");
}

#[test]
fn test_removal_arguments() {
    assert_eq!(
        removal_tool_arguments("/m/in.mkv", &vec![1, 3], 4, "/m/out.mkv"),
        strings(&["-i", "/m/in.mkv", "-map", "0", "-map", "-0:1", "-map", "-0:3", "-c", "copy", "-y", "/m/out.mkv"])
    );
    assert_eq!(
        removal_tool_arguments("in", &vec![-1, 4, 0, 0], 4, "out"),
        strings(&["-i", "in", "-map", "0", "-map", "-0:0", "-map", "-0:0", "-c", "copy", "-y", "out"])
    );
    assert_eq!(
        removal_tool_arguments("in", &vec![], 0, "out"),
        strings(&["-i", "in", "-map", "0", "-c", "copy", "-y", "out"])
    );
}

#[test]
fn test_replacement_checks() {
    assert_eq!(check_replacement(0, 1000), Err("Temp file is empty - aborting to prevent data loss".to_string()));
    assert_eq!(check_replacement(0, 0), Err("Temp file is empty - aborting to prevent data loss".to_string()));
    assert_eq!(
        check_replacement(99, 1000),
        Err("Temp file (99 bytes) is suspiciously smaller than original (1000 bytes) - aborting to prevent data loss".to_string())
    );
    assert_eq!(check_replacement(100, 1000), Ok(()));
    assert_eq!(check_replacement(100, 1009), Ok(()));
    assert!(check_replacement(100, 1010).is_err());
    assert_eq!(check_replacement(1, 0), Ok(()));
    assert_eq!(check_replacement(1, 9), Ok(()));
    let kept = removal_result(2, false, "/m/film_modified.mkv");
    assert!(kept.success);
    assert_eq!(kept.output_path, "/m/film_modified.mkv");
    assert_eq!(kept.message, "Successfully removed 2 stream(s). Output saved to: /m/film_modified.mkv");
    let replaced = removal_result(1, true, "/m/film.mkv");
    assert_eq!(replaced.message, "Successfully removed 1 stream(s). Original file updated.");
}
