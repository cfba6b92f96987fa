use seer::preview::{
    changes_path, check_previews, preview_renames, resolve_conflict, tally_renames,
    try_preview_renames, RenameContext, RenamePattern,
};
use seer::rename::{
    apply_case_transform, apply_find_replace, apply_sequential_numbering, apply_template,
    sequential_name, template_needs_media, try_find_replace, CaseMode, MediaFacts,
};

const TODAY: &str = "2024-03-09";

fn context() -> RenameContext {
    RenameContext { date: TODAY.to_string(), stamp: 1_700_000_000, media: vec![] }
}

#[test]
fn test_find_replace_empty_find() {
    let result = apply_find_replace("test.mp4", "", "new", true);
    assert_eq!(result, "test.mp4");
}

#[test]
fn test_find_replace_case_sensitive() {
    let result = apply_find_replace("TestFile.mp4", "Test", "Demo", true);
    assert_eq!(result, "DemoFile.mp4");
}

#[test]
fn test_find_replace_case_sensitive_no_match() {
    let result = apply_find_replace("testfile.mp4", "Test", "Demo", true);
    assert_eq!(result, "testfile.mp4");
}

#[test]
fn test_find_replace_case_insensitive() {
    let result = apply_find_replace("TestFile.mp4", "test", "demo", false);
    assert_eq!(result, "demoFile.mp4");
}

#[test]
fn test_find_replace_case_insensitive_multiple() {
    let result = apply_find_replace("Test Test Test", "test", "demo", false);
    assert_eq!(result, "demo demo demo");
}

#[test]
fn test_find_replace_multiple_occurrences() {
    let result = apply_find_replace("file_old_old.mp4", "old", "new", true);
    assert_eq!(result, "file_new_new.mp4");
}

#[test]
fn test_find_replace_special_chars() {
    let result = apply_find_replace("file-name.mp4", "-", "_", true);
    assert_eq!(result, "file_name.mp4");
}

#[test]
fn test_find_replace_preserve_extension() {
    let result = apply_find_replace("video.mp4", "video", "movie", true);
    assert_eq!(result, "movie.mp4");
}

#[test]
fn test_find_replace_does_not_rescan_replacements() {
    assert_eq!(apply_find_replace("aaa", "aa", "a", true), "aa");
    assert_eq!(apply_find_replace("abab", "ab", "abab", true), "abababab");
    assert_eq!(apply_find_replace("xAbAB", "ab", "-", false), "x--");
    assert_eq!(apply_find_replace("abc", "abcd", "-", true), "abc");
    assert_eq!(apply_find_replace("", "a", "-", false), "");
}

#[test]
fn test_try_find_replace() {
    assert_eq!(try_find_replace("TestFile.mp4", "test", "demo", false), Some("demoFile.mp4".to_string()));
    assert_eq!(try_find_replace("\u{130}x.mp4", "x", "y", false), None);
    assert_eq!(try_find_replace("\u{130}x.mp4", "x", "y", true), Some("\u{130}y.mp4".to_string()));
    assert_eq!(try_find_replace("\u{130}x.mp4", "", "y", false), Some("\u{130}x.mp4".to_string()));
}

#[test]
fn test_sequential_simple_pattern() {
    let paths = vec![
        "/path/file1.mp4".to_string(),
        "/path/file2.mp4".to_string(),
        "/path/file3.mp4".to_string(),
    ];
    let result = apply_sequential_numbering(&paths, "video_{n}.{ext}", 1, 3);
    assert_eq!(result.get(&paths[0]).unwrap(), "video_001.mp4");
    assert_eq!(result.get(&paths[1]).unwrap(), "video_002.mp4");
    assert_eq!(result.get(&paths[2]).unwrap(), "video_003.mp4");
}

#[test]
fn test_sequential_with_name_placeholder() {
    let paths = vec!["/path/movie.mp4".to_string(), "/path/show.mp4".to_string()];
    let result = apply_sequential_numbering(&paths, "{name}_{n}.{ext}", 1, 2);
    assert_eq!(result.get(&paths[0]).unwrap(), "movie_01.mp4");
    assert_eq!(result.get(&paths[1]).unwrap(), "show_02.mp4");
}

#[test]
fn test_sequential_no_placeholder() {
    let paths = vec!["/path/file.mp4".to_string()];
    let result = apply_sequential_numbering(&paths, "newname", 1, 3);
    assert_eq!(result.get(&paths[0]).unwrap(), "file_001.mp4");
}

#[test]
fn test_sequential_start_value() {
    let paths = vec!["/path/file.mp4".to_string(), "/path/file2.mp4".to_string()];
    let result = apply_sequential_numbering(&paths, "{n}.{ext}", 10, 2);
    assert_eq!(result.get(&paths[0]).unwrap(), "10.mp4");
    assert_eq!(result.get(&paths[1]).unwrap(), "11.mp4");
}

#[test]
fn test_sequential_padding() {
    let paths = vec!["/path/file.mp4".to_string(), "/path/file2.mp4".to_string()];
    let result = apply_sequential_numbering(&paths, "{n}.{ext}", 1, 5);
    assert_eq!(result.get(&paths[0]).unwrap(), "00001.mp4");
    assert_eq!(result.get(&paths[1]).unwrap(), "00002.mp4");
}

#[test]
fn test_sequential_no_extension() {
    let paths = vec!["/path/file".to_string()];
    let result = apply_sequential_numbering(&paths, "{n}", 1, 2);
    assert_eq!(result.get(&paths[0]).unwrap(), "01");
}

#[test]
fn test_sequential_all_placeholders() {
    let paths = vec!["/path/video.mp4".to_string()];
    let result = apply_sequential_numbering(&paths, "{n}_{name}.{ext}", 5, 3);
    assert_eq!(result.get(&paths[0]).unwrap(), "005_video.mp4");
}

#[test]
fn test_sequential_edge_cases() {
    assert_eq!(sequential_name("/path/file", "plain", 7, 0), "file_7");
    assert_eq!(sequential_name("/path/file", "plain", 1234, 2), "file_1234");
    assert_eq!(sequential_name("/path/a.b.c", "{name}-{ext}-{n}", 0, 1), "a.b-c-0");
    let paths = vec!["/p/same.txt".to_string(), "/p/same.txt".to_string()];
    let result = apply_sequential_numbering(&paths, "{n}", 1, 1);
    assert_eq!(result.len(), 1);
    assert_eq!(result.get("/p/same.txt").unwrap(), "2");
}

#[test]
fn test_case_lowercase() {
    let result = apply_case_transform("TestFile.MP4", &CaseMode::Lowercase);
    assert_eq!(result, "testfile.mp4");
}

#[test]
fn test_case_uppercase() {
    let result = apply_case_transform("testfile.mp4", &CaseMode::Uppercase);
    assert_eq!(result, "TESTFILE.MP4");
}

#[test]
fn test_case_titlecase() {
    let result = apply_case_transform("the quick brown fox", &CaseMode::TitleCase);
    assert_eq!(result, "The Quick Brown Fox");
}

#[test]
fn test_case_titlecase_mixed() {
    let result = apply_case_transform("tHe QuIcK bRoWn", &CaseMode::TitleCase);
    assert_eq!(result, "The Quick Brown");
}

#[test]
fn test_case_titlecase_single_word() {
    let result = apply_case_transform("hello", &CaseMode::TitleCase);
    assert_eq!(result, "Hello");
}

#[test]
fn test_case_titlecase_empty() {
    let result = apply_case_transform("", &CaseMode::TitleCase);
    assert_eq!(result, "");
}

#[test]
fn test_case_titlecase_collapses_white_space() {
    assert_eq!(apply_case_transform("  two\t\twords \n", &CaseMode::TitleCase), "Two Words");
    assert_eq!(apply_case_transform(" \u{a0} ", &CaseMode::TitleCase), "");
    assert_eq!(apply_case_transform("\u{df}a b", &CaseMode::TitleCase), "SSa B");
}

#[test]
fn test_resolve_conflict_no_conflict() {
    let existing: Vec<String> = Vec::new();
    let result = resolve_conflict("file.mp4", &existing, 0);
    assert_eq!(result, "file.mp4");
}

#[test]
fn test_resolve_conflict_with_conflict() {
    let existing = vec!["file.mp4".to_string()];
    let result = resolve_conflict("file.mp4", &existing, 0);
    assert_eq!(result, "file (1).mp4");
}

#[test]
fn test_resolve_conflict_multiple() {
    let existing =
        vec!["file.mp4".to_string(), "file (1).mp4".to_string(), "file (2).mp4".to_string()];
    let result = resolve_conflict("file.mp4", &existing, 0);
    assert_eq!(result, "file (3).mp4");
}

#[test]
fn test_resolve_conflict_no_extension() {
    let existing = vec!["file".to_string()];
    let result = resolve_conflict("file", &existing, 0);
    assert_eq!(result, "file (1)");
}

#[test]
fn test_resolve_conflict_preserves_extension() {
    let existing = vec!["document.txt".to_string()];
    let result = resolve_conflict("document.txt", &existing, 0);
    assert_eq!(result, "document (1).txt");
}

#[test]
fn test_resolve_conflict_falls_back_to_stamp() {
    let mut existing = vec!["f.txt".to_string()];
    for i in 1..10_000 {
        existing.push(format!("f ({}).txt", i));
    }
    assert_eq!(resolve_conflict("f.txt", &existing, 1_700_000_000), "f_1700000000.txt");
    assert_eq!(resolve_conflict("f.txt", &existing, -5), "f_-5.txt");
    existing.remove(9_999);
    assert_eq!(resolve_conflict("f.txt", &existing, 1), "f (9999).txt");
}

#[test]
fn test_template_basic_name() {
    let result = apply_template("/path/file.mp4", "{name}_new", 0, 1, TODAY, &None).unwrap();
    assert_eq!(result, "file_new.mp4");
}

#[test]
fn test_template_with_index() {
    let result = apply_template("/path/file.mp4", "{name}_{index}", 5, 1, TODAY, &None).unwrap();
    assert_eq!(result, "file_5.mp4");
}

#[test]
fn test_template_with_counter() {
    let result = apply_template("/path/file.mp4", "{name}_{counter}", 0, 42, TODAY, &None).unwrap();
    assert_eq!(result, "file_42.mp4");
}

#[test]
fn test_template_with_ext() {
    let result =
        apply_template("/path/file.mp4", "{name}_backup.{ext}", 0, 1, TODAY, &None).unwrap();
    assert_eq!(result, "file_backup.mp4");
}

#[test]
fn test_template_with_parent() {
    let result =
        apply_template("/videos/movies/file.mp4", "{parent}_{name}", 0, 1, TODAY, &None).unwrap();
    assert_eq!(result, "movies_file.mp4");
}

#[test]
fn test_template_with_date() {
    let result = apply_template("/path/file.mp4", "{name}_{date}", 0, 1, TODAY, &None).unwrap();
    assert!(result.starts_with("file_"));
    assert!(result.contains("-"));
    assert_eq!(result, "file_2024-03-09.mp4");
}

#[test]
fn test_template_no_extension() {
    let result = apply_template("/path/file", "{name}_new", 0, 1, TODAY, &None).unwrap();
    assert_eq!(result, "file_new");
}

#[test]
fn test_template_auto_add_extension() {
    let result = apply_template("/path/file.mp4", "{name}_copy", 0, 1, TODAY, &None).unwrap();
    assert_eq!(result, "file_copy.mp4");
}

#[test]
fn test_template_all_vars() {
    let result =
        apply_template("/videos/file.mp4", "{index}_{counter}_{name}", 3, 10, TODAY, &None).unwrap();
    assert_eq!(result, "3_10_file.mp4");
}

#[test]
fn test_template_media_placeholders() {
    let facts = Some(MediaFacts {
        file_type: "video".to_string(),
        video_codec: Some("hevc".to_string()),
        audio_codec: None,
    });
    let template = "{type}-{video_codec}-{audio_codec}";
    assert!(template_needs_media("/p/f.mkv", template, 0, 1, TODAY));
    assert!(!template_needs_media("/p/f.mkv", "{name}", 0, 1, TODAY));
    assert_eq!(
        apply_template("/p/f.mkv", template, 0, 1, TODAY, &facts).unwrap(),
        "video-hevc-unknown.mkv"
    );
    assert_eq!(
        apply_template("/p/f.mkv", template, 0, 1, TODAY, &None).unwrap(),
        "file-none-none.mkv"
    );
}

fn names(previews: &[seer::preview::RenamePreview]) -> Vec<(String, bool)> {
    previews.iter().map(|p| (p.new_name.clone(), p.conflict)).collect()
}

#[test]
fn test_preview_find_replace_flags_conflicts() {
    let paths = vec!["/d/a1.txt".to_string(), "/d/a2.txt".to_string(), "/e/b.txt".to_string()];
    let pattern = RenamePattern::FindReplace {
        find: "1".to_string(),
        replace: "2".to_string(),
        case_sensitive: true,
    };
    let previews = preview_renames(paths, pattern, false, &context()).unwrap();
    assert_eq!(
        names(&previews),
        vec![("a2.txt".to_string(), false), ("a2.txt".to_string(), true), ("b.txt".to_string(), false)]
    );
    assert_eq!(previews[0].original_path, "/d/a1.txt");
    assert_eq!(previews[0].original_name, "a1.txt");
    assert_eq!(previews[0].new_path, "/d/a2.txt");
    assert_eq!(previews[2].new_path, "/e/b.txt");
    assert!(previews.iter().all(|p| p.error.is_none()));
}

#[test]
fn test_preview_resolves_conflicts_on_request() {
    let paths = vec!["/d/A.txt".to_string(), "/d/a.txt".to_string(), "/d/a.TXT".to_string()];
    let pattern = RenamePattern::CaseTransform { mode: CaseMode::Lowercase };
    let previews = preview_renames(paths, pattern, true, &context()).unwrap();
    assert_eq!(
        names(&previews),
        vec![
            ("a.txt".to_string(), false),
            ("a (1).txt".to_string(), false),
            ("a (2).txt".to_string(), false),
        ]
    );
    assert_eq!(previews[1].new_path, "/d/a (1).txt");
}

#[test]
fn test_preview_reports_empty_names() {
    let paths = vec!["/d/x".to_string(), "/d/x".to_string()];
    let pattern = RenamePattern::FindReplace {
        find: "x".to_string(),
        replace: "".to_string(),
        case_sensitive: true,
    };
    let previews = preview_renames(paths, pattern, true, &context()).unwrap();
    assert_eq!(previews[0].error, Some("Name cannot be empty".to_string()));
    assert_eq!(previews[1].error, Some("Name cannot be empty".to_string()));
    assert_eq!(names(&previews), vec![("".to_string(), false), ("".to_string(), true)]);
}

#[test]
fn test_preview_sequential_and_template() {
    let paths = vec!["/d/one.mkv".to_string(), "two.mkv".to_string()];
    let pattern = RenamePattern::Sequential { pattern: "ep{n}.{ext}".to_string(), start: 9, padding: 2 };
    let previews = preview_renames(paths.clone(), pattern, false, &context()).unwrap();
    assert_eq!(names(&previews), vec![("ep09.mkv".to_string(), false), ("ep10.mkv".to_string(), false)]);
    assert_eq!(previews[1].new_path, "ep10.mkv");

    let pattern = RenamePattern::Template { template: "{counter}-{index}-{type}".to_string() };
    let mut ctx = context();
    ctx.media = vec![Some(MediaFacts {
        file_type: "audio".to_string(),
        video_codec: None,
        audio_codec: Some("aac".to_string()),
    })];
    let previews = preview_renames(paths, pattern, false, &ctx).unwrap();
    assert_eq!(
        names(&previews),
        vec![("1-0-audio.mkv".to_string(), false), ("2-1-file.mkv".to_string(), false)]
    );
}

#[test]
fn test_try_preview_rejects_uneven_case_folding() {
    let pattern = || RenamePattern::FindReplace {
        find: "x".to_string(),
        replace: "y".to_string(),
        case_sensitive: false,
    };
    assert!(try_preview_renames(vec!["/d/\u{130}.txt".to_string()], pattern(), false, &context()).is_none());
    let previews = try_preview_renames(vec!["/d/X.txt".to_string()], pattern(), false, &context()).unwrap();
    assert_eq!(previews[0].new_name, "y.tyt");
}

#[test]
fn test_check_previews_and_tally() {
    let paths = vec!["/d/a1.txt".to_string(), "/d/a2.txt".to_string(), "/d/x".to_string()];
    let pattern = || RenamePattern::FindReplace {
        find: "1".to_string(),
        replace: "2".to_string(),
        case_sensitive: true,
    };
    let conflicting = preview_renames(paths.clone(), pattern(), false, &context()).unwrap();
    assert_eq!(
        check_previews(&conflicting),
        Err("Naming conflicts detected. Enable auto-rename or fix manually.".to_string())
    );
    let resolved = preview_renames(paths.clone(), pattern(), true, &context()).unwrap();
    assert_eq!(check_previews(&resolved), Ok(()));
    assert!(changes_path(&resolved[0]));
    assert!(changes_path(&resolved[1]));
    assert!(!changes_path(&resolved[2]));
    let emptied = preview_renames(
        vec!["/d/x".to_string(), "/d/y".to_string(), "/d/x".to_string()],
        RenamePattern::FindReplace { find: "x".to_string(), replace: "".to_string(), case_sensitive: true },
        false,
        &context(),
    )
    .unwrap();
    assert_eq!(
        check_previews(&emptied),
        Err("Validation errors: Name cannot be empty, Name cannot be empty".to_string())
    );
    assert_eq!(check_previews(&vec![]), Ok(()));
    let tally = tally_renames(&resolved, &vec![None, Some("denied".to_string()), None]);
    assert_eq!((tally.success, tally.failed), (2, 1));
    assert_eq!(tally.errors, vec!["a2.txt: denied".to_string()]);
    let nothing = tally_renames(&vec![], &vec![]);
    assert_eq!((nothing.success, nothing.failed), (0, 0));
}
