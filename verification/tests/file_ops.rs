use std::collections::HashMap;

use padu::review_panel::ReviewPanel;
use padu::review_source::ReviewDiffSource;
use padu::file_ops::{
    chat_reference_path, inline_create_row_slots, inline_create_target, InlineCommit, InlineFileOperationKind,
    WorkspaceChange,
};
use padu::panel::Padu;

const ROOT: &str = "/project";

fn padu() -> Padu {
    Padu {
        right_panel_visible: true,
        right_panel_fullscreen: false,
        right_panel_fullscreen_conversation: false,
        right_panel_surfaces: Vec::new(),
        right_panel_active_surface: None,
        right_panel_pending_tab_reveal: None,
        right_panel_pending_terminal_focus: None,
        right_panel_pending_browser_focus: None,
        right_panel_files_selected_path: None,
        right_panel_files_cursor: None,
        right_panel_working_tree_paths: Vec::new(),
        right_panel_file_editors: Vec::new(),
        right_panel_expanded_paths: Vec::new(),
        right_panel_inline_file_operation: None,
        right_panel_review: ReviewPanel::new(ReviewDiffSource::Uncommitted),
        has_active_project: true,
        remote_daemon: false,
        selected_session: Some(1),
        right_panel_session_states: HashMap::new(),
        last_seen_version: None,
        whats_new: None,
    }
}

#[test]
fn creating_expands_the_parent_once() {
    let mut p = padu();
    assert!(p.begin_inline_create(false, "/project/src".into(), 1));
    assert_eq!(p.right_panel_expanded_paths, vec!["/project/src".to_string()]);
    assert_eq!(
        p.right_panel_inline_file_operation,
        Some(InlineFileOperationKind::CreateFile {
            parent: "/project/src".into(),
            depth: 1
        })
    );
    // Already expanded, spelled with a trailing separator: no second entry.
    assert!(!p.begin_inline_create(true, "/project/src/".into(), 1));
    assert_eq!(p.right_panel_expanded_paths.len(), 1);
    assert_eq!(
        p.right_panel_inline_file_operation,
        Some(InlineFileOperationKind::CreateDirectory {
            parent: "/project/src/".into(),
            depth: 1
        })
    );
}

#[test]
fn committing_a_create_asks_for_the_name_under_the_parent() {
    let mut p = padu();
    p.begin_inline_create(false, "/project/src".into(), 1);
    assert_eq!(
        p.commit_inline_file_operation("  lib.rs \n", Some(ROOT)),
        InlineCommit::Requested(WorkspaceChange::CreateFile {
            root: ROOT.into(),
            relative_path: "src/lib.rs".into(),
        })
    );
    assert_eq!(p.right_panel_inline_file_operation, None);

    p.begin_inline_create(true, "/project".into(), 0);
    assert_eq!(
        p.commit_inline_file_operation("docs", Some(ROOT)),
        InlineCommit::Requested(WorkspaceChange::CreateDirectory {
            root: ROOT.into(),
            relative_path: "docs".into(),
        })
    );
}

#[test]
fn blank_and_invalid_names() {
    let mut p = padu();
    assert_eq!(
        p.commit_inline_file_operation("x", Some(ROOT)),
        InlineCommit::NoOperation
    );
    p.begin_inline_create(false, "/project/src".into(), 1);
    assert_eq!(
        p.commit_inline_file_operation("a/b", Some(ROOT)),
        InlineCommit::InvalidName
    );
    assert!(p.right_panel_inline_file_operation.is_some());
    assert_eq!(
        p.commit_inline_file_operation("a\\b", Some(ROOT)),
        InlineCommit::InvalidName
    );
    assert_eq!(
        p.commit_inline_file_operation("   ", Some(ROOT)),
        InlineCommit::Closed
    );
    assert!(p.right_panel_inline_file_operation.is_none());

    p.begin_inline_create(false, "/elsewhere".into(), 1);
    assert_eq!(
        p.commit_inline_file_operation("a.rs", Some(ROOT)),
        InlineCommit::Closed
    );
    p.begin_inline_create(false, "/project".into(), 1);
    assert_eq!(
        p.commit_inline_file_operation("a.rs", None),
        InlineCommit::Closed
    );
}

#[test]
fn renaming_selects_the_stem_and_moves_the_selection() {
    let mut p = padu();
    let (name, selection) = p.begin_inline_rename("/project/src/main.rs".into(), true);
    assert_eq!(name, "main.rs");
    assert_eq!(selection, 0..4);
    let (_, selection) = p.begin_inline_rename("/project/.gitignore".into(), true);
    assert_eq!(selection, 0..10);
    let (_, selection) = p.begin_inline_rename("/project/archive.tar.gz".into(), true);
    assert_eq!(selection, 0..11);
    let (_, selection) = p.begin_inline_rename("/project/src.d".into(), false);
    assert_eq!(selection, 0..5);

    p.right_panel_files_selected_path = Some("src/main.rs".into());
    p.begin_inline_rename("/project/src/main.rs".into(), true);
    assert_eq!(
        p.commit_inline_file_operation("main.rs", Some(ROOT)),
        InlineCommit::Closed
    );
    p.begin_inline_rename("/project/src/main.rs".into(), true);
    assert_eq!(
        p.commit_inline_file_operation("app.rs", Some(ROOT)),
        InlineCommit::Requested(WorkspaceChange::RenamePath {
            root: ROOT.into(),
            from: "src/main.rs".into(),
            to: "src/app.rs".into(),
        })
    );
    assert_eq!(p.right_panel_files_selected_path, Some("src/app.rs".into()));

    p.begin_inline_rename("/project/README.md".into(), true);
    assert_eq!(
        p.commit_inline_file_operation("README.txt", Some(ROOT)),
        InlineCommit::Requested(WorkspaceChange::RenamePath {
            root: ROOT.into(),
            from: "README.md".into(),
            to: "README.txt".into(),
        })
    );
    assert_eq!(p.right_panel_files_selected_path, Some("src/app.rs".into()));
}

#[test]
fn cancelling_closes_the_operation() {
    let mut p = padu();
    assert!(!p.cancel_inline_file_operation());
    p.begin_inline_rename("/project/a".into(), false);
    assert!(p.cancel_inline_file_operation());
    assert_eq!(p.right_panel_inline_file_operation, None);
}

#[test]
fn deleting_lets_go_of_the_selection() {
    let mut p = padu();
    p.right_panel_files_selected_path = Some("src/main.rs".into());
    assert_eq!(
        p.execute_delete_path("/project/src/lib.rs", Some(ROOT)),
        Some(WorkspaceChange::DeletePath {
            root: ROOT.into(),
            relative_path: "src/lib.rs".into(),
        })
    );
    assert_eq!(p.right_panel_files_selected_path, Some("src/main.rs".into()));
    assert!(p.execute_delete_path("/project/src/main.rs", Some(ROOT)).is_some());
    assert_eq!(p.right_panel_files_selected_path, None);
    assert_eq!(p.execute_delete_path("/other/x", Some(ROOT)), None);
    assert_eq!(p.execute_delete_path("/project/x", None), None);
}

#[test]
fn submitting_refocuses_the_tree_once_the_operation_closes() {
    let mut p = padu();
    assert_eq!(
        p.submit_inline_file_operation("a.rs", Some(ROOT)),
        (InlineCommit::NoOperation, false)
    );
    p.begin_inline_create(false, "/project".into(), 0);
    assert_eq!(
        p.submit_inline_file_operation("a/b", Some(ROOT)),
        (InlineCommit::InvalidName, false)
    );
    let (commit, refocus) = p.submit_inline_file_operation("a.rs", Some(ROOT));
    assert!(refocus);
    assert_eq!(
        commit,
        InlineCommit::Requested(WorkspaceChange::CreateFile {
            root: ROOT.into(),
            relative_path: "a.rs".into()
        })
    );
}

#[test]
fn new_entries_from_a_row_menu_go_inside_a_directory_or_beside_a_file() {
    assert_eq!(inline_create_target(true, "/project/src", 1), ("/project/src".to_string(), 2));
    assert_eq!(inline_create_target(false, "/project/src/main.rs", 1), ("/project/src".to_string(), 1));
    assert_eq!(inline_create_target(false, "/", 0), ("/".to_string(), 0));
}

#[test]
fn add_to_chat_marks_directories_with_a_slash() {
    assert_eq!(chat_reference_path("src/app", true), "src/app/");
    assert_eq!(chat_reference_path("src/app/main.rs", false), "src/app/main.rs");
}

#[test]
fn the_create_row_follows_its_parent_row() {
    let rows = vec!["/p/a".to_string(), "/p/a/x.rs".to_string(), "/p/b".to_string()];
    assert_eq!(inline_create_row_slots(Some("/p"), "/p", &rows), vec![0]);
    assert_eq!(inline_create_row_slots(Some("/p"), "/p/a", &rows), vec![1]);
    assert_eq!(inline_create_row_slots(Some("/p"), "/p/b/", &rows), vec![3]);
    assert_eq!(inline_create_row_slots(None, "/p/c", &rows), vec![3]);
}
