use std::collections::HashSet;

use padu::review::{DiffFileLayout, FileStatus, ReviewDiffTreeRow, ReviewFile};
use padu::review_panel::{DiffLanding, ReviewPanel};
use padu::review_source::ReviewDiffSource;

const PROJECT: &str = "/work/padu";

fn file(path: &str, diff_line: Option<usize>) -> ReviewFile {
    ReviewFile {
        path: path.into(),
        additions: 1,
        deletions: 0,
        status: FileStatus::Modified,
        diff_line,
    }
}

fn expanded(panel: &ReviewPanel) -> HashSet<String> {
    panel.expanded_paths.iter().cloned().collect()
}

#[test]
fn a_review_needs_a_session_and_a_project() {
    let mut panel = ReviewPanel::new(ReviewDiffSource::Uncommitted);
    assert!(panel.refresh_right_panel_diff(None, Some(PROJECT), "Review unavailable").is_none());
    assert_eq!(panel.error.as_deref(), Some("Review unavailable"));
    assert!(!panel.loading);
    assert!(panel.refresh_right_panel_diff(Some(1), None, "Review unavailable").is_none());
}

#[test]
fn a_landed_review_opens_its_directories_and_selects_the_first_file() {
    let mut panel = ReviewPanel::new(ReviewDiffSource::Uncommitted);
    let request = panel
        .refresh_right_panel_diff(Some(1), Some(PROJECT), "unavailable")
        .unwrap();
    assert!(panel.loading);
    assert_eq!(request.generation, 1);
    assert!(request.previous_directories.is_none());
    let landing = panel.apply_right_panel_diff(
        &request,
        Some(1),
        Some(PROJECT),
        Ok(vec![file("src/a.rs", Some(0)), file("src/b/c.rs", Some(9))]),
        "",
    );
    assert_eq!(landing, DiffLanding::Shown);
    assert!(!panel.loading);
    assert_eq!(
        expanded(&panel),
        HashSet::from(["src".to_string(), "src/b".to_string()])
    );
    assert_eq!(panel.selected_file, Some(0));
    // The cursor lands on the selected file's row, below its directory.
    let cursor = panel.tree_cursor.unwrap();
    assert!(matches!(
        panel.tree_rows[cursor],
        ReviewDiffTreeRow::File { file_index: 0, .. }
    ));
}

#[test]
fn a_reload_keeps_collapsed_directories_and_the_selected_file() {
    let mut panel = ReviewPanel::new(ReviewDiffSource::Staged);
    let first = panel.refresh_right_panel_diff(Some(1), Some(PROJECT), "x").unwrap();
    panel.apply_right_panel_diff(
        &first,
        Some(1),
        Some(PROJECT),
        Ok(vec![file("src/a.rs", Some(0)), file("src/b/c.rs", Some(9))]),
        "",
    );
    assert!(panel.toggle_right_panel_diff_directory("src/b".into(), ""));
    assert_eq!(panel.select_right_panel_diff_file(1), Some(9));
    let second = panel.refresh_right_panel_diff(Some(1), Some(PROJECT), "x").unwrap();
    assert_eq!(second.selected_path.as_deref(), Some("src/b/c.rs"));
    panel.apply_right_panel_diff(
        &second,
        Some(1),
        Some(PROJECT),
        Ok(vec![
            file("docs/new.md", Some(0)),
            file("src/a.rs", Some(5)),
            file("src/b/c.rs", Some(9)),
        ]),
        "",
    );
    assert_eq!(
        expanded(&panel),
        HashSet::from(["src".to_string(), "docs".to_string()])
    );
    assert_eq!(panel.selected_file, Some(2));
}

#[test]
fn a_superseded_or_foreign_reload_is_dropped() {
    let mut panel = ReviewPanel::new(ReviewDiffSource::Uncommitted);
    let first = panel.refresh_right_panel_diff(Some(1), Some(PROJECT), "x").unwrap();
    let second = panel.refresh_right_panel_diff(Some(1), Some(PROJECT), "x").unwrap();
    assert_eq!(
        panel.apply_right_panel_diff(&first, Some(1), Some(PROJECT), Ok(vec![]), ""),
        DiffLanding::Stale
    );
    assert!(panel.loading);
    assert_eq!(
        panel.apply_right_panel_diff(&second, Some(2), Some(PROJECT), Ok(vec![]), ""),
        DiffLanding::Stale
    );
    assert_eq!(
        panel.apply_right_panel_diff(&second, Some(1), Some("/work/other"), Ok(vec![]), ""),
        DiffLanding::Stale
    );
    assert_eq!(
        panel.apply_right_panel_diff(&second, Some(1), Some("/work/padu/"), Ok(vec![]), ""),
        DiffLanding::Shown
    );
}

#[test]
fn failures_show_in_place_or_over_the_kept_review() {
    let mut panel = ReviewPanel::new(ReviewDiffSource::Branch);
    let request = panel.refresh_right_panel_diff(Some(1), Some(PROJECT), "x").unwrap();
    assert_eq!(
        panel.apply_right_panel_diff(&request, Some(1), Some(PROJECT), Err("git failed".into()), ""),
        DiffLanding::Failed
    );
    assert_eq!(panel.error.as_deref(), Some("git failed"));

    let request = panel.refresh_right_panel_diff(Some(1), Some(PROJECT), "x").unwrap();
    panel.apply_right_panel_diff(&request, Some(1), Some(PROJECT), Ok(vec![file("a.rs", None)]), "");
    let request = panel.refresh_right_panel_diff(Some(1), Some(PROJECT), "x").unwrap();
    assert_eq!(
        panel.apply_right_panel_diff(&request, Some(1), Some(PROJECT), Err("again".into()), ""),
        DiffLanding::FailedOverReview("again".into())
    );
    assert!(panel.files.is_some());
    assert!(panel.error.is_none());
}

#[test]
fn switching_source_or_layout() {
    let mut panel = ReviewPanel::new(ReviewDiffSource::Uncommitted);
    let request = panel.refresh_right_panel_diff(Some(1), Some(PROJECT), "x").unwrap();
    panel.apply_right_panel_diff(
        &request,
        Some(1),
        Some(PROJECT),
        Ok(vec![file("src/a.rs", Some(0)), file("b.rs", Some(4))]),
        "",
    );
    assert!(panel.set_right_panel_diff_file_layout(DiffFileLayout::Flat, ""));
    assert!(!panel.set_right_panel_diff_file_layout(DiffFileLayout::Flat, ""));
    assert!(panel
        .tree_rows
        .iter()
        .all(|row| matches!(row, ReviewDiffTreeRow::File { depth: 0, .. })));
    assert_eq!(panel.select_right_panel_diff_file(7), None);

    assert!(!panel.set_right_panel_diff_source(ReviewDiffSource::Uncommitted));
    assert!(panel.set_right_panel_diff_source(ReviewDiffSource::Staged));
    assert!(panel.files.is_none());
    assert!(panel.tree_rows.is_empty());
    assert!(panel.expanded_paths.is_empty());
}
