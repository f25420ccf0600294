use padu::navigation::{
    right_panel_diff_tree_key_down, right_panel_working_tree_key_down, TreeKeyAction,
    WorkingTreeEntry, WorkingTreeKeyAction,
};
use padu::review::{review_tree_cursor_after_sync, toggle_right_panel_diff_directory, ReviewDiffTreeRow};
use padu::review_lines::{diff_row_selection_key, DiffLine, LineKind};

fn rows() -> Vec<ReviewDiffTreeRow> {
    vec![
        ReviewDiffTreeRow::Directory {
            path: "src".into(),
            name: "src".into(),
            depth: 0,
            expanded: true,
        },
        ReviewDiffTreeRow::File {
            file_index: 3,
            depth: 1,
        },
        ReviewDiffTreeRow::Directory {
            path: "tests".into(),
            name: "tests".into(),
            depth: 0,
            expanded: false,
        },
    ]
}

#[test]
fn tree_keys_move_toggle_and_select() {
    let rows = rows();
    assert_eq!(right_panel_diff_tree_key_down(&rows, Some(1), "up", false), TreeKeyAction::MoveCursor(0));
    assert_eq!(right_panel_diff_tree_key_down(&rows, Some(2), "down", false), TreeKeyAction::MoveCursor(2));
    assert_eq!(right_panel_diff_tree_key_down(&rows, Some(9), "end", false), TreeKeyAction::MoveCursor(2));
    assert_eq!(right_panel_diff_tree_key_down(&rows, Some(1), "left", false), TreeKeyAction::MoveCursor(0));
    assert_eq!(
        right_panel_diff_tree_key_down(&rows, Some(0), "left", false),
        TreeKeyAction::ToggleDirectory("src".into())
    );
    assert_eq!(right_panel_diff_tree_key_down(&rows, Some(0), "right", false), TreeKeyAction::MoveCursor(1));
    assert_eq!(
        right_panel_diff_tree_key_down(&rows, Some(2), "right", false),
        TreeKeyAction::ToggleDirectory("tests".into())
    );
    assert_eq!(right_panel_diff_tree_key_down(&rows, Some(1), "enter", false), TreeKeyAction::SelectFile(3));
    assert_eq!(right_panel_diff_tree_key_down(&rows, Some(1), "right", false), TreeKeyAction::Consumed);
    assert_eq!(right_panel_diff_tree_key_down(&rows, Some(1), "x", false), TreeKeyAction::Ignored);
    assert_eq!(right_panel_diff_tree_key_down(&rows, Some(1), "up", true), TreeKeyAction::Ignored);
    assert_eq!(right_panel_diff_tree_key_down(&[], None, "up", false), TreeKeyAction::Ignored);
}

fn entry(relative: &str, is_dir: bool, expanded: bool, depth: usize) -> WorkingTreeEntry {
    WorkingTreeEntry {
        relative_path: relative.into(),
        absolute_path: format!("/p/{relative}"),
        name: relative.rsplit('/').next().unwrap_or(relative).into(),
        is_dir,
        is_ignored: false,
        file_icon: None,
        expanded,
        depth,
    }
}

#[test]
fn working_tree_keys_act_on_the_cursor_entry() {
    let entries = vec![
        entry("src", true, true, 0),
        entry("src/main.rs", false, false, 1),
        entry("docs", true, false, 0),
    ];
    assert_eq!(
        right_panel_working_tree_key_down(&entries, Some(1), "left"),
        WorkingTreeKeyAction::MoveCursor(0)
    );
    assert_eq!(
        right_panel_working_tree_key_down(&entries, Some(0), "left"),
        WorkingTreeKeyAction::Collapse("/p/src".into())
    );
    assert_eq!(
        right_panel_working_tree_key_down(&entries, Some(2), "right"),
        WorkingTreeKeyAction::Expand("/p/docs".into())
    );
    assert_eq!(
        right_panel_working_tree_key_down(&entries, Some(0), "right"),
        WorkingTreeKeyAction::MoveCursor(1)
    );
    assert_eq!(
        right_panel_working_tree_key_down(&entries, Some(1), "enter"),
        WorkingTreeKeyAction::OpenFile("src/main.rs".into())
    );
    assert_eq!(
        right_panel_working_tree_key_down(&entries, Some(2), "space"),
        WorkingTreeKeyAction::Toggle("/p/docs".into())
    );
    assert_eq!(
        right_panel_working_tree_key_down(&entries, Some(1), "f2"),
        WorkingTreeKeyAction::Rename("/p/src/main.rs".into())
    );
    assert_eq!(
        right_panel_working_tree_key_down(&entries, Some(1), "backspace"),
        WorkingTreeKeyAction::Delete("/p/src/main.rs".into())
    );
    assert_eq!(
        right_panel_working_tree_key_down(&entries, None, "tab"),
        WorkingTreeKeyAction::Ignored
    );
    assert_eq!(right_panel_working_tree_key_down(&[], None, "up"), WorkingTreeKeyAction::Ignored);
}

#[test]
fn the_cursor_follows_its_entry_across_a_rebuild() {
    let rows = rows();
    let previous = ReviewDiffTreeRow::Directory {
        path: "tests".into(),
        name: "tests".into(),
        depth: 0,
        expanded: true,
    };
    assert_eq!(review_tree_cursor_after_sync(Some(&previous), &rows, None), Some(2));
    assert_eq!(review_tree_cursor_after_sync(None, &rows, Some(3)), Some(1));
    assert_eq!(review_tree_cursor_after_sync(None, &rows, Some(7)), Some(0));
    assert_eq!(review_tree_cursor_after_sync(None, &[], Some(7)), None);
}

#[test]
fn toggling_a_directory_twice_restores_it() {
    let mut expanded = vec!["src".to_owned()];
    toggle_right_panel_diff_directory(&mut expanded, "src".into());
    assert!(expanded.is_empty());
    toggle_right_panel_diff_directory(&mut expanded, "src".into());
    assert_eq!(expanded, vec!["src".to_owned()]);
}

#[test]
fn numbered_and_unnumbered_keys() {
    let mut row = DiffLine {
        file_index: 12,
        old_line: None,
        new_line: Some(105),
        kind: LineKind::Addition,
        content: "x".into(),
    };
    assert_eq!(diff_row_selection_key("p", &row, 3), "p-line-12-addition-0-105");
    row.new_line = None;
    row.kind = LineKind::HunkHeader;
    assert_eq!(diff_row_selection_key("p", &row, 30), "p-line-12-other-i30");
}
