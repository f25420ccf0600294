use std::collections::{HashMap, HashSet};

use padu::file_ops::InlineFileOperationKind;
use padu::icons::{file_highlighter_language, file_icon_for_name, file_icon_for_path};
use padu::navigation::WorkingTreeEntry;
use padu::panel::{Padu, RightPanelSessionState};
use padu::review::{
    review_diff_directory_paths, review_diff_flat_rows, review_expanded_after_refresh,
    review_selected_after_refresh, sync_right_panel_diff_tree_rows, DiffFileLayout, review_diff_gap_directions,
    review_diff_gap_icon_path, review_diff_tree_rows, ExpansionDirection, FileStatus, GapPosition,
    ReviewDiffTreeRow, ReviewFile,
};
use padu::review_lines::{
    diff_row_selection_key, review_diff_collapsible_files, review_diff_list_splice,
    review_diff_visible_line_indices, DiffLine, LineKind,
};
use padu::surface::{
    fullscreen_cycle_next, fullscreen_tab_order, reusable_surface_index, right_panel_tab_icon,
    right_panel_tab_label, BackgroundWorkKey, BackgroundWorkKind, RightPanelSurface,
};

fn line(file_index: usize, kind: LineKind, content: &str) -> DiffLine {
    DiffLine {
        file_index,
        old_line: None,
        new_line: None,
        kind,
        content: content.to_owned(),
    }
}

/// The lines a diff of `@@\n+one\n+two\n \n+three\n` for one file reads as
/// when no positions are known.
fn positionless_lines() -> Vec<DiffLine> {
    vec![
        line(0, LineKind::FileHeader, "a.md"),
        line(0, LineKind::HunkHeader, "@@"),
        line(0, LineKind::Addition, "one"),
        line(0, LineKind::Addition, "two"),
        line(0, LineKind::Context, ""),
        line(0, LineKind::Addition, "three"),
    ]
}

#[test]
fn diff_row_selection_keys_are_unique_even_without_line_numbers() {
    let lines = positionless_lines();
    let keys = lines
        .iter()
        .enumerate()
        .filter(|(_, line)| {
            matches!(
                line.kind,
                LineKind::Context | LineKind::Addition | LineKind::Deletion
            )
        })
        .map(|(index, line)| diff_row_selection_key("activity", line, index))
        .collect::<Vec<_>>();
    let unique = keys.iter().collect::<HashSet<_>>();
    assert_eq!(unique.len(), keys.len(), "{keys:?}");

    let numbered = DiffLine {
        file_index: 0,
        old_line: Some(4),
        new_line: Some(6),
        kind: LineKind::Context,
        content: "kept".into(),
    };
    assert_eq!(
        diff_row_selection_key("review-diff", &numbered, 9),
        "review-diff-line-0-context-4-6",
    );
}

fn review_file(path: &str) -> ReviewFile {
    ReviewFile {
        path: path.into(),
        additions: 1,
        deletions: 0,
        status: FileStatus::Modified,
        diff_line: None,
    }
}

fn review_files() -> Vec<ReviewFile> {
    [
        "README.md",
        "src/app/runtime.rs",
        "src/app/view.rs",
        "src/lib.rs",
        "tests/review.rs",
    ]
    .into_iter()
    .map(review_file)
    .collect()
}

#[test]
fn review_gap_expansion_icons_match_pierre_visual_directions() {
    assert_eq!(
        review_diff_gap_directions(GapPosition::Leading, true),
        vec![ExpansionDirection::End]
    );
    assert_eq!(
        review_diff_gap_directions(GapPosition::Trailing, true),
        vec![ExpansionDirection::Start]
    );
    assert_eq!(
        review_diff_gap_directions(GapPosition::Between, false),
        vec![ExpansionDirection::Both]
    );
    assert_eq!(
        review_diff_gap_directions(GapPosition::Between, true),
        vec![ExpansionDirection::Start, ExpansionDirection::End]
    );

    assert_eq!(
        review_diff_gap_icon_path(ExpansionDirection::Start),
        "icons/chevron-down.svg"
    );
    assert_eq!(
        review_diff_gap_icon_path(ExpansionDirection::End),
        "icons/chevron-up.svg"
    );
    assert_eq!(
        review_diff_gap_icon_path(ExpansionDirection::Both),
        "icons/chevrons-up-down.svg"
    );
}

#[test]
fn review_tree_builds_shared_directories_once() {
    let files = review_files();
    let expanded = review_diff_directory_paths(&files);
    assert_eq!(
        review_diff_tree_rows(&files, &expanded, ""),
        vec![
            ReviewDiffTreeRow::File {
                file_index: 0,
                depth: 0,
            },
            ReviewDiffTreeRow::Directory {
                path: "src".into(),
                name: "src".into(),
                depth: 0,
                expanded: true,
            },
            ReviewDiffTreeRow::Directory {
                path: "src/app".into(),
                name: "app".into(),
                depth: 1,
                expanded: true,
            },
            ReviewDiffTreeRow::File {
                file_index: 1,
                depth: 2,
            },
            ReviewDiffTreeRow::File {
                file_index: 2,
                depth: 2,
            },
            ReviewDiffTreeRow::File {
                file_index: 3,
                depth: 1,
            },
            ReviewDiffTreeRow::Directory {
                path: "tests".into(),
                name: "tests".into(),
                depth: 0,
                expanded: true,
            },
            ReviewDiffTreeRow::File {
                file_index: 4,
                depth: 1,
            },
        ]
    );
}

#[test]
fn review_tree_collapse_hides_only_descendants() {
    let files = review_files();
    let expanded = vec!["src".to_owned()];
    let rows = review_diff_tree_rows(&files, &expanded, "");

    assert!(rows.contains(&ReviewDiffTreeRow::Directory {
        path: "src/app".into(),
        name: "app".into(),
        depth: 1,
        expanded: false,
    }));
    assert!(rows.contains(&ReviewDiffTreeRow::File {
        file_index: 3,
        depth: 1,
    }));
    assert!(!rows.iter().any(|row| {
        matches!(
            row,
            ReviewDiffTreeRow::File { file_index, .. } if *file_index == 1 || *file_index == 2
        )
    }));
}

#[test]
fn review_tree_filter_reveals_matching_path_and_ancestors() {
    let rows = review_diff_tree_rows(&review_files(), &[], "RUNTIME");
    assert_eq!(
        rows,
        vec![
            ReviewDiffTreeRow::Directory {
                path: "src".into(),
                name: "src".into(),
                depth: 0,
                expanded: true,
            },
            ReviewDiffTreeRow::Directory {
                path: "src/app".into(),
                name: "app".into(),
                depth: 1,
                expanded: true,
            },
            ReviewDiffTreeRow::File {
                file_index: 1,
                depth: 2,
            },
        ]
    );
}

#[test]
fn review_flat_layout_lists_filtered_files_by_full_path() {
    assert_eq!(
        review_diff_flat_rows(&review_files(), "APP"),
        vec![
            ReviewDiffTreeRow::File {
                file_index: 1,
                depth: 0,
            },
            ReviewDiffTreeRow::File {
                file_index: 2,
                depth: 0,
            },
        ]
    );
}

#[test]
fn review_visible_lines_keep_headers_when_files_collapse() {
    let lines = vec![
        line(0, LineKind::FileHeader, "a.rs"),
        line(0, LineKind::HunkHeader, "@@"),
        line(0, LineKind::Addition, "one"),
        line(1, LineKind::FileHeader, "b.rs"),
        line(1, LineKind::HunkHeader, "@@"),
        line(1, LineKind::Addition, "two"),
    ];
    assert_eq!(
        review_diff_visible_line_indices(&lines, &HashSet::new()).len(),
        lines.len()
    );

    let visible = review_diff_visible_line_indices(&lines, &HashSet::from([0]));
    assert!(visible.iter().any(|&index| {
        lines[index].file_index == 0 && lines[index].kind == LineKind::FileHeader
    }));
    assert!(!visible.iter().any(|&index| {
        lines[index].file_index == 0 && lines[index].kind != LineKind::FileHeader
    }));
    assert_eq!(
        visible
            .iter()
            .filter(|&&index| lines[index].file_index == 1)
            .count(),
        lines.iter().filter(|line| line.file_index == 1).count()
    );
    assert_eq!(review_diff_collapsible_files(&lines), vec![0, 1]);
}

#[test]
fn review_list_splice_collapses_a_contiguous_file_body() {
    assert_eq!(
        review_diff_list_splice(&[0, 1, 2, 3, 4], &[0, 3, 4]),
        Some((1..3, 0))
    );
}

#[test]
fn review_flat_layout_keeps_root_files_and_nested_files_at_one_depth() {
    let rows = review_diff_flat_rows(&review_files(), "");
    assert!(rows
        .iter()
        .all(|row| matches!(row, ReviewDiffTreeRow::File { depth: 0, .. })));
    assert_eq!(rows.len(), review_files().len());
}

#[test]
fn file_highlighter_language_follows_file_name_and_extension() {
    assert_eq!(file_highlighter_language("src/app.rs"), "rust");
    assert_eq!(file_highlighter_language("ui/panel.tsx"), "tsx");
    assert_eq!(file_highlighter_language("Sources/App.swift"), "swift");
    assert_eq!(file_highlighter_language("Makefile"), "make");
    assert_eq!(file_highlighter_language("src/native.hpp"), "cpp");
    assert_eq!(file_highlighter_language("LICENSE"), "text");

    for (path, expected_language) in [
        ("bun.lock", "json"),
        ("package-lock.json", "json"),
        ("deno.lock", "json"),
        ("composer.lock", "json"),
        ("Pipfile.lock", "json"),
        ("Package.resolved", "json"),
        ("Cargo.lock", "toml"),
        ("uv.lock", "toml"),
        ("poetry.lock", "toml"),
        ("pnpm-lock.yaml", "yaml"),
        ("yarn.lock", "yaml"),
        ("Podfile.lock", "yaml"),
        ("Gemfile.lock", "yaml"),
        ("mix.lock", "elixir"),
    ] {
        assert_eq!(file_highlighter_language(path), expected_language, "{path}");
    }
}

#[test]
fn working_tree_file_icons_follow_names_and_extensions() {
    assert_eq!(file_icon_for_name("main.rs"), "icons/file-types/rust.svg");
    assert_eq!(file_icon_for_name("Panel.tsx"), "icons/file-types/react.svg");
    assert_eq!(file_icon_for_name("README.md"), "icons/file-types/readme.svg");
    assert_eq!(
        file_icon_for_name("Dockerfile.dev"),
        "icons/file-types/docker.svg"
    );
    assert_eq!(file_icon_for_name("bun.lock"), "icons/file-types/bun.svg");
    assert_eq!(
        file_icon_for_name("pnpm-lock.yaml"),
        "icons/file-types/pnpm.svg"
    );
    assert_eq!(
        file_icon_for_name("vite.config.ts"),
        "icons/file-types/vite.svg"
    );
    assert_eq!(
        file_icon_for_name("unknown.data"),
        "icons/file-types/file.svg"
    );
}

#[test]
fn files_tab_uses_the_selected_file_name_and_icon() {
    let files = RightPanelSurface::Files;
    assert_eq!(right_panel_tab_label(&files, None), "Files");
    assert_eq!(
        right_panel_tab_label(&files, Some("packages/desktop/bun.lock")),
        "bun.lock"
    );
    assert_eq!(
        right_panel_tab_icon(&files, Some("packages/desktop/bun.lock")),
        "icons/file-types/bun.svg"
    );

    let file = RightPanelSurface::File("src/main.rs".into());
    assert_eq!(right_panel_tab_label(&file, None), "main.rs");
    assert_eq!(right_panel_tab_icon(&file, None), "icons/file-types/rust.svg");
}

#[test]
fn right_panel_tab_titles_stay_on_one_line() {
    let background = RightPanelSurface::BackgroundWork {
        key: BackgroundWorkKey::new(BackgroundWorkKind::Process, "process-1"),
        title: "node -e '\n  const value = 1'".into(),
    };
    assert_eq!(
        right_panel_tab_label(&background, None),
        "node -e ' const value = 1'"
    );
}

#[test]
fn only_reuses_single_instance_surface_tabs() {
    let browser = RightPanelSurface::new_browser();
    let terminal = RightPanelSurface::new_terminal();
    let background = RightPanelSurface::BackgroundWork {
        key: BackgroundWorkKey::new(BackgroundWorkKind::Process, "process-1"),
        title: "Process one".into(),
    };
    let surfaces = vec![
        browser,
        terminal,
        background,
        RightPanelSurface::Files,
        RightPanelSurface::Diff,
    ];

    assert_eq!(
        reusable_surface_index(&surfaces, &RightPanelSurface::new_browser()),
        None
    );
    assert_eq!(
        reusable_surface_index(&surfaces, &RightPanelSurface::new_terminal()),
        None
    );
    assert_eq!(
        reusable_surface_index(
            &surfaces,
            &RightPanelSurface::BackgroundWork {
                key: BackgroundWorkKey::new(BackgroundWorkKind::Process, "process-1"),
                title: "Renamed process".into(),
            },
        ),
        Some(2)
    );
    assert_eq!(
        reusable_surface_index(&surfaces, &RightPanelSurface::Files),
        Some(3)
    );
    assert_eq!(
        reusable_surface_index(&surfaces, &RightPanelSurface::Diff),
        Some(4)
    );
}

#[test]
fn right_panel_surface_shortcuts() {
    assert_eq!(
        RightPanelSurface::new_browser().shortcut(),
        Some(("⌥⌘B", "Ctrl+Alt+B"))
    );
    assert_eq!(
        RightPanelSurface::new_terminal().shortcut(),
        Some(("⌘T", "Ctrl+T"))
    );
    assert_eq!(
        RightPanelSurface::Files.shortcut(),
        Some(("⇧⌘E", "Ctrl+Shift+E"))
    );
    assert_eq!(RightPanelSurface::Diff.shortcut(), Some(("⌘D", "Ctrl+D")));
    assert_eq!(RightPanelSurface::File("src/main.rs".into()).shortcut(), None);
}

#[test]
fn right_panel_state_isolated_by_session() {
    let session_with_terminal = uuid::Uuid::new_v4().as_u128();
    let other_session = uuid::Uuid::new_v4().as_u128();
    let terminal_id = uuid::Uuid::new_v4().as_u128();
    let mut states = HashMap::new();
    let mut terminal_state = RightPanelSessionState::empty(true);
    terminal_state.surfaces = vec![RightPanelSurface::Terminal(terminal_id)];
    terminal_state.active_surface = Some(0);
    terminal_state.fullscreen = true;
    terminal_state.fullscreen_conversation = true;
    states.insert(session_with_terminal, terminal_state);

    let other_state = RightPanelSessionState::take_or_closed(&mut states, other_session);
    assert!(!other_state.visible);
    assert!(!other_state.fullscreen);
    assert!(!other_state.fullscreen_conversation);
    assert!(other_state.surfaces.is_empty());
    assert_eq!(other_state.active_surface, None);

    let restored = RightPanelSessionState::take_or_closed(&mut states, session_with_terminal);
    assert!(restored.visible);
    assert!(restored.fullscreen);
    assert!(restored.fullscreen_conversation);
    assert_eq!(
        restored.surfaces,
        vec![RightPanelSurface::Terminal(terminal_id)]
    );
    assert_eq!(restored.active_surface, Some(0));
}

#[test]
fn fullscreen_tabs_start_with_conversation_then_surfaces() {
    assert_eq!(fullscreen_tab_order(0), vec![None]);
    assert_eq!(fullscreen_tab_order(2), vec![None, Some(0), Some(1)]);
    assert_eq!(fullscreen_cycle_next(0, 2, 1), 1);
    assert_eq!(fullscreen_cycle_next(2, 2, 1), 0);
    assert_eq!(fullscreen_cycle_next(0, 2, -1), 2);
    assert_eq!(fullscreen_cycle_next(1, 2, -1), 0);
}

#[test]
fn fullscreen_tabs_cycling_covers_all_surfaces_and_conversation() {
    let num_surfaces = 4;
    let order = fullscreen_tab_order(num_surfaces);
    assert_eq!(order, vec![None, Some(0), Some(1), Some(2), Some(3)]);

    let mut pos = 0;
    let expected_forward = [1, 2, 3, 4, 0];
    for expected in expected_forward {
        pos = fullscreen_cycle_next(pos, num_surfaces, 1);
        assert_eq!(pos, expected);
    }

    let expected_backward = [4, 3, 2, 1, 0];
    for expected in expected_backward {
        pos = fullscreen_cycle_next(pos, num_surfaces, -1);
        assert_eq!(pos, expected);
    }
}

#[test]
fn only_browser_terminal_files_and_review_gate_fullscreen() {
    assert!(Padu::right_panel_surface_is_expandable(&RightPanelSurface::new_browser()));
    assert!(Padu::right_panel_surface_is_expandable(&RightPanelSurface::new_terminal()));
    assert!(Padu::right_panel_surface_is_expandable(&RightPanelSurface::Files));
    assert!(Padu::right_panel_surface_is_expandable(&RightPanelSurface::File(
        "src/main.rs".into()
    )));
    assert!(Padu::right_panel_surface_is_expandable(&RightPanelSurface::Diff));
    assert!(!Padu::right_panel_surface_is_expandable(
        &RightPanelSurface::BackgroundWork {
            key: BackgroundWorkKey::new(BackgroundWorkKind::Process, "process-1"),
            title: "Process one".into(),
        }
    ));
}

#[test]
fn working_tree_entry_preserves_ignored_state() {
    let entry = WorkingTreeEntry {
        relative_path: "target".into(),
        absolute_path: "/project/target".into(),
        name: "target".into(),
        is_dir: true,
        is_ignored: true,
        file_icon: None,
        expanded: false,
        depth: 0,
    };
    assert!(entry.is_ignored);
    assert!(entry.is_dir);

    let inline_create = InlineFileOperationKind::CreateFile {
        parent: "/project/src".into(),
        depth: 1,
    };
    assert_eq!(
        inline_create,
        InlineFileOperationKind::CreateFile {
            parent: "/project/src".into(),
            depth: 1,
        }
    );
}

#[test]
fn file_icons_for_paths_use_the_last_name() {
    assert_eq!(file_icon_for_path("src/app/main.rs"), "icons/file-types/rust.svg");
    assert_eq!(file_icon_for_path("docs/"), "icons/file-types/file.svg");
    assert_eq!(file_icon_for_path("a/.gitignore"), "icons/file-types/git.svg");
    assert_eq!(file_icon_for_path("web/Button.stories.tsx"), "icons/file-types/storybook.svg");
    assert_eq!(file_highlighter_language("build/Dockerfile.prod"), "dockerfile");
    assert_eq!(file_highlighter_language("notes.MD"), "markdown");
    assert_eq!(file_highlighter_language(".bashrc"), "text");
}

#[test]
fn refreshed_reviews_keep_expansion_and_selection_by_path() {
    let before: Vec<ReviewFile> = ["src/app/view.rs", "src/lib.rs", "docs/a.md"]
        .into_iter()
        .map(review_file)
        .collect();
    let after: Vec<ReviewFile> = ["src/lib.rs", "src/app/view.rs", "web/index.ts"]
        .into_iter()
        .map(review_file)
        .collect();

    // The first review opens every directory.
    let first: HashSet<String> = review_expanded_after_refresh(&[], None, &after)
        .into_iter()
        .collect();
    assert_eq!(
        first,
        HashSet::from(["src".to_string(), "src/app".to_string(), "web".to_string()])
    );

    // Later, a collapsed directory stays collapsed, a vanished one goes and a
    // new one opens.
    let expanded = vec!["src".to_string(), "docs".to_string()];
    let before_directories = review_diff_directory_paths(&before);
    let next: HashSet<String> =
        review_expanded_after_refresh(&expanded, Some(&before_directories), &after)
        .into_iter()
        .collect();
    assert_eq!(next, HashSet::from(["src".to_string(), "web".to_string()]));

    assert_eq!(review_selected_after_refresh(Some(0), Some(&before), &after), Some(1));
    assert_eq!(review_selected_after_refresh(Some(2), Some(&before), &after), Some(0));
    assert_eq!(review_selected_after_refresh(None, Some(&before), &after), Some(0));
    assert_eq!(review_selected_after_refresh(Some(9), Some(&before), &after), Some(0));
    assert_eq!(review_selected_after_refresh(Some(0), Some(&before), &[]), None);
}

#[test]
fn syncing_review_rows_keeps_the_cursor_on_its_entry() {
    let files = review_files();
    let expanded = review_diff_directory_paths(&files);
    let (tree, cursor) =
        sync_right_panel_diff_tree_rows(Some(&files), DiffFileLayout::Tree, &expanded, "", &[], None, None);
    assert_eq!(tree, review_diff_tree_rows(&files, &expanded, ""));
    assert_eq!(cursor, Some(0));

    // The cursor stays on the file it was on when the layout flattens.
    let on_view = tree
        .iter()
        .position(|row| matches!(row, ReviewDiffTreeRow::File { file_index: 2, .. }))
        .unwrap();
    let (flat, cursor) = sync_right_panel_diff_tree_rows(
        Some(&files),
        DiffFileLayout::Flat,
        &expanded,
        "",
        &tree,
        Some(on_view),
        None,
    );
    assert_eq!(flat, review_diff_flat_rows(&files, ""));
    assert_eq!(flat[cursor.unwrap()], ReviewDiffTreeRow::File { file_index: 2, depth: 0 });

    // Without a previous row the selected file wins; without a review, nothing.
    let (_, cursor) =
        sync_right_panel_diff_tree_rows(Some(&files), DiffFileLayout::Flat, &[], "", &[], None, Some(4));
    assert_eq!(cursor, Some(4));
    let (rows, cursor) =
        sync_right_panel_diff_tree_rows(None, DiffFileLayout::Tree, &expanded, "", &tree, Some(0), Some(1));
    assert!(rows.is_empty());
    assert_eq!(cursor, None);
}
