use std::collections::HashMap;

use padu::review::{DiffFileLayout, FileStatus, ReviewFile};
use padu::review_panel::ReviewPanel;
use padu::review_source::ReviewDiffSource;
use padu::panel::{FileEditor, FocusTarget, LinkOutcome, Padu, PanelEffect};
use padu::surface::RightPanelSurface;

fn editor(path: &str, dirty: bool) -> FileEditor {
    FileEditor {
        path: path.into(),
        disk_content: String::new(),
        writable: true,
        dirty,
        reading: false,
        read_epoch: 0,
    }
}

fn padu() -> Padu {
    Padu {
        right_panel_visible: false,
        right_panel_fullscreen: false,
        right_panel_fullscreen_conversation: false,
        right_panel_surfaces: Vec::new(),
        right_panel_active_surface: None,
        right_panel_pending_tab_reveal: None,
        right_panel_pending_terminal_focus: None,
        right_panel_pending_browser_focus: None,
        right_panel_files_selected_path: None,
        right_panel_files_cursor: None,
        right_panel_working_tree_paths: vec!["src".into(), "src/main.rs".into()],
        right_panel_file_editors: Vec::new(),
        right_panel_expanded_paths: Vec::new(),
        right_panel_inline_file_operation: None,
        right_panel_review: ReviewPanel::new(ReviewDiffSource::Uncommitted),
        has_active_project: true,
        remote_daemon: false,
        selected_session: None,
        right_panel_session_states: HashMap::new(),
        last_seen_version: None,
        whats_new: None,
    }
}

#[test]
fn opening_a_surface_shows_it_and_reuses_single_instance_tabs() {
    let mut p = padu();
    let effects = p.open_right_panel_surface(RightPanelSurface::Diff);
    assert_eq!(
        effects,
        vec![
            PanelEffect::WidenForReview,
            PanelEffect::RefreshDiff,
            PanelEffect::ScrollToTab(0),
            PanelEffect::SetVisible(true),
        ]
    );
    assert!(p.right_panel_visible);
    assert_eq!(p.right_panel_active_surface, Some(0));

    p.open_right_panel_surface(RightPanelSurface::Files);
    assert_eq!(p.right_panel_active_surface, Some(1));
    let again = p.open_right_panel_surface(RightPanelSurface::Diff);
    assert_eq!(p.right_panel_surfaces.len(), 2);
    assert_eq!(p.right_panel_active_surface, Some(0));
    assert_eq!(
        again,
        vec![
            PanelEffect::RefreshDiff,
            PanelEffect::ScrollToTab(0),
            PanelEffect::SetVisible(true),
        ]
    );
}

#[test]
fn opening_a_terminal_starts_it_and_asks_it_to_take_focus() {
    let mut p = padu();
    let effects = p.open_right_panel_surface(RightPanelSurface::Terminal(7));
    assert_eq!(
        effects,
        vec![
            PanelEffect::EnsureTerminal(7),
            PanelEffect::ScrollToTab(0),
            PanelEffect::SetVisible(true),
        ]
    );
    assert_eq!(p.right_panel_pending_terminal_focus, Some(7));
    assert_eq!(p.right_panel_pending_browser_focus, None);
}

#[test]
fn closing_keeps_the_active_surface_and_tears_down_its_views() {
    let mut p = padu();
    p.open_right_panel_surface(RightPanelSurface::Browser(1));
    p.open_right_panel_surface(RightPanelSurface::Files);
    p.open_right_panel_surface(RightPanelSurface::Terminal(3));
    assert_eq!(p.right_panel_active_surface, Some(2));
    let effects = p.close_right_panel_surface(0);
    assert_eq!(
        effects,
        vec![PanelEffect::DestroyBrowser(1), PanelEffect::ScrollToTab(1)]
    );
    assert_eq!(p.right_panel_active_surface, Some(1));
    assert_eq!(p.right_panel_surfaces[1], RightPanelSurface::Terminal(3));

    // Out of range: nothing.
    assert!(p.close_right_panel_surface(9).is_empty());

    p.close_right_panel_surface(1);
    let last = p.close_right_panel_surface(0);
    assert_eq!(last, vec![PanelEffect::SetVisible(false)]);
    assert!(!p.right_panel_visible);
    assert_eq!(p.right_panel_active_surface, None);
}

#[test]
fn closing_the_last_expandable_surface_leaves_fullscreen() {
    let mut p = padu();
    p.open_right_panel_surface(RightPanelSurface::Files);
    p.set_right_panel_fullscreen(true);
    assert!(p.right_panel_fullscreen_active());
    p.close_right_panel_surface(0);
    assert!(!p.right_panel_fullscreen);
    assert!(!p.right_panel_fullscreen_active());
}

#[test]
fn shortcut_toggles_hide_and_show_the_same_tab() {
    let mut p = padu();
    let opened = p.toggle_or_open_review_surface(false);
    assert_eq!(p.right_panel_surfaces, vec![RightPanelSurface::Diff]);
    assert!(opened.contains(&PanelEffect::RefreshDiff));
    let hidden = p.toggle_or_open_review_surface(false);
    assert_eq!(hidden, vec![PanelEffect::SetVisible(false)]);
    assert!(!p.right_panel_visible);
    let shown = p.toggle_or_open_review_surface(true);
    assert_eq!(
        shown,
        vec![
            PanelEffect::RefreshDiff,
            PanelEffect::ScrollToTab(0),
            PanelEffect::SetVisible(true),
            PanelEffect::FocusActiveSurface,
        ]
    );
    assert!(p.right_panel_visible);
}

#[test]
fn files_and_review_shortcuts_need_a_project() {
    let mut p = padu();
    p.has_active_project = false;
    assert!(p.toggle_or_open_files_surface(true).is_empty());
    assert!(p.toggle_or_open_review_surface(true).is_empty());
    assert!(p.right_panel_surfaces.is_empty());
}

#[test]
fn in_fullscreen_a_shortcut_on_its_tab_switches_to_the_conversation() {
    let mut p = padu();
    p.open_right_panel_surface(RightPanelSurface::Terminal(5));
    p.set_right_panel_fullscreen(true);
    let effects = p.toggle_or_open_terminal_surface(true);
    assert!(p.right_panel_fullscreen_conversation);
    assert_eq!(effects, vec![PanelEffect::FocusComposer]);
    let back = p.toggle_or_open_terminal_surface(false);
    assert!(!p.right_panel_fullscreen_conversation);
    assert_eq!(
        back,
        vec![PanelEffect::EnsureTerminal(5), PanelEffect::ScrollToTab(0)]
    );
}

#[test]
fn fullscreen_cycles_through_the_conversation_and_every_surface() {
    let mut p = padu();
    p.open_right_panel_surface(RightPanelSurface::Files);
    p.open_right_panel_surface(RightPanelSurface::Diff);
    p.set_right_panel_fullscreen(true);
    assert_eq!(p.right_panel_fullscreen_position(), Some(2));
    assert_eq!(p.cycle_right_panel_fullscreen(1), vec![PanelEffect::FocusComposer]);
    assert!(p.right_panel_fullscreen_conversation);
    assert_eq!(
        p.cycle_right_panel_fullscreen(1),
        vec![PanelEffect::ScrollToTab(0), PanelEffect::FocusActiveSurface]
    );
    assert_eq!(p.right_panel_active_surface, Some(0));
    p.cycle_right_panel_fullscreen(-1);
    assert!(p.right_panel_fullscreen_conversation);
}

#[test]
fn docked_cycling_wraps_both_ways() {
    let mut p = padu();
    p.open_right_panel_surface(RightPanelSurface::Files);
    p.open_right_panel_surface(RightPanelSurface::Diff);
    p.open_right_panel_surface(RightPanelSurface::Browser(2));
    p.cycle_right_panel_docked(1);
    assert_eq!(p.right_panel_active_surface, Some(0));
    p.prev_right_panel_tab_action();
    assert_eq!(p.right_panel_active_surface, Some(2));
    p.next_right_panel_tab_action();
    assert_eq!(p.right_panel_active_surface, Some(0));
}

#[test]
fn opening_a_file_over_the_files_browser_selects_it() {
    let mut p = padu();
    p.open_right_panel_surface(RightPanelSurface::Files);
    let effects = p.open_right_panel_file("src/main.rs".into());
    assert_eq!(
        effects,
        vec![PanelEffect::WidenForFileEditor, PanelEffect::SetVisible(true)]
    );
    assert_eq!(p.right_panel_files_selected_path.as_deref(), Some("src/main.rs"));
    assert_eq!(p.right_panel_files_cursor, Some(1));
    assert_eq!(p.visible_right_panel_file_path().as_deref(), Some("src/main.rs"));
}

#[test]
fn a_dirty_file_is_never_replaced_in_place() {
    let mut p = padu();
    p.open_right_panel_surface(RightPanelSurface::File("a.rs".into()));
    p.right_panel_file_editors = vec![editor("a.rs", true)];
    assert!(p.right_panel_file_is_dirty("a.rs"));
    p.open_right_panel_file("b.rs".into());
    assert_eq!(
        p.right_panel_surfaces,
        vec![
            RightPanelSurface::File("a.rs".into()),
            RightPanelSurface::File("b.rs".into()),
        ]
    );
    assert_eq!(p.right_panel_active_surface, Some(1));

    // A clean file tab shows the next file in place.
    p.open_right_panel_file("c.rs".into());
    assert_eq!(p.right_panel_surfaces[1], RightPanelSurface::File("c.rs".into()));
    assert_eq!(p.right_panel_surfaces.len(), 2);
}

#[test]
fn focus_goes_to_the_editor_of_the_file_on_screen() {
    let mut p = padu();
    p.open_right_panel_surface(RightPanelSurface::File("a.rs".into()));
    assert_eq!(p.focus_active_surface(), FocusTarget::WorkingTreeControl);
    p.right_panel_file_editors = vec![editor("a.rs", false)];
    assert_eq!(p.focus_active_surface(), FocusTarget::Editor("a.rs".into()));
    p.open_right_panel_surface(RightPanelSurface::Diff);
    assert_eq!(p.focus_active_surface(), FocusTarget::ReviewControl);
}

#[test]
fn closing_the_window_closes_the_active_tab_first() {
    let mut p = padu();
    assert_eq!(p.close_window_or_right_panel_tab_action(), vec![PanelEffect::HideWindow]);
    p.open_right_panel_surface(RightPanelSurface::Diff);
    assert_eq!(
        p.close_window_or_right_panel_tab_action(),
        vec![PanelEffect::SetVisible(false), PanelEffect::FocusComposer]
    );
}

#[test]
fn project_file_links_open_in_the_panel() {
    let mut p = padu();
    let outcome = p.open_transcript_link("/work/repo/src/main.rs:12", Some("/work/repo"));
    assert!(matches!(outcome, LinkOutcome::Opened(_)));
    assert_eq!(p.visible_right_panel_file_path().as_deref(), Some("src/main.rs"));
    assert_eq!(
        p.open_transcript_link("/etc/hosts", Some("/work/repo")),
        LinkOutcome::RevealInFileManager("/etc/hosts".into())
    );
    p.remote_daemon = true;
    assert_eq!(
        p.open_transcript_link("/etc/hosts", Some("/work/repo")),
        LinkOutcome::RemotePathError
    );
    assert_eq!(
        p.open_transcript_link("https://example.com", Some("/work/repo")),
        LinkOutcome::NotHandled
    );
}

#[test]
fn activity_paths_resolve_against_the_workspace() {
    let mut p = padu();
    let outcome = p.open_activity_file("  src/lib.rs ", Some("/work/repo"));
    assert!(matches!(outcome, LinkOutcome::Opened(_)));
    assert_eq!(p.visible_right_panel_file_path().as_deref(), Some("src/lib.rs"));
    assert_eq!(p.open_activity_file("src/lib.rs", None), LinkOutcome::NotHandled);
}

#[test]
fn switching_sessions_keeps_each_panel() {
    let mut p = padu();
    p.selected_session = Some(1);
    p.open_right_panel_surface(RightPanelSurface::Terminal(9));
    p.store_selected_right_panel_state();
    assert!(p.right_panel_surfaces.is_empty());

    p.selected_session = Some(2);
    let effects = p.restore_right_panel_state(2);
    assert_eq!(effects, vec![PanelEffect::SessionRestored]);
    assert!(!p.right_panel_visible);
    assert!(p.right_panel_surfaces.is_empty());
    p.store_selected_right_panel_state();

    p.selected_session = Some(1);
    p.restore_right_panel_state(1);
    assert_eq!(p.right_panel_surfaces, vec![RightPanelSurface::Terminal(9)]);
    assert!(p.right_panel_visible);
    assert_eq!(p.right_panel_pending_terminal_focus, Some(9));

    let removed = p.remove_right_panel_session_state(1);
    assert_eq!(removed, vec![PanelEffect::RemoveTerminal(9)]);
    assert!(p.right_panel_surfaces.is_empty());
}

#[test]
fn refreshing_rereads_the_workspace_surface_on_screen() {
    let mut p = padu();
    assert_eq!(p.refresh_workspace_surfaces(), None);
    p.right_panel_surfaces = vec![
        RightPanelSurface::Diff,
        RightPanelSurface::Files,
        RightPanelSurface::File("a.rs".into()),
        RightPanelSurface::Terminal(3),
    ];
    p.right_panel_active_surface = Some(0);
    assert_eq!(p.refresh_workspace_surfaces(), Some(PanelEffect::RefreshDiff));
    p.right_panel_active_surface = Some(1);
    assert_eq!(p.refresh_workspace_surfaces(), Some(PanelEffect::RefreshWorkingTree));
    p.right_panel_active_surface = Some(2);
    assert_eq!(p.refresh_workspace_surfaces(), Some(PanelEffect::RefreshWorkingTree));
    p.right_panel_active_surface = Some(3);
    assert_eq!(p.refresh_workspace_surfaces(), None);
}

#[test]
fn switching_sessions_keeps_each_review_and_restarts_its_work() {
    let mut p = padu();
    p.selected_session = Some(1);
    let request = p
        .right_panel_review
        .refresh_right_panel_diff(Some(1), Some("/w"), "x")
        .unwrap();
    p.right_panel_review.apply_right_panel_diff(
        &request,
        Some(1),
        Some("/w"),
        Ok(vec![ReviewFile {
            path: "src/a.rs".into(),
            additions: 1,
            deletions: 0,
            status: FileStatus::Added,
            diff_line: Some(0),
        }]),
        "",
    );
    p.right_panel_review.set_right_panel_diff_file_layout(DiffFileLayout::Flat, "");
    p.right_panel_review.toggle_right_panel_diff_files();
    let generation = p.right_panel_review.generation;
    p.store_selected_right_panel_state();
    assert!(p.right_panel_review.files.is_none());
    assert!(p.right_panel_review.expanded_paths.is_empty());

    p.selected_session = Some(2);
    p.restore_right_panel_state(2);
    assert_eq!(p.right_panel_review.source, ReviewDiffSource::Uncommitted);
    assert_eq!(p.right_panel_review.layout, DiffFileLayout::Tree);
    assert!(p.right_panel_review.files.is_none());
    assert_eq!(p.right_panel_review.generation, generation + 1);

    p.store_selected_right_panel_state();
    p.selected_session = Some(1);
    p.restore_right_panel_state(1);
    let review = &p.right_panel_review;
    assert_eq!(review.files.as_ref().map(Vec::len), Some(1));
    assert_eq!(review.selected_file, Some(0));
    assert_eq!(review.expanded_paths, vec!["src".to_string()]);
    assert_eq!(review.layout, DiffFileLayout::Flat);
    assert!(!review.files_visible);
    assert!(!review.loading && review.error.is_none());
    assert!(review.tree_rows.is_empty() && review.tree_cursor.is_none());
    assert_eq!(review.generation, generation + 2);
    // A reload made before the switches lands stale.
    assert_eq!(
        p.right_panel_review
            .apply_right_panel_diff(&request, Some(1), Some("/w"), Ok(vec![]), ""),
        padu::review_panel::DiffLanding::Stale
    );
}
