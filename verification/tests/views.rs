use std::collections::HashMap;

use padu::review_panel::ReviewPanel;
use padu::review_source::ReviewDiffSource;
use padu::panel::{Padu, RightPanelSessionState};
use padu::surface::RightPanelSurface;

fn padu() -> Padu {
    Padu {
        right_panel_visible: true,
        right_panel_fullscreen: false,
        right_panel_fullscreen_conversation: false,
        right_panel_surfaces: Vec::new(),
        right_panel_active_surface: None,
        right_panel_pending_tab_reveal: None,
        right_panel_pending_terminal_focus: None,
        right_panel_pending_browser_focus: None,
        right_panel_files_selected_path: None,
        right_panel_files_cursor: None,
        right_panel_working_tree_paths: Vec::new(),
        right_panel_file_editors: Vec::new(),
        right_panel_expanded_paths: Vec::new(),
        right_panel_inline_file_operation: None,
        right_panel_review: ReviewPanel::new(ReviewDiffSource::Uncommitted),
        has_active_project: true,
        remote_daemon: false,
        selected_session: Some(1),
        right_panel_session_states: HashMap::new(),
        last_seen_version: None,
        whats_new: None,
    }
}

#[test]
fn browsers_of_any_session_are_kept() {
    let mut p = padu();
    p.right_panel_surfaces = vec![RightPanelSurface::Browser(10), RightPanelSurface::Files];
    let mut other = RightPanelSessionState::empty(true);
    other.surfaces = vec![RightPanelSurface::Browser(20)];
    p.right_panel_session_states.insert(2, other);
    assert_eq!(p.retain_right_panel_browsers(&[10, 20, 30]), vec![30]);
    assert!(p.retain_right_panel_browsers(&[]).is_empty());
}

#[test]
fn terminals_follow_tabs_and_the_project() {
    let mut p = padu();
    p.right_panel_surfaces = vec![
        RightPanelSurface::Terminal(1),
        RightPanelSurface::Terminal(2),
        RightPanelSurface::Terminal(3),
    ];
    let mut other = RightPanelSessionState::empty(false);
    other.surfaces = vec![RightPanelSurface::Terminal(4)];
    p.right_panel_session_states.insert(9, other);
    let live = vec![
        (1, "/work/a".to_string()),
        (2, "/work/b".to_string()),
        (4, "/work/b".to_string()),
        (5, "/work/a".to_string()),
    ];
    let (drop, mut create) = p.ensure_right_panel_terminals(&live, Some("/work/a/"));
    assert_eq!(drop, vec![5]);
    create.sort();
    assert_eq!(create, vec![2, 3]);

    let (mut drop, create) = p.ensure_right_panel_terminals(&live, None);
    drop.sort();
    assert_eq!(drop, vec![1, 2, 5]);
    assert!(create.is_empty());

    p.remote_daemon = true;
    let (mut drop, create) = p.ensure_right_panel_terminals(&live, Some("/work/a"));
    drop.sort();
    assert_eq!(drop, vec![1, 2, 5]);
    assert!(create.is_empty());
}

#[test]
fn only_a_settled_shown_panel_shows_its_browser_page() {
    let mut p = padu();
    p.right_panel_surfaces = vec![RightPanelSurface::Browser(7), RightPanelSurface::Diff];
    p.right_panel_active_surface = Some(0);
    assert_eq!(p.sync_browser_webviews(false, false), (Some(7), Some(7)));
    assert_eq!(p.sync_browser_webviews(false, true), (Some(7), None));
    assert_eq!(p.sync_browser_webviews(true, false), (None, None));
    p.right_panel_fullscreen = true;
    p.right_panel_fullscreen_conversation = true;
    assert_eq!(p.sync_browser_webviews(false, false), (Some(7), None));
    p.right_panel_fullscreen_conversation = false;
    assert_eq!(p.sync_browser_webviews(false, false), (Some(7), Some(7)));
    p.right_panel_visible = false;
    assert_eq!(p.sync_browser_webviews(false, false), (Some(7), None));
    p.right_panel_visible = true;
    p.right_panel_active_surface = Some(1);
    assert_eq!(p.sync_browser_webviews(false, false), (None, None));
}
