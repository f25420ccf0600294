use std::collections::HashMap;

use padu::review_panel::ReviewPanel;
use padu::review_source::ReviewDiffSource;
use padu::panel::Padu;
use padu::whats_new::WhatsNewEffect;

fn padu(last_seen: Option<&str>) -> Padu {
    Padu {
        right_panel_visible: false,
        right_panel_fullscreen: false,
        right_panel_fullscreen_conversation: false,
        right_panel_surfaces: Vec::new(),
        right_panel_active_surface: None,
        right_panel_pending_tab_reveal: None,
        right_panel_pending_terminal_focus: None,
        right_panel_pending_browser_focus: None,
        right_panel_files_selected_path: None,
        right_panel_files_cursor: None,
        right_panel_working_tree_paths: Vec::new(),
        right_panel_file_editors: Vec::new(),
        right_panel_expanded_paths: Vec::new(),
        right_panel_inline_file_operation: None,
        right_panel_review: ReviewPanel::new(ReviewDiffSource::Uncommitted),
        has_active_project: false,
        remote_daemon: false,
        selected_session: None,
        right_panel_session_states: HashMap::new(),
        last_seen_version: last_seen.map(str::to_owned),
        whats_new: None,
    }
}

#[test]
fn a_fresh_install_never_shows_the_button() {
    assert!(!padu(None).should_show_whats_new("1.4.0"));
    assert!(!padu(Some("1.4.0")).should_show_whats_new("1.4.0"));
    assert!(padu(Some("1.3.2")).should_show_whats_new("1.4.0"));
}

#[test]
fn opening_twice_focuses_the_open_dialog() {
    let mut p = padu(Some("1.3.2"));
    assert_eq!(
        p.open_whats_new(Some(11)),
        vec![WhatsNewEffect::FocusDialogWhenDrawn, WhatsNewEffect::Redraw]
    );
    assert_eq!(p.open_whats_new(Some(12)), vec![WhatsNewEffect::FocusDone]);
    assert_eq!(p.whats_new.unwrap().previous_focus, Some(11));
}

#[test]
fn closing_without_done_keeps_the_button() {
    let mut p = padu(Some("1.3.2"));
    p.open_whats_new(Some(4));
    assert_eq!(
        p.close_whats_new(),
        vec![WhatsNewEffect::RestoreFocus(4), WhatsNewEffect::Redraw]
    );
    assert!(p.whats_new.is_none());
    assert!(p.should_show_whats_new("1.4.0"));
    assert!(p.close_whats_new().is_empty());
}

#[test]
fn done_marks_the_version_seen_once() {
    let mut p = padu(Some("1.3.2"));
    assert!(p.dismiss_whats_new("1.4.0").is_empty());
    assert!(p.should_show_whats_new("1.4.0"));
    p.open_whats_new(None);
    assert_eq!(
        p.dismiss_whats_new("1.4.0"),
        vec![WhatsNewEffect::Save, WhatsNewEffect::Redraw]
    );
    assert!(!p.should_show_whats_new("1.4.0"));
    assert_eq!(p.last_seen_version.as_deref(), Some("1.4.0"));
    assert!(p.dismiss_whats_new("1.4.0").is_empty());
}
