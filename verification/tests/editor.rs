use std::collections::HashMap;

use padu::review_panel::ReviewPanel;
use padu::review_source::ReviewDiffSource;
use padu::editor::{FileRead, ReadResult, ReadStart, SaveResult, SaveStart};
use padu::panel::Padu;
use padu::surface::RightPanelSurface;

const PROJECT: &str = "/work/padu";
const NO_PROJECT: &str = "No project is open";

fn padu() -> Padu {
    Padu {
        right_panel_visible: true,
        right_panel_fullscreen: false,
        right_panel_fullscreen_conversation: false,
        right_panel_surfaces: Vec::new(),
        right_panel_active_surface: None,
        right_panel_pending_tab_reveal: None,
        right_panel_pending_terminal_focus: None,
        right_panel_pending_browser_focus: None,
        right_panel_files_selected_path: None,
        right_panel_files_cursor: None,
        right_panel_working_tree_paths: Vec::new(),
        right_panel_file_editors: Vec::new(),
        right_panel_expanded_paths: Vec::new(),
        right_panel_inline_file_operation: None,
        right_panel_review: ReviewPanel::new(ReviewDiffSource::Uncommitted),
        has_active_project: true,
        remote_daemon: false,
        selected_session: Some(7),
        right_panel_session_states: HashMap::new(),
        last_seen_version: None,
        whats_new: None,
    }
}

fn started(r: ReadStart) -> FileRead {
    match r {
        ReadStart::Read(read) => read,
        other => panic!("expected a read, got {other:?}"),
    }
}

/// A padu showing `path` in a file tab, its editor loaded with `text`.
fn showing(path: &str, text: &str) -> Padu {
    let mut p = padu();
    p.right_panel_surfaces.push(RightPanelSurface::File(path.into()));
    p.right_panel_active_surface = Some(0);
    let (_, _, read) = p.ensure_right_panel_file_editor(path, Some(PROJECT), NO_PROJECT);
    let read = started(read.unwrap());
    let landed = p.apply_right_panel_file_read(&read, Some(PROJECT), text.into(), true);
    assert_eq!(
        landed,
        ReadResult::Replaced { content: text.into(), writable: true }
    );
    p
}

#[test]
fn a_new_editor_starts_locked_and_asks_for_its_first_read() {
    let mut p = padu();
    let (writable, dirty, read) =
        p.ensure_right_panel_file_editor("src/main.rs", Some(PROJECT), NO_PROJECT);
    assert!(!writable && !dirty);
    let read = started(read.unwrap());
    assert_eq!(read.path, "src/main.rs");
    assert_eq!(read.project, PROJECT);
    assert_eq!(read.session, 7);
    assert_eq!(read.epoch, 1);
    let editor = &p.right_panel_file_editors[0];
    assert!(editor.reading && !editor.writable && editor.disk_content.is_empty());

    // Asking again finds the same editor and reads nothing.
    let again = p.ensure_right_panel_file_editor("src/main.rs", Some(PROJECT), NO_PROJECT);
    assert_eq!(again, (false, false, None));
    assert_eq!(p.right_panel_file_editors.len(), 1);
}

#[test]
fn a_second_read_waits_for_the_first() {
    let mut p = padu();
    p.ensure_right_panel_file_editor("a.rs", Some(PROJECT), NO_PROJECT);
    assert_eq!(
        p.read_right_panel_file_into_editor("a.rs", Some(PROJECT), NO_PROJECT),
        ReadStart::AlreadyReading
    );
    assert_eq!(
        p.read_right_panel_file_into_editor("b.rs", Some(PROJECT), NO_PROJECT),
        ReadStart::NoEditor
    );
}

#[test]
fn without_a_project_the_editor_says_so() {
    let mut p = padu();
    let (_, _, read) = p.ensure_right_panel_file_editor("a.rs", None, NO_PROJECT);
    assert_eq!(read, Some(ReadStart::NoProject));
    let editor = &p.right_panel_file_editors[0];
    assert_eq!(editor.disk_content, NO_PROJECT);
    assert!(!editor.writable && !editor.reading);
    assert_eq!(editor.read_epoch, 0);
}

#[test]
fn a_read_for_another_session_or_project_is_dropped() {
    let mut p = padu();
    let (_, _, read) = p.ensure_right_panel_file_editor("a.rs", Some(PROJECT), NO_PROJECT);
    let read = started(read.unwrap());
    p.selected_session = Some(8);
    assert_eq!(
        p.apply_right_panel_file_read(&read, Some(PROJECT), "text".into(), true),
        ReadResult::Dropped
    );
    assert!(!p.right_panel_file_editors[0].reading);
    assert!(p.right_panel_file_editors[0].disk_content.is_empty());

    p.selected_session = Some(7);
    let read = started(p.read_right_panel_file_into_editor("a.rs", Some(PROJECT), NO_PROJECT));
    assert_eq!(read.epoch, 2);
    assert_eq!(
        p.apply_right_panel_file_read(&read, Some("/work/other"), "text".into(), true),
        ReadResult::Dropped
    );
    // The same project spelled with a trailing separator is the same path.
    let read = started(p.read_right_panel_file_into_editor("a.rs", Some(PROJECT), NO_PROJECT));
    assert_eq!(
        p.apply_right_panel_file_read(&read, Some("/work/padu/"), "text".into(), false),
        ReadResult::Replaced { content: "text".into(), writable: false }
    );
}

#[test]
fn reads_never_overwrite_unsaved_edits() {
    let mut p = showing("a.rs", "fn main() {}\n");
    assert!(p.right_panel_file_edited("a.rs", "fn main() { edited }\n"));
    assert!(p.right_panel_file_is_dirty("a.rs"));

    // A reload skips the dirty editor.
    assert_eq!(
        p.reload_right_panel_file_if_clean("a.rs", Some(PROJECT), NO_PROJECT),
        ReadStart::Skipped
    );
    // A read already in flight keeps the edits when it lands.
    let read = FileRead {
        path: "a.rs".into(),
        project: PROJECT.into(),
        session: 7,
        epoch: p.right_panel_file_editors[0].read_epoch,
    };
    assert_eq!(
        p.apply_right_panel_file_read(&read, Some(PROJECT), "from disk".into(), true),
        ReadResult::KeptEdits
    );
    let editor = &p.right_panel_file_editors[0];
    assert!(editor.dirty);
    assert_eq!(editor.disk_content, "fn main() {}\n");
}

#[test]
fn editing_back_to_the_disk_text_is_clean_and_read_only_files_never_dirty() {
    let mut p = showing("a.rs", "one");
    assert!(p.right_panel_file_edited("a.rs", "two"));
    assert!(!p.right_panel_file_edited("a.rs", "three"));
    assert!(p.right_panel_file_edited("a.rs", "one"));
    assert!(!p.right_panel_file_editors[0].dirty);
    assert!(!p.right_panel_file_edited("missing.rs", "x"));

    p.right_panel_file_editors[0].writable = false;
    assert!(!p.right_panel_file_edited("a.rs", "changed"));
    assert!(!p.right_panel_file_editors[0].dirty);
}

#[test]
fn a_read_of_unchanged_text_changes_nothing() {
    let mut p = showing("a.rs", "same");
    let read = started(p.read_right_panel_file_into_editor("a.rs", Some(PROJECT), NO_PROJECT));
    assert_eq!(
        p.apply_right_panel_file_read(&read, Some(PROJECT), "same".into(), true),
        ReadResult::Unchanged
    );
    assert!(!p.right_panel_file_editors[0].reading);
    assert_eq!(
        p.apply_right_panel_file_read(
            &FileRead { path: "gone.rs".into(), ..read },
            Some(PROJECT),
            "x".into(),
            true
        ),
        ReadResult::NoEditor
    );
}

#[test]
fn a_save_makes_an_in_flight_read_stale() {
    let mut p = showing("a.rs", "old");
    let read = started(p.read_right_panel_file_into_editor("a.rs", Some(PROJECT), NO_PROJECT));
    let write = match p.save_right_panel_file_action(Some(PROJECT), "new".into()) {
        SaveStart::Write(write) => write,
        other => panic!("expected a write, got {other:?}"),
    };
    assert_eq!(write.epoch, read.epoch + 1);
    assert_eq!(write.path, "a.rs");
    assert_eq!(write.content, "new");
    assert!(!p.right_panel_file_editors[0].reading);
    let before = p.right_panel_file_editors[0].clone();
    assert_eq!(
        p.apply_right_panel_file_read(&read, Some(PROJECT), "old".into(), true),
        ReadResult::Stale
    );
    assert_eq!(p.right_panel_file_editors[0], before);
}

#[test]
fn a_landed_save_updates_the_disk_text_and_the_dirty_flag() {
    let mut p = showing("a.rs", "old");
    p.right_panel_file_edited("a.rs", "new");
    let SaveStart::Write(write) = p.save_right_panel_file_action(Some(PROJECT), "new".into())
    else {
        panic!("expected a write");
    };
    assert_eq!(
        p.apply_right_panel_file_save(&write, Some(PROJECT), true, "new"),
        SaveResult::Saved { dirty: false }
    );
    let editor = &p.right_panel_file_editors[0];
    assert_eq!(editor.disk_content, "new");
    assert!(!editor.dirty);

    // Typing on while the save is in flight keeps the buffer dirty.
    let SaveStart::Write(write) = p.save_right_panel_file_action(Some(PROJECT), "newer".into())
    else {
        panic!("expected a write");
    };
    assert_eq!(
        p.apply_right_panel_file_save(&write, Some(PROJECT), true, "newest"),
        SaveResult::Saved { dirty: true }
    );
    assert_eq!(p.right_panel_file_editors[0].disk_content, "newer");
}

#[test]
fn save_outcomes_for_failures_other_sessions_and_later_saves() {
    let mut p = showing("a.rs", "old");
    let SaveStart::Write(first) = p.save_right_panel_file_action(Some(PROJECT), "one".into())
    else {
        panic!("expected a write");
    };
    assert_eq!(
        p.apply_right_panel_file_save(&first, Some(PROJECT), false, "one"),
        SaveResult::Failed
    );
    let SaveStart::Write(second) = p.save_right_panel_file_action(Some(PROJECT), "two".into())
    else {
        panic!("expected a write");
    };
    assert_eq!(
        p.apply_right_panel_file_save(&first, Some(PROJECT), true, "two"),
        SaveResult::Superseded
    );
    assert_eq!(p.right_panel_file_editors[0].disk_content, "old");
    p.selected_session = Some(9);
    assert_eq!(
        p.apply_right_panel_file_save(&second, Some(PROJECT), true, "two"),
        SaveResult::Dropped
    );
}

#[test]
fn saving_needs_a_writable_file_on_screen() {
    let mut p = padu();
    assert_eq!(
        p.save_right_panel_file_action(Some(PROJECT), "x".into()),
        SaveStart::NothingToSave
    );
    p.right_panel_surfaces.push(RightPanelSurface::File("a.rs".into()));
    p.right_panel_active_surface = Some(0);
    assert_eq!(
        p.save_right_panel_file_action(Some(PROJECT), "x".into()),
        SaveStart::NothingToSave
    );
    p.ensure_right_panel_file_editor("a.rs", Some(PROJECT), NO_PROJECT);
    assert_eq!(
        p.save_right_panel_file_action(Some(PROJECT), "x".into()),
        SaveStart::Locked { path: "a.rs".into(), reading: true }
    );
    p.right_panel_file_editors[0].reading = false;
    assert_eq!(
        p.save_right_panel_file_action(Some(PROJECT), "x".into()),
        SaveStart::Locked { path: "a.rs".into(), reading: false }
    );
    p.right_panel_file_editors[0].writable = true;
    assert_eq!(
        p.save_right_panel_file_action(None, "x".into()),
        SaveStart::NothingToSave
    );
    p.selected_session = None;
    assert_eq!(
        p.save_right_panel_file_action(Some(PROJECT), "x".into()),
        SaveStart::NothingToSave
    );
}

#[test]
fn reloading_reads_every_clean_editor() {
    let mut p = showing("a.rs", "a");
    p.ensure_right_panel_file_editor("b.rs", Some(PROJECT), NO_PROJECT);
    let (_, _, read) = p.ensure_right_panel_file_editor("c.rs", Some(PROJECT), NO_PROJECT);
    let read = started(read.unwrap());
    p.apply_right_panel_file_read(&read, Some(PROJECT), "c".into(), true);
    p.right_panel_file_edited("c.rs", "c edited");

    let answers = p.reload_clean_right_panel_file_editors(Some(PROJECT), NO_PROJECT);
    assert_eq!(answers.len(), 3);
    let a = match &answers[0] {
        ReadStart::Read(read) => read,
        other => panic!("expected a read, got {other:?}"),
    };
    assert_eq!(a.path, "a.rs");
    assert_eq!(a.epoch, 2);
    assert_eq!(answers[1], ReadStart::AlreadyReading);
    assert_eq!(answers[2], ReadStart::Skipped);
    assert!(p.right_panel_file_editors[0].reading);
}
