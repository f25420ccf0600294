use padu::review_source::{
    latest_review_turn_source, open_turn_diff, review_diff_source_label, ReviewDiffSource,
    TurnSummary,
};

fn turn(id: u128, turn_count: usize, checkpoint_ready: bool) -> TurnSummary {
    TurnSummary { id, turn_count, checkpoint_ready }
}

#[test]
fn the_latest_reviewable_turn_needs_changes_and_a_checkpoint() {
    let turns = [turn(1, 1, true), turn(2, 2, true), turn(3, 3, false), turn(4, 0, true)];
    assert_eq!(
        latest_review_turn_source(Some(9), &turns),
        Some(ReviewDiffSource::LastTurn { session_id: 9, turn_id: 2, turn_count: 2 })
    );
    assert_eq!(latest_review_turn_source(None, &turns), None);
    assert_eq!(latest_review_turn_source(Some(9), &[turn(1, 0, true)]), None);
    assert_eq!(latest_review_turn_source(Some(9), &[]), None);
}

#[test]
fn opening_a_turn_reviews_it_by_id() {
    let turns = [turn(1, 1, true), turn(2, 2, false)];
    assert_eq!(
        open_turn_diff(Some(5), &turns, 2),
        Some(ReviewDiffSource::LastTurn { session_id: 5, turn_id: 2, turn_count: 2 })
    );
    assert_eq!(open_turn_diff(Some(5), &turns, 3), None);
    assert_eq!(open_turn_diff(None, &turns, 1), None);
}

#[test]
fn sources_are_named_by_turn_or_git_state() {
    let latest = ReviewDiffSource::LastTurn { session_id: 1, turn_id: 7, turn_count: 12 };
    let older = ReviewDiffSource::LastTurn { session_id: 1, turn_id: 3, turn_count: 4 };
    assert_eq!(review_diff_source_label(latest, Some(latest)), "Last turn");
    assert_eq!(review_diff_source_label(latest, None), "Turn 12");
    assert_eq!(review_diff_source_label(older, Some(latest)), "Turn 4");
    assert_eq!(review_diff_source_label(ReviewDiffSource::Uncommitted, None), "Uncommitted");
    assert_eq!(review_diff_source_label(ReviewDiffSource::Unstaged, None), "Unstaged");
    assert_eq!(review_diff_source_label(ReviewDiffSource::Staged, None), "Staged");
    assert_eq!(review_diff_source_label(ReviewDiffSource::Committed, None), "Last commit");
    assert_eq!(review_diff_source_label(ReviewDiffSource::Branch, None), "Branch");
}
