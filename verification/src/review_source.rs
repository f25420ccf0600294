//! What the review compares: the working tree against a git state, or the
//! changes one turn of the agent made.
use vstd::prelude::*;
use crate::review_lines::{decimal, push_decimal};

verus! {

/// Which changes the review shows.
#[derive(Clone, Copy, Debug, PartialEq, Eq, Structural)]
pub enum ReviewDiffSource {
    /// What the turn `turn_id` of the session changed; `turn_count` numbers
    /// the turn.
    LastTurn { session_id: u128, turn_id: u128, turn_count: usize },
    Uncommitted,
    Unstaged,
    Staged,
    Committed,
    Branch,
}

/// What the review needs of one turn of a session: its id, its number
/// (0 for a turn that changed nothing), and whether the checkpoint taken
/// before it is ready to compare against.
#[derive(Clone, Copy, Debug, PartialEq, Eq, Structural)]
pub struct TurnSummary {
    pub id: u128,
    pub turn_count: usize,
    pub checkpoint_ready: bool,
}

/// A turn whose changes can be reviewed.
pub open spec fn reviewable(t: TurnSummary) -> bool {
    t.turn_count > 0 && t.checkpoint_ready
}

/// The last reviewable turn among the first `n`.
pub open spec fn last_reviewable(turns: Seq<TurnSummary>, n: int) -> Option<int>
    decreases n,
{
    if n <= 0 {
        None
    } else if reviewable(turns[n - 1]) {
        Some(n - 1)
    } else {
        last_reviewable(turns, n - 1)
    }
}

/// The review of the latest reviewable turn of the session, if any.
pub open spec fn latest_turn_source(session: Option<u128>, turns: Seq<TurnSummary>) -> Option<ReviewDiffSource> {
    match session {
        None => None,
        Some(session_id) => match last_reviewable(turns, turns.len() as int) {
            Some(j) => Some(
                ReviewDiffSource::LastTurn { session_id, turn_id: turns[j].id, turn_count: turns[j].turn_count },
            ),
            None => None,
        },
    }
}

/// The review of the latest turn of the selected session (`session`, with
/// its `turns` in order) that changed something and has its checkpoint.
pub fn latest_review_turn_source(session: Option<u128>, turns: &[TurnSummary]) -> (r: Option<ReviewDiffSource>)
    ensures
        r == latest_turn_source(session, turns@),
{
    let session_id = match session {
        Some(s) => s,
        None => {
            return None;
        },
    };
    let mut n: usize = turns.len();
    while n > 0
        invariant
            n <= turns@.len(),
            session == Some(session_id),
            last_reviewable(turns@, turns@.len() as int) == last_reviewable(turns@, n as int),
        decreases n,
    {
        let t = turns[n - 1];
        if t.turn_count > 0 && t.checkpoint_ready {
            return Some(ReviewDiffSource::LastTurn { session_id, turn_id: t.id, turn_count: t.turn_count });
        }
        n = n - 1;
    }
    None
}

/// The first turn with this id.
pub open spec fn turn_with_id(turns: Seq<TurnSummary>, id: u128, n: int) -> Option<int>
    decreases n,
{
    if n <= 0 {
        None
    } else {
        match turn_with_id(turns, id, n - 1) {
            Some(j) => Some(j),
            None => if turns[n - 1].id == id {
                Some(n - 1)
            } else {
                None
            },
        }
    }
}

/// The review of the turn `turn_id` of the selected session, if it has one.
pub fn open_turn_diff(session: Option<u128>, turns: &[TurnSummary], turn_id: u128) -> (r: Option<ReviewDiffSource>)
    ensures
        r == match session {
            None => None,
            Some(session_id) => match turn_with_id(turns@, turn_id, turns@.len() as int) {
                Some(j) => Some(ReviewDiffSource::LastTurn { session_id, turn_id, turn_count: turns@[j].turn_count }),
                None => None,
            },
        },
{
    let session_id = match session {
        Some(s) => s,
        None => {
            return None;
        },
    };
    let mut k: usize = 0;
    while k < turns.len()
        invariant
            k <= turns@.len(),
            session == Some(session_id),
            turn_with_id(turns@, turn_id, k as int) is None,
        decreases turns@.len() - k,
    {
        if turns[k].id == turn_id {
            proof {
                lemma_turn_with_id_after(turns@, turn_id, k as int + 1, turns@.len() as int);
            }
            return Some(ReviewDiffSource::LastTurn { session_id, turn_id, turn_count: turns[k].turn_count });
        }
        k = k + 1;
    }
    None
}

/// Once found, the first turn with an id stays the first.
proof fn lemma_turn_with_id_after(turns: Seq<TurnSummary>, id: u128, m: int, n: int)
    requires
        0 <= m <= n,
        turn_with_id(turns, id, m) is Some,
    ensures
        turn_with_id(turns, id, n) == turn_with_id(turns, id, m),
    decreases n - m,
{
    if n > m {
        lemma_turn_with_id_after(turns, id, m, n - 1);
    }
}

/// How the review names a source: the latest reviewable turn as the last
/// turn, another turn by its number, the git states by name, in the English
/// text of the window's default language.
pub open spec fn source_label(source: ReviewDiffSource, latest: Option<ReviewDiffSource>) -> Seq<char> {
    match source {
        ReviewDiffSource::LastTurn { turn_count, .. } => if latest == Some(source) {
            "Last turn"@
        } else {
            "Turn "@ + decimal(turn_count as nat)
        },
        ReviewDiffSource::Uncommitted => "Uncommitted"@,
        ReviewDiffSource::Unstaged => "Unstaged"@,
        ReviewDiffSource::Staged => "Staged"@,
        ReviewDiffSource::Committed => "Last commit"@,
        ReviewDiffSource::Branch => "Branch"@,
    }
}

/// The name of `source`, given the latest reviewable turn (see
/// [`latest_review_turn_source`]).
pub fn review_diff_source_label(source: ReviewDiffSource, latest: Option<ReviewDiffSource>) -> (r: String)
    ensures
        r@ == source_label(source, latest),
{
    match source {
        ReviewDiffSource::LastTurn { turn_count, .. } => if latest == Some(source) {
            "Last turn".to_string()
        } else {
            let mut label = "Turn ".to_string();
            push_decimal(&mut label, turn_count);
            label
        },
        ReviewDiffSource::Uncommitted => "Uncommitted".to_string(),
        ReviewDiffSource::Unstaged => "Unstaged".to_string(),
        ReviewDiffSource::Staged => "Staged".to_string(),
        ReviewDiffSource::Committed => "Last commit".to_string(),
        ReviewDiffSource::Branch => "Branch".to_string(),
    }
}

} // verus!
