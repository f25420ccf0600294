//! The archived sessions page: which archived sessions a search finds, and
//! in what order they are listed.
use vstd::prelude::*;
use crate::text::{bytes_contain, chars_of, contains_bytes, string_from_char_range, trim, trim_bounds, utf8};

verus! {

/// What `str::to_lowercase` gives: every character replaced by its
/// lowercase mapping, which may be longer than one character.
pub uninterp spec fn lowercased(s: Seq<char>) -> Seq<char>;

/// `str::to_lowercase`. Its result is named [`lowercased`]: the Unicode
/// case tables are not restated.
#[verifier::external_body]
pub(crate) fn to_lowercase(s: &str) -> (r: String)
    ensures
        r@ == lowercased(s@),
{
    s.to_lowercase()
}

/// An archived session as the page searches it: its id as text, its title,
/// and its project's name and path (empty without a project).
#[derive(Debug, PartialEq, Eq)]
pub struct ArchivedSession {
    pub id: String,
    pub title: String,
    pub project_name: String,
    pub project_path: String,
    /// When it was archived; `None` for a session that is not archived.
    pub archived_at: Option<u64>,
}

/// The search as typed, trimmed and lowercased.
pub open spec fn search_query(input: Seq<char>) -> Seq<char> {
    lowercased(trim(input))
}

/// Whether `text` contains `query`.
pub open spec fn text_contains(text: Seq<char>, query: Seq<char>) -> bool {
    contains_bytes(utf8(text), utf8(query))
}

/// Whether a session answers the search `query`: any session answers an
/// empty one; otherwise its title, project name or project path
/// (lowercased), or its id, must contain the query.
pub open spec fn answers(s: ArchivedSession, query: Seq<char>) -> bool {
    query.len() == 0 || text_contains(lowercased(s.title@), query) || text_contains(s.id@, query)
        || text_contains(lowercased(s.project_name@), query) || text_contains(lowercased(s.project_path@), query)
}

/// Whether the session at `i` is listed for `query`.
pub open spec fn listed(sessions: Seq<ArchivedSession>, i: int, query: Seq<char>) -> bool {
    0 <= i < sessions.len() && sessions[i].archived_at is Some && answers(sessions[i], query)
}

/// Whether the session at `a` is listed before the one at `b`: the one
/// archived later first, the earlier in `sessions` first between equals.
pub open spec fn listed_before(sessions: Seq<ArchivedSession>, a: usize, b: usize) -> bool {
    let ta = sessions[a as int].archived_at->0;
    let tb = sessions[b as int].archived_at->0;
    ta > tb || (ta == tb && a < b)
}

/// The search typed into the archived sessions page (see [`search_query`]).
pub fn archived_search_query(input: &str) -> (r: String)
    ensures
        r@ == search_query(input@),
{
    let cs = chars_of(input);
    let (i, j) = trim_bounds(&cs, 0, cs.len());
    assert(cs@.subrange(0, cs@.len() as int) =~= cs@);
    let trimmed = string_from_char_range(&cs, i, j);
    to_lowercase(trimmed.as_str())
}

/// Whether `text` contains `query`.
pub(crate) fn contains_text(text: &str, query: &str) -> (r: bool)
    ensures
        r == text_contains(text@, query@),
{
    bytes_contain(text.as_bytes(), query.as_bytes())
}

/// Whether `s` answers the search `query` (see [`answers`]).
fn session_answers(s: &ArchivedSession, query: &String) -> (r: bool)
    ensures
        r == answers(*s, query@),
{
    if query.as_str().is_empty() {
        return true;
    }
    contains_text(to_lowercase(s.title.as_str()).as_str(), query.as_str()) || contains_text(s.id.as_str(), query.as_str())
        || contains_text(to_lowercase(s.project_name.as_str()).as_str(), query.as_str())
        || contains_text(to_lowercase(s.project_path.as_str()).as_str(), query.as_str())
}

/// The archived sessions the search `query` (see [`archived_search_query`])
/// finds, by index, the most recently archived first and otherwise in the
/// order given.
pub fn archived_sessions(sessions: &[ArchivedSession], query: &String) -> (r: Vec<usize>)
    ensures
        forall|k: int| 0 <= k < r@.len() ==> listed(sessions@, #[trigger] r@[k] as int, query@),
        forall|i: int| listed(sessions@, i, query@) ==> r@.contains(i as usize),
        forall|a: int, b: int| 0 <= a < b < r@.len() ==> listed_before(sessions@, #[trigger] r@[a], #[trigger] r@[b]),
{
    let mut out: Vec<usize> = Vec::new();
    let mut i: usize = 0;
    while i < sessions.len()
        invariant
            i <= sessions@.len(),
            forall|k: int| 0 <= k < out@.len() ==> #[trigger] out@[k] < i && listed(sessions@, out@[k] as int, query@),
            forall|j: int| 0 <= j < i && listed(sessions@, j, query@) ==> out@.contains(j as usize),
            forall|a: int, b: int| 0 <= a < b < out@.len() ==> listed_before(sessions@, #[trigger] out@[a], #[trigger] out@[b]),
        decreases sessions@.len() - i,
    {
        let at = match sessions[i].archived_at {
            Some(t) => t,
            None => {
                i = i + 1;
                continue;
            },
        };
        if !session_answers(&sessions[i], query) {
            i = i + 1;
            continue;
        }
        let mut p: usize = 0;
        while p < out.len()
            invariant
                p <= out@.len(),
                forall|k: int| 0 <= k < p ==> sessions@[#[trigger] out@[k] as int].archived_at->0 >= at,
                forall|k: int| 0 <= k < out@.len() ==> #[trigger] out@[k] < i && listed(sessions@, out@[k] as int, query@),
            ensures
                p <= out@.len(),
                forall|k: int| 0 <= k < p ==> sessions@[#[trigger] out@[k] as int].archived_at->0 >= at,
                p < out@.len() ==> sessions@[out@[p as int] as int].archived_at->0 < at,
            decreases out@.len() - p,
        {
            let t = match sessions[out[p]].archived_at {
                Some(t) => t,
                None => at,
            };
            if t < at {
                break;
            }
            p = p + 1;
        }
        let ghost before = out@;
        proof {
            assert forall|k: int| p <= k < before.len() implies sessions@[#[trigger] before[k] as int].archived_at->0 < at by {
                if k > p {
                    assert(listed_before(sessions@, before[p as int], before[k]));
                }
            }
        }
        out.insert(p, i);
        proof {
            assert forall|a: int, b: int| 0 <= a < b < out@.len() implies listed_before(sessions@, #[trigger] out@[a], #[trigger] out@[b]) by {
                if b < p {
                    assert(out@[a] == before[a] && out@[b] == before[b]);
                } else if b == p {
                    assert(out@[a] == before[a]);
                } else if a < p {
                    assert(out@[a] == before[a] && out@[b] == before[b - 1]);
                } else if a == p {
                    assert(out@[b] == before[b - 1]);
                } else {
                    assert(out@[a] == before[a - 1] && out@[b] == before[b - 1]);
                }
            }
            assert forall|j: int| 0 <= j < i + 1 && listed(sessions@, j, query@) implies out@.contains(j as usize) by {
                if j == i {
                    assert(out@[p as int] == i);
                } else {
                    let k = choose|k: int| 0 <= k < before.len() && before[k] == j as usize;
                    if k < p {
                        assert(out@[k] == j as usize);
                    } else {
                        assert(out@[k + 1] == j as usize);
                    }
                }
            }
            assert forall|k: int| 0 <= k < out@.len() implies #[trigger] out@[k] < i + 1 && listed(sessions@, out@[k] as int, query@) by {
                if k < p {
                    assert(out@[k] == before[k]);
                } else if k > p {
                    assert(out@[k] == before[k - 1]);
                }
            }
        }
        i = i + 1;
    }
    out
}

} // verus!
