//! The keyboard shortcuts page's search: which shortcuts of which sections
//! a query shows.
use vstd::prelude::*;
use crate::archive::{contains_text, lowercased, text_contains, to_lowercase};
use crate::text::{chars_of, string_from_char_range, trim, trim_bounds};

verus! {

/// The search as typed, trimmed and lowercased.
pub open spec fn keybinding_query(input: Seq<char>) -> Seq<char> {
    lowercased(trim(input))
}

/// Whether a shortcut (its title, description and keys, as shown) shows
/// for the query `q` in a section titled `section`: every shortcut shows
/// for an empty query and all of a section whose title contains the query;
/// otherwise one whose title, description or keys contain it.
pub open spec fn shortcut_shows(q: Seq<char>, section: Seq<char>, shortcut: (String, String, String)) -> bool {
    q.len() == 0 || text_contains(lowercased(section), q) || text_contains(lowercased(shortcut.0@), q)
        || text_contains(lowercased(shortcut.1@), q) || text_contains(lowercased(shortcut.2@), q)
}

/// The indices, in order, of the first `n` shortcuts that show.
pub open spec fn shown_shortcuts(q: Seq<char>, section: Seq<char>, shortcuts: Seq<(String, String, String)>, n: int) -> Seq<usize>
    decreases n,
{
    if n <= 0 {
        seq![]
    } else {
        shown_shortcuts(q, section, shortcuts, n - 1) + if shortcut_shows(q, section, shortcuts[n - 1]) {
            seq![(n - 1) as usize]
        } else {
            seq![]
        }
    }
}

/// Whether nothing shows, so the page says there are no results.
pub open spec fn no_results(shown: Seq<Vec<usize>>) -> bool {
    forall|k: int| 0 <= k < shown.len() ==> (#[trigger] shown[k])@.len() == 0
}

/// Which shortcuts the search `query` shows: for each section (its title
/// and its shortcuts' title, description and keys), the indices of those
/// that show (see [`shortcut_shows`]) over the trimmed, lowercased query.
/// The page says there are no results when every list is empty (see
/// [`keybinding_no_results`]).
pub fn keybinding_matches(query: &str, sections: &[(String, Vec<(String, String, String)>)]) -> (r: Vec<Vec<usize>>)
    ensures
        r@.len() == sections@.len(),
        forall|k: int|
            0 <= k < sections@.len() ==> (#[trigger] r@[k])@ == shown_shortcuts(
                keybinding_query(query@),
                sections@[k].0@,
                sections@[k].1@,
                sections@[k].1@.len() as int,
            ),
{
    let cs = chars_of(query);
    let (i, j) = trim_bounds(&cs, 0, cs.len());
    assert(cs@.subrange(0, cs@.len() as int) =~= cs@);
    let trimmed = string_from_char_range(&cs, i, j);
    let q = to_lowercase(trimmed.as_str());
    let ghost qv = q@;
    let mut out: Vec<Vec<usize>> = Vec::new();
    let mut k: usize = 0;
    while k < sections.len()
        invariant
            k <= sections@.len(),
            qv == keybinding_query(query@),
            q@ == qv,
            out@.len() == k,
            forall|m: int|
                0 <= m < k ==> (#[trigger] out@[m])@ == shown_shortcuts(
                    qv,
                    sections@[m].0@,
                    sections@[m].1@,
                    sections@[m].1@.len() as int,
                ),
        decreases sections@.len() - k,
    {
        let (title, shortcuts) = &sections[k];
        let section_matches = !q.as_str().is_empty() && contains_text(to_lowercase(title.as_str()).as_str(), q.as_str());
        let mut shown: Vec<usize> = Vec::new();
        let mut n: usize = 0;
        while n < shortcuts.len()
            invariant
                n <= shortcuts@.len(),
                q@ == qv,
                section_matches == (qv.len() > 0 && text_contains(lowercased(title@), qv)),
                shown@ == shown_shortcuts(qv, title@, shortcuts@, n as int),
            decreases shortcuts@.len() - n,
        {
            let s = &shortcuts[n];
            let show = q.as_str().is_empty() || section_matches || contains_text(to_lowercase(s.0.as_str()).as_str(), q.as_str())
                || contains_text(to_lowercase(s.1.as_str()).as_str(), q.as_str())
                || contains_text(to_lowercase(s.2.as_str()).as_str(), q.as_str());
            assert(show == shortcut_shows(qv, title@, shortcuts@[n as int]));
            if show {
                shown.push(n);
            }
            assert(shown@ =~= shown_shortcuts(qv, title@, shortcuts@, n + 1));
            n = n + 1;
        }
        out.push(shown);
        proof {
            assert forall|m: int| 0 <= m < k + 1 implies (#[trigger] out@[m])@ == shown_shortcuts(
                qv,
                sections@[m].0@,
                sections@[m].1@,
                sections@[m].1@.len() as int,
            ) by {}
        }
        k = k + 1;
    }
    out
}

/// Whether the page says there are no results: no list shows a shortcut.
pub fn keybinding_no_results(shown: &[Vec<usize>]) -> (r: bool)
    ensures
        r == no_results(shown@),
{
    let mut k: usize = 0;
    while k < shown.len()
        invariant
            k <= shown@.len(),
            forall|m: int| 0 <= m < k ==> (#[trigger] shown@[m])@.len() == 0,
        decreases shown@.len() - k,
    {
        if shown[k].len() > 0 {
            return false;
        }
        k = k + 1;
    }
    true
}


/// The shortcuts a section shows for the query `q` are exactly those, in
/// order, for which `q` is empty or occurs in the lowercased section title
/// or in the shortcut's lowercased title, description or keys: each index
/// once, rising.
pub proof fn law_search_shows_what_contains_the_query(
    q: Seq<char>,
    section: Seq<char>,
    shortcuts: Seq<(String, String, String)>,
)
    requires
        shortcuts.len() <= usize::MAX,
    ensures
        forall|j: usize|
            #![trigger shown_shortcuts(q, section, shortcuts, shortcuts.len() as int).contains(j)]
            shown_shortcuts(q, section, shortcuts, shortcuts.len() as int).contains(j) <==> (j
                < shortcuts.len() && (q.len() == 0 || text_contains(lowercased(section), q)
                || text_contains(lowercased(shortcuts[j as int].0@), q) || text_contains(
                lowercased(shortcuts[j as int].1@),
                q,
            ) || text_contains(lowercased(shortcuts[j as int].2@), q))),
        forall|a: int, b: int|
            0 <= a < b < shown_shortcuts(q, section, shortcuts, shortcuts.len() as int).len() ==> (
            #[trigger] shown_shortcuts(q, section, shortcuts, shortcuts.len() as int)[a]) < (
            #[trigger] shown_shortcuts(q, section, shortcuts, shortcuts.len() as int)[b]),
{
    lemma_shown(q, section, shortcuts, shortcuts.len() as int);
}

proof fn lemma_shown(q: Seq<char>, section: Seq<char>, shortcuts: Seq<(String, String, String)>, n: int)
    requires
        0 <= n <= shortcuts.len(),
        n <= usize::MAX,
    ensures
        forall|j: usize|
            #![trigger shown_shortcuts(q, section, shortcuts, n).contains(j)]
            shown_shortcuts(q, section, shortcuts, n).contains(j) <==> (j < n && shortcut_shows(
                q,
                section,
                shortcuts[j as int],
            )),
        forall|a: int|
            0 <= a < shown_shortcuts(q, section, shortcuts, n).len() ==> (#[trigger] shown_shortcuts(
                q,
                section,
                shortcuts,
                n,
            )[a]) < n,
        forall|a: int, b: int|
            0 <= a < b < shown_shortcuts(q, section, shortcuts, n).len() ==> (
            #[trigger] shown_shortcuts(q, section, shortcuts, n)[a]) < (#[trigger] shown_shortcuts(
                q,
                section,
                shortcuts,
                n,
            )[b]),
    decreases n,
{
    if n > 0 {
        lemma_shown(q, section, shortcuts, n - 1);
        let prev = shown_shortcuts(q, section, shortcuts, n - 1);
        let cur = shown_shortcuts(q, section, shortcuts, n);
        let last = (n - 1) as usize;
        assert forall|j: usize| #[trigger] cur.contains(j) <==> (j < n && shortcut_shows(
            q,
            section,
            shortcuts[j as int],
        )) by {
            if cur.contains(j) {
                let i = choose|i: int| 0 <= i < cur.len() && cur[i] == j;
                if i < prev.len() {
                    assert(prev[i] == cur[i]);
                    assert(prev.contains(j));
                } else {
                    assert(cur[i] == last);
                }
            }
            if j < n - 1 && shortcut_shows(q, section, shortcuts[j as int]) {
                assert(prev.contains(j));
                let i = choose|i: int| 0 <= i < prev.len() && prev[i] == j;
                assert(cur[i] == j);
            }
            if j == last && shortcut_shows(q, section, shortcuts[j as int]) {
                assert(cur[prev.len() as int] == j);
            }
        }
        assert forall|a: int| 0 <= a < cur.len() implies (#[trigger] cur[a]) < n by {
            if a < prev.len() {
                assert(cur[a] == prev[a]);
            }
        }
        assert forall|a: int, b: int| 0 <= a < b < cur.len() implies (#[trigger] cur[a]) < (#[trigger] cur[b]) by {
            if b < prev.len() {
                assert(cur[a] == prev[a] && cur[b] == prev[b]);
            } else {
                assert(cur[a] == prev[a]);
            }
        }
    }
}
} // verus!
