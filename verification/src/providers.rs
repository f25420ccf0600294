//! The providers page: switching agent providers on and off, and the
//! executable path a provider is run from.
//!
//! Providers are named by a number the window assigns to each kind.
use vstd::prelude::*;
use crate::text::{chars_of, string_from_char_range, trim, trim_bounds};

verus! {

/// What switching a provider off moves: the provider new work falls back
/// to, whether the new-session default moves to it (forgetting its model
/// settings), and the draft sessions (by index) that move to it.
#[derive(Debug, PartialEq, Eq)]
pub struct ProviderMove {
    pub fallback: u32,
    pub reset_last: bool,
    pub drafts: Vec<usize>,
}

/// The provider a session (or the new-session default) runs on, with the
/// model settings chosen for it.
#[derive(Debug, PartialEq, Eq)]
pub struct ModelChoice {
    pub provider: u32,
    pub model: Option<String>,
    pub reasoning_effort: Option<String>,
    pub service_tier: Option<String>,
    pub context_window: Option<u64>,
}

/// `provider` with no model settings chosen yet.
pub open spec fn fresh_choice(provider: u32) -> ModelChoice {
    ModelChoice {
        provider,
        model: None,
        reasoning_effort: None,
        service_tier: None,
        context_window: None,
    }
}

fn fresh(provider: u32) -> (r: ModelChoice)
    ensures
        r == fresh_choice(provider),
{
    ModelChoice { provider, model: None, reasoning_effort: None, service_tier: None, context_window: None }
}

/// Carries out a [`ProviderMove`]: the new-session default moves to the
/// fallback provider with its model settings forgotten when the move says
/// so, and so does every draft session it lists (by index into `sessions`);
/// everything else stays. The window then saves.
pub fn apply_provider_move(m: &ProviderMove, last: &mut ModelChoice, sessions: &mut Vec<ModelChoice>)
    requires
        forall|k: int| 0 <= k < m.drafts@.len() ==> #[trigger] m.drafts@[k] < old(sessions)@.len(),
    ensures
        m.reset_last ==> *final(last) == fresh_choice(m.fallback),
        !m.reset_last ==> *final(last) == *old(last),
        final(sessions)@.len() == old(sessions)@.len(),
        forall|i: usize|
            i < old(sessions)@.len() ==> #[trigger] final(sessions)@[i as int] == if m.drafts@.contains(i) {
                fresh_choice(m.fallback)
            } else {
                old(sessions)@[i as int]
            },
{
    if m.reset_last {
        *last = fresh(m.fallback);
    }
    let mut k: usize = 0;
    while k < m.drafts.len()
        invariant
            k <= m.drafts@.len(),
            sessions@.len() == old(sessions)@.len(),
            forall|j: int| 0 <= j < m.drafts@.len() ==> #[trigger] m.drafts@[j] < old(sessions)@.len(),
            forall|i: usize|
                i < old(sessions)@.len() ==> #[trigger] sessions@[i as int] == if m.drafts@.take(
                    k as int,
                ).contains(i) {
                    fresh_choice(m.fallback)
                } else {
                    old(sessions)@[i as int]
                },
        decreases m.drafts@.len() - k,
    {
        let d = m.drafts[k];
        sessions.set(d, fresh(m.fallback));
        proof {
            let t = m.drafts@.take(k as int);
            let t1 = m.drafts@.take(k + 1);
            assert(t1 =~= t.push(d));
            assert forall|u: usize| #[trigger] t1.contains(u) == (t.contains(u) || u == d) by {
                if t1.contains(u) && !t.contains(u) {
                    let j = choose|j: int| 0 <= j < t1.len() && t1[j] == u;
                    if j < k {
                        assert(t[j] == t1[j]);
                    }
                }
                if t.contains(u) {
                    let j = choose|j: int| 0 <= j < t.len() && t[j] == u;
                    assert(t1[j] == t[j]);
                }
                if u == d {
                    assert(t1[k as int] == d);
                }
            }
        }
        k = k + 1;
    }
    assert(m.drafts@.take(m.drafts@.len() as int) =~= m.drafts@);
}

/// The first provider, in the order of `all`, that is on (`on[i]` for
/// `all[i]`), among the first `n`.
pub open spec fn first_on(all: Seq<u32>, on: Seq<bool>, n: int) -> Option<int>
    decreases n,
{
    if n <= 0 {
        None
    } else {
        match first_on(all, on, n - 1) {
            Some(i) => Some(i),
            None => if on[n - 1] {
                Some(n - 1)
            } else {
                None
            },
        }
    }
}

/// The indices of the sessions (provider, started) on `provider` that have
/// not started, among the first `n`.
pub open spec fn drafts_on(sessions: Seq<(u32, bool)>, provider: u32, n: int) -> Seq<usize>
    decreases n,
{
    if n <= 0 {
        seq![]
    } else {
        drafts_on(sessions, provider, n - 1) + if sessions[n - 1].0 == provider && !sessions[n - 1].1 {
            seq![(n - 1) as usize]
        } else {
            seq![]
        }
    }
}

/// Switches `provider` on (out of `disabled`) or off (into `disabled`,
/// once). Switching off then moves new work to the first provider still
/// on (`on[i]` says whether `all[i]` is on once the switch is made): the
/// new-session default when it was `last_provider`, and every draft
/// session, given as (provider, started), on it. Nothing moves when a
/// provider is switched on or no provider is left on.
pub fn set_provider_enabled(
    disabled: &mut Vec<u32>,
    provider: u32,
    enabled: bool,
    all: &[u32],
    on: &[bool],
    last_provider: u32,
    sessions: &[(u32, bool)],
) -> (r: Option<ProviderMove>)
    requires
        all@.len() == on@.len(),
    ensures
        enabled ==> final(disabled)@ == old(disabled)@.filter(|k: u32| k != provider),
        !enabled ==> final(disabled)@ == if old(disabled)@.contains(provider) {
            old(disabled)@
        } else {
            old(disabled)@.push(provider)
        },
        enabled ==> r is None,
        !enabled ==> match first_on(all@, on@, all@.len() as int) {
            None => r is None,
            Some(i) => r matches Some(m) && m.fallback == all@[i] && m.reset_last == (last_provider == provider)
                && m.drafts@ == drafts_on(sessions@, provider, sessions@.len() as int),
        },
{
    if enabled {
        let mut kept: Vec<u32> = Vec::new();
        let mut i: usize = 0;
        while i < disabled.len()
            invariant
                i <= disabled@.len(),
                kept@ == disabled@.take(i as int).filter(|k: u32| k != provider),
            decreases disabled@.len() - i,
        {
            let k = disabled[i];
            if k != provider {
                kept.push(k);
            }
            proof {
                let t = disabled@.take(i + 1);
                assert(t.drop_last() =~= disabled@.take(i as int));
                assert(t.last() == k);
                assert(t.filter(|k: u32| k != provider) == t.drop_last().filter(|k: u32| k != provider) + if k != provider {
                    seq![k]
                } else {
                    seq![]
                }) by {
                    reveal(Seq::filter);
                }
            }
            i = i + 1;
        }
        assert(disabled@.take(disabled@.len() as int) =~= disabled@);
        *disabled = kept;
        return None;
    }
    let mut present = false;
    let mut i: usize = 0;
    while i < disabled.len()
        invariant
            i <= disabled@.len(),
            present == disabled@.take(i as int).contains(provider),
        decreases disabled@.len() - i,
    {
        proof {
            let t = disabled@.take(i + 1);
            assert(t =~= disabled@.take(i as int).push(disabled@[i as int]));
            if t.contains(provider) && !disabled@.take(i as int).contains(provider) {
                let j = choose|j: int| 0 <= j < t.len() && t[j] == provider;
                if j < i {
                    assert(disabled@.take(i as int)[j] == provider);
                }
            }
            if disabled@.take(i as int).contains(provider) {
                let j = choose|j: int| 0 <= j < i && disabled@.take(i as int)[j] == provider;
                assert(t[j] == provider);
            }
            if disabled@[i as int] == provider {
                assert(t[i as int] == provider);
            }
        }
        if disabled[i] == provider {
            present = true;
        }
        i = i + 1;
    }
    assert(disabled@.take(disabled@.len() as int) =~= disabled@);
    if !present {
        disabled.push(provider);
    }
    provider_move(all, on, provider, last_provider, sessions)
}

/// What switching `provider` off moves, once the switch is made (see
/// [`set_provider_enabled`]).
fn provider_move(
    all: &[u32],
    on: &[bool],
    provider: u32,
    last_provider: u32,
    sessions: &[(u32, bool)],
) -> (r: Option<ProviderMove>)
    requires
        all@.len() == on@.len(),
    ensures
        match first_on(all@, on@, all@.len() as int) {
            None => r is None,
            Some(i) => r matches Some(m) && m.fallback == all@[i] && m.reset_last == (last_provider == provider)
                && m.drafts@ == drafts_on(sessions@, provider, sessions@.len() as int),
        },
{
    let mut f: usize = 0;
    while f < all.len()
        invariant
            f <= all@.len(),
            all@.len() == on@.len(),
            first_on(all@, on@, f as int) is None,
        decreases all@.len() - f,
    {
        if on[f] {
            proof {
                lemma_first_on_stays(all@, on@, f as int + 1, all@.len() as int);
            }
            let mut drafts: Vec<usize> = Vec::new();
            let mut s: usize = 0;
            while s < sessions.len()
                invariant
                    s <= sessions@.len(),
                    drafts@ == drafts_on(sessions@, provider, s as int),
                decreases sessions@.len() - s,
            {
                if sessions[s].0 == provider && !sessions[s].1 {
                    drafts.push(s);
                }
                assert(drafts@ =~= drafts_on(sessions@, provider, s + 1));
                s = s + 1;
            }
            return Some(ProviderMove { fallback: all[f], reset_last: last_provider == provider, drafts });
        }
        f = f + 1;
    }
    None
}

/// Once found, the first provider that is on stays the first.
proof fn lemma_first_on_stays(all: Seq<u32>, on: Seq<bool>, m: int, n: int)
    requires
        0 <= m <= n,
        first_on(all, on, m) is Some,
    ensures
        first_on(all, on, n) == first_on(all, on, m),
    decreases n - m,
{
    if n > m {
        lemma_first_on_stays(all, on, m, n - 1);
    }
}

/// Whether a provider has an entry among the overrides.
pub open spec fn has_entry(overrides: Seq<(u32, String)>, provider: u32) -> bool {
    exists|i: int| 0 <= i < overrides.len() && (#[trigger] overrides[i]).0 == provider
}

/// The executable path set for a provider: that of its first entry, empty
/// (detect it on `PATH`) without one.
pub open spec fn override_of(overrides: Seq<(u32, String)>, provider: u32) -> Seq<char>
    decreases overrides.len(),
{
    if overrides.len() == 0 {
        seq![]
    } else if has_entry(overrides.drop_last(), provider) {
        override_of(overrides.drop_last(), provider)
    } else if overrides.last().0 == provider {
        overrides.last().1@
    } else {
        seq![]
    }
}

proof fn lemma_entries_push(v: Seq<(u32, String)>, e: (u32, String), q: u32)
    ensures
        has_entry(v.push(e), q) == (has_entry(v, q) || e.0 == q),
        override_of(v.push(e), q) == if has_entry(v, q) {
            override_of(v, q)
        } else if e.0 == q {
            e.1@
        } else {
            seq![]
        },
{
    let w = v.push(e);
    assert(w.drop_last() =~= v);
    if has_entry(v, q) {
        let i = choose|i: int| 0 <= i < v.len() && (#[trigger] v[i]).0 == q;
        assert(w[i] == v[i]);
    }
    if has_entry(w, q) && !has_entry(v, q) {
        let i = choose|i: int| 0 <= i < w.len() && (#[trigger] w[i]).0 == q;
        if i < v.len() {
            assert(w[i] == v[i]);
        }
    }
    if e.0 == q {
        assert(w[v.len() as int] == e);
    }
}

proof fn lemma_override_first(v: Seq<(u32, String)>, q: u32, j: int)
    requires
        0 <= j < v.len(),
        v[j].0 == q,
        forall|i: int| 0 <= i < j ==> (#[trigger] v[i]).0 != q,
    ensures
        override_of(v, q) == v[j].1@,
    decreases v.len(),
{
    let p = v.drop_last();
    assert(v =~= p.push(v.last()));
    lemma_entries_push(p, v.last(), q);
    if j < v.len() - 1 {
        assert(p[j] == v[j]);
        assert(has_entry(p, q));
        assert forall|i: int| 0 <= i < j implies (#[trigger] p[i]).0 != q by {
            assert(p[i] == v[i]);
        }
        lemma_override_first(p, q, j);
    } else {
        assert forall|i: int| 0 <= i < p.len() implies (#[trigger] p[i]).0 != q by {
            assert(p[i] == v[i]);
        }
    }
}

proof fn lemma_no_entry(v: Seq<(u32, String)>, q: u32)
    requires
        !has_entry(v, q),
    ensures
        override_of(v, q) == Seq::<char>::empty(),
    decreases v.len(),
{
    if v.len() > 0 {
        let p = v.drop_last();
        assert(v =~= p.push(v.last()));
        lemma_entries_push(p, v.last(), q);
        assert(v[v.len() - 1] == v.last());
    }
}

/// The path set for `provider` (see [`override_of`]).
fn current_override(overrides: &Vec<(u32, String)>, provider: u32) -> (r: String)
    ensures
        r@ == override_of(overrides@, provider),
{
    let mut i: usize = 0;
    while i < overrides.len()
        invariant
            i <= overrides@.len(),
            forall|k: int| 0 <= k < i ==> (#[trigger] overrides@[k]).0 != provider,
        decreases overrides@.len() - i,
    {
        if overrides[i].0 == provider {
            proof {
                lemma_override_first(overrides@, provider, i as int);
            }
            return overrides[i].1.clone();
        }
        i = i + 1;
    }
    proof {
        lemma_no_entry(overrides@, provider);
    }
    String::new()
}

/// Commits the path typed for the expanded provider (if one is): trimmed,
/// it replaces that provider's path, an empty one clearing it. Says
/// whether anything changed, after which the window saves and detects the
/// provider again.
pub fn apply_provider_path_override(
    overrides: &mut Vec<(u32, String)>,
    expanded: Option<u32>,
    input: &str,
) -> (changed: bool)
    ensures
        match expanded {
            None => !changed && final(overrides)@ == old(overrides)@,
            Some(p) => {
                &&& changed == (trim(input@) != override_of(old(overrides)@, p))
                &&& !changed ==> final(overrides)@ == old(overrides)@
                &&& changed ==> override_of(final(overrides)@, p) == trim(input@)
                &&& changed ==> (trim(input@).len() == 0 <==> !has_entry(final(overrides)@, p))
                &&& changed ==> forall|q: u32|
                    q != p ==> override_of(final(overrides)@, q) == override_of(old(overrides)@, q)
                        && has_entry(final(overrides)@, q) == has_entry(old(overrides)@, q)
            },
        },
{
    let provider = match expanded {
        Some(p) => p,
        None => {
            return false;
        },
    };
    let cs = chars_of(input);
    let (i, j) = trim_bounds(&cs, 0, cs.len());
    assert(cs@.subrange(0, cs@.len() as int) =~= cs@);
    let text = string_from_char_range(&cs, i, j);
    let current = current_override(overrides, provider);
    if text == current {
        return false;
    }
    let ghost before = overrides@;
    let mut kept: Vec<(u32, String)> = Vec::new();
    let mut k: usize = 0;
    assert(before.take(0) =~= Seq::<(u32, String)>::empty());
    while k < overrides.len()
        invariant
            k <= overrides@.len(),
            before == overrides@,
            !has_entry(kept@, provider),
            forall|x: u32|
                x != provider ==> override_of(kept@, x) == override_of(before.take(k as int), x)
                    && has_entry(kept@, x) == has_entry(before.take(k as int), x),
        decreases overrides@.len() - k,
    {
        let e = (overrides[k].0, overrides[k].1.clone());
        let ghost prev = kept@;
        let ghost t0 = before.take(k as int);
        assert(before.take(k + 1) =~= t0.push(before[k as int]));
        if e.0 != provider {
            kept.push(e);
        }
        proof {
            assert forall|x: u32| x != provider implies override_of(kept@, x) == override_of(before.take(k + 1), x)
                && has_entry(kept@, x) == has_entry(before.take(k + 1), x) by {
                lemma_entries_push(t0, before[k as int], x);
                if e.0 != provider {
                    lemma_entries_push(prev, e, x);
                }
            }
            if e.0 != provider {
                lemma_entries_push(prev, e, provider);
            }
        }
        k = k + 1;
    }
    assert(before.take(before.len() as int) =~= before);
    if text.as_str().is_empty() {
        proof {
            lemma_no_entry(kept@, provider);
        }
        *overrides = kept;
    } else {
        let ghost prev = kept@;
        let ghost tv = text@;
        kept.push((provider, text));
        proof {
            lemma_entries_push(prev, kept@.last(), provider);
            assert forall|x: u32| x != provider implies override_of(kept@, x) == override_of(before, x)
                && has_entry(kept@, x) == has_entry(before, x) by {
                lemma_entries_push(prev, kept@.last(), x);
            }
        }
        *overrides = kept;
    }
    true
}

/// Opens the settings of `provider`, or closes them when they are open,
/// after committing the path typed for the provider open before (see
/// [`apply_provider_path_override`]). Returns whether that commit changed a
/// path, and, when `provider` opens, the path its input starts with.
pub fn toggle_provider_expanded(
    expanded: &mut Option<u32>,
    overrides: &mut Vec<(u32, String)>,
    input: &str,
    provider: u32,
) -> (r: (bool, Option<String>))
    ensures
        r.0 == match *old(expanded) {
            None => false,
            Some(p) => trim(input@) != override_of(old(overrides)@, p),
        },
        *old(expanded) == Some(provider) ==> *final(expanded) is None && r.1 is None,
        *old(expanded) != Some(provider) ==> (*final(expanded) == Some(provider) && (r.1 matches Some(t)
            && t@ == override_of(final(overrides)@, provider))),
{
    let changed = apply_provider_path_override(overrides, *expanded, input);
    if *expanded == Some(provider) {
        *expanded = None;
        (changed, None)
    } else {
        *expanded = Some(provider);
        (changed, Some(current_override(overrides, provider)))
    }
}

} // verus!
