//! The native views behind the panel's tabs: which browser and terminal
//! views are kept, which are made, and which browser page belongs on screen.
use vstd::prelude::*;
use crate::editor::{paths_equal, same_path};
use crate::panel::{Padu, RightPanelSessionState};
use crate::surface::{models, RightPanelSurface, SurfaceModel};

verus! {

/// The tab of the browser (`terminal` false) or terminal with this id.
pub open spec fn view_tab(terminal: bool, id: u128) -> SurfaceModel {
    if terminal {
        SurfaceModel::Terminal(id)
    } else {
        SurfaceModel::Browser(id)
    }
}

/// Whether a tab of some session kept aside is that view.
pub open spec fn kept_aside(p: Padu, terminal: bool, id: u128) -> bool {
    exists|k: u128|
        #[trigger] p.right_panel_session_states@.contains_key(k) && models(
            p.right_panel_session_states@[k].surfaces@,
        ).contains(view_tab(terminal, id))
}

/// Whether any tab, on screen or kept for another session, is that view.
pub open spec fn view_in_use(p: Padu, terminal: bool, id: u128) -> bool {
    p.tabs().contains(view_tab(terminal, id)) || kept_aside(p, terminal, id)
}

/// Whether the tabs hold that view.
fn tabs_hold(surfaces: &Vec<RightPanelSurface>, terminal: bool, id: u128) -> (r: bool)
    ensures
        r == models(surfaces@).contains(view_tab(terminal, id)),
{
    let mut i: usize = 0;
    while i < surfaces.len()
        invariant
            i <= surfaces@.len(),
            forall|j: int| 0 <= j < i ==> (#[trigger] surfaces@[j])@ != view_tab(terminal, id),
        decreases surfaces@.len() - i,
    {
        let found = if terminal {
            surfaces[i].terminal_id() == Some(id)
        } else {
            surfaces[i].browser_id() == Some(id)
        };
        if found {
            assert(models(surfaces@)[i as int] == view_tab(terminal, id));
            return true;
        }
        i = i + 1;
    }
    proof {
        if models(surfaces@).contains(view_tab(terminal, id)) {
            let j = choose|j: int| 0 <= j < models(surfaces@).len() && models(surfaces@)[j] == view_tab(terminal, id);
            assert(surfaces@[j]@ == models(surfaces@)[j]);
        }
    }
    false
}

/// A session is kept aside with that view exactly when one of the stored
/// panels has it among its tabs.
proof fn lemma_kept_aside_by_values(p: Padu, terminal: bool, id: u128, refs: Seq<&RightPanelSessionState>)
    requires
        refs.unref().to_set() == p.right_panel_session_states@.values(),
    ensures
        kept_aside(p, terminal, id) <==> exists|j: int|
            0 <= j < refs.len() && models((#[trigger] refs[j]).surfaces@).contains(view_tab(terminal, id)),
{
    let vals = refs.unref();
    assert forall|j: int| 0 <= j < refs.len() implies #[trigger] vals[j] == *refs[j] by {}
    let m = p.right_panel_session_states@;
    let tab = view_tab(terminal, id);
    if kept_aside(p, terminal, id) {
        let k = choose|k: u128| #[trigger] m.contains_key(k) && models(m[k].surfaces@).contains(tab);
        assert(m.values().contains(m[k]));
        assert(vals.to_set().contains(m[k]));
        let j = choose|j: int| 0 <= j < vals.len() && vals[j] == m[k];
        assert(*refs[j] == m[k]);
        assert(models(refs[j].surfaces@).contains(tab));
    }
    if exists|j: int| 0 <= j < refs.len() && models((#[trigger] refs[j]).surfaces@).contains(tab) {
        let j = choose|j: int| 0 <= j < refs.len() && models((#[trigger] refs[j]).surfaces@).contains(tab);
        assert(vals[j] == *refs[j]);
        assert(vals.to_set().contains(vals[j]));
        assert(m.values().contains(vals[j]));
        let k = choose|k: u128| #[trigger] m.contains_key(k) && m[k] == vals[j];
        assert(m.contains_key(k) && models(m[k].surfaces@).contains(tab));
    }
}

impl Padu {
    /// Whether a session kept aside has that view among its tabs.
    fn kept_aside_holds(&self, terminal: bool, id: u128) -> (r: bool)
        ensures
            r == kept_aside(*self, terminal, id),
    {
        broadcast use vstd::std_specs::hash::group_hash_axioms;
        let ghost m = self.right_panel_session_states@;
        let ghost tab = view_tab(terminal, id);
        let mut found = false;
        for state in it: self.right_panel_session_states.values()
            invariant
                m == self.right_panel_session_states@,
                tab == view_tab(terminal, id),
                it.seq().unref().to_set() == m.values(),
                found == exists|j: int| 0 <= j < it.index() && models((#[trigger] it.seq()[j]).surfaces@).contains(tab),
                it.index() == it.seq().len() ==> found == kept_aside(*self, terminal, id),
        {
            proof {
                lemma_kept_aside_by_values(*self, terminal, id, it.seq());
            }
            if tabs_hold(&state.surfaces, terminal, id) {
                found = true;
            }
        }
        found
    }

    /// Whether any tab, on screen or kept aside, is that view.
    fn view_used(&self, terminal: bool, id: u128) -> (r: bool)
        ensures
            r == view_in_use(*self, terminal, id),
    {
        tabs_hold(&self.right_panel_surfaces, terminal, id) || self.kept_aside_holds(terminal, id)
    }

    /// Of the browser views alive (`live`), those no tab of any session is
    /// for any more: they are to be shut down.
    pub fn retain_right_panel_browsers(&self, live: &[u128]) -> (r: Vec<u128>)
        ensures
            forall|id: u128| r@.contains(id) <==> live@.contains(id) && !view_in_use(*self, false, id),
    {
        let mut stale: Vec<u128> = Vec::new();
        let mut i: usize = 0;
        while i < live.len()
            invariant
                i <= live@.len(),
                forall|id: u128|
                    stale@.contains(id) <==> live@.take(i as int).contains(id) && !view_in_use(*self, false, id),
            decreases live@.len() - i,
        {
            let id = live[i];
            let ghost before = stale@;
            let pushed = !self.view_used(false, id);
            if pushed {
                stale.push(id);
            }
            proof {
                if pushed {
                    assert(stale@ == before.push(id));
                } else {
                    assert(stale@ == before);
                }
                assert(live@.take(i + 1)[i as int] == id);
                assert forall|x: u128| stale@.contains(x) <==> live@.take(i + 1).contains(x) && !view_in_use(*self, false, x) by {
                    assert(live@.take(i + 1)[i as int] == id);
                    if stale@.contains(x) && x != id {
                        let j = choose|j: int| 0 <= j < stale@.len() && stale@[j] == x;
                        if j < before.len() {
                            assert(before[j] == x);
                        }
                    }
                    if before.contains(x) {
                        let j = choose|j: int| 0 <= j < before.len() && before[j] == x;
                        assert(stale@[j] == x);
                    }
                    if x == id && !view_in_use(*self, false, x) {
                        assert(stale@.last() == x);
                    }
                    if live@.take(i + 1).contains(x) && x != id {
                        let t1 = live@.take(i + 1);
                        let k = choose|k: int| 0 <= k < t1.len() && t1[k] == x;
                        assert(live@.take(i as int)[k] == x);
                    }
                    if live@.take(i as int).contains(x) {
                        let t0 = live@.take(i as int);
                        let k = choose|k: int| 0 <= k < t0.len() && t0[k] == x;
                        assert(live@.take(i + 1)[k] == x);
                    }
                }
            }
            i = i + 1;
        }
        assert(live@.take(live@.len() as int) =~= live@);
        stale
    }

    /// What to do with the terminal views, given those alive (`live`, each
    /// with its working directory) and the project on screen: the first list
    /// is the views to drop, the second the terminals to start in the
    /// project. A view no tab of any session is for is dropped; so is every
    /// terminal on screen when the daemon is remote or no project is open,
    /// since its shell would run in the wrong place. Otherwise each terminal
    /// on screen without a view in the project gets a new one.
    pub fn ensure_right_panel_terminals(&self, live: &[(u128, String)], workspace: Option<&str>) -> (r: (Vec<u128>, Vec<u128>))
        ensures
            forall|id: u128|
                r.0@.contains(id) <==> (exists|k: int| 0 <= k < live@.len() && (#[trigger] live@[k]).0 == id) && (
                    !view_in_use(*self, true, id) || (self.tabs().contains(SurfaceModel::Terminal(id))
                        && (self.remote_daemon || workspace is None))),
            forall|id: u128|
                r.1@.contains(id) <==> !self.remote_daemon && workspace is Some && self.tabs().contains(
                    SurfaceModel::Terminal(id),
                ) && !(exists|k: int|
                    0 <= k < live@.len() && (#[trigger] live@[k]).0 == id && same_path(live@[k].1@, workspace->0@)),
    {
        let no_shell = self.remote_daemon || workspace.is_none();
        let mut drop: Vec<u128> = Vec::new();
        let mut i: usize = 0;
        while i < live.len()
            invariant
                i <= live@.len(),
                no_shell == (self.remote_daemon || workspace is None),
                forall|id: u128|
                    drop@.contains(id) <==> (exists|k: int| 0 <= k < i && (#[trigger] live@[k]).0 == id) && (
                        !view_in_use(*self, true, id) || (self.tabs().contains(SurfaceModel::Terminal(id))
                            && no_shell)),
            decreases live@.len() - i,
        {
            let id = live[i].0;
            let ghost before = drop@;
            let shown = tabs_hold(&self.right_panel_surfaces, true, id);
            if !self.view_used(true, id) || (shown && no_shell) {
                drop.push(id);
            }
            proof {
                assert forall|x: u128|
                    drop@.contains(x) <==> (exists|k: int| 0 <= k < i + 1 && (#[trigger] live@[k]).0 == x) && (
                        !view_in_use(*self, true, x) || (self.tabs().contains(SurfaceModel::Terminal(x))
                            && no_shell)) by {
                    if drop@.contains(x) && x != id {
                        let j = choose|j: int| 0 <= j < drop@.len() && drop@[j] == x;
                        assert(before[j] == x);
                    }
                    if before.contains(x) {
                        let j = choose|j: int| 0 <= j < before.len() && before[j] == x;
                        assert(drop@[j] == x);
                    }
                    if x == id {
                        assert(live@[i as int].0 == x);
                        if drop@.len() > before.len() {
                            assert(drop@.last() == x);
                        }
                    }
                    if exists|k: int| 0 <= k < i + 1 && (#[trigger] live@[k]).0 == x {
                        if x != id {
                            let k = choose|k: int| 0 <= k < i + 1 && (#[trigger] live@[k]).0 == x;
                            assert(k < i);
                        }
                    }
                }
            }
            i = i + 1;
        }
        let mut create: Vec<u128> = Vec::new();
        let project = match workspace {
            Some(w) => w,
            None => {
                return (drop, create);
            },
        };
        if self.remote_daemon {
            return (drop, create);
        }
        let ghost ws = project@;
        let mut t: usize = 0;
        while t < self.right_panel_surfaces.len()
            invariant
                t <= self.right_panel_surfaces@.len(),
                ws == project@,
                forall|id: u128|
                    create@.contains(id) <==> models(self.right_panel_surfaces@.take(t as int)).contains(
                        SurfaceModel::Terminal(id),
                    ) && !(exists|k: int|
                        0 <= k < live@.len() && (#[trigger] live@[k]).0 == id && same_path(live@[k].1@, ws)),
            decreases self.right_panel_surfaces@.len() - t,
        {
            let ghost before = create@;
            let ghost prefix = models(self.right_panel_surfaces@.take(t as int));
            assert(models(self.right_panel_surfaces@.take(t + 1)) =~= prefix.push(self.right_panel_surfaces@[t as int]@));
            if let Some(id) = self.right_panel_surfaces[t].terminal_id() {
                let mut matched = false;
                let mut k: usize = 0;
                while k < live.len()
                    invariant
                        k <= live@.len(),
                        matched == exists|j: int| 0 <= j < k && (#[trigger] live@[j]).0 == id && same_path(live@[j].1@, ws),
                        ws == project@,
                    decreases live@.len() - k,
                {
                    if live[k].0 == id && paths_equal(live[k].1.as_str(), project) {
                        matched = true;
                    }
                    k = k + 1;
                }
                if !matched {
                    create.push(id);
                }
                proof {
                    assert forall|x: u128|
                        create@.contains(x) <==> models(self.right_panel_surfaces@.take(t + 1)).contains(
                            SurfaceModel::Terminal(x),
                        ) && !(exists|j: int|
                            0 <= j < live@.len() && (#[trigger] live@[j]).0 == x && same_path(live@[j].1@, ws)) by {
                        if create@.contains(x) && x != id {
                            let j = choose|j: int| 0 <= j < create@.len() && create@[j] == x;
                            assert(before[j] == x);
                        }
                        if before.contains(x) {
                            let j = choose|j: int| 0 <= j < before.len() && before[j] == x;
                            assert(create@[j] == x);
                        }
                        if x == id && !matched {
                            assert(create@.last() == x);
                        }
                        let longer = models(self.right_panel_surfaces@.take(t + 1));
                        if longer.contains(SurfaceModel::Terminal(x)) && x != id {
                            let j = choose|j: int| 0 <= j < longer.len() && longer[j] == SurfaceModel::Terminal(x);
                            assert(j < t);
                            assert(prefix[j] == longer[j]);
                        }
                        if prefix.contains(SurfaceModel::Terminal(x)) {
                            let j = choose|j: int| 0 <= j < prefix.len() && prefix[j] == SurfaceModel::Terminal(x);
                            assert(longer[j] == prefix[j]);
                        }
                        assert(longer[t as int] == SurfaceModel::Terminal(id));
                    }
                }
            } else {
                proof {
                    assert forall|x: u128|
                        models(self.right_panel_surfaces@.take(t + 1)).contains(SurfaceModel::Terminal(x))
                            == prefix.contains(SurfaceModel::Terminal(x)) by {
                        let longer = models(self.right_panel_surfaces@.take(t + 1));
                        if longer.contains(SurfaceModel::Terminal(x)) {
                            let j = choose|j: int| 0 <= j < longer.len() && longer[j] == SurfaceModel::Terminal(x);
                            assert(j < t);
                            assert(prefix[j] == longer[j]);
                        }
                        if prefix.contains(SurfaceModel::Terminal(x)) {
                            let j = choose|j: int| 0 <= j < prefix.len() && prefix[j] == SurfaceModel::Terminal(x);
                            assert(longer[j] == prefix[j]);
                        }
                    }
                }
            }
            t = t + 1;
        }
        assert(self.right_panel_surfaces@.take(self.right_panel_surfaces@.len() as int) =~= self.right_panel_surfaces@);
        (drop, create)
    }

    /// Which browser's page belongs where: the first is the browser tab
    /// that is active (none while settings are open), the second the one
    /// whose native view may show, which also needs the panel shown and
    /// done sliding (`sliding`), and not the conversation in fullscreen.
    pub fn sync_browser_webviews(&self, settings_open: bool, sliding: bool) -> (r: (Option<u128>, Option<u128>))
        requires
            self.wf(),
        ensures
            r.0 == if settings_open {
                None
            } else {
                match self.active_model() {
                    Some(SurfaceModel::Browser(id)) => Some(id),
                    _ => None,
                }
            },
            r.1 == if !settings_open && self.right_panel_visible && !sliding && !(self.fullscreen_active()
                && self.right_panel_fullscreen_conversation) {
                r.0
            } else {
                None
            },
    {
        let active = if settings_open {
            None
        } else {
            match self.active_right_panel_surface() {
                Some(surface) => surface.browser_id(),
                None => None,
            }
        };
        let shown = !settings_open && self.right_panel_visible && !sliding && !(self.right_panel_fullscreen_active()
            && self.right_panel_fullscreen_conversation);
        (active, if shown { active } else { None })
    }
}

} // verus!
