//! The right panel's tab strip: which surfaces are open, which one is on
//! screen, docked or fullscreen.
//!
//! Each operation changes the state and hands back what the window has to
//! do about it (scroll a tab into view, refresh a view, start a terminal),
//! in order.
use std::collections::HashMap;
use vstd::prelude::*;
use crate::whats_new::WhatsNewDialog;
use crate::file_ops::InlineFileOperationKind;
use crate::review::{DiffFileLayout, ReviewFile};
use crate::review_panel::{files_of, ReviewPanel};
use crate::review_source::ReviewDiffSource;
use crate::text::{chars_of, trim, trim_bounds, string_from_char_range, push_char};
use crate::links::{LinkRoute, route_of, transcript_link_route, TranscriptLinkRoute};
use crate::surface::{opt_view, RightPanelSurface, SurfaceModel, models, reuses, is_expandable,
    reusable_surface_index, first_reuse, lemma_first_reuse_found, fullscreen_tab_order, fullscreen_cycle_next, cycle_next_of};

verus! {

/// A file open in an editor: what was last read from or written to disk,
/// whether it may be saved, whether the buffer differs from it, and the
/// read in flight.
#[derive(Debug, PartialEq, Eq)]
pub struct FileEditor {
    pub path: String,
    pub disk_content: String,
    pub writable: bool,
    /// The buffer has edits not on disk.
    pub dirty: bool,
    /// A read is in flight.
    pub reading: bool,
    /// Counts reads and saves; a result answers only the latest.
    pub read_epoch: u64,
}

impl Clone for FileEditor {
    fn clone(&self) -> (r: Self)
        ensures
            r == *self,
    {
        FileEditor {
            path: self.path.clone(),
            disk_content: self.disk_content.clone(),
            writable: self.writable,
            dirty: self.dirty,
            reading: self.reading,
            read_epoch: self.read_epoch,
        }
    }
}

/// Something the window does after an operation on the tab strip.
#[derive(Debug, PartialEq, Eq, Clone, Copy)]
pub enum PanelEffect {
    /// Scroll the tab strip until the tab at this index is in view.
    ScrollToTab(usize),
    /// Reload the review diff.
    RefreshDiff,
    /// Rescan the working tree.
    RefreshWorkingTree,
    /// Make sure the terminal with this id is running.
    EnsureTerminal(u128),
    /// Drop the terminal with this id.
    RemoveTerminal(u128),
    /// Tear down the browser view with this id.
    DestroyBrowser(u128),
    /// Widen the panel for a newly opened review.
    WidenForReview,
    /// Widen the panel for the first file editor.
    WidenForFileEditor,
    /// The panel was shown (`true`) or hidden.
    SetVisible(bool),
    /// Move keyboard focus to the active surface.
    FocusActiveSurface,
    /// Move keyboard focus to the composer.
    FocusComposer,
    /// Hide the window.
    HideWindow,
    /// A session's panel came back on screen: reload what its views show
    /// (editors, find bar, review rows), start its terminals, drop other
    /// sessions' browser views and record whether the panel shows.
    SessionRestored,
}

/// Where keyboard focus goes for the active surface.
#[derive(Debug, PartialEq, Eq)]
pub enum FocusTarget {
    /// The review's key handler.
    ReviewControl,
    /// The editor of this file.
    Editor(String),
    /// The working tree's key handler.
    WorkingTreeControl,
    /// The active terminal, once drawn.
    Terminal,
    /// The active browser, once drawn.
    Browser,
    /// Nothing takes focus.
    Nothing,
}

/// What a clicked link did.
#[derive(Debug, PartialEq, Eq)]
pub enum LinkOutcome {
    /// Opened in the panel, with these effects.
    Opened(Vec<PanelEffect>),
    /// A local path that a remote daemon's machine holds: say so.
    RemotePathError,
    /// Show this path in the file manager.
    RevealInFileManager(String),
    /// Not a link the panel handles.
    NotHandled,
}

/// The application state the right panel reads and changes.
pub struct Padu {
    pub right_panel_visible: bool,
    pub right_panel_fullscreen: bool,
    /// In fullscreen, whether the conversation is showing in place of a
    /// surface.
    pub right_panel_fullscreen_conversation: bool,
    pub right_panel_surfaces: Vec<RightPanelSurface>,
    pub right_panel_active_surface: Option<usize>,
    /// A tab the strip has been asked to scroll into view.
    pub right_panel_pending_tab_reveal: Option<usize>,
    /// A terminal that should take focus once it is drawn.
    pub right_panel_pending_terminal_focus: Option<u128>,
    /// A browser that should take focus once it is drawn.
    pub right_panel_pending_browser_focus: Option<u128>,
    /// The file the files browser has selected.
    pub right_panel_files_selected_path: Option<String>,
    /// The working-tree row the keyboard cursor is on.
    pub right_panel_files_cursor: Option<usize>,
    /// The working tree's rows, by workspace-relative path.
    pub right_panel_working_tree_paths: Vec<String>,
    pub right_panel_file_editors: Vec<FileEditor>,
    /// The working tree's expanded directories, by absolute path.
    pub right_panel_expanded_paths: Vec<String>,
    /// The create or rename being typed into the working tree, if any.
    pub right_panel_inline_file_operation: Option<InlineFileOperationKind>,
    /// The review surface.
    pub right_panel_review: ReviewPanel,
    /// Whether a project is active, which the files and review surfaces need.
    pub has_active_project: bool,
    /// Whether the daemon runs on another host, whose paths this machine
    /// cannot show.
    pub remote_daemon: bool,
    /// The session on screen.
    pub selected_session: Option<u128>,
    /// Each other session's panel, kept while another is on screen.
    pub right_panel_session_states: HashMap<u128, RightPanelSessionState>,
    /// The version whose release notes were last acknowledged.
    pub last_seen_version: Option<String>,
    /// The release-notes dialog, while it is open.
    pub whats_new: Option<WhatsNewDialog>,
}

/// One session's right panel, kept while another session is on screen.
#[derive(Debug, PartialEq)]
pub struct RightPanelSessionState {
    pub visible: bool,
    pub fullscreen: bool,
    pub fullscreen_conversation: bool,
    pub surfaces: Vec<RightPanelSurface>,
    pub active_surface: Option<usize>,
    pub pending_tab_reveal: Option<usize>,
    pub expanded_paths: Vec<String>,
    pub files_selected_path: Option<String>,
    pub file_editors: Vec<FileEditor>,
    pub diff_source: ReviewDiffSource,
    pub diff_files: Option<Vec<ReviewFile>>,
    pub diff_selected_file: Option<usize>,
    pub diff_expanded_paths: Vec<String>,
    pub diff_file_layout: DiffFileLayout,
    pub diff_files_visible: bool,
}

impl Padu {
    /// The active index, when there is one, names a tab.
    pub open spec fn wf(&self) -> bool {
        self.right_panel_active_surface matches Some(i) ==> i < self.right_panel_surfaces@.len()
    }

    /// The tabs as values.
    pub open spec fn tabs(&self) -> Seq<SurfaceModel> {
        models(self.right_panel_surfaces@)
    }

    /// The active surface, as a value.
    pub open spec fn active_model(&self) -> Option<SurfaceModel> {
        match self.right_panel_active_surface {
            Some(i) => if i < self.right_panel_surfaces@.len() {
                Some(self.right_panel_surfaces@[i as int]@)
            } else {
                None
            },
            None => None,
        }
    }

    /// Everything but the tab strip and its pending requests is as in `other`.
    pub open spec fn keeps_rest(&self, other: &Self) -> bool {
        &&& self.right_panel_files_selected_path == other.right_panel_files_selected_path
        &&& self.right_panel_files_cursor == other.right_panel_files_cursor
        &&& self.right_panel_working_tree_paths == other.right_panel_working_tree_paths
        &&& self.right_panel_file_editors == other.right_panel_file_editors
        &&& self.right_panel_expanded_paths == other.right_panel_expanded_paths
        &&& self.right_panel_inline_file_operation == other.right_panel_inline_file_operation
        &&& self.right_panel_review == other.right_panel_review
        &&& self.has_active_project == other.has_active_project
        &&& self.remote_daemon == other.remote_daemon
        &&& self.selected_session == other.selected_session
        &&& self.right_panel_session_states == other.right_panel_session_states
        &&& self.last_seen_version == other.last_seen_version
        &&& self.whats_new == other.whats_new
    }

    /// The pending focus requests follow the active surface: its terminal
    /// id, its browser id.
    pub open spec fn focus_follows_active(&self) -> bool {
        &&& self.right_panel_pending_terminal_focus == match self.active_model() {
            Some(SurfaceModel::Terminal(id)) => Some(id),
            _ => None,
        }
        &&& self.right_panel_pending_browser_focus == match self.active_model() {
            Some(SurfaceModel::Browser(id)) => Some(id),
            _ => None,
        }
    }

    /// Whether the panel has a surface that gates the fullscreen button.
    pub open spec fn any_expandable(&self) -> bool {
        exists|i: int| 0 <= i < self.right_panel_surfaces@.len() && is_expandable(
            #[trigger] self.right_panel_surfaces@[i]@,
        )
    }

    /// Whether the expand button shows: the panel is open with at least one
    /// of browser, terminal, files, a file or review.
    pub open spec fn can_expand(&self) -> bool {
        self.right_panel_visible && self.any_expandable()
    }

    /// Whether the fullscreen takeover is on screen: flagged, visible, and
    /// still with an expandable surface.
    pub open spec fn fullscreen_active(&self) -> bool {
        self.right_panel_visible && self.right_panel_fullscreen && self.can_expand()
    }

    /// The surface on screen, if any.
    pub fn active_right_panel_surface(&self) -> (r: Option<&RightPanelSurface>)
        ensures
            match r {
                Some(s) => self.active_model() == Some(s@),
                None => self.active_model() is None,
            },
    {
        match self.right_panel_active_surface {
            Some(i) => if i < self.right_panel_surfaces.len() {
                Some(&self.right_panel_surfaces[i])
            } else {
                None
            },
            None => None,
        }
    }

    /// Whether a surface counts toward the fullscreen expand button: the
    /// primary surfaces do, background work never does on its own.
    pub fn right_panel_surface_is_expandable(surface: &RightPanelSurface) -> (r: bool)
        ensures
            r == is_expandable(surface@),
    {
        surface.is_expandable()
    }

    fn has_expandable_surface(&self) -> (r: bool)
        ensures
            r == self.any_expandable(),
    {
        let mut i: usize = 0;
        while i < self.right_panel_surfaces.len()
            invariant
                i <= self.right_panel_surfaces@.len(),
                forall|j: int| 0 <= j < i ==> !is_expandable(#[trigger] self.right_panel_surfaces@[j]@),
            decreases self.right_panel_surfaces@.len() - i,
        {
            if self.right_panel_surfaces[i].is_expandable() {
                return true;
            }
            i = i + 1;
        }
        false
    }

    /// Whether the expand button shows.
    pub fn right_panel_can_expand(&self) -> (r: bool)
        ensures
            r == self.can_expand(),
    {
        self.right_panel_visible && self.has_expandable_surface()
    }

    /// What re-reading the workspace surface on screen asks: the review
    /// reloads; the files browser or a file rescans the working tree.
    pub fn refresh_workspace_surfaces(&self) -> (r: Option<PanelEffect>)
        ensures
            r == match self.active_model() {
                Some(SurfaceModel::Diff) => Some(PanelEffect::RefreshDiff),
                Some(SurfaceModel::Files) => Some(PanelEffect::RefreshWorkingTree),
                Some(SurfaceModel::File(_)) => Some(PanelEffect::RefreshWorkingTree),
                _ => None,
            },
    {
        match self.active_right_panel_surface() {
            Some(RightPanelSurface::Diff) => Some(PanelEffect::RefreshDiff),
            Some(RightPanelSurface::Files) => Some(PanelEffect::RefreshWorkingTree),
            Some(RightPanelSurface::File(_)) => Some(PanelEffect::RefreshWorkingTree),
            _ => None,
        }
    }

    /// Whether the fullscreen takeover is on screen.
    pub fn right_panel_fullscreen_active(&self) -> (r: bool)
        ensures
            r == self.fullscreen_active(),
    {
        self.right_panel_visible && self.right_panel_fullscreen && self.right_panel_can_expand()
    }

    /// The fullscreen tab order: the conversation, then each surface index.
    pub fn right_panel_fullscreen_order(&self) -> (r: Vec<Option<usize>>)
        requires
            self.right_panel_surfaces@.len() < usize::MAX,
        ensures
            r@.len() == self.right_panel_surfaces@.len() + 1,
            r@[0] == None::<usize>,
            forall|i: int|
                1 <= i <= self.right_panel_surfaces@.len() ==> #[trigger] r@[i] == Some(
                    (i - 1) as usize,
                ),
    {
        fullscreen_tab_order(self.right_panel_surfaces.len())
    }

    /// Where the fullscreen view is in that order: 0 for the conversation,
    /// otherwise one past the active index.
    pub fn right_panel_fullscreen_position(&self) -> (r: Option<usize>)
        requires
            self.wf(),
        ensures
            r == if self.right_panel_fullscreen_conversation {
                Some(0usize)
            } else {
                match self.right_panel_active_surface {
                    Some(a) => Some((a + 1) as usize),
                    None => None,
                }
            },
    {
        let _count = self.right_panel_surfaces.len();
        if self.right_panel_fullscreen_conversation {
            Some(0)
        } else {
            match self.right_panel_active_surface {
                Some(a) => Some(a + 1),
                None => None,
            }
        }
    }

    /// Asks for the tab at `index` to be scrolled into view.
    fn reveal_right_panel_tab(&mut self, index: usize, effects: &mut Vec<PanelEffect>)
        ensures
            *final(self) == (Padu { right_panel_pending_tab_reveal: Some(index), ..*old(self) }),
            final(effects)@ == old(effects)@.push(PanelEffect::ScrollToTab(index)),
    {
        self.right_panel_pending_tab_reveal = Some(index);
        effects.push(PanelEffect::ScrollToTab(index));
    }

    /// Asks the active surface's terminal, if it is one, to take focus.
    pub fn request_active_terminal_focus(&mut self)
        ensures
            *final(self) == (Padu {
                right_panel_pending_terminal_focus: match old(self).active_model() {
                    Some(SurfaceModel::Terminal(id)) => Some(id),
                    _ => None,
                },
                ..*old(self)
            }),
    {
        let id = match self.active_right_panel_surface() {
            Some(s) => s.terminal_id(),
            None => None,
        };
        self.right_panel_pending_terminal_focus = id;
    }

    /// Asks the active surface's browser, if it is one, to take focus.
    pub fn request_active_browser_focus(&mut self)
        ensures
            *final(self) == (Padu {
                right_panel_pending_browser_focus: match old(self).active_model() {
                    Some(SurfaceModel::Browser(id)) => Some(id),
                    _ => None,
                },
                ..*old(self)
            }),
    {
        let id = match self.active_right_panel_surface() {
            Some(s) => s.browser_id(),
            None => None,
        };
        self.right_panel_pending_browser_focus = id;
    }

    /// Shows or hides the panel.
    fn set_right_panel_visible(&mut self, visible: bool, effects: &mut Vec<PanelEffect>)
        ensures
            *final(self) == (Padu { right_panel_visible: visible, ..*old(self) }),
            final(effects)@ == old(effects)@.push(PanelEffect::SetVisible(visible)),
    {
        self.right_panel_visible = visible;
        effects.push(PanelEffect::SetVisible(visible));
    }
}

/// What opening `s` asks of the window, given the tabs before and the
/// index it lands on: widen for a first file editor or a new review,
/// refresh what the surface shows, start its terminal, then scroll to it and
/// show the panel.
pub open spec fn open_effects(old: Padu, s: SurfaceModel, index: int) -> Seq<PanelEffect> {
    open_prelude(old, s) + seq![PanelEffect::ScrollToTab(index as usize), PanelEffect::SetVisible(true)]
}

/// What opening `s` asks before the tab is chosen.
pub open spec fn open_prelude(old: Padu, s: SurfaceModel) -> Seq<PanelEffect> {
    let widen_editor = if s is File && old.right_panel_file_editors@.len() == 0 {
        seq![PanelEffect::WidenForFileEditor]
    } else {
        seq![]
    };
    let review = if s is Diff {
        (if first_reuse(old.tabs(), s) is None {
            seq![PanelEffect::WidenForReview]
        } else {
            seq![]
        }) + seq![PanelEffect::RefreshDiff]
    } else {
        seq![]
    };
    let tree = if s is Files || s is File {
        seq![PanelEffect::RefreshWorkingTree]
    } else {
        seq![]
    };
    let terminal = match s {
        SurfaceModel::Terminal(id) => seq![PanelEffect::EnsureTerminal(id)],
        _ => seq![],
    };
    widen_editor + review + tree + terminal
}

/// The index `s` lands on when opened over `tabs`: the tab it reuses, or a
/// new one at the end.
pub open spec fn open_index(tabs: Seq<SurfaceModel>, s: SurfaceModel) -> int {
    match first_reuse(tabs, s) {
        Some(i) => i,
        None => tabs.len() as int,
    }
}

/// The tabs after opening `s` over `tabs`.
pub open spec fn open_tabs(tabs: Seq<SurfaceModel>, s: SurfaceModel) -> Seq<SurfaceModel> {
    match first_reuse(tabs, s) {
        Some(_) => tabs,
        None => tabs.push(s),
    }
}

impl Padu {
    /// Widens the panel for the first file editor.
    fn ensure_initial_right_panel_file_editor_width(&self, effects: &mut Vec<PanelEffect>)
        ensures
            final(effects)@ == old(effects)@ + if self.right_panel_file_editors@.len() == 0 {
                seq![PanelEffect::WidenForFileEditor]
            } else {
                seq![]
            },
    {
        if self.right_panel_file_editors.len() == 0 {
            effects.push(PanelEffect::WidenForFileEditor);
        } else {
            assert(old(effects)@ + Seq::<PanelEffect>::empty() =~= old(effects)@);
        }
    }

    /// Opens a surface: in the tab that already shows it when it is one that
    /// reuses its tab, in a new tab at the end otherwise. The panel shows
    /// it, never the fullscreen conversation.
    pub fn open_right_panel_surface(&mut self, surface: RightPanelSurface) -> (effects: Vec<
        PanelEffect,
    >)
        requires
            old(self).wf(),
            old(self).right_panel_surfaces@.len() < usize::MAX,
        ensures
            final(self).wf(),
            final(self).tabs() == open_tabs(old(self).tabs(), surface@),
            final(self).right_panel_active_surface == Some(
                open_index(old(self).tabs(), surface@) as usize,
            ),
            final(self).active_model() == Some(
                open_tabs(old(self).tabs(), surface@)[open_index(old(self).tabs(), surface@)],
            ),
            final(self).right_panel_pending_tab_reveal == final(self).right_panel_active_surface,
            final(self).focus_follows_active(),
            final(self).right_panel_visible,
            !final(self).right_panel_fullscreen_conversation,
            final(self).right_panel_fullscreen == old(self).right_panel_fullscreen,
            final(self).keeps_rest(&*old(self)),
            effects@ == open_effects(*old(self), surface@, open_index(old(self).tabs(), surface@)),
    {
        let mut effects: Vec<PanelEffect> = Vec::new();
        self.open_surface_into(surface, &mut effects);
        assert(Seq::<PanelEffect>::empty() + open_effects(
            *old(self),
            surface@,
            open_index(old(self).tabs(), surface@),
        ) =~= effects@);
        effects
    }

    fn open_surface_into(&mut self, surface: RightPanelSurface, effects: &mut Vec<PanelEffect>)
        requires
            old(self).wf(),
            old(self).right_panel_surfaces@.len() < usize::MAX,
        ensures
            final(self).wf(),
            final(self).tabs() == open_tabs(old(self).tabs(), surface@),
            final(self).right_panel_active_surface == Some(
                open_index(old(self).tabs(), surface@) as usize,
            ),
            final(self).active_model() == Some(
                open_tabs(old(self).tabs(), surface@)[open_index(old(self).tabs(), surface@)],
            ),
            final(self).right_panel_pending_tab_reveal == final(self).right_panel_active_surface,
            final(self).focus_follows_active(),
            final(self).right_panel_visible,
            !final(self).right_panel_fullscreen_conversation,
            final(self).right_panel_fullscreen == old(self).right_panel_fullscreen,
            final(self).keeps_rest(&*old(self)),
            final(effects)@ == old(effects)@ + open_effects(
                *old(self),
                surface@,
                open_index(old(self).tabs(), surface@),
            ),
    {
        let ghost start = old(effects)@;
        let ghost before = *self;
        let ghost s = surface@;
        let reusable_index = reusable_surface_index(self.right_panel_surfaces.as_slice(), &surface);
        self.push_open_prelude(&surface, reusable_index.is_none(), effects);
        let index = match reusable_index {
            Some(index) => index,
            None => {
                self.right_panel_surfaces.push(surface);
                self.right_panel_surfaces.len() - 1
            },
        };
        proof {
            assert(self.tabs() =~= open_tabs(before.tabs(), s));
        }
        self.right_panel_active_surface = Some(index);
        let ghost e4 = effects@;
        self.reveal_right_panel_tab(index, effects);
        self.request_active_terminal_focus();
        self.request_active_browser_focus();
        self.right_panel_fullscreen_conversation = false;
        self.set_right_panel_visible(true, effects);
        proof {
            assert(effects@ =~= start + open_effects(before, s, open_index(before.tabs(), s)));
        }
    }

    fn push_open_prelude(&self, surface: &RightPanelSurface, is_new: bool, effects: &mut Vec<
        PanelEffect,
    >)
        requires
            is_new == first_reuse(self.tabs(), surface@) is None,
        ensures
            final(effects)@ == old(effects)@ + open_prelude(*self, surface@),
    {
        let ghost start = old(effects)@;
        let ghost s = surface@;
        if matches!(surface, RightPanelSurface::File(_)) {
            self.ensure_initial_right_panel_file_editor_width(effects);
        }
        let ghost e1 = effects@;
        if matches!(surface, RightPanelSurface::Diff) {
            if is_new {
                effects.push(PanelEffect::WidenForReview);
            }
            effects.push(PanelEffect::RefreshDiff);
        }
        let ghost e2 = effects@;
        if matches!(surface, RightPanelSurface::Files | RightPanelSurface::File(_)) {
            effects.push(PanelEffect::RefreshWorkingTree);
        }
        let ghost e3 = effects@;
        if let Some(terminal_id) = surface.terminal_id() {
            effects.push(PanelEffect::EnsureTerminal(terminal_id));
        }
        proof {
            let widen_editor = if s is File && self.right_panel_file_editors@.len() == 0 {
                seq![PanelEffect::WidenForFileEditor]
            } else {
                seq![]
            };
            assert(e1 =~= start + widen_editor);
            let review = if s is Diff {
                (if first_reuse(self.tabs(), s) is None {
                    seq![PanelEffect::WidenForReview]
                } else {
                    seq![]
                }) + seq![PanelEffect::RefreshDiff]
            } else {
                seq![]
            };
            assert(e2 =~= e1 + review);
            let tree = if s is Files || s is File {
                seq![PanelEffect::RefreshWorkingTree]
            } else {
                seq![]
            };
            assert(e3 =~= e2 + tree);
            let terminal = match s {
                SurfaceModel::Terminal(id) => seq![PanelEffect::EnsureTerminal(id)],
                _ => seq![],
            };
            assert(effects@ =~= e3 + terminal);
            assert(effects@ =~= start + open_prelude(*self, s));
        }
    }
}

/// The active index after the tab at `index` closes, given the active index
/// before and how many tabs are left: a later tab moves down by one, the
/// closed tab's left neighbour (or the first tab) takes over, none is left
/// when no tab is.
pub open spec fn active_after_close(active: Option<usize>, index: int, remaining: int) -> Option<usize> {
    if remaining == 0 {
        None
    } else {
        Some(
            match active {
                Some(a) => if a > index {
                    (a - 1) as usize
                } else if a == index {
                    if index > 0 {
                        (index - 1) as usize
                    } else {
                        0usize
                    }
                } else {
                    if a < remaining - 1 {
                        a
                    } else {
                        (remaining - 1) as usize
                    }
                },
                None => 0usize,
            },
        )
    }
}

/// What closing the tab `closed` asks of the window: drop its terminal or
/// browser, then scroll to the new active tab, or hide the panel when none
/// is left.
pub open spec fn close_effects(closed: SurfaceModel, active: Option<usize>) -> Seq<PanelEffect> {
    let teardown = match closed {
        SurfaceModel::Terminal(id) => seq![PanelEffect::RemoveTerminal(id)],
        SurfaceModel::Browser(id) => seq![PanelEffect::DestroyBrowser(id)],
        _ => seq![],
    };
    teardown + match active {
        Some(a) => seq![PanelEffect::ScrollToTab(a)],
        None => seq![PanelEffect::SetVisible(false)],
    }
}

impl Padu {
    /// Closes the tab at `index`; out of range, nothing happens. The other
    /// tabs keep their order, the active surface stays active when it was
    /// not the one closed, and closing the last expandable surface leaves
    /// fullscreen.
    pub fn close_right_panel_surface(&mut self, index: usize) -> (effects: Vec<PanelEffect>)
        requires
            old(self).wf(),
        ensures
            final(self).wf(),
            index >= old(self).right_panel_surfaces@.len() ==> *final(self) == *old(self) && effects@
                == Seq::<PanelEffect>::empty(),
            index < old(self).right_panel_surfaces@.len() ==> {
                &&& final(self).tabs() == old(self).tabs().remove(index as int)
                &&& final(self).right_panel_active_surface == active_after_close(
                    old(self).right_panel_active_surface,
                    index as int,
                    old(self).right_panel_surfaces@.len() - 1,
                )
                &&& final(self).right_panel_pending_tab_reveal == final(self).right_panel_active_surface
                &&& final(self).focus_follows_active()
                &&& final(self).right_panel_visible == (old(self).right_panel_visible
                    && old(self).right_panel_surfaces@.len() > 1)
                &&& final(self).right_panel_fullscreen == (old(self).right_panel_fullscreen
                    && final(self).can_expand())
                &&& final(self).right_panel_fullscreen_conversation == (
                old(self).right_panel_fullscreen_conversation && final(self).can_expand())
                &&& final(self).keeps_rest(&*old(self))
                &&& effects@ == close_effects(
                    old(self).tabs()[index as int],
                    final(self).right_panel_active_surface,
                )
                &&& (old(self).right_panel_active_surface matches Some(a) && a != index)
                    ==> final(self).active_model() == old(self).active_model()
            },
    {
        let mut effects: Vec<PanelEffect> = Vec::new();
        if index >= self.right_panel_surfaces.len() {
            return effects;
        }
        let ghost before = *self;
        let ghost closed = self.right_panel_surfaces@[index as int]@;
        if let Some(terminal_id) = self.right_panel_surfaces[index].terminal_id() {
            effects.push(PanelEffect::RemoveTerminal(terminal_id));
        }
        if let Some(browser_id) = self.right_panel_surfaces[index].browser_id() {
            effects.push(PanelEffect::DestroyBrowser(browser_id));
        }
        let ghost e1 = effects@;
        self.right_panel_surfaces.remove(index);
        proof {
            assert(self.tabs() =~= before.tabs().remove(index as int));
        }
        let remaining = self.right_panel_surfaces.len();
        self.right_panel_active_surface = if remaining == 0 {
            None
        } else {
            Some(
                match self.right_panel_active_surface {
                    Some(active) => if active > index {
                        active - 1
                    } else if active == index {
                        if index > 0 {
                            index - 1
                        } else {
                            0
                        }
                    } else if active < remaining - 1 {
                        active
                    } else {
                        remaining - 1
                    },
                    None => 0,
                },
            )
        };
        if let Some(active) = self.right_panel_active_surface {
            self.reveal_right_panel_tab(active, &mut effects);
            self.request_active_terminal_focus();
            self.request_active_browser_focus();
        } else {
            self.right_panel_pending_tab_reveal = None;
            self.right_panel_pending_terminal_focus = None;
            self.right_panel_pending_browser_focus = None;
            self.set_right_panel_visible(false, &mut effects);
        }
        if !self.right_panel_can_expand() {
            self.right_panel_fullscreen = false;
            self.right_panel_fullscreen_conversation = false;
        }
        proof {
            let teardown = match closed {
                SurfaceModel::Terminal(id) => seq![PanelEffect::RemoveTerminal(id)],
                SurfaceModel::Browser(id) => seq![PanelEffect::DestroyBrowser(id)],
                _ => seq![],
            };
            assert(e1 =~= teardown);
            assert(effects@ =~= close_effects(closed, self.right_panel_active_surface));
            if let Some(a) = before.right_panel_active_surface {
                if a == index {
                } else if a > index {
                    assert(self.right_panel_surfaces@[a - 1] == before.right_panel_surfaces@[a as int]);
                } else {
                    assert(self.right_panel_surfaces@[a as int] == before.right_panel_surfaces@[a as int]);
                }
            }
        }
        effects
    }
}

/// The four surfaces a shortcut toggles.
#[derive(Clone, Copy, Debug, PartialEq, Eq, Structural)]
pub enum SurfaceKind {
    Browser,
    Terminal,
    /// The files browser or a file.
    Files,
    Review,
}

/// Whether a tab is one a shortcut of this kind toggles.
pub open spec fn of_kind(s: SurfaceModel, kind: SurfaceKind) -> bool {
    match kind {
        SurfaceKind::Browser => s is Browser,
        SurfaceKind::Terminal => s is Terminal,
        SurfaceKind::Files => s is Files || s is File,
        SurfaceKind::Review => s is Diff,
    }
}

/// The first tab of a kind.
pub open spec fn first_of_kind(tabs: Seq<SurfaceModel>, kind: SurfaceKind) -> Option<int>
    decreases tabs.len(),
{
    if tabs.len() == 0 {
        None
    } else {
        match first_of_kind(tabs.drop_last(), kind) {
            Some(i) => Some(i),
            None => if of_kind(tabs.last(), kind) {
                Some(tabs.len() - 1)
            } else {
                None
            },
        }
    }
}

proof fn lemma_first_of_kind_here(tabs: Seq<SurfaceModel>, kind: SurfaceKind, r: Option<int>)
    requires
        r matches Some(i) ==> 0 <= i < tabs.len() && of_kind(tabs[i], kind) && forall|j: int|
            0 <= j < i ==> !of_kind(#[trigger] tabs[j], kind),
        r is None ==> forall|j: int| 0 <= j < tabs.len() ==> !of_kind(#[trigger] tabs[j], kind),
    ensures
        first_of_kind(tabs, kind) == r,
    decreases tabs.len(),
{
    if tabs.len() > 0 {
        let p = tabs.drop_last();
        match r {
            Some(i) => if i < tabs.len() - 1 {
                lemma_first_of_kind_here(p, kind, Some(i));
            } else {
                lemma_first_of_kind_here(p, kind, None);
            },
            None => lemma_first_of_kind_here(p, kind, None),
        }
    }
}

/// What re-showing an existing tab of a kind refreshes first: a terminal is
/// started, the working tree or the review reloaded.
pub open spec fn reshow_prelude(tab: SurfaceModel, kind: SurfaceKind) -> Seq<PanelEffect> {
    match kind {
        SurfaceKind::Browser => seq![],
        SurfaceKind::Terminal => match tab {
            SurfaceModel::Terminal(id) => seq![PanelEffect::EnsureTerminal(id)],
            _ => seq![],
        },
        SurfaceKind::Files => seq![PanelEffect::RefreshWorkingTree],
        SurfaceKind::Review => seq![PanelEffect::RefreshDiff],
    }
}

/// Focus moves to the active surface when a window is at hand.
pub open spec fn focus_if(with_window: bool) -> Seq<PanelEffect> {
    if with_window {
        seq![PanelEffect::FocusActiveSurface]
    } else {
        seq![]
    }
}

/// The tab at `index` became the active one, with nothing else of the
/// strip changed: the tabs, the flags but the conversation's, which is off,
/// and the focus requests the kind makes.
pub open spec fn reshown(old: Padu, new: Padu, index: int, kind: SurfaceKind, visible: bool) -> bool {
    let tab = old.tabs()[index];
    &&& new.wf()
    &&& new.tabs() == old.tabs()
    &&& new.right_panel_active_surface == Some(index as usize)
    &&& new.right_panel_pending_tab_reveal == Some(index as usize)
    &&& !new.right_panel_fullscreen_conversation
    &&& new.right_panel_fullscreen == old.right_panel_fullscreen
    &&& new.right_panel_visible == visible
    &&& new.right_panel_pending_terminal_focus == if kind == SurfaceKind::Terminal {
        match tab {
            SurfaceModel::Terminal(id) => Some(id),
            _ => None,
        }
    } else {
        old.right_panel_pending_terminal_focus
    }
    &&& new.right_panel_pending_browser_focus == if kind == SurfaceKind::Browser {
        match tab {
            SurfaceModel::Browser(id) => Some(id),
            _ => None,
        }
    } else {
        old.right_panel_pending_browser_focus
    }
    &&& new.keeps_rest(&old)
}

/// What a surface shortcut does. With a tab of its kind open: in
/// fullscreen, on that tab it switches to the conversation, elsewhere it
/// switches to that tab; docked, on that tab while the panel shows it hides
/// the panel, otherwise it shows that tab. With none open it opens a new
/// one (the files browser and review only with a project).
pub open spec fn toggled(
    old: Padu,
    new: Padu,
    effects: Seq<PanelEffect>,
    kind: SurfaceKind,
    with_window: bool,
) -> bool {
    if (kind == SurfaceKind::Files || kind == SurfaceKind::Review) && !old.has_active_project {
        new == old && effects == Seq::<PanelEffect>::empty()
    } else {
        match first_of_kind(old.tabs(), kind) {
            Some(index) => if old.fullscreen_active() {
                if !old.right_panel_fullscreen_conversation && old.right_panel_active_surface == Some(
                    index as usize,
                ) {
                    &&& new == (Padu { right_panel_fullscreen_conversation: true, ..old })
                    &&& effects == if with_window {
                        seq![PanelEffect::FocusComposer]
                    } else {
                        seq![]
                    }
                } else {
                    &&& reshown(old, new, index, kind, old.right_panel_visible)
                    &&& effects == reshow_prelude(old.tabs()[index], kind) + seq![
                        PanelEffect::ScrollToTab(index as usize),
                    ] + focus_if(with_window)
                }
            } else if old.right_panel_visible && old.right_panel_active_surface == Some(
                index as usize,
            ) {
                &&& new == (Padu { right_panel_visible: false, ..old })
                &&& effects == seq![PanelEffect::SetVisible(false)]
            } else {
                &&& reshown(old, new, index, kind, true)
                &&& effects == reshow_prelude(old.tabs()[index], kind) + seq![
                    PanelEffect::ScrollToTab(index as usize),
                    PanelEffect::SetVisible(true),
                ] + focus_if(with_window)
            },
            None => exists|s: SurfaceModel|
                #![trigger open_tabs(old.tabs(), s)]
                {
                    &&& of_kind(s, kind)
                    &&& (kind == SurfaceKind::Files ==> s == SurfaceModel::Files)
                    &&& new.wf()
                    &&& new.tabs() == old.tabs().push(s)
                    &&& open_tabs(old.tabs(), s) == old.tabs().push(s)
                    &&& new.right_panel_active_surface == Some(old.tabs().len() as usize)
                    &&& new.right_panel_pending_tab_reveal == new.right_panel_active_surface
                    &&& new.focus_follows_active()
                    &&& new.right_panel_visible
                    &&& !new.right_panel_fullscreen_conversation
                    &&& new.right_panel_fullscreen == old.right_panel_fullscreen
                    &&& new.keeps_rest(&old)
                    &&& effects == open_effects(old, s, old.tabs().len() as int) + focus_if(
                        with_window,
                    )
                },
        }
    }
}

impl Padu {
    fn first_tab_of_kind(&self, kind: SurfaceKind) -> (r: Option<usize>)
        ensures
            first_of_kind(self.tabs(), kind) == match r {
                Some(i) => Some(i as int),
                None => None::<int>,
            },
            r matches Some(i) ==> i < self.right_panel_surfaces@.len() && of_kind(
                self.tabs()[i as int],
                kind,
            ),
    {
        let mut i: usize = 0;
        while i < self.right_panel_surfaces.len()
            invariant
                i <= self.right_panel_surfaces@.len(),
                forall|j: int| 0 <= j < i ==> !of_kind(#[trigger] self.tabs()[j], kind),
            decreases self.right_panel_surfaces@.len() - i,
        {
            let hit = match kind {
                SurfaceKind::Browser => matches!(self.right_panel_surfaces[i], RightPanelSurface::Browser(_)),
                SurfaceKind::Terminal => matches!(self.right_panel_surfaces[i], RightPanelSurface::Terminal(_)),
                SurfaceKind::Files => matches!(
                    self.right_panel_surfaces[i],
                    RightPanelSurface::Files | RightPanelSurface::File(_)
                ),
                SurfaceKind::Review => matches!(self.right_panel_surfaces[i], RightPanelSurface::Diff),
            };
            assert(self.tabs()[i as int] == self.right_panel_surfaces@[i as int]@);
            if hit {
                proof {
                    lemma_first_of_kind_here(self.tabs(), kind, Some(i as int));
                }
                return Some(i);
            }
            i = i + 1;
        }
        proof {
            lemma_first_of_kind_here(self.tabs(), kind, None);
        }
        None
    }

    /// In fullscreen, switches to the conversation; with a window at hand
    /// the composer takes focus.
    pub fn select_right_panel_fullscreen_conversation(&mut self, with_window: bool) -> (effects: Vec<
        PanelEffect,
    >)
        ensures
            old(self).fullscreen_active() ==> *final(self) == (Padu {
                right_panel_fullscreen_conversation: true,
                ..*old(self)
            }) && effects@ == if with_window {
                seq![PanelEffect::FocusComposer]
            } else {
                seq![]
            },
            !old(self).fullscreen_active() ==> *final(self) == *old(self) && effects@ == Seq::<
                PanelEffect,
            >::empty(),
    {
        let mut effects: Vec<PanelEffect> = Vec::new();
        if !self.right_panel_fullscreen_active() {
            return effects;
        }
        self.right_panel_fullscreen_conversation = true;
        if with_window {
            effects.push(PanelEffect::FocusComposer);
        }
        effects
    }

    fn toggle_or_open(&mut self, kind: SurfaceKind, with_window: bool) -> (effects: Vec<PanelEffect>)
        requires
            old(self).wf(),
            old(self).right_panel_surfaces@.len() < usize::MAX,
        ensures
            toggled(*old(self), *final(self), effects@, kind, with_window),
    {
        if (kind == SurfaceKind::Files || kind == SurfaceKind::Review) && !self.has_active_project {
            return Vec::new();
        }
        match self.first_tab_of_kind(kind) {
            Some(index) => {
                let fullscreen = self.right_panel_fullscreen_active();
                if fullscreen && !self.right_panel_fullscreen_conversation
                    && self.right_panel_active_surface == Some(index) {
                    return self.select_right_panel_fullscreen_conversation(with_window);
                }
                if !fullscreen && self.right_panel_visible && self.right_panel_active_surface == Some(
                    index,
                ) {
                    let mut effects: Vec<PanelEffect> = Vec::new();
                    self.set_right_panel_visible(false, &mut effects);
                    return effects;
                }
                self.reshow_tab(index, kind, fullscreen, with_window)
            },
            None => self.open_new_of_kind(kind, with_window),
        }
    }

    /// Makes the tab at `index` the active one again.
    fn reshow_tab(&mut self, index: usize, kind: SurfaceKind, fullscreen: bool, with_window: bool) -> (effects:
        Vec<PanelEffect>)
        requires
            old(self).wf(),
            index < old(self).right_panel_surfaces@.len(),
            of_kind(old(self).tabs()[index as int], kind),
        ensures
            reshown(
                *old(self),
                *final(self),
                index as int,
                kind,
                if fullscreen {
                    old(self).right_panel_visible
                } else {
                    true
                },
            ),
            effects@ == reshow_prelude(old(self).tabs()[index as int], kind) + (if fullscreen {
                seq![PanelEffect::ScrollToTab(index)]
            } else {
                seq![PanelEffect::ScrollToTab(index), PanelEffect::SetVisible(true)]
            }) + focus_if(with_window),
    {
        let ghost before = *self;
        let mut effects: Vec<PanelEffect> = Vec::new();
        self.right_panel_fullscreen_conversation = false;
        match kind {
            SurfaceKind::Terminal => {
                if let Some(terminal_id) = self.right_panel_surfaces[index].terminal_id() {
                    effects.push(PanelEffect::EnsureTerminal(terminal_id));
                }
            },
            SurfaceKind::Files => effects.push(PanelEffect::RefreshWorkingTree),
            SurfaceKind::Review => effects.push(PanelEffect::RefreshDiff),
            SurfaceKind::Browser => {},
        }
        let ghost e1 = effects@;
        proof {
            assert(self.right_panel_surfaces@[index as int]@ == before.tabs()[index as int]);
            assert(e1 =~= reshow_prelude(before.tabs()[index as int], kind));
        }
        self.right_panel_active_surface = Some(index);
        self.reveal_right_panel_tab(index, &mut effects);
        match kind {
            SurfaceKind::Terminal => self.request_active_terminal_focus(),
            SurfaceKind::Browser => self.request_active_browser_focus(),
            _ => {},
        }
        if !fullscreen {
            self.set_right_panel_visible(true, &mut effects);
        }
        if with_window {
            effects.push(PanelEffect::FocusActiveSurface);
        }
        proof {
            assert(self.tabs() == before.tabs());
            assert(effects@ =~= reshow_prelude(before.tabs()[index as int], kind) + (if fullscreen {
                seq![PanelEffect::ScrollToTab(index)]
            } else {
                seq![PanelEffect::ScrollToTab(index), PanelEffect::SetVisible(true)]
            }) + focus_if(with_window));
        }
        effects
    }

    /// Opens a new tab of a kind none of whose tabs is open.
    fn open_new_of_kind(&mut self, kind: SurfaceKind, with_window: bool) -> (effects: Vec<
        PanelEffect,
    >)
        requires
            old(self).wf(),
            old(self).right_panel_surfaces@.len() < usize::MAX,
            first_of_kind(old(self).tabs(), kind) is None,
        ensures
            exists|s: SurfaceModel|
                #![trigger open_tabs(old(self).tabs(), s)]
                {
                    &&& of_kind(s, kind)
                    &&& (kind == SurfaceKind::Files ==> s == SurfaceModel::Files)
                    &&& final(self).wf()
                    &&& final(self).tabs() == old(self).tabs().push(s)
                    &&& open_tabs(old(self).tabs(), s) == old(self).tabs().push(s)
                    &&& final(self).right_panel_active_surface == Some(old(self).tabs().len() as usize)
                    &&& final(self).right_panel_pending_tab_reveal
                        == final(self).right_panel_active_surface
                    &&& final(self).focus_follows_active()
                    &&& final(self).right_panel_visible
                    &&& !final(self).right_panel_fullscreen_conversation
                    &&& final(self).right_panel_fullscreen == old(self).right_panel_fullscreen
                    &&& final(self).keeps_rest(&*old(self))
                    &&& effects@ == open_effects(*old(self), s, old(self).tabs().len() as int)
                        + focus_if(with_window)
                },
    {
        let ghost before = *self;
        let mut effects: Vec<PanelEffect> = Vec::new();
        let surface = match kind {
            SurfaceKind::Browser => RightPanelSurface::new_browser(),
            SurfaceKind::Terminal => RightPanelSurface::new_terminal(),
            SurfaceKind::Files => RightPanelSurface::Files,
            SurfaceKind::Review => RightPanelSurface::Diff,
        };
        let ghost s = surface@;
        proof {
            assert forall|j: int| 0 <= j < before.tabs().len() implies !reuses(
                #[trigger] before.tabs()[j],
                s,
            ) by {
                lemma_no_kind(before.tabs(), kind, j);
            }
            crate::surface::lemma_no_reuse(before.tabs(), s);
        }
        self.open_surface_into(surface, &mut effects);
        if with_window {
            effects.push(PanelEffect::FocusActiveSurface);
        }
        proof {
            assert(effects@ =~= open_effects(before, s, before.tabs().len() as int) + focus_if(
                with_window,
            ));
            assert(open_tabs(before.tabs(), s) == before.tabs().push(s));
        }
        effects
    }
}

proof fn lemma_no_kind(tabs: Seq<SurfaceModel>, kind: SurfaceKind, j: int)
    requires
        first_of_kind(tabs, kind) is None,
        0 <= j < tabs.len(),
    ensures
        !of_kind(tabs[j], kind),
    decreases tabs.len(),
{
    if j < tabs.len() - 1 {
        lemma_no_kind(tabs.drop_last(), kind, j);
    }
}

/// The first expandable tab.
pub open spec fn first_expandable(tabs: Seq<SurfaceModel>) -> Option<int>
    decreases tabs.len(),
{
    if tabs.len() == 0 {
        None
    } else {
        match first_expandable(tabs.drop_last()) {
            Some(i) => Some(i),
            None => if is_expandable(tabs.last()) {
                Some(tabs.len() - 1)
            } else {
                None
            },
        }
    }
}

proof fn lemma_first_expandable_here(tabs: Seq<SurfaceModel>, r: Option<int>)
    requires
        r matches Some(i) ==> 0 <= i < tabs.len() && is_expandable(tabs[i]) && forall|j: int|
            0 <= j < i ==> !is_expandable(#[trigger] tabs[j]),
        r is None ==> forall|j: int| 0 <= j < tabs.len() ==> !is_expandable(#[trigger] tabs[j]),
    ensures
        first_expandable(tabs) == r,
    decreases tabs.len(),
{
    if tabs.len() > 0 {
        let p = tabs.drop_last();
        match r {
            Some(i) => if i < tabs.len() - 1 {
                lemma_first_expandable_here(p, Some(i));
            } else {
                lemma_first_expandable_here(p, None);
            },
            None => lemma_first_expandable_here(p, None),
        }
    }
}

/// Entering fullscreen falls back to the first expandable tab when the
/// active surface is missing or is not expandable.
pub open spec fn needs_fallback(old: Padu) -> bool {
    (old.active_model() is None || !is_expandable(old.active_model()->0)) && first_expandable(
        old.tabs(),
    ) is Some
}

/// What setting fullscreen to `fullscreen` does: nothing when it cannot
/// expand or the flag is already set; entering lands on the active surface
/// (or the first expandable one) with the conversation off and the focus
/// requests renewed; leaving turns the conversation off too.
pub open spec fn fullscreen_set(old: Padu, new: Padu, effects: Seq<PanelEffect>, fullscreen: bool) -> bool {
    if (fullscreen && !old.can_expand()) || old.right_panel_fullscreen == fullscreen {
        new == old && effects == Seq::<PanelEffect>::empty()
    } else if fullscreen {
        &&& new.wf()
        &&& new.right_panel_fullscreen
        &&& !new.right_panel_fullscreen_conversation
        &&& new.tabs() == old.tabs()
        &&& new.right_panel_visible == old.right_panel_visible
        &&& new.keeps_rest(&old)
        &&& new.focus_follows_active()
        &&& if needs_fallback(old) {
            &&& new.right_panel_active_surface == Some(first_expandable(old.tabs())->0 as usize)
            &&& new.right_panel_pending_tab_reveal == new.right_panel_active_surface
            &&& effects == seq![PanelEffect::ScrollToTab(first_expandable(old.tabs())->0 as usize)]
        } else {
            &&& new.right_panel_active_surface == old.right_panel_active_surface
            &&& new.right_panel_pending_tab_reveal == old.right_panel_pending_tab_reveal
            &&& effects == Seq::<PanelEffect>::empty()
        }
    } else {
        &&& new == (Padu {
            right_panel_fullscreen: false,
            right_panel_fullscreen_conversation: false,
            ..old
        })
        &&& effects == Seq::<PanelEffect>::empty()
    }
}

impl Padu {
    fn first_expandable_tab(&self) -> (r: Option<usize>)
        ensures
            first_expandable(self.tabs()) == match r {
                Some(i) => Some(i as int),
                None => None::<int>,
            },
            r matches Some(i) ==> i < self.right_panel_surfaces@.len(),
    {
        let mut i: usize = 0;
        while i < self.right_panel_surfaces.len()
            invariant
                i <= self.right_panel_surfaces@.len(),
                forall|j: int| 0 <= j < i ==> !is_expandable(#[trigger] self.tabs()[j]),
            decreases self.right_panel_surfaces@.len() - i,
        {
            assert(self.tabs()[i as int] == self.right_panel_surfaces@[i as int]@);
            if self.right_panel_surfaces[i].is_expandable() {
                proof {
                    lemma_first_expandable_here(self.tabs(), Some(i as int));
                }
                return Some(i);
            }
            i = i + 1;
        }
        proof {
            lemma_first_expandable_here(self.tabs(), None);
        }
        None
    }

    /// Enters or leaves the fullscreen takeover.
    pub fn set_right_panel_fullscreen(&mut self, fullscreen: bool) -> (effects: Vec<PanelEffect>)
        requires
            old(self).wf(),
        ensures
            fullscreen_set(*old(self), *final(self), effects@, fullscreen),
    {
        let mut effects: Vec<PanelEffect> = Vec::new();
        if fullscreen && !self.right_panel_can_expand() {
            return effects;
        }
        if self.right_panel_fullscreen == fullscreen {
            return effects;
        }
        let ghost before = *self;
        self.right_panel_fullscreen = fullscreen;
        if fullscreen {
            self.right_panel_fullscreen_conversation = false;
            let active_expandable = match self.active_right_panel_surface() {
                Some(surface) => surface.is_expandable(),
                None => false,
            };
            if !active_expandable {
                if let Some(index) = self.first_expandable_tab() {
                    self.right_panel_active_surface = Some(index);
                    self.reveal_right_panel_tab(index, &mut effects);
                }
            }
            self.request_active_terminal_focus();
            self.request_active_browser_focus();
            proof {
                assert(self.tabs() == before.tabs());
                if needs_fallback(before) {
                    assert(effects@ =~= seq![
                        PanelEffect::ScrollToTab(first_expandable(before.tabs())->0 as usize),
                    ]);
                }
            }
        } else {
            self.right_panel_fullscreen_conversation = false;
        }
        effects
    }

    /// The fullscreen shortcut: enters fullscreen on a surface (never on a
    /// stale conversation) and focuses it, or leaves fullscreen.
    pub fn toggle_right_panel_fullscreen_action(&mut self) -> (effects: Vec<PanelEffect>)
        requires
            old(self).wf(),
        ensures
            !old(self).fullscreen_active() && !old(self).can_expand() ==> *final(self) == *old(self)
                && effects@ == Seq::<PanelEffect>::empty(),
            old(self).fullscreen_active() || old(self).can_expand() ==> {
                let next = !old(self).fullscreen_active();
                let mid = if next && old(self).right_panel_fullscreen
                    && old(self).right_panel_fullscreen_conversation {
                    Padu { right_panel_fullscreen_conversation: false, ..*old(self) }
                } else {
                    *old(self)
                };
                let k = if next {
                    effects@.len() - 1
                } else {
                    effects@.len() as int
                };
                &&& fullscreen_set(mid, *final(self), effects@.take(k), next)
                &&& next ==> effects@.len() >= 1 && effects@.last() == PanelEffect::FocusActiveSurface
            },
    {
        if !self.right_panel_fullscreen_active() && !self.right_panel_can_expand() {
            return Vec::new();
        }
        let next = !self.right_panel_fullscreen_active();
        if next && self.right_panel_fullscreen && self.right_panel_fullscreen_conversation {
            self.right_panel_fullscreen_conversation = false;
        }
        let ghost mid = *self;
        let mut effects = self.set_right_panel_fullscreen(next);
        let ghost e = effects@;
        if next {
            effects.push(PanelEffect::FocusActiveSurface);
        }
        if next {
            assert(effects@.take(effects@.len() - 1) =~= e);
        } else {
            assert(effects@.take(effects@.len() as int) =~= e);
        }
        effects
    }

    /// In fullscreen, moves `direction` steps over the conversation and the
    /// surfaces, wrapping both ways.
    pub fn cycle_right_panel_fullscreen(&mut self, direction: isize) -> (effects: Vec<PanelEffect>)
        requires
            old(self).wf(),
            old(self).right_panel_surfaces@.len() < isize::MAX,
            old(self).right_panel_surfaces@.len() + direction <= isize::MAX,
        ensures
            final(self).wf(),
            !old(self).fullscreen_active() ==> *final(self) == *old(self) && effects@ == Seq::<
                PanelEffect,
            >::empty(),
            old(self).fullscreen_active() ==> {
                let current = if old(self).right_panel_fullscreen_conversation {
                    0
                } else {
                    match old(self).right_panel_active_surface {
                        Some(a) => a + 1,
                        None => 0,
                    }
                };
                let next = cycle_next_of(
                    current,
                    old(self).right_panel_surfaces@.len() as int,
                    direction as int,
                );
                if next == 0 {
                    &&& *final(self) == (Padu {
                        right_panel_fullscreen_conversation: true,
                        ..*old(self)
                    })
                    &&& effects@ == seq![PanelEffect::FocusComposer]
                } else {
                    &&& *final(self) == (Padu {
                        right_panel_fullscreen_conversation: false,
                        right_panel_active_surface: Some((next - 1) as usize),
                        right_panel_pending_tab_reveal: Some((next - 1) as usize),
                        ..*old(self)
                    })
                    &&& effects@ == seq![
                        PanelEffect::ScrollToTab((next - 1) as usize),
                        PanelEffect::FocusActiveSurface,
                    ]
                }
            },
    {
        let mut effects: Vec<PanelEffect> = Vec::new();
        if !self.right_panel_fullscreen_active() {
            return effects;
        }
        let count = self.right_panel_surfaces.len();
        let current = match self.right_panel_fullscreen_position() {
            Some(position) => position,
            None => 0,
        };
        let next = fullscreen_cycle_next(current, count, direction);
        if next == 0 {
            self.right_panel_fullscreen_conversation = true;
            effects.push(PanelEffect::FocusComposer);
        } else {
            self.right_panel_fullscreen_conversation = false;
            self.right_panel_active_surface = Some(next - 1);
            self.reveal_right_panel_tab(next - 1, &mut effects);
            effects.push(PanelEffect::FocusActiveSurface);
        }
        effects
    }

    /// Docked, moves `direction` tabs along the strip, wrapping both ways.
    pub fn cycle_right_panel_docked(&mut self, direction: isize) -> (effects: Vec<PanelEffect>)
        requires
            old(self).wf(),
            old(self).right_panel_surfaces@.len() < isize::MAX,
            old(self).right_panel_surfaces@.len() + direction <= isize::MAX,
        ensures
            final(self).wf(),
            old(self).right_panel_surfaces@.len() <= 1 ==> *final(self) == *old(self) && effects@
                == Seq::<PanelEffect>::empty(),
            old(self).right_panel_surfaces@.len() > 1 ==> {
                let current = match old(self).right_panel_active_surface {
                    Some(a) => a as int,
                    None => 0,
                };
                let next = (current + direction) % (old(self).right_panel_surfaces@.len() as int);
                &&& *final(self) == (Padu {
                    right_panel_active_surface: Some(next as usize),
                    right_panel_pending_tab_reveal: Some(next as usize),
                    ..*old(self)
                })
                &&& effects@ == seq![
                    PanelEffect::ScrollToTab(next as usize),
                    PanelEffect::FocusActiveSurface,
                ]
            },
    {
        let mut effects: Vec<PanelEffect> = Vec::new();
        let count = self.right_panel_surfaces.len();
        if count <= 1 {
            return effects;
        }
        let current = match self.right_panel_active_surface {
            Some(active) => active,
            None => 0,
        };
        let next = fullscreen_cycle_next(current, count - 1, direction);
        self.right_panel_active_surface = Some(next);
        self.reveal_right_panel_tab(next, &mut effects);
        effects.push(PanelEffect::FocusActiveSurface);
        effects
    }

    /// The next-tab shortcut: cycles fullscreen tabs in fullscreen, docked
    /// tabs when the panel shows more than one.
    pub fn next_right_panel_tab_action(&mut self) -> (effects: Vec<PanelEffect>)
        requires
            old(self).wf(),
            old(self).right_panel_surfaces@.len() < isize::MAX - 1,
        ensures
            final(self).wf(),
            tab_stepped(*old(self), *final(self), effects@, 1),
    {
        if self.right_panel_fullscreen_active() {
            self.cycle_right_panel_fullscreen(1)
        } else if self.right_panel_visible && self.right_panel_surfaces.len() > 1 {
            self.cycle_right_panel_docked(1)
        } else {
            Vec::new()
        }
    }

    /// The previous-tab shortcut.
    pub fn prev_right_panel_tab_action(&mut self) -> (effects: Vec<PanelEffect>)
        requires
            old(self).wf(),
            old(self).right_panel_surfaces@.len() < isize::MAX - 1,
        ensures
            final(self).wf(),
            tab_stepped(*old(self), *final(self), effects@, -1),
    {
        if self.right_panel_fullscreen_active() {
            self.cycle_right_panel_fullscreen(-1)
        } else if self.right_panel_visible && self.right_panel_surfaces.len() > 1 {
            self.cycle_right_panel_docked(-1)
        } else {
            Vec::new()
        }
    }
}

/// One step of the fullscreen cycle in `direction` over the conversation
/// and the surfaces, from a panel in fullscreen (see
/// [`Padu::cycle_right_panel_fullscreen`]).
pub open spec fn fullscreen_cycled(old: Padu, new: Padu, effects: Seq<PanelEffect>, direction: int) -> bool {
    let current = if old.right_panel_fullscreen_conversation {
        0
    } else {
        match old.right_panel_active_surface {
            Some(a) => a + 1,
            None => 0,
        }
    };
    let next = cycle_next_of(current, old.right_panel_surfaces@.len() as int, direction);
    if next == 0 {
        &&& new == (Padu { right_panel_fullscreen_conversation: true, ..old })
        &&& effects == seq![PanelEffect::FocusComposer]
    } else {
        &&& new == (Padu {
            right_panel_fullscreen_conversation: false,
            right_panel_active_surface: Some((next - 1) as usize),
            right_panel_pending_tab_reveal: Some((next - 1) as usize),
            ..old
        })
        &&& effects == seq![PanelEffect::ScrollToTab((next - 1) as usize), PanelEffect::FocusActiveSurface]
    }
}

/// One step of the docked cycle in `direction` over more than one
/// surface (see [`Padu::cycle_right_panel_docked`]).
pub open spec fn docked_cycled(old: Padu, new: Padu, effects: Seq<PanelEffect>, direction: int) -> bool {
    let current = match old.right_panel_active_surface {
        Some(a) => a as int,
        None => 0,
    };
    let next = (current + direction) % (old.right_panel_surfaces@.len() as int);
    &&& new == (Padu {
        right_panel_active_surface: Some(next as usize),
        right_panel_pending_tab_reveal: Some(next as usize),
        ..old
    })
    &&& effects == seq![PanelEffect::ScrollToTab(next as usize), PanelEffect::FocusActiveSurface]
}

/// What a tab shortcut in `direction` does: in fullscreen it cycles the
/// conversation and the surfaces; shown docked with more than one surface
/// it cycles the surfaces; otherwise nothing.
pub open spec fn tab_stepped(old: Padu, new: Padu, effects: Seq<PanelEffect>, direction: int) -> bool {
    if old.fullscreen_active() {
        fullscreen_cycled(old, new, effects, direction)
    } else if old.right_panel_visible && old.right_panel_surfaces@.len() > 1 {
        docked_cycled(old, new, effects, direction)
    } else {
        new == old && effects.len() == 0
    }
}

/// `new` and `effects` are what opening `s` over `old` gives.
pub open spec fn opened(old: Padu, new: Padu, effects: Seq<PanelEffect>, s: SurfaceModel) -> bool {
    &&& new.wf()
    &&& new.tabs() == open_tabs(old.tabs(), s)
    &&& new.right_panel_active_surface == Some(open_index(old.tabs(), s) as usize)
    &&& new.right_panel_pending_tab_reveal == new.right_panel_active_surface
    &&& new.focus_follows_active()
    &&& new.right_panel_visible
    &&& !new.right_panel_fullscreen_conversation
    &&& new.right_panel_fullscreen == old.right_panel_fullscreen
    &&& new.keeps_rest(&old)
    &&& effects == open_effects(old, s, open_index(old.tabs(), s))
}

/// Whether an open editor shows `path` with unsaved changes.
pub open spec fn editor_dirty(editors: Seq<FileEditor>, path: Seq<char>) -> bool {
    exists|i: int| 0 <= i < editors.len() && (#[trigger] editors[i]).path@ == path && editors[i].dirty
}

/// The first row of the working tree with this path.
pub open spec fn first_row(paths: Seq<String>, path: Seq<char>) -> Option<int>
    decreases paths.len(),
{
    if paths.len() == 0 {
        None
    } else {
        match first_row(paths.drop_last(), path) {
            Some(i) => Some(i),
            None => if paths.last()@ == path {
                Some(paths.len() - 1)
            } else {
                None
            },
        }
    }
}

proof fn lemma_first_row_here(paths: Seq<String>, path: Seq<char>, r: Option<int>)
    requires
        r matches Some(i) ==> 0 <= i < paths.len() && paths[i]@ == path && forall|j: int|
            0 <= j < i ==> (#[trigger] paths[j])@ != path,
        r is None ==> forall|j: int| 0 <= j < paths.len() ==> (#[trigger] paths[j])@ != path,
    ensures
        first_row(paths, path) == r,
    decreases paths.len(),
{
    if paths.len() > 0 {
        let p = paths.drop_last();
        match r {
            Some(i) => if i < paths.len() - 1 {
                lemma_first_row_here(p, path, Some(i));
            } else {
                lemma_first_row_here(p, path, None);
            },
            None => lemma_first_row_here(p, path, None),
        }
    }
}

/// The file the active editor surface is showing: the files browser's
/// selection or a file tab's path.
pub open spec fn visible_file_of(p: Padu) -> Option<Seq<char>> {
    match p.active_model() {
        Some(SurfaceModel::Files) => match p.right_panel_files_selected_path {
            Some(path) => Some(path@),
            None => None,
        },
        Some(SurfaceModel::File(path)) => Some(path),
        _ => None,
    }
}

/// What opening a file does after widening for a first editor. Over the
/// files browser it selects the file there, unless that would replace a
/// file with unsaved changes. Over a file tab it shows the file in that tab
/// (or switches to the tab already showing it), unless that tab has unsaved
/// changes. Otherwise, and in those two cases, it opens the file as a tab.
pub open spec fn file_opened(old: Padu, new: Padu, effects: Seq<PanelEffect>, path: Seq<char>) -> bool {
    let file = SurfaceModel::File(path);
    match old.active_model() {
        Some(SurfaceModel::Files) => {
            let replaces_dirty = match old.right_panel_files_selected_path {
                Some(current) => current@ != path && editor_dirty(old.right_panel_file_editors@, current@),
                None => false,
            };
            if replaces_dirty {
                opened(old, new, effects, file)
            } else {
                &&& new.wf()
                &&& new.tabs() == old.tabs()
                &&& new.right_panel_active_surface == old.right_panel_active_surface
                &&& new.right_panel_pending_tab_reveal == old.right_panel_pending_tab_reveal
                &&& new.right_panel_pending_terminal_focus == old.right_panel_pending_terminal_focus
                &&& new.right_panel_pending_browser_focus == old.right_panel_pending_browser_focus
                &&& new.right_panel_fullscreen == old.right_panel_fullscreen
                &&& new.right_panel_fullscreen_conversation == old.right_panel_fullscreen_conversation
                &&& new.right_panel_visible
                &&& new.right_panel_files_selected_path matches Some(p) && p@ == path
                &&& new.right_panel_files_cursor == match first_row(old.right_panel_working_tree_paths@, path) {
                    Some(pos) => Some(pos as usize),
                    None => old.right_panel_files_cursor,
                }
                &&& new.right_panel_working_tree_paths == old.right_panel_working_tree_paths
                &&& new.right_panel_file_editors == old.right_panel_file_editors
                &&& new.has_active_project == old.has_active_project
                &&& new.remote_daemon == old.remote_daemon
                &&& new.selected_session == old.selected_session
                &&& new.right_panel_session_states == old.right_panel_session_states
                &&& new.last_seen_version == old.last_seen_version
                &&& new.whats_new == old.whats_new
                &&& effects == seq![PanelEffect::SetVisible(true)]
            }
        },
        Some(SurfaceModel::File(current)) => {
            let active = old.right_panel_active_surface->0 as int;
            if current == path {
                new == old && effects == Seq::<PanelEffect>::empty()
            } else if editor_dirty(old.right_panel_file_editors@, current) {
                opened(old, new, effects, file)
            } else {
                let landed = match first_reuse(old.tabs(), file) {
                    Some(e) => if e > active {
                        e - 1
                    } else {
                        e
                    },
                    None => active,
                };
                &&& new.wf()
                &&& new.tabs() == match first_reuse(old.tabs(), file) {
                    Some(_) => old.tabs().remove(active),
                    None => old.tabs().update(active, file),
                }
                &&& new.right_panel_active_surface == Some(landed as usize)
                &&& new.right_panel_pending_tab_reveal == Some(landed as usize)
                &&& new.right_panel_pending_terminal_focus == old.right_panel_pending_terminal_focus
                &&& new.right_panel_pending_browser_focus == old.right_panel_pending_browser_focus
                &&& new.right_panel_fullscreen == old.right_panel_fullscreen
                &&& new.right_panel_fullscreen_conversation == old.right_panel_fullscreen_conversation
                &&& new.right_panel_visible
                &&& new.keeps_rest(&old)
                &&& effects == seq![PanelEffect::ScrollToTab(landed as usize), PanelEffect::SetVisible(true)]
            }
        },
        _ => opened(old, new, effects, file),
    }
}

impl Padu {
    /// The file the active editor surface is showing, visible or not.
    pub fn visible_right_panel_file_path(&self) -> (r: Option<String>)
        ensures
            match r {
                Some(p) => visible_file_of(*self) == Some(p@),
                None => visible_file_of(*self) is None,
            },
    {
        match self.active_right_panel_surface() {
            Some(RightPanelSurface::Files) => match &self.right_panel_files_selected_path {
                Some(path) => Some(path.clone()),
                None => None,
            },
            Some(RightPanelSurface::File(path)) => Some(path.clone()),
            _ => None,
        }
    }

    /// Whether the editor showing `relative_path` has unsaved changes.
    pub fn right_panel_file_is_dirty(&self, relative_path: &str) -> (r: bool)
        ensures
            r == editor_dirty(self.right_panel_file_editors@, relative_path@),
    {
        let mut i: usize = 0;
        while i < self.right_panel_file_editors.len()
            invariant
                i <= self.right_panel_file_editors@.len(),
                forall|j: int|
                    0 <= j < i ==> !((#[trigger] self.right_panel_file_editors@[j]).path@
                        == relative_path@ && self.right_panel_file_editors@[j].dirty),
            decreases self.right_panel_file_editors@.len() - i,
        {
            let editor = &self.right_panel_file_editors[i];
            let same = crate::text::bytes_eq(editor.path.as_str().as_bytes(), relative_path.as_bytes());
            proof {
                if same {
                    crate::text::lemma_utf8_injective(editor.path@, relative_path@);
                }
            }
            if editor.dirty && same {
                return true;
            }
            i = i + 1;
        }
        false
    }

    /// Whether a surface shows a file with unsaved changes.
    pub fn right_panel_surface_is_dirty(&self, surface: &RightPanelSurface) -> (r: bool)
        ensures
            r == match surface@ {
                SurfaceModel::Files => match self.right_panel_files_selected_path {
                    Some(p) => editor_dirty(self.right_panel_file_editors@, p@),
                    None => false,
                },
                SurfaceModel::File(p) => editor_dirty(self.right_panel_file_editors@, p),
                _ => false,
            },
    {
        match surface {
            RightPanelSurface::Files => match &self.right_panel_files_selected_path {
                Some(path) => self.right_panel_file_is_dirty(path.as_str()),
                None => false,
            },
            RightPanelSurface::File(path) => self.right_panel_file_is_dirty(path.as_str()),
            _ => false,
        }
    }

    fn working_tree_row(&self, path: &String) -> (r: Option<usize>)
        ensures
            first_row(self.right_panel_working_tree_paths@, path@) == match r {
                Some(i) => Some(i as int),
                None => None::<int>,
            },
    {
        let mut i: usize = 0;
        while i < self.right_panel_working_tree_paths.len()
            invariant
                i <= self.right_panel_working_tree_paths@.len(),
                forall|j: int| 0 <= j < i ==> (#[trigger] self.right_panel_working_tree_paths@[j])@ != path@,
            decreases self.right_panel_working_tree_paths@.len() - i,
        {
            if self.right_panel_working_tree_paths[i] == *path {
                proof {
                    lemma_first_row_here(self.right_panel_working_tree_paths@, path@, Some(i as int));
                }
                return Some(i);
            }
            i = i + 1;
        }
        proof {
            lemma_first_row_here(self.right_panel_working_tree_paths@, path@, None);
        }
        None
    }

    /// Opens a file by its workspace-relative path.
    pub fn open_right_panel_file(&mut self, relative_path: String) -> (effects: Vec<PanelEffect>)
        requires
            old(self).wf(),
            old(self).right_panel_surfaces@.len() < usize::MAX,
        ensures
            final(self).wf(),
            effects@.len() >= (if old(self).right_panel_file_editors@.len() == 0 { 1int } else { 0int }),
            old(self).right_panel_file_editors@.len() == 0 ==> effects@[0] == PanelEffect::WidenForFileEditor,
            file_opened(
                *old(self),
                *final(self),
                effects@.skip(if old(self).right_panel_file_editors@.len() == 0 { 1int } else { 0int }),
                relative_path@,
            ),
            visible_file_of(*final(self)) == Some(relative_path@),
    {
        let mut effects: Vec<PanelEffect> = Vec::new();
        self.ensure_initial_right_panel_file_editor_width(&mut effects);
        let ghost w = effects@;
        let ghost k: int = if self.right_panel_file_editors@.len() == 0 { 1int } else { 0int };
        assert(w.len() == k);
        let ghost before = *self;
        let ghost path = relative_path@;
        let mut tail = self.open_file_after_width(relative_path);
        let ghost t = tail@;
        assert(file_opened(before, *self, t, path));
        effects.append(&mut tail);
        assert(effects@.skip(k) =~= t);
        effects
    }

    fn open_file_tab(&mut self, relative_path: String) -> (effects: Vec<PanelEffect>)
        requires
            old(self).wf(),
            old(self).right_panel_surfaces@.len() < usize::MAX,
        ensures
            opened(*old(self), *final(self), effects@, SurfaceModel::File(relative_path@)),
            final(self).active_model() == Some(SurfaceModel::File(relative_path@)),
    {
        let ghost file = SurfaceModel::File(relative_path@);
        let ghost tabs = self.tabs();
        proof {
            if first_reuse(tabs, file) is Some {
                lemma_first_reuse_found(tabs, file);
            }
        }
        self.open_right_panel_surface(RightPanelSurface::File(relative_path))
    }

    fn open_file_after_width(&mut self, relative_path: String) -> (effects: Vec<PanelEffect>)
        requires
            old(self).wf(),
            old(self).right_panel_surfaces@.len() < usize::MAX,
        ensures
            file_opened(*old(self), *final(self), effects@, relative_path@),
            visible_file_of(*final(self)) == Some(relative_path@),
    {
        let ghost before = *self;
        let ghost file = SurfaceModel::File(relative_path@);
        let active = match self.right_panel_active_surface {
            Some(active) => active,
            None => {
                return self.open_file_tab(relative_path);
            },
        };
        match &self.right_panel_surfaces[active] {
            RightPanelSurface::Files => {
                let replaces_dirty = match &self.right_panel_files_selected_path {
                    Some(current) => *current != relative_path && self.right_panel_file_is_dirty(
                        current.as_str(),
                    ),
                    None => false,
                };
                if replaces_dirty {
                    return self.open_file_tab(relative_path);
                }
                let mut effects: Vec<PanelEffect> = Vec::new();
                if let Some(pos) = self.working_tree_row(&relative_path) {
                    self.right_panel_files_cursor = Some(pos);
                }
                self.right_panel_files_selected_path = Some(relative_path);
                self.set_right_panel_visible(true, &mut effects);
                effects
            },
            RightPanelSurface::File(current) => {
                if *current == relative_path {
                    return Vec::new();
                }
                if self.right_panel_file_is_dirty(current.as_str()) {
                    return self.open_file_tab(relative_path);
                }
                self.replace_file_tab(active, relative_path)
            },
            _ => self.open_file_tab(relative_path),
        }
    }

    /// Shows another file in the clean file tab at `active`: switches to the
    /// tab already showing it, closing this one, or shows it in this tab.
    fn replace_file_tab(&mut self, active: usize, relative_path: String) -> (effects: Vec<PanelEffect>)
        requires
            old(self).wf(),
            old(self).right_panel_active_surface == Some(active),
            old(self).tabs()[active as int] is File,
            old(self).tabs()[active as int] != SurfaceModel::File(relative_path@),
        ensures
            ({
                let file = SurfaceModel::File(relative_path@);
                let landed = match first_reuse(old(self).tabs(), file) {
                    Some(e) => if e > active {
                        e - 1
                    } else {
                        e
                    },
                    None => active as int,
                };
                &&& final(self).wf()
                &&& final(self).tabs() == match first_reuse(old(self).tabs(), file) {
                    Some(_) => old(self).tabs().remove(active as int),
                    None => old(self).tabs().update(active as int, file),
                }
                &&& final(self).right_panel_active_surface == Some(landed as usize)
                &&& final(self).right_panel_pending_tab_reveal == Some(landed as usize)
                &&& final(self).right_panel_pending_terminal_focus == old(self).right_panel_pending_terminal_focus
                &&& final(self).right_panel_pending_browser_focus == old(self).right_panel_pending_browser_focus
                &&& final(self).right_panel_fullscreen == old(self).right_panel_fullscreen
                &&& final(self).right_panel_fullscreen_conversation == old(self).right_panel_fullscreen_conversation
                &&& final(self).right_panel_visible
                &&& final(self).keeps_rest(&*old(self))
                &&& effects@ == seq![PanelEffect::ScrollToTab(landed as usize), PanelEffect::SetVisible(true)]
                &&& final(self).active_model() == Some(file)
            }),
    {
        let ghost before = *self;
        let ghost file = SurfaceModel::File(relative_path@);
        let mut effects: Vec<PanelEffect> = Vec::new();
        let requested = RightPanelSurface::File(relative_path);
        if let Some(existing) = reusable_surface_index(self.right_panel_surfaces.as_slice(), &requested) {
            proof {
                assert(existing != active);
                lemma_first_reuse_found(before.tabs(), file);
            }
            self.right_panel_surfaces.remove(active);
            let existing = if existing > active {
                existing - 1
            } else {
                existing
            };
            proof {
                assert(self.tabs() =~= before.tabs().remove(active as int));
            }
            self.right_panel_active_surface = Some(existing);
            self.reveal_right_panel_tab(existing, &mut effects);
        } else {
            self.right_panel_surfaces.set(active, requested);
            proof {
                assert(self.tabs() =~= before.tabs().update(active as int, file));
            }
            self.reveal_right_panel_tab(active, &mut effects);
        }
        self.set_right_panel_visible(true, &mut effects);
        effects
    }
}

/// Whether an editor is open on `path`.
pub open spec fn has_editor(editors: Seq<FileEditor>, path: Seq<char>) -> bool {
    exists|i: int| 0 <= i < editors.len() && (#[trigger] editors[i]).path@ == path
}

impl Padu {
    fn editor_open(&self, path: &String) -> (r: bool)
        ensures
            r == has_editor(self.right_panel_file_editors@, path@),
    {
        let mut i: usize = 0;
        while i < self.right_panel_file_editors.len()
            invariant
                i <= self.right_panel_file_editors@.len(),
                forall|j: int| 0 <= j < i ==> (#[trigger] self.right_panel_file_editors@[j]).path@ != path@,
            decreases self.right_panel_file_editors@.len() - i,
        {
            if self.right_panel_file_editors[i].path == *path {
                return true;
            }
            i = i + 1;
        }
        false
    }

    /// Gives keyboard focus to the active surface: the review's or the
    /// working tree's key handler, the editor of the file on screen, or the
    /// terminal or browser once drawn.
    pub fn focus_active_surface(&mut self) -> (r: FocusTarget)
        ensures
            match old(self).active_model() {
                Some(SurfaceModel::Diff) => *final(self) == *old(self) && r == FocusTarget::ReviewControl,
                Some(SurfaceModel::Files) | Some(SurfaceModel::File(_)) => {
                    &&& *final(self) == *old(self)
                    &&& match visible_file_of(*old(self)) {
                        Some(p) => if has_editor(old(self).right_panel_file_editors@, p) {
                            r matches FocusTarget::Editor(e) && e@ == p
                        } else {
                            r == FocusTarget::WorkingTreeControl
                        },
                        None => r == FocusTarget::WorkingTreeControl,
                    }
                },
                Some(SurfaceModel::Terminal(id)) => *final(self) == (Padu {
                    right_panel_pending_terminal_focus: Some(id),
                    ..*old(self)
                }) && r == FocusTarget::Terminal,
                Some(SurfaceModel::Browser(id)) => *final(self) == (Padu {
                    right_panel_pending_browser_focus: Some(id),
                    ..*old(self)
                }) && r == FocusTarget::Browser,
                _ => *final(self) == *old(self) && r == FocusTarget::Nothing,
            },
    {
        let kind = match self.active_right_panel_surface() {
            Some(RightPanelSurface::Diff) => 0u8,
            Some(RightPanelSurface::Files) | Some(RightPanelSurface::File(_)) => 1u8,
            Some(RightPanelSurface::Terminal(_)) => 2u8,
            Some(RightPanelSurface::Browser(_)) => 3u8,
            _ => 4u8,
        };
        if kind == 0 {
            FocusTarget::ReviewControl
        } else if kind == 1 {
            match self.visible_right_panel_file_path() {
                Some(path) => if self.editor_open(&path) {
                    FocusTarget::Editor(path)
                } else {
                    FocusTarget::WorkingTreeControl
                },
                None => FocusTarget::WorkingTreeControl,
            }
        } else if kind == 2 {
            self.request_active_terminal_focus();
            FocusTarget::Terminal
        } else if kind == 3 {
            self.request_active_browser_focus();
            FocusTarget::Browser
        } else {
            FocusTarget::Nothing
        }
    }

    /// The browser shortcut (see [`toggled`]).
    pub fn toggle_or_open_browser_surface(&mut self, with_window: bool) -> (effects: Vec<PanelEffect>)
        requires
            old(self).wf(),
            old(self).right_panel_surfaces@.len() < usize::MAX,
        ensures
            toggled(*old(self), *final(self), effects@, SurfaceKind::Browser, with_window),
    {
        self.toggle_or_open(SurfaceKind::Browser, with_window)
    }

    /// The terminal shortcut (see [`toggled`]).
    pub fn toggle_or_open_terminal_surface(&mut self, with_window: bool) -> (effects: Vec<PanelEffect>)
        requires
            old(self).wf(),
            old(self).right_panel_surfaces@.len() < usize::MAX,
        ensures
            toggled(*old(self), *final(self), effects@, SurfaceKind::Terminal, with_window),
    {
        self.toggle_or_open(SurfaceKind::Terminal, with_window)
    }

    /// The files shortcut (see [`toggled`]).
    pub fn toggle_or_open_files_surface(&mut self, with_window: bool) -> (effects: Vec<PanelEffect>)
        requires
            old(self).wf(),
            old(self).right_panel_surfaces@.len() < usize::MAX,
        ensures
            toggled(*old(self), *final(self), effects@, SurfaceKind::Files, with_window),
    {
        self.toggle_or_open(SurfaceKind::Files, with_window)
    }

    /// The review shortcut (see [`toggled`]).
    pub fn toggle_or_open_review_surface(&mut self, with_window: bool) -> (effects: Vec<PanelEffect>)
        requires
            old(self).wf(),
            old(self).right_panel_surfaces@.len() < usize::MAX,
        ensures
            toggled(*old(self), *final(self), effects@, SurfaceKind::Review, with_window),
    {
        self.toggle_or_open(SurfaceKind::Review, with_window)
    }

    /// The open-browser action, from a window.
    pub fn open_browser_action(&mut self) -> (effects: Vec<PanelEffect>)
        requires
            old(self).wf(),
            old(self).right_panel_surfaces@.len() < usize::MAX,
        ensures
            toggled(*old(self), *final(self), effects@, SurfaceKind::Browser, true),
    {
        self.toggle_or_open_browser_surface(true)
    }

    /// The open-terminal action, from a window.
    pub fn open_terminal_action(&mut self) -> (effects: Vec<PanelEffect>)
        requires
            old(self).wf(),
            old(self).right_panel_surfaces@.len() < usize::MAX,
        ensures
            toggled(*old(self), *final(self), effects@, SurfaceKind::Terminal, true),
    {
        self.toggle_or_open_terminal_surface(true)
    }

    /// The open-files action, from a window.
    pub fn open_files_action(&mut self) -> (effects: Vec<PanelEffect>)
        requires
            old(self).wf(),
            old(self).right_panel_surfaces@.len() < usize::MAX,
        ensures
            toggled(*old(self), *final(self), effects@, SurfaceKind::Files, true),
    {
        self.toggle_or_open_files_surface(true)
    }

    /// The open-review action, from a window.
    pub fn open_review_action(&mut self) -> (effects: Vec<PanelEffect>)
        requires
            old(self).wf(),
            old(self).right_panel_surfaces@.len() < usize::MAX,
        ensures
            toggled(*old(self), *final(self), effects@, SurfaceKind::Review, true),
    {
        self.toggle_or_open_review_surface(true)
    }

    /// The close shortcut: closes the active tab (and gives the composer
    /// focus when it was the last), or hides the window when no tab is
    /// active.
    pub fn close_window_or_right_panel_tab_action(&mut self) -> (effects: Vec<PanelEffect>)
        requires
            old(self).wf(),
        ensures
            final(self).wf(),
            match old(self).right_panel_active_surface {
                Some(a) => {
                    &&& final(self).tabs() == old(self).tabs().remove(a as int)
                    &&& final(self).right_panel_active_surface == active_after_close(
                        old(self).right_panel_active_surface,
                        a as int,
                        old(self).right_panel_surfaces@.len() - 1,
                    )
                    &&& final(self).keeps_rest(&*old(self))
                    &&& effects@ == close_effects(
                        old(self).tabs()[a as int],
                        final(self).right_panel_active_surface,
                    ) + if final(self).right_panel_surfaces@.len() == 0 {
                        seq![PanelEffect::FocusComposer]
                    } else {
                        seq![]
                    }
                },
                None => *final(self) == *old(self) && effects@ == seq![PanelEffect::HideWindow],
            },
    {
        match self.right_panel_active_surface {
            Some(active) => {
                let mut effects = self.close_right_panel_surface(active);
                let ghost closed = effects@;
                if self.right_panel_surfaces.len() == 0 {
                    effects.push(PanelEffect::FocusComposer);
                }
                assert(effects@ =~= closed + if self.right_panel_surfaces@.len() == 0 {
                    seq![PanelEffect::FocusComposer]
                } else {
                    seq![]
                });
                effects
            },
            None => {
                let mut effects: Vec<PanelEffect> = Vec::new();
                effects.push(PanelEffect::HideWindow);
                effects
            },
        }
    }
}

/// What following a link to `target` does: a workspace file opens in the
/// panel and is the file it shows; a local path outside it goes to the file
/// manager (or, with a remote daemon, is refused); anything else is not the
/// panel's to handle.
pub open spec fn link_followed(
    old: Padu,
    new: Padu,
    r: LinkOutcome,
    target: Seq<char>,
    workspace: Option<Seq<char>>,
) -> bool {
    match route_of(target, workspace) {
        LinkRoute::ProjectFile(rel) => {
            &&& new.wf()
            &&& r is Opened
            &&& visible_file_of(new) == Some(rel)
            &&& new.right_panel_visible
        },
        LinkRoute::Finder(p) => new == old && if old.remote_daemon {
            r == LinkOutcome::RemotePathError
        } else {
            r matches LinkOutcome::RevealInFileManager(q) && q@ == p
        },
        LinkRoute::External => new == old && r == LinkOutcome::NotHandled,
    }
}

/// `rel` joined onto `dir` (`Path::join`): a separator goes between them
/// unless `dir` is empty or already ends with one.
pub open spec fn path_join(dir: Seq<char>, rel: Seq<char>) -> Seq<char> {
    if dir.len() == 0 || dir.last() == '/' {
        dir + rel
    } else {
        dir + seq!['/'] + rel
    }
}

/// The path a tool reported, resolved: trimmed, and when relative, joined
/// onto the workspace (nothing without one).
pub open spec fn activity_target(path: Seq<char>, workspace: Option<Seq<char>>) -> Option<Seq<char>> {
    let t = trim(path);
    if t.len() > 0 && t[0] == '/' {
        Some(t)
    } else {
        match workspace {
            Some(w) => Some(path_join(w, t)),
            None => None,
        }
    }
}

impl Padu {
    /// Follows a link clicked in the transcript (see [`link_followed`]).
    pub fn open_transcript_link(&mut self, target: &str, workspace: Option<&str>) -> (r: LinkOutcome)
        requires
            old(self).wf(),
            old(self).right_panel_surfaces@.len() < usize::MAX - 1,
        ensures
            final(self).wf(),
            link_followed(*old(self), *final(self), r, target@, opt_view(workspace)),
    {
        match transcript_link_route(target, workspace) {
            TranscriptLinkRoute::ProjectFile(relative_path) => {
                let ghost tabs = self.tabs();
                proof {
                    if first_reuse(tabs, SurfaceModel::Files) is Some {
                        lemma_first_reuse_found(tabs, SurfaceModel::Files);
                    }
                }
                let mut effects = self.open_right_panel_surface(RightPanelSurface::Files);
                assert(self.active_model() == Some(SurfaceModel::Files));
                assert(self.right_panel_surfaces@.len() == self.tabs().len());
                assert(open_tabs(tabs, SurfaceModel::Files).len() <= tabs.len() + 1);
                let mut more = self.open_right_panel_file(relative_path);
                effects.append(&mut more);
                LinkOutcome::Opened(effects)
            },
            TranscriptLinkRoute::Finder(path) => {
                if self.remote_daemon {
                    LinkOutcome::RemotePathError
                } else {
                    LinkOutcome::RevealInFileManager(path)
                }
            },
            TranscriptLinkRoute::External => LinkOutcome::NotHandled,
        }
    }

    /// Opens a path a tool reported: an absolute one as it is, a relative
    /// one under the workspace, then as a transcript link would.
    pub fn open_activity_file(&mut self, path: &str, workspace: Option<&str>) -> (r: LinkOutcome)
        requires
            old(self).wf(),
            old(self).right_panel_surfaces@.len() < usize::MAX - 1,
        ensures
            final(self).wf(),
            match activity_target(path@, opt_view(workspace)) {
                Some(t) => link_followed(*old(self), *final(self), r, t, opt_view(workspace)),
                None => *final(self) == *old(self) && r == LinkOutcome::NotHandled,
            },
    {
        let cs = chars_of(path);
        let (i, j) = trim_bounds(&cs, 0, cs.len());
        assert(cs@.subrange(0, cs@.len() as int) =~= cs@);
        let trimmed = string_from_char_range(&cs, i, j);
        let resolved = if j > i && cs[i] == '/' {
            trimmed
        } else {
            match workspace {
                Some(w) => {
                    let wcs = chars_of(w);
                    let mut joined = w.to_owned();
                    if wcs.len() > 0 && wcs[wcs.len() - 1] != '/' {
                        push_char(&mut joined, '/');
                    }
                    joined.append(trimmed.as_str());
                    assert(joined@ =~= path_join(w@, trimmed@));
                    joined
                },
                None => {
                    return LinkOutcome::NotHandled;
                },
            }
        };
        self.open_transcript_link(resolved.as_str(), workspace)
    }
}

/// A right panel as a value.
pub struct PanelModel {
    pub visible: bool,
    pub fullscreen: bool,
    pub fullscreen_conversation: bool,
    pub tabs: Seq<SurfaceModel>,
    pub active_surface: Option<usize>,
    pub pending_tab_reveal: Option<usize>,
    pub expanded_paths: Seq<String>,
    pub files_selected_path: Option<Seq<char>>,
    pub file_editors: Seq<FileEditor>,
    pub diff_source: ReviewDiffSource,
    pub diff_files: Option<Seq<ReviewFile>>,
    pub diff_selected_file: Option<usize>,
    pub diff_expanded_paths: Seq<String>,
    pub diff_file_layout: DiffFileLayout,
    pub diff_files_visible: bool,
}

/// An optional string, by its characters.
pub open spec fn opt_string(o: Option<String>) -> Option<Seq<char>> {
    match o {
        Some(s) => Some(s@),
        None => None,
    }
}

/// The panel on screen.
pub open spec fn panel_of(p: Padu) -> PanelModel {
    PanelModel {
        visible: p.right_panel_visible,
        fullscreen: p.right_panel_fullscreen,
        fullscreen_conversation: p.right_panel_fullscreen_conversation,
        tabs: p.tabs(),
        active_surface: p.right_panel_active_surface,
        pending_tab_reveal: p.right_panel_pending_tab_reveal,
        expanded_paths: p.right_panel_expanded_paths@,
        files_selected_path: opt_string(p.right_panel_files_selected_path),
        file_editors: p.right_panel_file_editors@,
        diff_source: p.right_panel_review.source,
        diff_files: files_of(p.right_panel_review),
        diff_selected_file: p.right_panel_review.selected_file,
        diff_expanded_paths: p.right_panel_review.expanded_paths@,
        diff_file_layout: p.right_panel_review.layout,
        diff_files_visible: p.right_panel_review.files_visible,
    }
}

/// A stored panel.
pub open spec fn stored_panel(s: RightPanelSessionState) -> PanelModel {
    PanelModel {
        visible: s.visible,
        fullscreen: s.fullscreen,
        fullscreen_conversation: s.fullscreen_conversation,
        tabs: models(s.surfaces@),
        active_surface: s.active_surface,
        pending_tab_reveal: s.pending_tab_reveal,
        expanded_paths: s.expanded_paths@,
        files_selected_path: opt_string(s.files_selected_path),
        file_editors: s.file_editors@,
        diff_source: s.diff_source,
        diff_files: match s.diff_files {
            Some(v) => Some(v@),
            None => None,
        },
        diff_selected_file: s.diff_selected_file,
        diff_expanded_paths: s.diff_expanded_paths@,
        diff_file_layout: s.diff_file_layout,
        diff_files_visible: s.diff_files_visible,
    }
}

/// A closed panel with no tabs, shown (`visible`) or not.
pub open spec fn closed_panel(visible: bool) -> PanelModel {
    PanelModel {
        visible,
        fullscreen: false,
        fullscreen_conversation: false,
        tabs: seq![],
        active_surface: None,
        pending_tab_reveal: None,
        expanded_paths: seq![],
        files_selected_path: None,
        file_editors: seq![],
        diff_source: ReviewDiffSource::Uncommitted,
        diff_files: None,
        diff_selected_file: None,
        diff_expanded_paths: seq![],
        diff_file_layout: DiffFileLayout::Tree,
        diff_files_visible: true,
    }
}

/// What is left on screen once the panel is taken away: no tabs, no
/// selection, no expanded directories, no editors; the flags stay.
pub open spec fn emptied(m: PanelModel) -> PanelModel {
    PanelModel {
        tabs: seq![],
        active_surface: None,
        pending_tab_reveal: None,
        expanded_paths: seq![],
        files_selected_path: None,
        file_editors: seq![],
        diff_files: None,
        diff_selected_file: None,
        diff_expanded_paths: seq![],
        ..m
    }
}

/// The review's work that a session's stored panel leaves out (its
/// generation, a reload in flight, its error and its file list) is as in
/// `old`.
pub open spec fn review_work_kept(new: Padu, old: Padu) -> bool {
    &&& new.right_panel_review.generation == old.right_panel_review.generation
    &&& new.right_panel_review.loading == old.right_panel_review.loading
    &&& new.right_panel_review.error == old.right_panel_review.error
    &&& new.right_panel_review.tree_rows == old.right_panel_review.tree_rows
    &&& new.right_panel_review.tree_cursor == old.right_panel_review.tree_cursor
}

/// Putting a session's panel on screen starts the review's work afresh: a
/// new generation (so a reload in flight lands stale), no reload pending,
/// no error, and an empty file list with no cursor.
pub open spec fn review_work_reset(new: Padu, old: Padu) -> bool {
    &&& new.right_panel_review.generation == old.right_panel_review.generation.wrapping_add(1)
    &&& !new.right_panel_review.loading
    &&& new.right_panel_review.error is None
    &&& new.right_panel_review.tree_rows@.len() == 0
    &&& new.right_panel_review.tree_cursor is None
}

/// The parts of the application that the panel's state does not include.
pub open spec fn keeps_app(new: Padu, old: Padu) -> bool {
    &&& new.right_panel_files_cursor == old.right_panel_files_cursor
    &&& new.right_panel_working_tree_paths == old.right_panel_working_tree_paths
    &&& new.right_panel_inline_file_operation == old.right_panel_inline_file_operation
    &&& new.has_active_project == old.has_active_project
    &&& new.remote_daemon == old.remote_daemon
    &&& new.selected_session == old.selected_session
    &&& new.last_seen_version == old.last_seen_version
    &&& new.whats_new == old.whats_new
}

/// Storing the selected session's panel: it is kept under that session,
/// every other session's is left alone, and the screen is emptied.
pub open spec fn stored(old: Padu, new: Padu) -> bool {
    match old.selected_session {
        None => new == old,
        Some(id) => {
            &&& new.right_panel_session_states@.contains_key(id)
            &&& stored_panel(new.right_panel_session_states@[id]) == panel_of(old)
            &&& new.right_panel_session_states@.remove(id) == old.right_panel_session_states@.remove(id)
            &&& panel_of(new) == emptied(panel_of(old))
            &&& new.right_panel_pending_terminal_focus == old.right_panel_pending_terminal_focus
            &&& new.right_panel_pending_browser_focus == old.right_panel_pending_browser_focus
            &&& keeps_app(new, old)
        },
    }
}

/// Restoring a session's panel: the one stored for it comes back (a closed
/// one when none was), and it is no longer kept aside.
pub open spec fn restored(old: Padu, new: Padu, id: u128) -> bool {
    &&& panel_of(new) == if old.right_panel_session_states@.contains_key(id) {
        stored_panel(old.right_panel_session_states@[id])
    } else {
        closed_panel(false)
    }
    &&& new.right_panel_session_states@ == old.right_panel_session_states@.remove(id)
    &&& keeps_app(new, old)
}

/// What restoring a panel asks, given its active surface: reload the
/// session's views, then refresh the review or the working tree when one of
/// them is on screen.
pub open spec fn restore_effects(active: Option<SurfaceModel>) -> Seq<PanelEffect> {
    seq![PanelEffect::SessionRestored] + match active {
        Some(SurfaceModel::Diff) => seq![PanelEffect::RefreshDiff],
        Some(SurfaceModel::Files) => seq![PanelEffect::RefreshWorkingTree],
        Some(SurfaceModel::File(_)) => seq![PanelEffect::RefreshWorkingTree],
        _ => seq![],
    }
}

/// What tearing down these tabs asks: each terminal dropped, each browser
/// view destroyed, in tab order.
pub open spec fn teardown(tabs: Seq<SurfaceModel>) -> Seq<PanelEffect>
    decreases tabs.len(),
{
    if tabs.len() == 0 {
        seq![]
    } else {
        teardown(tabs.drop_last()) + match tabs.last() {
            SurfaceModel::Terminal(id) => seq![PanelEffect::RemoveTerminal(id)],
            SurfaceModel::Browser(id) => seq![PanelEffect::DestroyBrowser(id)],
            _ => seq![],
        }
    }
}

impl RightPanelSessionState {
    /// A closed panel with no tabs, shown or not.
    pub fn empty(visible: bool) -> (s: Self)
        ensures
            stored_panel(s) == closed_panel(visible),
    {
        let s = RightPanelSessionState {
            visible,
            fullscreen: false,
            fullscreen_conversation: false,
            surfaces: Vec::new(),
            active_surface: None,
            pending_tab_reveal: None,
            expanded_paths: Vec::new(),
            files_selected_path: None,
            file_editors: Vec::new(),
            diff_source: ReviewDiffSource::Uncommitted,
            diff_files: None,
            diff_selected_file: None,
            diff_expanded_paths: Vec::new(),
            diff_file_layout: DiffFileLayout::Tree,
            diff_files_visible: true,
        };
        assert(models(s.surfaces@) =~= Seq::<SurfaceModel>::empty());
        s
    }

    /// Takes a session's stored panel out of `states`, or a closed one when
    /// it has none.
    pub fn take_or_closed(states: &mut HashMap<u128, Self>, session_id: u128) -> (s: Self)
        ensures
            final(states)@ == old(states)@.remove(session_id),
            old(states)@.contains_key(session_id) ==> s == old(states)@[session_id],
            !old(states)@.contains_key(session_id) ==> stored_panel(s) == closed_panel(false),
    {
        broadcast use vstd::std_specs::hash::group_hash_axioms;
        match states.remove(&session_id) {
            Some(state) => state,
            None => Self::empty(false),
        }
    }
}

impl Padu {
    /// Takes the panel off the screen, leaving no tabs, selection, expanded directories or editors.
    pub fn take_active_right_panel_state(&mut self) -> (s: RightPanelSessionState)
        ensures
            stored_panel(s) == panel_of(*old(self)),
            panel_of(*final(self)) == emptied(panel_of(*old(self))),
            review_work_kept(*final(self), *old(self)),
            final(self).wf(),
            final(self).right_panel_session_states == old(self).right_panel_session_states,
            final(self).right_panel_pending_terminal_focus == old(self).right_panel_pending_terminal_focus,
            final(self).right_panel_pending_browser_focus == old(self).right_panel_pending_browser_focus,
            keeps_app(*final(self), *old(self)),
    {
        let mut surfaces: Vec<RightPanelSurface> = Vec::new();
        std::mem::swap(&mut surfaces, &mut self.right_panel_surfaces);
        let mut file_editors: Vec<FileEditor> = Vec::new();
        std::mem::swap(&mut file_editors, &mut self.right_panel_file_editors);
        let mut expanded_paths: Vec<String> = Vec::new();
        std::mem::swap(&mut expanded_paths, &mut self.right_panel_expanded_paths);
        let mut diff_files: Option<Vec<ReviewFile>> = None;
        std::mem::swap(&mut diff_files, &mut self.right_panel_review.files);
        let mut diff_expanded_paths: Vec<String> = Vec::new();
        std::mem::swap(&mut diff_expanded_paths, &mut self.right_panel_review.expanded_paths);
        let diff_selected_file = self.right_panel_review.selected_file.take();
        let s = RightPanelSessionState {
            visible: self.right_panel_visible,
            fullscreen: self.right_panel_fullscreen,
            fullscreen_conversation: self.right_panel_fullscreen_conversation,
            surfaces,
            active_surface: self.right_panel_active_surface.take(),
            pending_tab_reveal: self.right_panel_pending_tab_reveal.take(),
            expanded_paths,
            files_selected_path: self.right_panel_files_selected_path.take(),
            file_editors,
            diff_source: self.right_panel_review.source,
            diff_files,
            diff_selected_file,
            diff_expanded_paths,
            diff_file_layout: self.right_panel_review.layout,
            diff_files_visible: self.right_panel_review.files_visible,
        };
        assert(self.tabs() =~= Seq::<SurfaceModel>::empty());
        s
    }

    /// Puts a stored panel on screen.
    pub fn replace_active_right_panel_state(&mut self, state: RightPanelSessionState)
        requires
            state.active_surface matches Some(i) ==> i < state.surfaces@.len(),
        ensures
            panel_of(*final(self)) == stored_panel(state),
            review_work_reset(*final(self), *old(self)),
            final(self).wf(),
            final(self).right_panel_session_states == old(self).right_panel_session_states,
            final(self).right_panel_pending_terminal_focus == old(self).right_panel_pending_terminal_focus,
            final(self).right_panel_pending_browser_focus == old(self).right_panel_pending_browser_focus,
            keeps_app(*final(self), *old(self)),
    {
        self.right_panel_visible = state.visible;
        self.right_panel_fullscreen = state.fullscreen;
        self.right_panel_fullscreen_conversation = state.fullscreen_conversation;
        self.right_panel_surfaces = state.surfaces;
        self.right_panel_active_surface = state.active_surface;
        self.right_panel_pending_tab_reveal = state.pending_tab_reveal;
        self.right_panel_expanded_paths = state.expanded_paths;
        self.right_panel_files_selected_path = state.files_selected_path;
        self.right_panel_file_editors = state.file_editors;
        self.right_panel_review.generation = self.right_panel_review.generation.wrapping_add(1);
        self.right_panel_review.source = state.diff_source;
        self.right_panel_review.files = state.diff_files;
        self.right_panel_review.loading = false;
        self.right_panel_review.error = None;
        self.right_panel_review.selected_file = state.diff_selected_file;
        self.right_panel_review.expanded_paths = state.diff_expanded_paths;
        self.right_panel_review.layout = state.diff_file_layout;
        self.right_panel_review.files_visible = state.diff_files_visible;
        self.right_panel_review.tree_cursor = None;
        self.right_panel_review.tree_rows = Vec::new();
    }

    /// Keeps the selected session's panel aside (see [`stored`]).
    pub fn store_selected_right_panel_state(&mut self)
        requires
            old(self).wf(),
        ensures
            stored(*old(self), *final(self)),
            final(self).wf(),
    {
        broadcast use vstd::std_specs::hash::group_hash_axioms;
        let session_id = match self.selected_session {
            Some(id) => id,
            None => {
                return;
            },
        };
        let ghost before = *self;
        let state = self.take_active_right_panel_state();
        self.right_panel_session_states.insert(session_id, state);
        assert(self.right_panel_session_states@.remove(session_id)
            =~= before.right_panel_session_states@.remove(session_id));
    }

    /// Brings a session's panel back on screen (see [`restored`]); the
    /// session's views reload, and when the panel shows, its active terminal
    /// or browser is asked to take focus.
    pub fn restore_right_panel_state(&mut self, session_id: u128) -> (effects: Vec<PanelEffect>)
        requires
            forall|k: u128|
                #[trigger] old(self).right_panel_session_states@.contains_key(k) ==> {
                    let st = old(self).right_panel_session_states@[k];
                    st.active_surface matches Some(i) ==> i < st.surfaces@.len()
                },
        ensures
            restored(*old(self), *final(self), session_id),
            final(self).wf(),
            final(self).right_panel_visible ==> final(self).focus_follows_active(),
            !final(self).right_panel_visible ==> final(self).right_panel_pending_terminal_focus
                == old(self).right_panel_pending_terminal_focus
                && final(self).right_panel_pending_browser_focus
                == old(self).right_panel_pending_browser_focus,
            effects@ == restore_effects(final(self).active_model()),
    {
        let state = RightPanelSessionState::take_or_closed(&mut self.right_panel_session_states, session_id);
        self.replace_active_right_panel_state(state);
        let mut effects: Vec<PanelEffect> = Vec::new();
        effects.push(PanelEffect::SessionRestored);
        let (is_diff, is_files) = match self.active_right_panel_surface() {
            Some(RightPanelSurface::Diff) => (true, false),
            Some(RightPanelSurface::Files) | Some(RightPanelSurface::File(_)) => (false, true),
            _ => (false, false),
        };
        if is_diff {
            effects.push(PanelEffect::RefreshDiff);
        }
        if is_files {
            effects.push(PanelEffect::RefreshWorkingTree);
        }
        if self.right_panel_visible {
            self.request_active_terminal_focus();
            self.request_active_browser_focus();
        }
        assert(effects@ =~= restore_effects(self.active_model()));
        effects
    }
}

/// Storing the selected session's panel and then restoring that session
/// gives back the panel it had; a session that never had one is shown a
/// closed panel; and the panels kept for other sessions are untouched.
pub proof fn law_session_panels_are_isolated(p0: Padu, p1: Padu, p2: Padu, other: u128, p3: Padu)
    requires
        p0.selected_session is Some,
        other != p0.selected_session->0,
        !p0.right_panel_session_states@.contains_key(other),
        stored(p0, p1),
        restored(p1, p2, p0.selected_session->0),
        restored(p1, p3, other),
    ensures
        panel_of(p2) == panel_of(p0),
        p2.right_panel_session_states@ == p0.right_panel_session_states@.remove(p0.selected_session->0),
        panel_of(p3) == closed_panel(false),
        p3.right_panel_session_states@.contains_key(p0.selected_session->0),
        stored_panel(p3.right_panel_session_states@[p0.selected_session->0]) == panel_of(p0),
{
    let id = p0.selected_session->0;
    assert(p1.right_panel_session_states@.remove(id).contains_key(other) == p0.right_panel_session_states@.remove(id).contains_key(other));
    assert(!p1.right_panel_session_states@.contains_key(other));
    assert(p2.right_panel_session_states@ =~= p0.right_panel_session_states@.remove(id));
}

fn teardown_effects(surfaces: &Vec<RightPanelSurface>) -> (effects: Vec<PanelEffect>)
    ensures
        effects@ == teardown(models(surfaces@)),
{
    let mut effects: Vec<PanelEffect> = Vec::new();
    let mut i: usize = 0;
    assert(models(surfaces@).take(0) =~= Seq::<SurfaceModel>::empty());
    while i < surfaces.len()
        invariant
            i <= surfaces@.len(),
            effects@ == teardown(models(surfaces@).take(i as int)),
        decreases surfaces@.len() - i,
    {
        assert(models(surfaces@).take(i + 1).drop_last() =~= models(surfaces@).take(i as int));
        if let Some(terminal_id) = surfaces[i].terminal_id() {
            effects.push(PanelEffect::RemoveTerminal(terminal_id));
        }
        if let Some(browser_id) = surfaces[i].browser_id() {
            effects.push(PanelEffect::DestroyBrowser(browser_id));
        }
        i = i + 1;
    }
    assert(models(surfaces@).take(surfaces@.len() as int) =~= models(surfaces@));
    effects
}

impl Padu {
    /// Forgets a session's panel, tearing down its terminals and browser
    /// views; when it is the session on screen the panel is closed.
    pub fn remove_right_panel_session_state(&mut self, session_id: u128) -> (effects: Vec<PanelEffect>)
        requires
            old(self).wf(),
        ensures
            final(self).wf(),
            keeps_app(*final(self), *old(self)),
            old(self).selected_session == Some(session_id) ==> {
                &&& panel_of(*final(self)) == closed_panel(false)
                &&& final(self).right_panel_session_states == old(self).right_panel_session_states
                &&& effects@ == teardown(old(self).tabs())
            },
            old(self).selected_session != Some(session_id) ==> {
                &&& final(self).right_panel_session_states@ == old(self).right_panel_session_states@.remove(session_id)
                &&& panel_of(*final(self)) == panel_of(*old(self))
                &&& effects@ == if old(self).right_panel_session_states@.contains_key(session_id) {
                    teardown(models(old(self).right_panel_session_states@[session_id].surfaces@))
                } else {
                    seq![]
                }
            },
    {
        broadcast use vstd::std_specs::hash::group_hash_axioms;
        if self.selected_session == Some(session_id) {
            let state = self.take_active_right_panel_state();
            self.replace_active_right_panel_state(RightPanelSessionState::empty(false));
            teardown_effects(&state.surfaces)
        } else {
            match self.right_panel_session_states.remove(&session_id) {
                Some(state) => teardown_effects(&state.surfaces),
                None => Vec::new(),
            }
        }
    }
}

} // verus!
