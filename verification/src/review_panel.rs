//! The review surface's state: which changes it shows, the last review
//! that landed, its file list, and the reload in flight.
//!
//! A reload takes a new generation; its result lands only while that
//! generation, the source, the session and the project are still those it
//! was made for.
use vstd::prelude::*;
use crate::editor::{paths_equal, same_path};
use crate::review::{
    directories_of, expanded_after_refresh, file_paths, path_set, review_diff_directory_paths,
    review_expanded_after_refresh, row_at, row_models, rows_synced, select_by_path, selected_path,
    selection_after, sync_right_panel_diff_tree_rows, toggle_right_panel_diff_directory, DiffFileLayout, ReviewDiffTreeRow, ReviewFile,
};
use crate::review_source::ReviewDiffSource;

verus! {

/// The review surface of one panel.
#[derive(Debug)]
pub struct ReviewPanel {
    pub source: ReviewDiffSource,
    /// Counts reloads; a result answers only the latest.
    pub generation: u64,
    pub loading: bool,
    /// What stands in place of the review when there is none to show.
    pub error: Option<String>,
    /// The files of the last review that landed, if any.
    pub files: Option<Vec<ReviewFile>>,
    pub selected_file: Option<usize>,
    pub expanded_paths: Vec<String>,
    pub layout: DiffFileLayout,
    /// Whether the file list shows beside the diff.
    pub files_visible: bool,
    pub tree_rows: Vec<ReviewDiffTreeRow>,
    pub tree_cursor: Option<usize>,
}

/// A reload the window should make off its thread, and what it needs to
/// land.
#[derive(Debug)]
pub struct DiffRequest {
    pub session: u128,
    pub project: String,
    pub source: ReviewDiffSource,
    pub generation: u64,
    /// The directories of the review on screen when it was asked for.
    pub previous_directories: Option<Vec<String>>,
    /// The path of the file selected then.
    pub selected_path: Option<String>,
}

/// What a finished reload did.
#[derive(Debug, PartialEq, Eq)]
pub enum DiffLanding {
    /// Another generation, source, session or project is current: dropped.
    Stale,
    /// The review is on screen.
    Shown,
    /// It failed with no review to keep: the message stands in its place.
    Failed,
    /// It failed over a review that stays; the message is for a toast.
    FailedOverReview(String),
}

/// The files of a panel's review, as values.
pub open spec fn files_of(p: ReviewPanel) -> Option<Seq<ReviewFile>> {
    match p.files {
        Some(v) => Some(v@),
        None => None,
    }
}

/// Asking for a reload (see [`ReviewPanel::refresh_right_panel_diff`]).
pub open spec fn diff_refresh_started(
    old: ReviewPanel,
    new: ReviewPanel,
    r: Option<DiffRequest>,
    session: Option<u128>,
    workspace: Option<Seq<char>>,
    message: Seq<char>,
) -> bool {
    if session is None || workspace is None {
        &&& r is None
        &&& new == ReviewPanel { error: new.error, files: None, loading: false, ..old }
        &&& new.error matches Some(e) && e@ == message
    } else {
        &&& new == ReviewPanel { generation: old.generation.wrapping_add(1), loading: true, error: None, ..old }
        &&& r matches Some(req) && {
            &&& req.session == session->0
            &&& req.project@ == workspace->0
            &&& req.source == old.source
            &&& req.generation == new.generation
            &&& match (req.previous_directories, files_of(old)) {
                (Some(d), Some(fs)) => path_set(d@) == directories_of(file_paths(fs)),
                (None, None) => true,
                _ => false,
            }
            &&& match req.selected_path {
                Some(p) => selected_path(old.selected_file, files_of(old)) == Some(p@),
                None => selected_path(old.selected_file, files_of(old)) is None,
            }
        }
    }
}

/// Whether the request is still the one the panel waits for.
pub open spec fn still_current(p: ReviewPanel, req: DiffRequest, session: Option<u128>, workspace: Option<Seq<char>>) -> bool {
    &&& session == Some(req.session)
    &&& p.generation == req.generation
    &&& p.source == req.source
    &&& workspace is Some
    &&& same_path(workspace->0, req.project@)
}

/// A reload landing with `outcome` (see [`DiffLanding`]). A review that
/// lands keeps expanded the directories that were and opens new ones,
/// keeps the file selected by path, and rebuilds the file list.
pub open spec fn diff_landed(
    old: ReviewPanel,
    new: ReviewPanel,
    r: DiffLanding,
    req: DiffRequest,
    session: Option<u128>,
    workspace: Option<Seq<char>>,
    outcome: Result<Seq<ReviewFile>, Seq<char>>,
    filter: Seq<char>,
) -> bool {
    if !still_current(old, req, session, workspace) {
        new == old && r == DiffLanding::Stale
    } else {
        match outcome {
            Ok(fs) => {
                let selected = match selection_after(
                    match req.selected_path {
                        Some(p) => Some(p@),
                        None => None,
                    },
                    fs,
                ) {
                    Some(i) => Some(i as usize),
                    None => None,
                };
                &&& r == DiffLanding::Shown
                &&& new == ReviewPanel {
                    loading: false,
                    error: None,
                    files: new.files,
                    selected_file: selected,
                    expanded_paths: new.expanded_paths,
                    tree_rows: new.tree_rows,
                    tree_cursor: new.tree_cursor,
                    ..old
                }
                &&& files_of(new) == Some(fs)
                &&& path_set(new.expanded_paths@) == expanded_after_refresh(
                    path_set(old.expanded_paths@),
                    match req.previous_directories {
                        Some(d) => Some(path_set(d@)),
                        None => None,
                    },
                    fs,
                )
                &&& rows_synced(
                    Some(fs),
                    old.layout,
                    path_set(new.expanded_paths@),
                    filter,
                    row_at(old.tree_rows@, old.tree_cursor),
                    selected,
                    row_models(new.tree_rows@),
                    new.tree_cursor,
                )
            },
            Err(m) => if old.files is Some {
                &&& new == ReviewPanel { loading: false, ..old }
                &&& r matches DiffLanding::FailedOverReview(t) && t@ == m
            } else {
                &&& r == DiffLanding::Failed
                &&& new == ReviewPanel { loading: false, error: new.error, ..old }
                &&& new.error matches Some(e) && e@ == m
            },
        }
    }
}

/// The file list rebuilt, the rest as in `old`.
pub open spec fn resynced(old: ReviewPanel, new: ReviewPanel, filter: Seq<char>) -> bool {
    &&& new == ReviewPanel { tree_rows: new.tree_rows, tree_cursor: new.tree_cursor, ..old }
    &&& rows_synced(
        files_of(old),
        old.layout,
        path_set(old.expanded_paths@),
        filter,
        row_at(old.tree_rows@, old.tree_cursor),
        old.selected_file,
        row_models(new.tree_rows@),
        new.tree_cursor,
    )
}

impl ReviewPanel {
    /// A review surface for `source` with nothing loaded, in the tree layout.
    pub fn new(source: ReviewDiffSource) -> (r: Self)
        ensures
            r.source == source,
            r.generation == 0,
            !r.loading,
            r.error is None,
            r.files is None,
            r.selected_file is None,
            r.expanded_paths@.len() == 0,
            r.layout == DiffFileLayout::Tree,
            r.files_visible,
            r.tree_rows@.len() == 0,
            r.tree_cursor is None,
    {
        ReviewPanel {
            source,
            generation: 0,
            loading: false,
            error: None,
            files: None,
            selected_file: None,
            expanded_paths: Vec::new(),
            layout: DiffFileLayout::Tree,
            files_visible: true,
            tree_rows: Vec::new(),
            tree_cursor: None,
        }
    }

    /// Rebuilds the file list for the filter, keeping the cursor on its
    /// entry (see [`sync_right_panel_diff_tree_rows`]).
    pub fn sync_right_panel_diff_tree_rows(&mut self, filter: &str)
        ensures
            resynced(*old(self), *final(self), filter@),
    {
        let (rows, cursor) = match &self.files {
            Some(fs) => sync_right_panel_diff_tree_rows(
                Some(fs.as_slice()),
                self.layout,
                self.expanded_paths.as_slice(),
                filter,
                self.tree_rows.as_slice(),
                self.tree_cursor,
                self.selected_file,
            ),
            None => sync_right_panel_diff_tree_rows(
                None,
                self.layout,
                self.expanded_paths.as_slice(),
                filter,
                self.tree_rows.as_slice(),
                self.tree_cursor,
                self.selected_file,
            ),
        };
        self.tree_rows = rows;
        self.tree_cursor = cursor;
    }

    /// Asks for the review to be reloaded for the selected session and
    /// project (see [`diff_refresh_started`]); with either missing,
    /// `unavailable` stands in place of the review.
    pub fn refresh_right_panel_diff(
        &mut self,
        session: Option<u128>,
        workspace: Option<&str>,
        unavailable: &str,
    ) -> (r: Option<DiffRequest>)
        ensures
            diff_refresh_started(*old(self), *final(self), r, session, match workspace {
                Some(w) => Some(w@),
                None => None,
            }, unavailable@),
    {
        let (session, project) = match (session, workspace) {
            (Some(s), Some(w)) => (s, w),
            _ => {
                self.files = None;
                self.loading = false;
                self.error = Some(unavailable.to_owned());
                return None;
            },
        };
        self.generation = self.generation.wrapping_add(1);
        self.loading = true;
        self.error = None;
        let previous_directories = match &self.files {
            Some(fs) => Some(review_diff_directory_paths(fs.as_slice())),
            None => None,
        };
        let selected_path = match (self.selected_file, &self.files) {
            (Some(i), Some(fs)) => if i < fs.len() {
                Some(fs[i].path.clone())
            } else {
                None
            },
            _ => None,
        };
        Some(
            DiffRequest {
                session,
                project: project.to_owned(),
                source: self.source,
                generation: self.generation,
                previous_directories,
                selected_path,
            },
        )
    }

    /// Lands a finished reload of `req`: the files of the review, or why it
    /// failed (see [`diff_landed`]). `filter` is the file list's filter.
    pub fn apply_right_panel_diff(
        &mut self,
        req: &DiffRequest,
        session: Option<u128>,
        workspace: Option<&str>,
        outcome: Result<Vec<ReviewFile>, String>,
        filter: &str,
    ) -> (r: DiffLanding)
        ensures
            diff_landed(*old(self), *final(self), r, *req, session, match workspace {
                Some(w) => Some(w@),
                None => None,
            }, match outcome {
                Ok(fs) => Ok(fs@),
                Err(m) => Err(m@),
            }, filter@),
    {
        let current = match (session, workspace) {
            (Some(s), Some(w)) => s == req.session && self.generation == req.generation && self.source == req.source
                && paths_equal(w, req.project.as_str()),
            _ => false,
        };
        if !current {
            return DiffLanding::Stale;
        }
        self.loading = false;
        match outcome {
            Ok(files) => {
                let expanded = match &req.previous_directories {
                    Some(d) => review_expanded_after_refresh(self.expanded_paths.as_slice(), Some(d.as_slice()), files.as_slice()),
                    None => review_expanded_after_refresh(self.expanded_paths.as_slice(), None, files.as_slice()),
                };
                let selected = match &req.selected_path {
                    Some(p) => select_by_path(Some(p), files.as_slice()),
                    None => select_by_path(None, files.as_slice()),
                };
                let (rows, cursor) = sync_right_panel_diff_tree_rows(
                    Some(files.as_slice()),
                    self.layout,
                    expanded.as_slice(),
                    filter,
                    self.tree_rows.as_slice(),
                    self.tree_cursor,
                    selected,
                );
                self.expanded_paths = expanded;
                self.selected_file = selected;
                self.files = Some(files);
                self.error = None;
                self.tree_rows = rows;
                self.tree_cursor = cursor;
                DiffLanding::Shown
            },
            Err(message) => {
                if self.files.is_some() {
                    DiffLanding::FailedOverReview(message)
                } else {
                    self.error = Some(message);
                    DiffLanding::Failed
                }
            },
        }
    }

    /// Switches the review to `source`, forgetting the review of the old
    /// one; says whether it changed. The window then opens the review tab.
    pub fn set_right_panel_diff_source(&mut self, source: ReviewDiffSource) -> (changed: bool)
        ensures
            changed == (old(self).source != source),
            !changed ==> *final(self) == *old(self),
            changed ==> {
                &&& final(self).source == source
                &&& final(self).files is None
                &&& final(self).error is None
                &&& final(self).selected_file is None
                &&& final(self).expanded_paths@.len() == 0
                &&& final(self).tree_rows@.len() == 0
                &&& final(self).tree_cursor is None
                &&& final(self).generation == old(self).generation
                &&& final(self).loading == old(self).loading
                &&& final(self).layout == old(self).layout
                &&& final(self).files_visible == old(self).files_visible
            },
    {
        if self.source == source {
            return false;
        }
        self.source = source;
        self.files = None;
        self.error = None;
        self.selected_file = None;
        self.expanded_paths = Vec::new();
        self.tree_rows = Vec::new();
        self.tree_cursor = None;
        true
    }

    /// Switches the file list between the tree and the flat list; says
    /// whether it changed, and rebuilds the list when it did.
    pub fn set_right_panel_diff_file_layout(&mut self, layout: DiffFileLayout, filter: &str) -> (changed: bool)
        ensures
            changed == (old(self).layout != layout),
            !changed ==> *final(self) == *old(self),
            changed ==> resynced(ReviewPanel { layout, ..*old(self) }, *final(self), filter@),
    {
        if self.layout == layout {
            return false;
        }
        self.layout = layout;
        self.sync_right_panel_diff_tree_rows(filter);
        true
    }

    /// Shows or hides the file list beside the diff.
    pub fn toggle_right_panel_diff_files(&mut self)
        ensures
            *final(self) == (ReviewPanel { files_visible: !old(self).files_visible, ..*old(self) }),
    {
        self.files_visible = !self.files_visible;
    }

    /// Selects the file at `index`; returns the line of its header, for the
    /// diff to scroll to, when the review has that file.
    pub fn select_right_panel_diff_file(&mut self, index: usize) -> (line: Option<usize>)
        ensures
            *final(self) == (ReviewPanel { selected_file: Some(index), ..*old(self) }),
            line == match files_of(*old(self)) {
                Some(fs) => if index < fs.len() {
                    fs[index as int].diff_line
                } else {
                    None
                },
                None => None,
            },
    {
        self.selected_file = Some(index);
        match &self.files {
            Some(fs) => if index < fs.len() {
                fs[index].diff_line
            } else {
                None
            },
            None => None,
        }
    }

    /// Expands or collapses the directory `path` and rebuilds the list;
    /// the window then draws again, which the answer asks for.
    pub fn toggle_right_panel_diff_directory(&mut self, path: String, filter: &str) -> (redraw: bool)
        ensures
            redraw,
            path_set(final(self).expanded_paths@) == if path_set(old(self).expanded_paths@).contains(path@) {
                path_set(old(self).expanded_paths@).remove(path@)
            } else {
                path_set(old(self).expanded_paths@).insert(path@)
            },
            *final(self) == (ReviewPanel {
                expanded_paths: final(self).expanded_paths,
                tree_rows: final(self).tree_rows,
                tree_cursor: final(self).tree_cursor,
                ..*old(self)
            }),
            rows_synced(
                files_of(*old(self)),
                old(self).layout,
                path_set(final(self).expanded_paths@),
                filter@,
                row_at(old(self).tree_rows@, old(self).tree_cursor),
                old(self).selected_file,
                row_models(final(self).tree_rows@),
                final(self).tree_cursor,
            ),
    {
        toggle_right_panel_diff_directory(&mut self.expanded_paths, path);
        self.sync_right_panel_diff_tree_rows(filter);
        true
    }
}

/// A reload asked for after another makes the earlier one land stale:
/// its result changes nothing, though session and project are unchanged.
pub proof fn law_later_reload_supersedes(
    p0: ReviewPanel,
    p1: ReviewPanel,
    p2: ReviewPanel,
    p3: ReviewPanel,
    session: Option<u128>,
    workspace: Option<Seq<char>>,
    message: Seq<char>,
    first: DiffRequest,
    second: Option<DiffRequest>,
    r: DiffLanding,
    outcome: Result<Seq<ReviewFile>, Seq<char>>,
    filter: Seq<char>,
)
    requires
        diff_refresh_started(p0, p1, Some(first), session, workspace, message),
        diff_refresh_started(p1, p2, second, session, workspace, message),
        diff_landed(p2, p3, r, first, session, workspace, outcome, filter),
    ensures
        r == DiffLanding::Stale,
        p3 == p2,
{
    assert(p2.generation == p1.generation.wrapping_add(1));
    assert(first.generation == p1.generation);
    let g = p1.generation;
    assert(g.wrapping_add(1) != g) by {
        if g < u64::MAX {
            assert(g.wrapping_add(1) == g + 1);
        } else {
            assert(g.wrapping_add(1) == 0);
        }
    }
}

} // verus!
