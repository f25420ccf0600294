//! Creating, renaming and deleting from the working tree: the name typed
//! into the tree becomes a request to the daemon, relative to the project.
use vstd::prelude::*;
use core::ops::Range;
use crate::editor::{paths_equal, same_path};
use crate::icons::{last_index_of, extension_of, extension_start, file_name_of, path_file_name};
use crate::panel::{path_join, Padu};
use crate::settings::{path_strip_prefix, strip_path_prefix};
use crate::text::{
    bytes_eq, chars_of, push_char, lemma_utf8_injective, string_from_char_range, trim, trim_bounds, utf8,
};

verus! {

/// The create or rename being typed into the working tree.
#[derive(Debug, PartialEq, Eq)]
pub enum InlineFileOperationKind {
    /// A new file in the directory `parent`, drawn at `depth`.
    CreateFile { parent: String, depth: usize },
    /// A new directory in `parent`, drawn at `depth`.
    CreateDirectory { parent: String, depth: usize },
    /// A new name for `source`.
    Rename { source: String },
}

/// A change the daemon is asked to make in the project at `root`; paths are
/// relative to it.
#[derive(Debug, PartialEq, Eq)]
pub enum WorkspaceChange {
    CreateFile { root: String, relative_path: String },
    CreateDirectory { root: String, relative_path: String },
    RenamePath { root: String, from: String, to: String },
    DeletePath { root: String, relative_path: String },
}

/// What committing the typed name did.
#[derive(Debug, PartialEq, Eq)]
pub enum InlineCommit {
    /// No create or rename was open.
    NoOperation,
    /// It closed with nothing to ask for.
    Closed,
    /// The name is not a single path component: it stays open.
    InvalidName,
    /// It closed; ask the daemon for this.
    Requested(WorkspaceChange),
}

/// How many components `std::path::Path` finds in a path.
pub uninterp spec fn path_component_count(path: Seq<char>) -> nat;

/// What `std::path::Path::parent` gives: the path without its last
/// component, or nothing when it ends in a root or prefix or is empty.
pub uninterp spec fn path_parent(path: Seq<char>) -> Option<Seq<char>>;

/// `Path::components().count()`. Its result is named
/// [`path_component_count`]; how `.` and repeated separators are folded is
/// not restated.
#[verifier::external_body]
fn component_count(path: &str) -> (r: usize)
    ensures
        r == path_component_count(path@),
{
    std::path::Path::new(path).components().count()
}

/// `Path::parent`, turned back into a string. Its result is named
/// [`path_parent`].
#[verifier::external_body]
fn parent_path(path: &str) -> (r: Option<String>)
    ensures
        match r {
            Some(p) => path_parent(path@) == Some(p@),
            None => path_parent(path@) is None,
        },
{
    std::path::Path::new(path).parent().map(|p| p.to_string_lossy().into_owned())
}

/// A name that can stand for one entry: a single component with no
/// separator in it.
pub open spec fn name_ok(name: Seq<char>) -> bool {
    path_component_count(name) == 1 && !name.contains('/') && !name.contains('\\')
}

/// The file name of `source` as a string, empty when it has none.
pub open spec fn current_name(source: Seq<char>) -> Seq<u8> {
    match file_name_of(utf8(source)) {
        Some(n) => n,
        None => seq![],
    }
}

/// Whether the expanded directories include `path`.
pub open spec fn expanded(paths: Seq<String>, path: Seq<char>) -> bool {
    exists|i: int| 0 <= i < paths.len() && same_path((#[trigger] paths[i])@, path)
}

/// The state with the create or rename closed.
pub open spec fn closed(p: Padu) -> Padu {
    Padu { right_panel_inline_file_operation: None, ..p }
}

/// Committing `input` as the name (see [`InlineCommit`]), in the project
/// `workspace`. The name is trimmed; a blank one closes the operation, one
/// that is not a single component leaves it open. A create asks for the
/// name under the parent's place in the project; a rename that changes the
/// name asks to move the entry within its directory, and the files
/// browser's selection follows it.
pub open spec fn inline_committed(
    old: Padu,
    new: Padu,
    r: InlineCommit,
    input: Seq<char>,
    workspace: Option<Seq<char>>,
) -> bool {
    let name = trim(input);
    match old.right_panel_inline_file_operation {
        None => new == old && r == InlineCommit::NoOperation,
        Some(op) => if name.len() == 0 {
            new == closed(old) && r == InlineCommit::Closed
        } else if !name_ok(name) {
            new == old && r == InlineCommit::InvalidName
        } else {
            match workspace {
                None => new == closed(old) && r == InlineCommit::Closed,
                Some(root) => match op {
                    InlineFileOperationKind::CreateFile { parent, .. } => match path_strip_prefix(parent@, root) {
                        None => new == closed(old) && r == InlineCommit::Closed,
                        Some(rel) => {
                            &&& new == closed(old)
                            &&& r matches InlineCommit::Requested(WorkspaceChange::CreateFile { root: rt, relative_path: p })
                                && rt@ == root && p@ == path_join(rel, name)
                        },
                    },
                    InlineFileOperationKind::CreateDirectory { parent, .. } => match path_strip_prefix(parent@, root) {
                        None => new == closed(old) && r == InlineCommit::Closed,
                        Some(rel) => {
                            &&& new == closed(old)
                            &&& r matches InlineCommit::Requested(WorkspaceChange::CreateDirectory { root: rt, relative_path: p })
                                && rt@ == root && p@ == path_join(rel, name)
                        },
                    },
                    InlineFileOperationKind::Rename { source } => if current_name(source@) == utf8(name) {
                        new == closed(old) && r == InlineCommit::Closed
                    } else {
                        match path_strip_prefix(source@, root) {
                            None => new == closed(old) && r == InlineCommit::Closed,
                            Some(rel) => match path_parent(rel) {
                                None => new == closed(old) && r == InlineCommit::Closed,
                                Some(dir) => {
                                    let to = path_join(dir, name);
                                    &&& new == Padu { right_panel_files_selected_path: new.right_panel_files_selected_path, ..closed(old) }
                                    &&& match old.right_panel_files_selected_path {
                                        Some(s) => if s@ == rel {
                                            new.right_panel_files_selected_path matches Some(t) && t@ == to
                                        } else {
                                            new.right_panel_files_selected_path == old.right_panel_files_selected_path
                                        },
                                        None => new.right_panel_files_selected_path is None,
                                    }
                                    &&& r matches InlineCommit::Requested(WorkspaceChange::RenamePath { root: rt, from, to: t })
                                        && rt@ == root && from@ == rel && t@ == to
                                },
                            },
                        }
                    },
                },
            }
        },
    }
}

/// How much of a name a rename selects at first: a file's stem (all but
/// its extension and the dot before it), all of a directory's name.
pub open spec fn stem_len(name: Seq<u8>, is_file: bool) -> int {
    if is_file {
        match extension_of(name) {
            Some(ext) => name.len() - ext.len() - 1,
            None => name.len() as int,
        }
    } else {
        name.len() as int
    }
}

/// Where [`last_index_of`] points is inside the sequence.
proof fn lemma_last_index_in(s: Seq<u8>, x: u8)
    ensures
        last_index_of(s, x) matches Some(k) ==> 0 <= k < s.len(),
    decreases s.len(),
{
    if s.len() > 0 && s.last() != x {
        lemma_last_index_in(s.drop_last(), x);
    }
}

/// An extension leaves at least one byte and the dot before it.
proof fn lemma_extension_shorter(name: Seq<u8>)
    ensures
        extension_of(name) matches Some(e) ==> e.len() + 2 <= name.len(),
{
    lemma_last_index_in(name, 46u8);
}

/// `dir` and `name` joined (see [`path_join`]).
fn join_name(dir: &str, name: &str) -> (r: String)
    ensures
        r@ == path_join(dir@, name@),
{
    let cs = chars_of(dir);
    let mut joined = dir.to_owned();
    if cs.len() > 0 && cs[cs.len() - 1] != '/' {
        push_char(&mut joined, '/');
    }
    joined.append(name);
    assert(joined@ =~= path_join(dir@, name@));
    joined
}

/// Whether `cs` holds `c`.
fn has_char(cs: &Vec<char>, c: char) -> (r: bool)
    ensures
        r == cs@.contains(c),
{
    let mut i: usize = 0;
    while i < cs.len()
        invariant
            i <= cs@.len(),
            forall|j: int| 0 <= j < i ==> cs@[j] != c,
        decreases cs@.len() - i,
    {
        if cs[i] == c {
            assert(cs@[i as int] == c);
            return true;
        }
        i = i + 1;
    }
    false
}

impl Padu {
    /// Opens a create in `parent`, expanding it first when it is not; says
    /// whether the working tree should be listed again for that.
    pub fn begin_inline_create(&mut self, is_dir: bool, parent: String, depth: usize) -> (relist: bool)
        ensures
            relist == !expanded(old(self).right_panel_expanded_paths@, parent@),
            final(self).right_panel_expanded_paths@ == if relist {
                old(self).right_panel_expanded_paths@.push(parent)
            } else {
                old(self).right_panel_expanded_paths@
            },
            *final(self) == (Padu {
                right_panel_expanded_paths: final(self).right_panel_expanded_paths,
                right_panel_inline_file_operation: Some(if is_dir {
                    InlineFileOperationKind::CreateDirectory { parent, depth }
                } else {
                    InlineFileOperationKind::CreateFile { parent, depth }
                }),
                ..*old(self)
            }),
    {
        let mut found = false;
        let mut i: usize = 0;
        while i < self.right_panel_expanded_paths.len()
            invariant
                i <= self.right_panel_expanded_paths@.len(),
                found == exists|j: int| 0 <= j < i && same_path((#[trigger] self.right_panel_expanded_paths@[j])@, parent@),
            decreases self.right_panel_expanded_paths@.len() - i,
        {
            if paths_equal(self.right_panel_expanded_paths[i].as_str(), parent.as_str()) {
                found = true;
            }
            i = i + 1;
        }
        if !found {
            self.right_panel_expanded_paths.push(parent.clone());
        }
        let kind = if is_dir {
            InlineFileOperationKind::CreateDirectory { parent, depth }
        } else {
            InlineFileOperationKind::CreateFile { parent, depth }
        };
        self.right_panel_inline_file_operation = Some(kind);
        !found
    }

    /// Opens a rename of `source`. Returns the name the input starts with
    /// and what of it is selected: the stem of a file (`is_file`), all of a
    /// directory's name.
    pub fn begin_inline_rename(&mut self, source: String, is_file: bool) -> (r: (String, Range<usize>))
        ensures
            *final(self) == (Padu {
                right_panel_inline_file_operation: Some(InlineFileOperationKind::Rename { source }),
                ..*old(self)
            }),
            utf8(r.0@) == current_name(source@),
            r.1.start == 0,
            r.1.end == if stem_len(current_name(source@), is_file) > 0 {
                stem_len(current_name(source@), is_file)
            } else {
                current_name(source@).len() as int
            },
    {
        let name: String = match path_file_name(source.as_str()) {
            Some(n) => n.to_owned(),
            None => String::new(),
        };
        let b = name.as_str().as_bytes();
        assert(b@ == current_name(source@));
        proof {
            assert(b@.subrange(0, b@.len() as int) =~= b@);
            lemma_extension_shorter(b@);
        }
        let stem = if is_file {
            match extension_start(b, 0, b.len()) {
                Some(k) => k - 1,
                None => b.len(),
            }
        } else {
            b.len()
        };
        proof {
            assert(b@.subrange(0, b@.len() as int) =~= b@);
        }
        let end = if stem > 0 { stem } else { b.len() };
        self.right_panel_inline_file_operation = Some(InlineFileOperationKind::Rename { source });
        (name, 0..end)
    }

    /// Closes the create or rename being typed; says whether one was open.
    pub fn cancel_inline_file_operation(&mut self) -> (r: bool)
        ensures
            r == old(self).right_panel_inline_file_operation is Some,
            *final(self) == closed(*old(self)),
    {
        let open = self.right_panel_inline_file_operation.is_some();
        self.right_panel_inline_file_operation = None;
        open
    }

    /// Commits `input` as the name of the create or rename being typed, in
    /// the project `workspace` (see [`inline_committed`]).
    pub fn commit_inline_file_operation(&mut self, input: &str, workspace: Option<&str>) -> (r: InlineCommit)
        ensures
            inline_committed(*old(self), *final(self), r, input@, match workspace {
                Some(w) => Some(w@),
                None => None,
            }),
    {
        let op = match self.right_panel_inline_file_operation.take() {
            Some(op) => op,
            None => {
                return InlineCommit::NoOperation;
            },
        };
        let cs = chars_of(input);
        let (i, j) = trim_bounds(&cs, 0, cs.len());
        assert(cs@.subrange(0, cs@.len() as int) =~= cs@);
        let name = string_from_char_range(&cs, i, j);
        if j == i {
            return InlineCommit::Closed;
        }
        let name_cs = chars_of(name.as_str());
        if component_count(name.as_str()) != 1 || has_char(&name_cs, '/') || has_char(&name_cs, '\\') {
            self.right_panel_inline_file_operation = Some(op);
            return InlineCommit::InvalidName;
        }
        let root = match workspace {
            Some(w) => w,
            None => {
                return InlineCommit::Closed;
            },
        };
        match op {
            InlineFileOperationKind::CreateFile { parent, .. } => match strip_path_prefix(parent.as_str(), root) {
                Some(rel) => InlineCommit::Requested(
                    WorkspaceChange::CreateFile { root: root.to_owned(), relative_path: join_name(rel.as_str(), name.as_str()) },
                ),
                None => InlineCommit::Closed,
            },
            InlineFileOperationKind::CreateDirectory { parent, .. } => match strip_path_prefix(parent.as_str(), root) {
                Some(rel) => InlineCommit::Requested(
                    WorkspaceChange::CreateDirectory { root: root.to_owned(), relative_path: join_name(rel.as_str(), name.as_str()) },
                ),
                None => InlineCommit::Closed,
            },
            InlineFileOperationKind::Rename { source } => {
                let same_name = match path_file_name(source.as_str()) {
                    Some(n) => bytes_eq(n.as_bytes(), name.as_str().as_bytes()),
                    None => {
                        let nothing: Vec<u8> = Vec::new();
                        bytes_eq(nothing.as_slice(), name.as_str().as_bytes())
                    },
                };
                if same_name {
                    return InlineCommit::Closed;
                }
                let rel = match strip_path_prefix(source.as_str(), root) {
                    Some(rel) => rel,
                    None => {
                        return InlineCommit::Closed;
                    },
                };
                let dir = match parent_path(rel.as_str()) {
                    Some(d) => d,
                    None => {
                        return InlineCommit::Closed;
                    },
                };
                let to = join_name(dir.as_str(), name.as_str());
                let follows = match &self.right_panel_files_selected_path {
                    Some(selected) => *selected == rel,
                    None => false,
                };
                if follows {
                    self.right_panel_files_selected_path = Some(to.clone());
                }
                InlineCommit::Requested(WorkspaceChange::RenamePath { root: root.to_owned(), from: rel, to })
            },
        }
    }

    /// Commits the typed name as Enter or the confirm button does: also
    /// says whether focus goes back to the working tree, which it does once
    /// the operation has closed.
    pub fn submit_inline_file_operation(&mut self, input: &str, workspace: Option<&str>) -> (r: (InlineCommit, bool))
        ensures
            inline_committed(*old(self), *final(self), r.0, input@, match workspace {
                Some(w) => Some(w@),
                None => None,
            }),
            r.1 == !(r.0 is NoOperation || r.0 is InvalidName),
    {
        let commit = self.commit_inline_file_operation(input, workspace);
        let refocus = match commit {
            InlineCommit::NoOperation | InlineCommit::InvalidName => false,
            _ => true,
        };
        (commit, refocus)
    }

    /// Asks to delete `target` from the project `workspace`; the files
    /// browser lets go of it if it is selected. Nothing is asked outside a
    /// project.
    pub fn execute_delete_path(&mut self, target: &str, workspace: Option<&str>) -> (r: Option<WorkspaceChange>)
        ensures
            match workspace {
                None => *final(self) == *old(self) && r is None,
                Some(root) => match path_strip_prefix(target@, root@) {
                    None => *final(self) == *old(self) && r is None,
                    Some(rel) => {
                        &&& r matches Some(WorkspaceChange::DeletePath { root: rt, relative_path: p }) && rt@ == root@ && p@ == rel
                        &&& *final(self) == (Padu {
                            right_panel_files_selected_path: final(self).right_panel_files_selected_path,
                            ..*old(self)
                        })
                        &&& final(self).right_panel_files_selected_path == match old(self).right_panel_files_selected_path {
                            Some(s) => if s@ == rel { None } else { Some(s) },
                            None => None,
                        }
                    },
                },
            },
    {
        let root = match workspace {
            Some(w) => w,
            None => {
                return None;
            },
        };
        let rel = match strip_path_prefix(target, root) {
            Some(rel) => rel,
            None => {
                return None;
            },
        };
        let selected = match &self.right_panel_files_selected_path {
            Some(s) => *s == rel,
            None => false,
        };
        if selected {
            self.right_panel_files_selected_path = None;
        }
        Some(WorkspaceChange::DeletePath { root: root.to_owned(), relative_path: rel })
    }
}

// ---------------------------------------------------------------------------
// The working tree's row menu
// ---------------------------------------------------------------------------
/// Where New File or New Folder chosen on a row creates, and the depth its
/// row is drawn at: inside a directory row, one level deeper; beside a file
/// row (in its parent, or at the file's own path when it has none), at the
/// file's depth.
pub open spec fn create_target_of(is_dir: bool, absolute_path: Seq<char>, depth: int) -> (Seq<char>, int) {
    if is_dir {
        (absolute_path, depth + 1)
    } else {
        (
            match path_parent(absolute_path) {
                Some(p) => p,
                None => absolute_path,
            },
            depth,
        )
    }
}

/// The parent and depth for New File or New Folder on a working-tree row
/// (see [`create_target_of`]).
pub fn inline_create_target(is_dir: bool, absolute_path: &str, depth: usize) -> (r: (String, usize))
    requires
        is_dir ==> depth < usize::MAX,
    ensures
        (r.0@, r.1 as int) == create_target_of(is_dir, absolute_path@, depth as int),
{
    if is_dir {
        (absolute_path.to_string(), depth + 1)
    } else {
        match parent_path(absolute_path) {
            Some(p) => (p, depth),
            None => (absolute_path.to_string(), depth),
        }
    }
}

/// The reference Add to Chat inserts for a row: its project-relative path,
/// with a trailing `/` for a directory.
pub fn chat_reference_path(relative: &str, is_dir: bool) -> (r: String)
    ensures
        r@ == if is_dir {
            relative@.push('/')
        } else {
            relative@
        },
{
    let mut out = relative.to_string();
    if is_dir {
        push_char(&mut out, '/');
    }
    out
}

/// Where the row of a create being typed goes among the tree's rows, as the
/// number of rows drawn before it: first when it creates in the project
/// root, otherwise right after each row whose path is the parent, and last
/// when no row is.
pub open spec fn create_row_slots(root: Option<Seq<char>>, parent: Seq<char>, rows: Seq<Seq<char>>) -> Seq<usize> {
    if root matches Some(r) && same_path(r, parent) {
        seq![0usize]
    } else if exists|i: int| 0 <= i < rows.len() && same_path(#[trigger] rows[i], parent) {
        slots_after(rows, parent, rows.len() as int)
    } else {
        seq![rows.len() as usize]
    }
}

/// The slots right after the rows, among the first `n`, whose path is
/// `parent`.
pub open spec fn slots_after(rows: Seq<Seq<char>>, parent: Seq<char>, n: int) -> Seq<usize>
    decreases n,
{
    if n <= 0 {
        seq![]
    } else {
        slots_after(rows, parent, n - 1) + if same_path(rows[n - 1], parent) {
            seq![n as usize]
        } else {
            seq![]
        }
    }
}

/// The slots of the create row among the working tree's rows, given by
/// their absolute paths (see [`create_row_slots`]).
pub fn inline_create_row_slots(root: Option<&str>, parent: &str, rows: &[String]) -> (r: Vec<usize>)
    ensures
        r@ == create_row_slots(
            match root {
                Some(x) => Some(x@),
                None => None,
            },
            parent@,
            rows@.map_values(|x: String| x@),
        ),
{
    let ghost rs = rows@.map_values(|x: String| x@);
    if let Some(root) = root {
        if paths_equal(root, parent) {
            return vec![0];
        }
    }
    let mut out: Vec<usize> = Vec::new();
    let mut found = false;
    let mut i: usize = 0;
    while i < rows.len()
        invariant
            i <= rows@.len(),
            rs == rows@.map_values(|x: String| x@),
            out@ == slots_after(rs, parent@, i as int),
            found == exists|j: int| 0 <= j < i && same_path(#[trigger] rs[j], parent@),
        decreases rows@.len() - i,
    {
        let hit = paths_equal(rows[i].as_str(), parent);
        assert(rs[i as int] == rows@[i as int]@);
        if hit {
            out.push(i + 1);
            found = true;
        }
        assert(out@ =~= slots_after(rs, parent@, i + 1));
        proof {
            if found && !hit {
                let j = choose|j: int| 0 <= j < i && same_path(#[trigger] rs[j], parent@);
                assert(0 <= j < i + 1 && same_path(rs[j], parent@));
            }
            if hit {
                assert(same_path(rs[i as int], parent@));
            }
        }
        i = i + 1;
    }
    if !found {
        return vec![rows.len()];
    }
    out
}

} // verus!
