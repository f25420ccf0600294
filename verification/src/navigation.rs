//! Keyboard navigation of the review's file tree and of the working tree.
use vstd::prelude::*;
use crate::text::{bytes_eq, lemma_utf8_injective};
use crate::review::{ReviewDiffTreeRow, RowModel, row_models};

verus! {

/// Whether `key` is the key named `name`.
fn key_is(key: &str, name: &str) -> (r: bool)
    ensures
        r == (key@ == name@),
{
    let same = bytes_eq(key.as_bytes(), name.as_bytes());
    proof {
        if same {
            lemma_utf8_injective(key@, name@);
        }
    }
    same
}

/// The cursor row a key acts on: the cursor when it names a row, else the
/// first.
pub open spec fn current_row(cursor: Option<usize>, len: int) -> int {
    match cursor {
        Some(c) => if c < len {
            c as int
        } else {
            0
        },
        None => 0,
    }
}

// ---------------------------------------------------------------------------
// The review's file tree
// ---------------------------------------------------------------------------
/// What a key does in the review's file tree.
#[derive(Debug, PartialEq, Eq)]
pub enum TreeKeyAction {
    /// Not a key the tree handles; it goes on to others.
    Ignored,
    /// Handled, with nothing to change.
    Consumed,
    /// Put the cursor on this row.
    MoveCursor(usize),
    /// Expand or collapse this directory.
    ToggleDirectory(String),
    /// Show this file's diff.
    SelectFile(usize),
}

/// A tree key action as a value.
pub enum TreeKeyModel {
    Ignored,
    Consumed,
    MoveCursor(int),
    ToggleDirectory(Seq<char>),
    SelectFile(int),
}

impl View for TreeKeyAction {
    type V = TreeKeyModel;

    open spec fn view(&self) -> TreeKeyModel {
        match self {
            TreeKeyAction::Ignored => TreeKeyModel::Ignored,
            TreeKeyAction::Consumed => TreeKeyModel::Consumed,
            TreeKeyAction::MoveCursor(i) => TreeKeyModel::MoveCursor(*i as int),
            TreeKeyAction::ToggleDirectory(p) => TreeKeyModel::ToggleDirectory(p@),
            TreeKeyAction::SelectFile(i) => TreeKeyModel::SelectFile(*i as int),
        }
    }
}

/// The depth of a row.
pub open spec fn row_depth(r: RowModel) -> int {
    match r {
        RowModel::Directory { depth, .. } => depth,
        RowModel::File { depth, .. } => depth,
    }
}

/// The nearest directory row before row `j` that is shallower than `depth`.
pub open spec fn parent_row_before(rows: Seq<RowModel>, j: int, depth: int) -> Option<int>
    decreases j,
{
    if j <= 0 {
        None
    } else if rows[j - 1] is Directory && row_depth(rows[j - 1]) < depth {
        Some(j - 1)
    } else {
        parent_row_before(rows, j - 1, depth)
    }
}

/// What a key does in the review's file tree, with the cursor on
/// [`current_row`]. Nothing with a modifier held or no rows. Up, down,
/// home and end move the cursor. Left collapses an expanded directory, or
/// moves to the directory above. Right expands a collapsed directory, or
/// moves into an expanded one. Enter and space toggle a directory or show a
/// file.
pub open spec fn tree_key_of(rows: Seq<RowModel>, cursor: Option<usize>, key: Seq<char>, modified: bool) -> TreeKeyModel {
    let len = rows.len() as int;
    let current = current_row(cursor, len);
    if modified || len == 0 {
        TreeKeyModel::Ignored
    } else if key == "up"@ {
        TreeKeyModel::MoveCursor(if current > 0 { current - 1 } else { 0 })
    } else if key == "down"@ {
        TreeKeyModel::MoveCursor(if current + 1 < len { current + 1 } else { len - 1 })
    } else if key == "home"@ {
        TreeKeyModel::MoveCursor(0)
    } else if key == "end"@ {
        TreeKeyModel::MoveCursor(len - 1)
    } else if key == "left"@ {
        match rows[current] {
            RowModel::Directory { path, expanded: true, .. } => TreeKeyModel::ToggleDirectory(path),
            r => match parent_row_before(rows, current, row_depth(r)) {
                Some(p) => TreeKeyModel::MoveCursor(p),
                None => TreeKeyModel::Consumed,
            },
        }
    } else if key == "right"@ {
        match rows[current] {
            RowModel::Directory { path, expanded: false, .. } => TreeKeyModel::ToggleDirectory(path),
            RowModel::Directory { depth, .. } => if current + 1 < len && row_depth(rows[current + 1]) > depth {
                TreeKeyModel::MoveCursor(current + 1)
            } else {
                TreeKeyModel::Consumed
            },
            _ => TreeKeyModel::Consumed,
        }
    } else if key == "enter"@ || key == "space"@ {
        match rows[current] {
            RowModel::Directory { path, .. } => TreeKeyModel::ToggleDirectory(path),
            RowModel::File { file_index, .. } => TreeKeyModel::SelectFile(file_index),
        }
    } else {
        TreeKeyModel::Ignored
    }
}

fn depth_of(row: &ReviewDiffTreeRow) -> (d: usize)
    ensures
        d == row_depth(row@),
{
    match row {
        ReviewDiffTreeRow::Directory { depth, .. } => *depth,
        ReviewDiffTreeRow::File { depth, .. } => *depth,
    }
}

fn find_parent_row(rows: &[ReviewDiffTreeRow], current: usize, depth: usize) -> (r: Option<usize>)
    requires
        current <= rows@.len(),
    ensures
        parent_row_before(row_models(rows@), current as int, depth as int) == match r {
            Some(p) => Some(p as int),
            None => None::<int>,
        },
        r matches Some(p) ==> p < current,
{
    let ghost ms = row_models(rows@);
    let mut j = current;
    while j > 0
        invariant
            j <= current <= rows@.len(),
            ms == row_models(rows@),
            parent_row_before(ms, current as int, depth as int) == parent_row_before(ms, j as int, depth as int),
        decreases j,
    {
        assert(ms[j - 1] == rows@[j - 1]@);
        let is_parent = match &rows[j - 1] {
            ReviewDiffTreeRow::Directory { depth: d, .. } => *d < depth,
            _ => false,
        };
        if is_parent {
            return Some(j - 1);
        }
        j = j - 1;
    }
    None
}

/// What a key does in the review's file tree (see [`tree_key_of`]); a
/// cursor move always lands on a row.
pub fn right_panel_diff_tree_key_down(
    rows: &[ReviewDiffTreeRow],
    cursor: Option<usize>,
    key: &str,
    modified: bool,
) -> (r: TreeKeyAction)
    ensures
        r@ == tree_key_of(row_models(rows@), cursor, key@, modified),
        r matches TreeKeyAction::MoveCursor(i) ==> i < rows@.len(),
{
    let ghost ms = row_models(rows@);
    let len = rows.len();
    if modified || len == 0 {
        return TreeKeyAction::Ignored;
    }
    let current = match cursor {
        Some(c) => if c < len {
            c
        } else {
            0
        },
        None => 0,
    };
    assert(ms[current as int] == rows@[current as int]@);
    if key_is(key, "up") {
        TreeKeyAction::MoveCursor(if current > 0 { current - 1 } else { 0 })
    } else if key_is(key, "down") {
        TreeKeyAction::MoveCursor(if current + 1 < len { current + 1 } else { len - 1 })
    } else if key_is(key, "home") {
        TreeKeyAction::MoveCursor(0)
    } else if key_is(key, "end") {
        TreeKeyAction::MoveCursor(len - 1)
    } else if key_is(key, "left") {
        match &rows[current] {
            ReviewDiffTreeRow::Directory { path, expanded: true, .. } => TreeKeyAction::ToggleDirectory(
                path.clone(),
            ),
            row => {
                let depth = depth_of(row);
                match find_parent_row(rows, current, depth) {
                    Some(p) => TreeKeyAction::MoveCursor(p),
                    None => TreeKeyAction::Consumed,
                }
            },
        }
    } else if key_is(key, "right") {
        match &rows[current] {
            ReviewDiffTreeRow::Directory { path, expanded: false, .. } => TreeKeyAction::ToggleDirectory(
                path.clone(),
            ),
            ReviewDiffTreeRow::Directory { depth, .. } => {
                if current + 1 < len {
                    assert(ms[current + 1] == rows@[current + 1]@);
                    if depth_of(&rows[current + 1]) > *depth {
                        return TreeKeyAction::MoveCursor(current + 1);
                    }
                }
                TreeKeyAction::Consumed
            },
            _ => TreeKeyAction::Consumed,
        }
    } else if key_is(key, "enter") || key_is(key, "space") {
        match &rows[current] {
            ReviewDiffTreeRow::Directory { path, .. } => TreeKeyAction::ToggleDirectory(path.clone()),
            ReviewDiffTreeRow::File { file_index, .. } => TreeKeyAction::SelectFile(*file_index),
        }
    } else {
        TreeKeyAction::Ignored
    }
}

// ---------------------------------------------------------------------------
// The working tree
// ---------------------------------------------------------------------------
/// One row of the working tree.
#[derive(Debug, PartialEq, Eq, Clone)]
pub struct WorkingTreeEntry {
    pub relative_path: String,
    pub absolute_path: String,
    pub name: String,
    pub is_dir: bool,
    /// Whether version control ignores it; shown dimmed.
    pub is_ignored: bool,
    pub file_icon: Option<&'static str>,
    pub expanded: bool,
    pub depth: usize,
}

/// What a key does in the working tree.
#[derive(Debug, PartialEq, Eq)]
pub enum WorkingTreeKeyAction {
    /// Not a key the tree handles; it goes on to others.
    Ignored,
    /// Handled, with nothing to change.
    Consumed,
    /// Put the cursor on this row.
    MoveCursor(usize),
    /// Collapse this directory (by absolute path).
    Collapse(String),
    /// Expand this directory.
    Expand(String),
    /// Expand this directory if it is collapsed, collapse it otherwise.
    Toggle(String),
    /// Open this file (by workspace-relative path).
    OpenFile(String),
    /// Start renaming this entry.
    Rename(String),
    /// Ask to delete this entry.
    Delete(String),
}

/// A working-tree key action as a value.
pub enum WorkingTreeKeyModel {
    Ignored,
    Consumed,
    MoveCursor(int),
    Collapse(Seq<char>),
    Expand(Seq<char>),
    Toggle(Seq<char>),
    OpenFile(Seq<char>),
    Rename(Seq<char>),
    Delete(Seq<char>),
}

impl View for WorkingTreeKeyAction {
    type V = WorkingTreeKeyModel;

    open spec fn view(&self) -> WorkingTreeKeyModel {
        match self {
            WorkingTreeKeyAction::Ignored => WorkingTreeKeyModel::Ignored,
            WorkingTreeKeyAction::Consumed => WorkingTreeKeyModel::Consumed,
            WorkingTreeKeyAction::MoveCursor(i) => WorkingTreeKeyModel::MoveCursor(*i as int),
            WorkingTreeKeyAction::Collapse(p) => WorkingTreeKeyModel::Collapse(p@),
            WorkingTreeKeyAction::Expand(p) => WorkingTreeKeyModel::Expand(p@),
            WorkingTreeKeyAction::Toggle(p) => WorkingTreeKeyModel::Toggle(p@),
            WorkingTreeKeyAction::OpenFile(p) => WorkingTreeKeyModel::OpenFile(p@),
            WorkingTreeKeyAction::Rename(p) => WorkingTreeKeyModel::Rename(p@),
            WorkingTreeKeyAction::Delete(p) => WorkingTreeKeyModel::Delete(p@),
        }
    }
}

/// The nearest directory entry before entry `j` that is shallower than
/// `depth`.
pub open spec fn parent_entry_before(entries: Seq<WorkingTreeEntry>, j: int, depth: int) -> Option<int>
    decreases j,
{
    if j <= 0 {
        None
    } else if entries[j - 1].is_dir && entries[j - 1].depth < depth {
        Some(j - 1)
    } else {
        parent_entry_before(entries, j - 1, depth)
    }
}

/// What a key does in the working tree, with the cursor on
/// [`current_row`]. Nothing without entries. Up, down, home and end move
/// the cursor. Left collapses an expanded directory, or moves to the
/// directory above. Right expands a collapsed directory, or moves into an
/// expanded one. Enter and space toggle a directory or open a file; F2
/// renames, delete and backspace delete.
pub open spec fn working_tree_key_of(entries: Seq<WorkingTreeEntry>, cursor: Option<usize>, key: Seq<char>) -> WorkingTreeKeyModel {
    let len = entries.len() as int;
    let current = current_row(cursor, len);
    let e = entries[current];
    if len == 0 {
        WorkingTreeKeyModel::Ignored
    } else if key == "up"@ {
        WorkingTreeKeyModel::MoveCursor(if current > 0 { current - 1 } else { 0 })
    } else if key == "down"@ {
        WorkingTreeKeyModel::MoveCursor(if current + 1 < len { current + 1 } else { len - 1 })
    } else if key == "home"@ {
        WorkingTreeKeyModel::MoveCursor(0)
    } else if key == "end"@ {
        WorkingTreeKeyModel::MoveCursor(len - 1)
    } else if key == "left"@ {
        if e.is_dir && e.expanded {
            WorkingTreeKeyModel::Collapse(e.absolute_path@)
        } else if e.depth > 0 {
            match parent_entry_before(entries, current, e.depth as int) {
                Some(p) => WorkingTreeKeyModel::MoveCursor(p),
                None => WorkingTreeKeyModel::Consumed,
            }
        } else {
            WorkingTreeKeyModel::Consumed
        }
    } else if key == "right"@ {
        if e.is_dir && !e.expanded {
            WorkingTreeKeyModel::Expand(e.absolute_path@)
        } else if e.is_dir && current + 1 < len && entries[current + 1].depth > e.depth {
            WorkingTreeKeyModel::MoveCursor(current + 1)
        } else {
            WorkingTreeKeyModel::Consumed
        }
    } else if key == "enter"@ || key == "space"@ {
        if e.is_dir {
            WorkingTreeKeyModel::Toggle(e.absolute_path@)
        } else {
            WorkingTreeKeyModel::OpenFile(e.relative_path@)
        }
    } else if key == "f2"@ {
        WorkingTreeKeyModel::Rename(e.absolute_path@)
    } else if key == "delete"@ || key == "backspace"@ {
        WorkingTreeKeyModel::Delete(e.absolute_path@)
    } else {
        WorkingTreeKeyModel::Ignored
    }
}

fn find_parent_entry(entries: &[WorkingTreeEntry], current: usize, depth: usize) -> (r: Option<usize>)
    requires
        current <= entries@.len(),
    ensures
        parent_entry_before(entries@, current as int, depth as int) == match r {
            Some(p) => Some(p as int),
            None => None::<int>,
        },
        r matches Some(p) ==> p < current,
{
    let mut j = current;
    while j > 0
        invariant
            j <= current <= entries@.len(),
            parent_entry_before(entries@, current as int, depth as int) == parent_entry_before(
                entries@,
                j as int,
                depth as int,
            ),
        decreases j,
    {
        if entries[j - 1].is_dir && entries[j - 1].depth < depth {
            return Some(j - 1);
        }
        j = j - 1;
    }
    None
}

/// What a key does in the working tree (see [`working_tree_key_of`]); a
/// cursor move always lands on an entry.
pub fn right_panel_working_tree_key_down(
    entries: &[WorkingTreeEntry],
    cursor: Option<usize>,
    key: &str,
) -> (r: WorkingTreeKeyAction)
    ensures
        r@ == working_tree_key_of(entries@, cursor, key@),
        r matches WorkingTreeKeyAction::MoveCursor(i) ==> i < entries@.len(),
{
    let len = entries.len();
    if len == 0 {
        return WorkingTreeKeyAction::Ignored;
    }
    let current = match cursor {
        Some(c) => if c < len {
            c
        } else {
            0
        },
        None => 0,
    };
    let entry = &entries[current];
    if key_is(key, "up") {
        WorkingTreeKeyAction::MoveCursor(if current > 0 { current - 1 } else { 0 })
    } else if key_is(key, "down") {
        WorkingTreeKeyAction::MoveCursor(if current + 1 < len { current + 1 } else { len - 1 })
    } else if key_is(key, "home") {
        WorkingTreeKeyAction::MoveCursor(0)
    } else if key_is(key, "end") {
        WorkingTreeKeyAction::MoveCursor(len - 1)
    } else if key_is(key, "left") {
        if entry.is_dir && entry.expanded {
            WorkingTreeKeyAction::Collapse(entry.absolute_path.clone())
        } else if entry.depth > 0 {
            match find_parent_entry(entries, current, entry.depth) {
                Some(p) => WorkingTreeKeyAction::MoveCursor(p),
                None => WorkingTreeKeyAction::Consumed,
            }
        } else {
            WorkingTreeKeyAction::Consumed
        }
    } else if key_is(key, "right") {
        if entry.is_dir && !entry.expanded {
            WorkingTreeKeyAction::Expand(entry.absolute_path.clone())
        } else if entry.is_dir && current + 1 < len && entries[current + 1].depth > entry.depth {
            WorkingTreeKeyAction::MoveCursor(current + 1)
        } else {
            WorkingTreeKeyAction::Consumed
        }
    } else if key_is(key, "enter") || key_is(key, "space") {
        if entry.is_dir {
            WorkingTreeKeyAction::Toggle(entry.absolute_path.clone())
        } else {
            WorkingTreeKeyAction::OpenFile(entry.relative_path.clone())
        }
    } else if key_is(key, "f2") {
        WorkingTreeKeyAction::Rename(entry.absolute_path.clone())
    } else if key_is(key, "delete") || key_is(key, "backspace") {
        WorkingTreeKeyAction::Delete(entry.absolute_path.clone())
    } else {
        WorkingTreeKeyAction::Ignored
    }
}

} // verus!
