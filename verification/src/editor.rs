//! The file editors of the right panel: reading a file into its editor off
//! the window's thread, tracking unsaved edits, and saving.
//!
//! Every read and save takes a new epoch; a result lands only while its
//! epoch is the editor's latest and the same session and project are on
//! screen, and a read never overwrites unsaved edits.
use vstd::prelude::*;
use crate::panel::{Padu, FileEditor, visible_file_of};

verus! {

/// A read the window should make off its thread.
#[derive(Debug, PartialEq, Eq)]
pub struct FileRead {
    pub path: String,
    pub project: String,
    pub session: u128,
    pub epoch: u64,
}

/// A write the window should make off its thread.
#[derive(Debug, PartialEq, Eq)]
pub struct FileWrite {
    pub path: String,
    pub project: String,
    pub session: u128,
    pub epoch: u64,
    pub content: String,
}

/// What asking for a read did.
#[derive(Debug, PartialEq, Eq)]
pub enum ReadStart {
    /// No editor has that path.
    NoEditor,
    /// No project or session is on screen: the editor now shows the given
    /// message, locked.
    NoProject,
    /// A read is already in flight.
    AlreadyReading,
    /// The editor has unsaved edits, so it is not reloaded.
    Skipped,
    /// Read this.
    Read(FileRead),
}

/// What a finished read did.
#[derive(Debug, PartialEq, Eq)]
pub enum ReadResult {
    /// Another session or project is on screen now: the text is dropped.
    Dropped,
    /// No editor has the path any more.
    NoEditor,
    /// A later read or a save was started since: the text is dropped.
    Stale,
    /// The buffer was edited meanwhile; the edits win.
    KeptEdits,
    /// The file is as the editor already has it.
    Unchanged,
    /// Show this text, editable or not.
    Replaced { content: String, writable: bool },
}

/// What asking to save did.
#[derive(Debug, PartialEq, Eq)]
pub enum SaveStart {
    /// No file is on screen, no project or session is open, or the file has
    /// no editor.
    NothingToSave,
    /// The file cannot be saved: it is still being opened (`reading`) or it
    /// is read-only.
    Locked { path: String, reading: bool },
    /// Write this.
    Write(FileWrite),
}

/// What a finished save did.
#[derive(Debug, PartialEq, Eq)]
pub enum SaveResult {
    /// Another session or project is on screen now.
    Dropped,
    /// Saved; the buffer is still dirty when it changed since.
    Saved { dirty: bool },
    /// Saved, but a later read or save was started since.
    Superseded,
    /// The write failed.
    Failed,
}

/// Whether two paths name the same place, as `std::path::Path` compares
/// them (component by component).
pub uninterp spec fn same_path(a: Seq<char>, b: Seq<char>) -> bool;

/// `std::path::Path`'s `==`. Equal text makes equal paths, since the
/// relation is an equivalence; which other spellings compare equal (a
/// trailing separator, a doubled one) is left to the name.
#[verifier::external_body]
pub(crate) fn paths_equal(a: &str, b: &str) -> (r: bool)
    ensures
        r == same_path(a@, b@),
        a@ == b@ ==> r,
{
    std::path::Path::new(a) == std::path::Path::new(b)
}

/// The first editor of `path`.
pub open spec fn editor_at(editors: Seq<FileEditor>, path: Seq<char>) -> Option<int>
    decreases editors.len(),
{
    if editors.len() == 0 {
        None
    } else {
        match editor_at(editors.drop_last(), path) {
            Some(i) => Some(i),
            None => if editors.last().path@ == path {
                Some(editors.len() - 1)
            } else {
                None
            },
        }
    }
}

proof fn lemma_editor_at_here(editors: Seq<FileEditor>, path: Seq<char>, r: Option<int>)
    requires
        r matches Some(i) ==> 0 <= i < editors.len() && editors[i].path@ == path && forall|j: int|
            0 <= j < i ==> (#[trigger] editors[j]).path@ != path,
        r is None ==> forall|j: int| 0 <= j < editors.len() ==> (#[trigger] editors[j]).path@ != path,
    ensures
        editor_at(editors, path) == r,
    decreases editors.len(),
{
    if editors.len() > 0 {
        let p = editors.drop_last();
        match r {
            Some(i) => if i < editors.len() - 1 {
                lemma_editor_at_here(p, path, Some(i));
            } else {
                lemma_editor_at_here(p, path, None);
            },
            None => lemma_editor_at_here(p, path, None),
        }
    }
}

/// What [`editor_at`] finds is an editor of the path.
pub proof fn lemma_editor_at(editors: Seq<FileEditor>, path: Seq<char>)
    ensures
        match editor_at(editors, path) {
            Some(i) => 0 <= i < editors.len() && editors[i].path@ == path,
            None => forall|j: int| 0 <= j < editors.len() ==> (#[trigger] editors[j]).path@ != path,
        },
    decreases editors.len(),
{
    if editors.len() > 0 {
        lemma_editor_at(editors.drop_last(), path);
        assert forall|j: int| 0 <= j < editors.len() - 1 implies #[trigger] editors[j] == editors.drop_last()[j] by {}
    }
}

/// Two runs of editors with the same paths find the same editor.
pub proof fn lemma_editor_at_same_paths(a: Seq<FileEditor>, b: Seq<FileEditor>, path: Seq<char>)
    requires
        a.len() == b.len(),
        forall|j: int| 0 <= j < a.len() ==> (#[trigger] a[j]).path == b[j].path,
    ensures
        editor_at(a, path) == editor_at(b, path),
    decreases a.len(),
{
    if a.len() > 0 {
        assert forall|j: int| 0 <= j < a.len() - 1 implies (#[trigger] a.drop_last()[j]).path == b.drop_last()[j].path by {
            assert(a.drop_last()[j] == a[j]);
            assert(b.drop_last()[j] == b[j]);
        }
        lemma_editor_at_same_paths(a.drop_last(), b.drop_last(), path);
        assert(a.last().path == b.last().path);
    }
}

/// Everything but the editors is as in `old`.
pub open spec fn keeps_all_but_editors(new: Padu, old: Padu) -> bool {
    new == (Padu { right_panel_file_editors: new.right_panel_file_editors, ..old })
}

/// Only the editor at `i` may differ from `old`.
pub open spec fn only_editor_changed(new: Padu, old: Padu, i: int) -> bool {
    &&& keeps_all_but_editors(new, old)
    &&& new.right_panel_file_editors@.len() == old.right_panel_file_editors@.len()
    &&& forall|j: int|
        0 <= j < old.right_panel_file_editors@.len() && j != i ==> new.right_panel_file_editors@[j]
            == old.right_panel_file_editors@[j]
}

/// The editors are those of `old` with the one at `i` replaced by `e`.
pub open spec fn editor_replaced(new: Padu, old: Padu, i: int, e: FileEditor) -> bool {
    &&& keeps_all_but_editors(new, old)
    &&& new.right_panel_file_editors@ == old.right_panel_file_editors@.update(i, e)
}

/// No editor's epoch is at its largest value.
pub open spec fn epochs_below_max(p: Padu) -> bool {
    forall|i: int|
        0 <= i < p.right_panel_file_editors@.len() ==> (#[trigger] p.right_panel_file_editors@[i]).read_epoch
            < u64::MAX
}

/// A project and a session are on screen.
pub open spec fn project_open(workspace: Option<Seq<char>>, session: Option<u128>) -> bool {
    workspace is Some && session is Some
}

/// What asking an editor for a read does to it (`before` to `after`): with
/// no project it shows `message`, locked; with a read in flight nothing
/// changes; otherwise it starts a read at its next epoch.
pub open spec fn read_step(
    before: FileEditor,
    after: FileEditor,
    r: ReadStart,
    workspace: Option<Seq<char>>,
    session: Option<u128>,
    message: Seq<char>,
) -> bool {
    if !project_open(workspace, session) {
        &&& r == ReadStart::NoProject
        &&& after.path == before.path
        &&& after.disk_content@ == message
        &&& !after.writable
        &&& !after.reading
        &&& after.dirty == before.dirty
        &&& after.read_epoch == before.read_epoch
    } else if before.reading {
        after == before && r == ReadStart::AlreadyReading
    } else {
        &&& after == FileEditor { reading: true, read_epoch: (before.read_epoch + 1) as u64, ..before }
        &&& r matches ReadStart::Read(read) && read.path@ == before.path@ && read.project@
            == workspace->0 && read.session == session->0 && read.epoch == before.read_epoch + 1
    }
}

/// Asking the editor at `i` for a read.
pub open spec fn read_started_at(
    old: Padu,
    new: Padu,
    r: ReadStart,
    i: int,
    workspace: Option<Seq<char>>,
    message: Seq<char>,
) -> bool {
    &&& only_editor_changed(new, old, i)
    &&& read_step(
        old.right_panel_file_editors@[i],
        new.right_panel_file_editors@[i],
        r,
        workspace,
        old.selected_session,
        message,
    )
}

/// Asking the editor of `path` for a read.
pub open spec fn read_started(
    old: Padu,
    new: Padu,
    r: ReadStart,
    path: Seq<char>,
    workspace: Option<Seq<char>>,
    message: Seq<char>,
) -> bool {
    match editor_at(old.right_panel_file_editors@, path) {
        None => new == old && r == ReadStart::NoEditor,
        Some(i) => read_started_at(old, new, r, i, workspace, message),
    }
}

/// The session and project a request was made for are still on screen.
pub open spec fn still_on_screen(p: Padu, session: u128, project: Seq<char>, workspace: Option<Seq<char>>) -> bool {
    p.selected_session == Some(session) && workspace is Some && same_path(workspace->0, project)
}

/// What a read of `content` (`writable` or not) landing does.
pub open spec fn read_landed(
    old: Padu,
    new: Padu,
    r: ReadResult,
    read: FileRead,
    workspace: Option<Seq<char>>,
    content: Seq<char>,
    writable: bool,
) -> bool {
    let here = still_on_screen(old, read.session, read.project@, workspace);
    match editor_at(old.right_panel_file_editors@, read.path@) {
        None => new == old && r == (if here { ReadResult::NoEditor } else { ReadResult::Dropped }),
        Some(i) => {
            let e = old.right_panel_file_editors@[i];
            let settled = FileEditor { reading: false, ..e };
            if !here {
                r == ReadResult::Dropped && editor_replaced(new, old, i, settled)
            } else if e.read_epoch != read.epoch {
                r == ReadResult::Stale && new == old
            } else if e.dirty {
                r == ReadResult::KeptEdits && editor_replaced(new, old, i, settled)
            } else if e.disk_content@ == content && e.writable == writable {
                r == ReadResult::Unchanged && editor_replaced(new, old, i, settled)
            } else {
                let after = new.right_panel_file_editors@[i];
                &&& only_editor_changed(new, old, i)
                &&& after.path == e.path
                &&& after.disk_content@ == content
                &&& after.writable == writable
                &&& !after.dirty
                &&& !after.reading
                &&& after.read_epoch == e.read_epoch
                &&& r matches ReadResult::Replaced { content: c, writable: w } && c@ == content && w
                    == writable
            }
        },
    }
}

/// What an edit leaving the buffer of `path` at `value` does; `r` says
/// whether the dirty flag changed.
pub open spec fn edit_landed(old: Padu, new: Padu, r: bool, path: Seq<char>, value: Seq<char>) -> bool {
    match editor_at(old.right_panel_file_editors@, path) {
        None => new == old && !r,
        Some(i) => {
            let e = old.right_panel_file_editors@[i];
            let dirty = e.writable && value != e.disk_content@;
            r == (dirty != e.dirty) && editor_replaced(new, old, i, FileEditor { dirty, ..e })
        },
    }
}

/// What asking to save the file on screen, whose buffer holds `content`,
/// does.
pub open spec fn save_started(
    old: Padu,
    new: Padu,
    r: SaveStart,
    workspace: Option<Seq<char>>,
    content: Seq<char>,
) -> bool {
    match visible_file_of(old) {
        None => new == old && r == SaveStart::NothingToSave,
        Some(path) => match editor_at(old.right_panel_file_editors@, path) {
            None => new == old && r == SaveStart::NothingToSave,
            Some(i) => {
                let e = old.right_panel_file_editors@[i];
                if workspace is None {
                    new == old && r == SaveStart::NothingToSave
                } else if !e.writable {
                    &&& new == old
                    &&& r matches SaveStart::Locked { path: p, reading } && p@ == path && reading == e.reading
                } else if old.selected_session is None {
                    new == old && r == SaveStart::NothingToSave
                } else {
                    &&& editor_replaced(
                        new,
                        old,
                        i,
                        FileEditor { reading: false, read_epoch: (e.read_epoch + 1) as u64, ..e },
                    )
                    &&& r matches SaveStart::Write(w) && w.path@ == path && w.project@ == workspace->0
                        && w.session == old.selected_session->0 && w.epoch == e.read_epoch + 1
                        && w.content@ == content
                }
            },
        },
    }
}

/// What a finished save lands as: `written` says whether the write went
/// through, `current` is the buffer when it lands.
pub open spec fn save_landed(
    old: Padu,
    new: Padu,
    r: SaveResult,
    write: FileWrite,
    workspace: Option<Seq<char>>,
    written: bool,
    current: Seq<char>,
) -> bool {
    if !still_on_screen(old, write.session, write.project@, workspace) {
        new == old && r == SaveResult::Dropped
    } else if !written {
        new == old && r == SaveResult::Failed
    } else {
        match editor_at(old.right_panel_file_editors@, write.path@) {
            Some(i) => {
                let e = old.right_panel_file_editors@[i];
                if e.read_epoch == write.epoch {
                    let after = new.right_panel_file_editors@[i];
                    &&& only_editor_changed(new, old, i)
                    &&& after == FileEditor { disk_content: after.disk_content, dirty: current != write.content@, ..e }
                    &&& after.disk_content@ == write.content@
                    &&& r == SaveResult::Saved { dirty: current != write.content@ }
                } else {
                    new == old && r == SaveResult::Superseded
                }
            },
            None => new == old && r == SaveResult::Superseded,
        }
    }
}

/// An editor as a file is first opened in: empty, locked, clean.
pub open spec fn fresh_editor(e: FileEditor, path: Seq<char>) -> bool {
    &&& e.path@ == path
    &&& e.disk_content@ == Seq::<char>::empty()
    &&& !e.writable
    &&& !e.dirty
    &&& !e.reading
    &&& e.read_epoch == 0
}

impl Padu {
    fn editor_index(&self, path: &str) -> (r: Option<usize>)
        ensures
            editor_at(self.right_panel_file_editors@, path@) == match r {
                Some(i) => Some(i as int),
                None => None::<int>,
            },
            r matches Some(i) ==> i < self.right_panel_file_editors@.len()
                && self.right_panel_file_editors@[i as int].path@ == path@,
    {
        let mut i: usize = 0;
        while i < self.right_panel_file_editors.len()
            invariant
                i <= self.right_panel_file_editors@.len(),
                forall|j: int| 0 <= j < i ==> (#[trigger] self.right_panel_file_editors@[j]).path@ != path@,
            decreases self.right_panel_file_editors@.len() - i,
        {
            let same = crate::text::bytes_eq(self.right_panel_file_editors[i].path.as_str().as_bytes(), path.as_bytes());
            proof {
                if same {
                    crate::text::lemma_utf8_injective(self.right_panel_file_editors@[i as int].path@, path@);
                }
            }
            if same {
                proof {
                    lemma_editor_at_here(self.right_panel_file_editors@, path@, Some(i as int));
                }
                return Some(i);
            }
            i = i + 1;
        }
        proof {
            lemma_editor_at_here(self.right_panel_file_editors@, path@, None);
        }
        None
    }

    /// Puts `e` in place of the editor at `index`.
    fn replace_editor(&mut self, index: usize, e: FileEditor)
        requires
            index < old(self).right_panel_file_editors@.len(),
        ensures
            editor_replaced(*final(self), *old(self), index as int, e),
    {
        let ghost before = *self;
        let mut editors: Vec<FileEditor> = Vec::new();
        std::mem::swap(&mut editors, &mut self.right_panel_file_editors);
        editors.set(index, e);
        self.right_panel_file_editors = editors;
        assert(*self == (Padu { right_panel_file_editors: self.right_panel_file_editors, ..before }));
    }

    /// Asks the editor at `index` for a read (see [`read_step`]).
    fn start_read_at(&mut self, index: usize, workspace: Option<&str>, no_project_message: &str) -> (r: ReadStart)
        requires
            index < old(self).right_panel_file_editors@.len(),
            old(self).right_panel_file_editors@[index as int].read_epoch < u64::MAX,
        ensures
            read_started_at(*old(self), *final(self), r, index as int, match workspace {
                Some(w) => Some(w@),
                None => None,
            }, no_project_message@),
    {
        let old_editor = self.right_panel_file_editors[index].clone();
        let (project, session) = match (workspace, self.selected_session) {
            (Some(project), Some(session)) => (project, session),
            _ => {
                let updated = FileEditor {
                    path: old_editor.path,
                    disk_content: no_project_message.to_owned(),
                    writable: false,
                    dirty: old_editor.dirty,
                    reading: false,
                    read_epoch: old_editor.read_epoch,
                };
                self.replace_editor(index, updated);
                return ReadStart::NoProject;
            },
        };
        if old_editor.reading {
            return ReadStart::AlreadyReading;
        }
        let epoch = old_editor.read_epoch + 1;
        let path = old_editor.path.clone();
        self.replace_editor(index, FileEditor { reading: true, read_epoch: epoch, ..old_editor });
        ReadStart::Read(FileRead { path, project: project.to_owned(), session, epoch })
    }

    /// Asks for `relative_path` to be read into its editor, from the
    /// project `workspace` (see [`read_started`]). With no project or
    /// session on screen the editor shows `no_project_message` instead.
    pub fn read_right_panel_file_into_editor(
        &mut self,
        relative_path: &str,
        workspace: Option<&str>,
        no_project_message: &str,
    ) -> (r: ReadStart)
        requires
            epochs_below_max(*old(self)),
        ensures
            read_started(*old(self), *final(self), r, relative_path@, match workspace {
                Some(w) => Some(w@),
                None => None,
            }, no_project_message@),
    {
        match self.editor_index(relative_path) {
            Some(i) => self.start_read_at(i, workspace, no_project_message),
            None => ReadStart::NoEditor,
        }
    }

    /// Lands a finished read of `read` that gave `content`, `writable` or
    /// not, while `workspace` is on screen (see [`read_landed`]). On
    /// `Replaced` the window shows the text and locks or unlocks the buffer.
    pub fn apply_right_panel_file_read(
        &mut self,
        read: &FileRead,
        workspace: Option<&str>,
        content: String,
        writable: bool,
    ) -> (r: ReadResult)
        ensures
            read_landed(*old(self), *final(self), r, *read, match workspace {
                Some(w) => Some(w@),
                None => None,
            }, content@, writable),
    {
        let here = match (workspace, self.selected_session) {
            (Some(w), Some(session)) => session == read.session && paths_equal(w, read.project.as_str()),
            _ => false,
        };
        let index = match self.editor_index(read.path.as_str()) {
            Some(i) => i,
            None => {
                return if here { ReadResult::NoEditor } else { ReadResult::Dropped };
            },
        };
        let e = self.right_panel_file_editors[index].clone();
        if !here {
            self.replace_editor(index, FileEditor { reading: false, ..e });
            return ReadResult::Dropped;
        }
        if e.read_epoch != read.epoch {
            return ReadResult::Stale;
        }
        if e.dirty {
            self.replace_editor(index, FileEditor { reading: false, ..e });
            return ReadResult::KeptEdits;
        }
        if e.disk_content == content && e.writable == writable {
            self.replace_editor(index, FileEditor { reading: false, ..e });
            return ReadResult::Unchanged;
        }
        let shown = content.clone();
        self.replace_editor(
            index,
            FileEditor { path: e.path, disk_content: content, writable, dirty: false, reading: false, read_epoch: e.read_epoch },
        );
        ReadResult::Replaced { content: shown, writable }
    }

    /// Records that the buffer of `relative_path` now holds `value`: it is
    /// dirty when writable and unlike what is on disk. Returns whether the
    /// flag changed (see [`edit_landed`]).
    pub fn right_panel_file_edited(&mut self, relative_path: &str, value: &str) -> (r: bool)
        ensures
            edit_landed(*old(self), *final(self), r, relative_path@, value@),
    {
        let index = match self.editor_index(relative_path) {
            Some(i) => i,
            None => {
                return false;
            },
        };
        let e = self.right_panel_file_editors[index].clone();
        let same = crate::text::bytes_eq(value.as_bytes(), e.disk_content.as_str().as_bytes());
        proof {
            if same {
                crate::text::lemma_utf8_injective(value@, e.disk_content@);
            }
        }
        let dirty = e.writable && !same;
        let changed = dirty != e.dirty;
        self.replace_editor(index, FileEditor { dirty, ..e });
        changed
    }

    /// Reads `relative_path` again unless its buffer has unsaved edits.
    pub fn reload_right_panel_file_if_clean(
        &mut self,
        relative_path: &str,
        workspace: Option<&str>,
        no_project_message: &str,
    ) -> (r: ReadStart)
        requires
            epochs_below_max(*old(self)),
        ensures
            match editor_at(old(self).right_panel_file_editors@, relative_path@) {
                None => *final(self) == *old(self) && r == ReadStart::NoEditor,
                Some(i) => if old(self).right_panel_file_editors@[i].dirty {
                    *final(self) == *old(self) && r == ReadStart::Skipped
                } else {
                    read_started_at(*old(self), *final(self), r, i, match workspace {
                        Some(w) => Some(w@),
                        None => None,
                    }, no_project_message@)
                },
            },
    {
        match self.editor_index(relative_path) {
            None => ReadStart::NoEditor,
            Some(i) => if self.right_panel_file_editors[i].dirty {
                ReadStart::Skipped
            } else {
                self.start_read_at(i, workspace, no_project_message)
            },
        }
    }

    /// Reads every editor without unsaved edits again. The answer has one
    /// entry per editor, in order: `Skipped` for a dirty one.
    pub fn reload_clean_right_panel_file_editors(
        &mut self,
        workspace: Option<&str>,
        no_project_message: &str,
    ) -> (r: Vec<ReadStart>)
        requires
            epochs_below_max(*old(self)),
        ensures
            keeps_all_but_editors(*final(self), *old(self)),
            final(self).right_panel_file_editors@.len() == old(self).right_panel_file_editors@.len(),
            r@.len() == old(self).right_panel_file_editors@.len(),
            forall|i: int|
                0 <= i < r@.len() ==> if (#[trigger] old(self).right_panel_file_editors@[i]).dirty {
                    final(self).right_panel_file_editors@[i] == old(self).right_panel_file_editors@[i]
                        && r@[i] == ReadStart::Skipped
                } else {
                    read_step(
                        old(self).right_panel_file_editors@[i],
                        final(self).right_panel_file_editors@[i],
                        r@[i],
                        match workspace {
                            Some(w) => Some(w@),
                            None => None,
                        },
                        old(self).selected_session,
                        no_project_message@,
                    )
                },
    {
        let ghost before = *self;
        let ghost ws = match workspace {
            Some(w) => Some(w@),
            None => None,
        };
        let mut answers: Vec<ReadStart> = Vec::new();
        let mut i: usize = 0;
        while i < self.right_panel_file_editors.len()
            invariant
                i <= self.right_panel_file_editors@.len(),
                answers@.len() == i,
                keeps_all_but_editors(*self, before),
                self.right_panel_file_editors@.len() == before.right_panel_file_editors@.len(),
                ws == match workspace {
                    Some(w) => Some(w@),
                    None => None::<Seq<char>>,
                },
                forall|j: int|
                    i <= j < before.right_panel_file_editors@.len() ==> #[trigger] self.right_panel_file_editors@[j]
                        == before.right_panel_file_editors@[j],
                forall|j: int|
                    0 <= j < i ==> if (#[trigger] before.right_panel_file_editors@[j]).dirty {
                        self.right_panel_file_editors@[j] == before.right_panel_file_editors@[j]
                            && answers@[j] == ReadStart::Skipped
                    } else {
                        read_step(
                            before.right_panel_file_editors@[j],
                            self.right_panel_file_editors@[j],
                            answers@[j],
                            ws,
                            before.selected_session,
                            no_project_message@,
                        )
                    },
                epochs_below_max(before),
            decreases self.right_panel_file_editors@.len() - i,
        {
            if self.right_panel_file_editors[i].dirty {
                answers.push(ReadStart::Skipped);
            } else {
                assert(before.right_panel_file_editors@[i as int].read_epoch < u64::MAX);
                let a = self.start_read_at(i, workspace, no_project_message);
                answers.push(a);
            }
            i = i + 1;
        }
        answers
    }

    /// The editor of `relative_path`, made if there is none: returns whether
    /// it is writable and dirty, and for a new editor what asking for its
    /// first read did. A new editor starts empty and locked.
    pub fn ensure_right_panel_file_editor(
        &mut self,
        relative_path: &str,
        workspace: Option<&str>,
        no_project_message: &str,
    ) -> (r: (bool, bool, Option<ReadStart>))
        ensures
            match editor_at(old(self).right_panel_file_editors@, relative_path@) {
                Some(i) => {
                    let e = old(self).right_panel_file_editors@[i];
                    *final(self) == *old(self) && r == (e.writable, e.dirty, None::<ReadStart>)
                },
                None => {
                    &&& !r.0 && !r.1
                    &&& keeps_all_but_editors(*final(self), *old(self))
                    &&& final(self).right_panel_file_editors@.len() == old(self).right_panel_file_editors@.len() + 1
                    &&& forall|j: int|
                        0 <= j < old(self).right_panel_file_editors@.len() ==> #[trigger] final(self).right_panel_file_editors@[j]
                            == old(self).right_panel_file_editors@[j]
                    &&& r.2 matches Some(read) && exists|e: FileEditor|
                        fresh_editor(e, relative_path@) && read_step(
                            e,
                            final(self).right_panel_file_editors@.last(),
                            read,
                            match workspace {
                                Some(w) => Some(w@),
                                None => None,
                            },
                            old(self).selected_session,
                            no_project_message@,
                        )
                },
            },
    {
        if let Some(i) = self.editor_index(relative_path) {
            let e = &self.right_panel_file_editors[i];
            return (e.writable, e.dirty, None);
        }
        let ghost before = *self;
        let fresh = FileEditor {
            path: relative_path.to_owned(),
            disk_content: String::new(),
            writable: false,
            dirty: false,
            reading: false,
            read_epoch: 0,
        };
        let ghost f = fresh;
        let mut editors: Vec<FileEditor> = Vec::new();
        std::mem::swap(&mut editors, &mut self.right_panel_file_editors);
        editors.push(fresh);
        self.right_panel_file_editors = editors;
        let index = self.right_panel_file_editors.len() - 1;
        let read = self.start_read_at(index, workspace, no_project_message);
        assert(fresh_editor(f, relative_path@));
        (false, false, Some(read))
    }

    /// Asks to save the file on screen, whose buffer holds `content`, into
    /// the project `workspace` (see [`save_started`]). The write takes the
    /// editor's next epoch, so a read already in flight lands stale.
    pub fn save_right_panel_file_action(&mut self, workspace: Option<&str>, content: String) -> (r: SaveStart)
        requires
            epochs_below_max(*old(self)),
        ensures
            save_started(*old(self), *final(self), r, match workspace {
                Some(w) => Some(w@),
                None => None,
            }, content@),
    {
        let relative_path = match self.visible_right_panel_file_path() {
            Some(p) => p,
            None => {
                return SaveStart::NothingToSave;
            },
        };
        let index = match self.editor_index(relative_path.as_str()) {
            Some(i) => i,
            None => {
                return SaveStart::NothingToSave;
            },
        };
        let project = match workspace {
            Some(w) => w,
            None => {
                return SaveStart::NothingToSave;
            },
        };
        let e = self.right_panel_file_editors[index].clone();
        if !e.writable {
            return SaveStart::Locked { path: relative_path, reading: e.reading };
        }
        let session = match self.selected_session {
            Some(s) => s,
            None => {
                return SaveStart::NothingToSave;
            },
        };
        let epoch = e.read_epoch + 1;
        self.replace_editor(index, FileEditor { reading: false, read_epoch: epoch, ..e });
        SaveStart::Write(FileWrite { path: relative_path, project: project.to_owned(), session, epoch, content })
    }

    /// Lands a finished save of `write`: `written` says whether it went
    /// through, `current` is what the buffer holds now (see
    /// [`save_landed`]).
    pub fn apply_right_panel_file_save(
        &mut self,
        write: &FileWrite,
        workspace: Option<&str>,
        written: bool,
        current: &str,
    ) -> (r: SaveResult)
        ensures
            save_landed(*old(self), *final(self), r, *write, match workspace {
                Some(w) => Some(w@),
                None => None,
            }, written, current@),
    {
        let here = match (workspace, self.selected_session) {
            (Some(w), Some(session)) => session == write.session && paths_equal(w, write.project.as_str()),
            _ => false,
        };
        if !here {
            return SaveResult::Dropped;
        }
        if !written {
            return SaveResult::Failed;
        }
        let index = match self.editor_index(write.path.as_str()) {
            Some(i) => i,
            None => {
                return SaveResult::Superseded;
            },
        };
        let e = self.right_panel_file_editors[index].clone();
        if e.read_epoch != write.epoch {
            return SaveResult::Superseded;
        }
        let same = crate::text::bytes_eq(current.as_bytes(), write.content.as_str().as_bytes());
        proof {
            if same {
                crate::text::lemma_utf8_injective(current@, write.content@);
            }
        }
        let dirty = !same;
        self.replace_editor(index, FileEditor { disk_content: write.content.clone(), dirty, ..e });
        SaveResult::Saved { dirty }
    }
}

/// A read that lands never overwrites unsaved edits: every editor that
/// was dirty stays dirty and keeps the text it had from disk.
pub proof fn law_reads_keep_unsaved_edits(
    old: Padu,
    new: Padu,
    r: ReadResult,
    read: FileRead,
    workspace: Option<Seq<char>>,
    content: Seq<char>,
    writable: bool,
)
    requires
        read_landed(old, new, r, read, workspace, content, writable),
    ensures
        new.right_panel_file_editors@.len() == old.right_panel_file_editors@.len(),
        forall|i: int|
            0 <= i < old.right_panel_file_editors@.len() && (#[trigger] old.right_panel_file_editors@[i]).dirty
                ==> new.right_panel_file_editors@[i].dirty && new.right_panel_file_editors@[i].disk_content
                == old.right_panel_file_editors@[i].disk_content,
{
    lemma_editor_at(old.right_panel_file_editors@, read.path@);
}

/// A save started while a read of the same file is in flight makes that
/// read land stale: it changes nothing, though the same session and
/// project are still on screen.
pub proof fn law_save_supersedes_read(
    p0: Padu,
    p1: Padu,
    p2: Padu,
    p3: Padu,
    path: Seq<char>,
    workspace: Option<Seq<char>>,
    message: Seq<char>,
    read: FileRead,
    content: Seq<char>,
    write: FileWrite,
    r3: ReadResult,
    landing_workspace: Option<Seq<char>>,
    text: Seq<char>,
    writable: bool,
)
    requires
        read_started(p0, p1, ReadStart::Read(read), path, workspace, message),
        save_started(p1, p2, SaveStart::Write(write), workspace, content),
        write.path@ == path,
        read_landed(p2, p3, r3, read, landing_workspace, text, writable),
        still_on_screen(p2, read.session, read.project@, landing_workspace),
    ensures
        r3 == ReadResult::Stale,
        p3 == p2,
{
    let e0 = p0.right_panel_file_editors@;
    let e1 = p1.right_panel_file_editors@;
    let e2 = p2.right_panel_file_editors@;
    lemma_editor_at(e0, path);
    let i = editor_at(e0, path)->0;
    assert forall|j: int| 0 <= j < e0.len() implies (#[trigger] e0[j]).path == e1[j].path by {
        if j != i {
            assert(e1[j] == e0[j]);
        }
    }
    lemma_editor_at_same_paths(e0, e1, path);
    lemma_editor_at(e1, path);
    assert(visible_file_of(p1) is Some);
    assert forall|j: int| 0 <= j < e1.len() implies (#[trigger] e1[j]).path == e2[j].path by {
        if j != i {
            assert(e2[j] == e1[j]);
        }
    }
    lemma_editor_at_same_paths(e1, e2, path);
    assert(read.path@ == path);
}

/// A save that goes through while its session and project are on screen,
/// with no read or save started since, leaves the file's editor holding the
/// written text as on disk: clean exactly when the buffer still holds what
/// was written.
pub proof fn law_save_lands_clean(
    p0: Padu,
    p1: Padu,
    p2: Padu,
    workspace: Option<Seq<char>>,
    content: Seq<char>,
    write: FileWrite,
    r: SaveResult,
    landing_workspace: Option<Seq<char>>,
    current: Seq<char>,
)
    requires
        save_started(p0, p1, SaveStart::Write(write), workspace, content),
        save_landed(p1, p2, r, write, landing_workspace, true, current),
        still_on_screen(p1, write.session, write.project@, landing_workspace),
    ensures
        r == (SaveResult::Saved { dirty: current != content }),
        match editor_at(p2.right_panel_file_editors@, write.path@) {
            Some(i) => p2.right_panel_file_editors@[i].disk_content@ == content
                && p2.right_panel_file_editors@[i].dirty == (current != content),
            None => false,
        },
{
    let e0 = p0.right_panel_file_editors@;
    let e1 = p1.right_panel_file_editors@;
    let e2 = p2.right_panel_file_editors@;
    let path = write.path@;
    lemma_editor_at(e0, path);
    let i = editor_at(e0, path)->0;
    assert forall|j: int| 0 <= j < e0.len() implies (#[trigger] e0[j]).path == e1[j].path by {}
    lemma_editor_at_same_paths(e0, e1, path);
    assert forall|j: int| 0 <= j < e1.len() implies (#[trigger] e1[j]).path == e2[j].path by {
        if j != i {
            assert(e2[j] == e1[j]);
        }
    }
    lemma_editor_at_same_paths(e1, e2, path);
}

} // verus!
