//! The state changes around saving, autosave, leaving, and mouse input.
use vstd::prelude::*;
use std::collections::HashSet;
use crate::date::{Date, parse_relative_date, relative_date_spec, today};
use crate::model::{Task, TaskView, forest_view};
use crate::persist::MissingFilePolicy;
use crate::sort::SortMode;
use crate::text::{concat, concat3, contains_str, has_substring, is_blank, trim, trim_str};
use super::edit::{applied, edit_cancelled};
use super::load::{dirty_with, sample_tree};
use super::navigation::selection_moved;
use super::mouse::tree_clicked;
use super::rel::{dirty_marked, same_data, unchanged, with_message};
use super::state::{App, Mode, instant_now};

verus! {

/// How long after the last change autosave waits, in milliseconds.
pub const AUTOSAVE_DEBOUNCE_MS: u128 = 2000;

/// How long autosave waits after a failed save before trying again, in milliseconds.
pub const SAVE_RETRY_BACKOFF_MS: u128 = 30000;

/// How long a status message stays up, in milliseconds.
pub const MESSAGE_TTL_MS: u128 = 8000;

/// Whether an autosave is due: there are unsaved changes, no failed save in
/// the last 30 seconds (`since_failed_ms`: the milliseconds since the last
/// failed save, if any), and at least 2 seconds since the last change
/// (`since_change_ms`, if there was one).
pub open spec fn autosave_due_spec(
    dirty: bool,
    since_failed_ms: Option<u128>,
    since_change_ms: Option<u128>,
) -> bool {
    &&& dirty
    &&& !(since_failed_ms matches Some(f) && f < SAVE_RETRY_BACKOFF_MS)
    &&& since_change_ms matches Some(c) && c >= AUTOSAVE_DEBOUNCE_MS
}

/// Whether an autosave is due (see `autosave_due_spec`).
pub fn autosave_due(dirty: bool, since_failed_ms: Option<u128>, since_change_ms: Option<u128>) -> (r:
    bool)
    ensures
        r == autosave_due_spec(dirty, since_failed_ms, since_change_ms),
{
    if !dirty {
        return false;
    }
    match since_failed_ms {
        Some(f) => {
            if f < SAVE_RETRY_BACKOFF_MS {
                return false;
            }
        },
        None => {},
    }
    match since_change_ms {
        Some(c) => c >= AUTOSAVE_DEBOUNCE_MS,
        None => false,
    }
}

/// The kinds of mouse input the tree reacts to.
#[derive(Clone, Copy, PartialEq, Eq, Debug, Structural)]
pub enum MouseKind {
    ScrollUp,
    ScrollDown,
    LeftDown,
    RightDown,
    OtherDown,
    Other,
}

/// What a mouse event at `(col, row)` does: in the edit form or help, a
/// press closes them; elsewhere the wheel moves the selection two rows and a
/// left or right press clicks the tree.
pub open spec fn mouse_rel(a: App, b: App, kind: MouseKind, col: u16, row: u16) -> bool {
    let down = kind == MouseKind::LeftDown || kind == MouseKind::RightDown || kind
        == MouseKind::OtherDown;
    if a.mode == Mode::Editing || a.mode == Mode::Help {
        if down {
            if a.mode == Mode::Editing {
                edit_cancelled(a, b)
            } else {
                super::keymap::mode_set(a, b, Mode::Normal, false)
            }
        } else {
            b == a
        }
    } else if kind == MouseKind::ScrollUp {
        selection_moved(a, b, -2isize)
    } else if kind == MouseKind::ScrollDown {
        selection_moved(a, b, 2)
    } else if kind == MouseKind::LeftDown || kind == MouseKind::RightDown {
        tree_clicked(a, b, col, row, kind == MouseKind::RightDown)
    } else {
        b == a
    }
}

/// Whether the edit form can be committed on day `today`: a non-blank title
/// and a due text that is blank or parses.
pub open spec fn form_committable(a: App, today: int) -> bool {
    a.edit matches Some(e) && trim(e@.title).len() > 0 && (trim(e@.due).len() == 0
        || relative_date_spec(trim(e@.due), today) is Some)
}

/// How `flush_pending_edits` on day `today` turns `a` into `b`: outside the
/// edit form nothing happens; a committable form is committed, any other cancelled.
pub open spec fn flushed(a: App, b: App, today: int) -> bool {
    if a.mode != Mode::Editing {
        b == a
    } else if form_committable(a, today) {
        applied(a, b, today)
    } else {
        edit_cancelled(a, b)
    }
}

/// `b` is `a` with the save-failure time set and the message `msg`.
pub open spec fn save_failed_with(a: App, b: App, msg: Seq<char>) -> bool {
    &&& b.persist.last_save_failed is Some
    &&& b.persist.data_path == a.persist.data_path
    &&& b.persist.dirty == a.persist.dirty
    &&& b.persist.last_change == a.persist.last_change
    &&& b.persist.last_saved == a.persist.last_saved
    &&& b.message@ == msg
    &&& same_data_but_message(a, b)
    &&& b.tree == a.tree
}

/// `b` equals `a` in all but the persist state and the message.
pub open spec fn same_data_but_message(a: App, b: App) -> bool {
    &&& b.tasks == a.tasks
    &&& b.filter == a.filter
    &&& b.sort_mode == a.sort_mode
    &&& b.total_tasks == a.total_tasks
    &&& b.done_tasks == a.done_tasks
    &&& b.mode == a.mode
    &&& b.search_buf == a.search_buf
    &&& b.command_buf == a.command_buf
    &&& b.edit == a.edit
    &&& b.undo_stack == a.undo_stack
    &&& b.next_id == a.next_id
}

impl App {
    /// Clears the status message once it has been up `elapsed_ms`
    /// milliseconds or more, unless it is the welcome message.
    pub fn expire_message(&mut self, elapsed_ms: u128)
        ensures
            if old(self).message@.len() > 0 && elapsed_ms >= MESSAGE_TTL_MS && !has_substring(
                old(self).message@,
                "Welcome to Deep Todo"@,
            ) {
                with_message(*old(self), *final(self), Seq::empty())
            } else {
                unchanged(*old(self), *final(self))
            },
    {
        if !self.message.as_str().is_empty() && elapsed_ms >= MESSAGE_TTL_MS && !contains_str(
            self.message.as_str(),
            "Welcome to Deep Todo",
        ) {
            self.message = String::new();
        }
    }

    /// Handles a mouse event at `(col, row)` (see `mouse_rel`).
    pub fn handle_mouse(&mut self, kind: MouseKind, col: u16, row: u16)
        ensures
            mouse_rel(*old(self), *final(self), kind, col, row),
    {
        let down = kind == MouseKind::LeftDown || kind == MouseKind::RightDown || kind
            == MouseKind::OtherDown;
        if self.mode == Mode::Editing || self.mode == Mode::Help {
            if down {
                if self.mode == Mode::Editing {
                    self.cancel_edit();
                } else {
                    self.mode = Mode::Normal;
                }
            }
            return;
        }
        match kind {
            MouseKind::ScrollUp => self.move_selection(-2),
            MouseKind::ScrollDown => self.move_selection(2),
            MouseKind::LeftDown => self.handle_tree_click(col, row, false),
            MouseKind::RightDown => self.handle_tree_click(col, row, true),
            _ => {},
        }
    }

    /// Commits a committable edit form, else cancels it (see `flushed`), on day `today`.
    pub fn flush_pending_edits_on(&mut self, today: Date)
        ensures
            flushed(*old(self), *final(self), today.day()),
    {
        if self.mode != Mode::Editing {
            return;
        }
        let can_save = match &self.edit {
            Some(ed) => {
                let title = trim_str(ed.title_buf.as_str());
                if title.as_str().is_empty() {
                    false
                } else {
                    let due = trim_str(ed.due_buf.as_str());
                    due.as_str().is_empty() || parse_relative_date(due.as_str(), today).is_some()
                }
            },
            None => false,
        };
        if can_save {
            self.apply_edit_on(today);
        } else {
            self.cancel_edit();
        }
    }

    /// Commits or cancels an open edit form before leaving (see `flushed`).
    pub fn flush_pending_edits(&mut self)
        ensures
            exists|d: int| flushed(*old(self), *final(self), d),
    {
        let d = today();
        self.flush_pending_edits_on(d);
    }

    /// The state changes before the final save on exit: the edit form
    /// flushed and a past save failure forgotten.
    pub fn prepare_exit(&mut self)
        ensures
            exists|d: int, p: App|
                #![trigger flushed(*old(self), p, d)]
                flushed(*old(self), p, d) && final(self).persist.last_save_failed is None
                    && final(self).persist.data_path == p.persist.data_path
                    && final(self).persist.dirty == p.persist.dirty
                    && final(self).persist.last_change == p.persist.last_change
                    && final(self).persist.last_saved == p.persist.last_saved && same_data(
                    p,
                    *final(self),
                ) && final(self).tree == p.tree,
    {
        let d = today();
        self.flush_pending_edits_on(d);
        let ghost p = *self;
        self.persist.last_save_failed = None;
        assert(flushed(*old(self), p, d.day()));
    }

    /// The first step of a save: with nothing unsaved there is nothing to
    /// write (and, when `announce`, the message says so). `true` when no
    /// write is needed.
    pub fn save_not_needed(&mut self, announce: bool) -> (r: bool)
        ensures
            r == !old(self).persist.dirty,
            if r && announce {
                with_message(*old(self), *final(self), "Already saved"@)
            } else {
                unchanged(*old(self), *final(self))
            },
    {
        if !self.persist.dirty {
            if announce {
                self.message = "Already saved".to_owned();
            }
            return true;
        }
        false
    }

    /// Records a failed save with the message `msg`.
    pub fn save_failed(&mut self, msg: &str)
        ensures
            save_failed_with(*old(self), *final(self), msg@),
    {
        self.message = msg.to_owned();
        self.persist.last_save_failed = Some(instant_now());
    }

    /// Records a successful save: nothing unsaved, the save time set, no
    /// failure pending; when `announce`, the message names the file.
    pub fn save_succeeded(&mut self, announce: bool)
        ensures
            !final(self).persist.dirty,
            final(self).persist.last_saved is Some,
            final(self).persist.last_save_failed is None,
            final(self).persist.data_path == old(self).persist.data_path,
            final(self).persist.last_change == old(self).persist.last_change,
            final(self).message@ == (if announce {
                "Saved \u{2713}  ("@ + old(self).persist.data_path@ + ")"@
            } else {
                old(self).message@
            }),
            same_data_but_message(*old(self), *final(self)),
            final(self).tree == old(self).tree,
    {
        if announce {
            self.message = concat3("Saved \u{2713}  (", self.persist.data_path.as_str(), ")");
        }
        self.persist.dirty = false;
        self.persist.last_saved = Some(instant_now());
        self.persist.last_save_failed = None;
    }

    /// Points the project at `path` and marks it dirty, ready for a save
    /// there; returns the previous path.
    pub fn begin_save_as(&mut self, path: String) -> (prev: String)
        ensures
            prev@ == old(self).persist.data_path@,
            final(self).persist.data_path@ == path@,
            final(self).persist.dirty,
            final(self).persist.last_change is Some,
            final(self).persist.last_saved == old(self).persist.last_saved,
            final(self).persist.last_save_failed == old(self).persist.last_save_failed,
            same_data(*old(self), *final(self)),
            final(self).tree == old(self).tree,
    {
        let prev = self.persist.data_path.clone();
        self.persist.data_path = path;
        self.mark_dirty();
        prev
    }

    /// Points the project back at `prev` after a failed save-as.
    pub fn revert_save_as(&mut self, prev: String)
        ensures
            final(self).persist.data_path@ == prev@,
            final(self).persist.dirty == old(self).persist.dirty,
            final(self).persist.last_change == old(self).persist.last_change,
            final(self).persist.last_saved == old(self).persist.last_saved,
            final(self).persist.last_save_failed == old(self).persist.last_save_failed,
            same_data(*old(self), *final(self)),
            final(self).tree == old(self).tree,
    {
        self.persist.data_path = prev;
    }
}

/// The project a load falls back to when the file is missing: the sample
/// project or an empty one, as `policy` says, in manual order.
pub fn missing_file_project(policy: MissingFilePolicy) -> (r: (Vec<Task>, u64, HashSet<u64>, SortMode))
    ensures
        match policy {
            MissingFilePolicy::SampleData => forest_view(r.0@) == sample_tree() && r.1 == 12
                && r.2@ == set![1u64, 4u64],
            MissingFilePolicy::EmptyProject => r.0@.len() == 0 && r.1 == 1 && r.2@.len() == 0,
        },
        r.3 == SortMode::Manual,
{
    match policy {
        MissingFilePolicy::SampleData => {
            let (tasks, next_id, expanded) = App::sample_data();
            (tasks, next_id, expanded, SortMode::Manual)
        },
        MissingFilePolicy::EmptyProject => (Vec::new(), 1, HashSet::new(), SortMode::Manual),
    }
}

/// The message after restoring a corrupt project from its backup.
pub fn restored_from_backup_message(path: &str) -> (r: String)
    ensures
        r@ == "Main save at "@ + path@ + " was corrupt; restored from backup."@,
{
    concat3("Main save at ", path, " was corrupt; restored from backup.")
}

/// The message after a project could not be loaded at all.
pub fn unreadable_message(path: &str, corrupt_path: &str) -> (r: String)
    ensures
        r@ == "Could not load "@ + path@ + " \u{2014} original preserved at "@ + corrupt_path@
            + ". Starting fresh."@,
{
    let a = concat3("Could not load ", path, " \u{2014} original preserved at ");
    concat3(a.as_str(), corrupt_path, ". Starting fresh.")
}


/// How far loading a project has come: nothing read yet, the main file read,
/// or its backup read too.
#[derive(Clone, Copy, PartialEq, Eq, Debug, Structural)]
pub enum LoadStage {
    Start,
    MainRead,
    BackupRead,
}

/// The next thing to do while loading the project at a path.
pub enum LoadAction {
    /// Read and parse the main file.
    ReadMain,
    /// Use the project parsed from the main file.
    UseMain,
    /// Read and parse the backup sidecar at this path.
    ReadBackup(String),
    /// Use the project parsed from the backup, with this message.
    UseBackup(String),
    /// Copy the unreadable main file to the first path and start with an
    /// empty project and the message; an existing file never gets sample data.
    KeepCorrupt(String, String),
    /// No file: start as the missing-file policy says.
    UseMissingPolicy,
}

/// What `load_step` does: `ok` says, at the start, whether the file exists,
/// and after a read whether it parsed.
pub open spec fn load_step_rel(path: Seq<char>, stage: LoadStage, ok: bool, r: LoadAction) -> bool {
    match stage {
        LoadStage::Start => if ok {
            r is ReadMain
        } else {
            r is UseMissingPolicy
        },
        LoadStage::MainRead => if ok {
            r is UseMain
        } else {
            r matches LoadAction::ReadBackup(b) && b@ == crate::persist::sidecar_spec(path, "bak"@)
        },
        LoadStage::BackupRead => if ok {
            r matches LoadAction::UseBackup(m) && m@ == "Main save at "@ + path
                + " was corrupt; restored from backup."@
        } else {
            r matches LoadAction::KeepCorrupt(c, m) && c@ == crate::persist::sidecar_spec(
                path,
                "corrupt"@,
            ) && m@ == "Could not load "@ + path + " \u{2014} original preserved at "@ + c@
                + ". Starting fresh."@
        },
    }
}

/// One step of loading the project at `path`: an existing file is read and
/// used when it parses; else its `.bak` sidecar is read and used (with a
/// message saying so); else the file is kept as `.corrupt` and the project
/// starts empty; a missing file starts as the policy says.
pub fn load_step(path: &str, stage: LoadStage, ok: bool) -> (r: LoadAction)
    ensures
        load_step_rel(path@, stage, ok, r),
{
    match stage {
        LoadStage::Start => if ok {
            LoadAction::ReadMain
        } else {
            LoadAction::UseMissingPolicy
        },
        LoadStage::MainRead => if ok {
            LoadAction::UseMain
        } else {
            LoadAction::ReadBackup(crate::persist::sidecar_path(path, "bak"))
        },
        LoadStage::BackupRead => if ok {
            LoadAction::UseBackup(restored_from_backup_message(path))
        } else {
            let c = crate::persist::sidecar_path(path, "corrupt");
            let m = unreadable_message(path, c.as_str());
            LoadAction::KeepCorrupt(c, m)
        },
    }
}

} // verus!
