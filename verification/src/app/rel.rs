//! How the state changes across an operation: shared relations used in the
//! operations' contracts.
use vstd::prelude::*;
use crate::model::TaskView;
use super::state::{App, PersistState};
use super::undo::{dirtied_with, undo_pushed};
use super::visibility::rebuild_rel;

verus! {

/// `b` equals `a` in every field.
pub open spec fn unchanged(a: App, b: App) -> bool {
    &&& b.tasks == a.tasks
    &&& b.tree == a.tree
    &&& b.persist == a.persist
    &&& b.filter == a.filter
    &&& b.sort_mode == a.sort_mode
    &&& b.total_tasks == a.total_tasks
    &&& b.done_tasks == a.done_tasks
    &&& b.mode == a.mode
    &&& b.search_buf == a.search_buf
    &&& b.command_buf == a.command_buf
    &&& b.edit == a.edit
    &&& b.message == a.message
    &&& b.undo_stack == a.undo_stack
    &&& b.next_id == a.next_id
}

/// `b` equals `a` but for its message, which reads `msg`.
pub open spec fn with_message(a: App, b: App, msg: Seq<char>) -> bool {
    &&& b.message@ == msg
    &&& b.tasks == a.tasks
    &&& b.tree == a.tree
    &&& b.persist == a.persist
    &&& b.filter == a.filter
    &&& b.sort_mode == a.sort_mode
    &&& b.total_tasks == a.total_tasks
    &&& b.done_tasks == a.done_tasks
    &&& b.mode == a.mode
    &&& b.search_buf == a.search_buf
    &&& b.command_buf == a.command_buf
    &&& b.edit == a.edit
    &&& b.undo_stack == a.undo_stack
    &&& b.next_id == a.next_id
}

/// `m` is `u` with the tree, selection, expanded set, focus and next id set
/// as given and no pending delete; nothing else differs.
pub open spec fn edited(
    u: App,
    m: App,
    tasks: Seq<TaskView>,
    sel: Seq<usize>,
    expanded: Set<u64>,
    focus: Option<Seq<usize>>,
    next_id: u64,
) -> bool {
    &&& m.forest() == tasks
    &&& m.sel() == sel
    &&& m.expanded() == expanded
    &&& m.focus() == focus
    &&& m.next_id == next_id
    &&& m.pending() is None
    &&& m.tree.visible == u.tree.visible
    &&& m.tree.visible_state == u.tree.visible_state
    &&& m.tree.tree_rect == u.tree.tree_rect
    &&& m.tree.last_click == u.tree.last_click
    &&& m.persist == u.persist
    &&& m.filter == u.filter
    &&& m.sort_mode == u.sort_mode
    &&& m.total_tasks == u.total_tasks
    &&& m.done_tasks == u.done_tasks
    &&& m.mode == u.mode
    &&& m.search_buf == u.search_buf
    &&& m.command_buf == u.command_buf
    &&& m.edit == u.edit
    &&& m.message == u.message
    &&& m.undo_stack == u.undo_stack
}

/// An undoable edit: the state is saved for undo, the tree edited as given,
/// the rows rebuilt, the project marked dirty and the message set to `msg`.
pub open spec fn committed(
    a: App,
    b: App,
    tasks: Seq<TaskView>,
    sel: Seq<usize>,
    expanded: Set<u64>,
    focus: Option<Seq<usize>>,
    next_id: u64,
    msg: Seq<char>,
) -> bool {
    exists|u: App, m: App, p: App, d: int|
        #![trigger undo_pushed(a, u), edited(u, m, tasks, sel, expanded, focus, next_id), rebuild_rel(m, p, d), dirtied_with(p, b, msg)]
        undo_pushed(a, u) && edited(u, m, tasks, sel, expanded, focus, next_id) && rebuild_rel(
            m,
            p,
            d,
        ) && dirtied_with(p, b, msg)
}

/// The four steps of an undoable edit make a committed edit.
pub proof fn lemma_committed(
    a: App,
    u: App,
    m: App,
    p: App,
    d: int,
    b: App,
    tasks: Seq<TaskView>,
    sel: Seq<usize>,
    expanded: Set<u64>,
    focus: Option<Seq<usize>>,
    next_id: u64,
    msg: Seq<char>,
)
    requires
        undo_pushed(a, u),
        edited(u, m, tasks, sel, expanded, focus, next_id),
        rebuild_rel(m, p, d),
        dirtied_with(p, b, msg),
    ensures
        committed(a, b, tasks, sel, expanded, focus, next_id, msg),
{
}

/// `b` equals `a` in its task data, settings, buffers, messages, and undo
/// stack (all but the tree view state and the persist state).
pub open spec fn same_data(a: App, b: App) -> bool {
    &&& b.tasks == a.tasks
    &&& b.filter == a.filter
    &&& b.sort_mode == a.sort_mode
    &&& b.total_tasks == a.total_tasks
    &&& b.done_tasks == a.done_tasks
    &&& b.mode == a.mode
    &&& b.search_buf == a.search_buf
    &&& b.command_buf == a.command_buf
    &&& b.edit == a.edit
    &&& b.message == a.message
    &&& b.undo_stack == a.undo_stack
    &&& b.next_id == a.next_id
}

/// `q` is `p` marked as changed since the last save.
pub open spec fn dirty_marked(p: PersistState, q: PersistState) -> bool {
    &&& q.dirty
    &&& q.last_change is Some
    &&& q.data_path == p.data_path
    &&& q.last_saved == p.last_saved
    &&& q.last_save_failed == p.last_save_failed
}

/// `m` is `a` with the selection, expanded set, focus, and pending delete
/// set as given (and, when `dirty`, marked as changed); the rows, list
/// state, and data are untouched.
pub open spec fn view_moved(
    a: App,
    m: App,
    sel: Seq<usize>,
    expanded: Set<u64>,
    focus: Option<Seq<usize>>,
    pending: Option<Seq<usize>>,
    dirty: bool,
) -> bool {
    &&& same_data(a, m)
    &&& m.sel() == sel
    &&& m.expanded() == expanded
    &&& m.focus() == focus
    &&& m.pending() == pending
    &&& m.tree.visible == a.tree.visible
    &&& m.tree.visible_state == a.tree.visible_state
    &&& m.tree.tree_rect == a.tree.tree_rect
    &&& m.tree.last_click == a.tree.last_click
    &&& if dirty {
        dirty_marked(a.persist, m.persist)
    } else {
        m.persist == a.persist
    }
}

} // verus!
