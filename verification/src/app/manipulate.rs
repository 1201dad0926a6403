//! Task tree structural edits: indent, outdent, move, add, delete, and quick field cycles.
use vstd::prelude::*;
use std::collections::HashSet;
use crate::forest::{
    children_at, children_mut_at, forest_at, forest_set, lemma_children_rel, lemma_set_rel,
    set_children_at, task_at, task_mut_at, tree_ids,
};
use crate::model::{
    Priority, Status, Task, TaskView, forest_view, lemma_children_view, priority_next,
    status_next,
};
use super::access::{ids_to_vec, parent_of, path_push, single, copy_path};
use super::rel::{committed, edited, lemma_committed, with_message, unchanged, view_moved};
use super::edit::edit_opened;
use crate::text::concat;
use super::state::{App, Mode};
use super::undo::{dirtied_with, undo_pushed};
use super::visibility::rebuild_rel;

verus! {

broadcast use vstd::std_specs::hash::group_hash_axioms;

/// The list `cs` with entry `last` moved to the end of the children of entry `last - 1`.
pub open spec fn indent_list(cs: Seq<TaskView>, last: int) -> Seq<TaskView> {
    let t = cs[last];
    let r = cs.remove(last);
    let p = r[last - 1];
    r.update(last - 1, TaskView { children: p.children.push(t), ..p })
}

/// Where `indent` works: the parent path and the index of the selected task,
/// when it has a previous sibling.
pub open spec fn indent_target(a: App) -> Option<(Seq<usize>, int)> {
    let sel = a.sel();
    if sel.len() == 0 || sel.last() == 0 {
        None
    } else {
        let parent = sel.drop_last();
        match children_at(a.forest(), parent) {
            Some(cs) => if sel.last() < cs.len() {
                Some((parent, sel.last() as int))
            } else {
                None
            },
            None => None,
        }
    }
}

proof fn lemma_indent_view(old_ch: Seq<Task>, new_ch: Seq<Task>, last: int, task: Task)
    requires
        0 < last < old_ch.len(),
        task == old_ch[last],
        new_ch.len() == old_ch.len() - 1,
        forall|j: int| 0 <= j < new_ch.len() && j != last - 1 ==> new_ch[j] == old_ch.remove(last)[j],
        new_ch[last - 1].id == old_ch[last - 1].id,
        new_ch[last - 1].title == old_ch[last - 1].title,
        new_ch[last - 1].desc == old_ch[last - 1].desc,
        new_ch[last - 1].priority == old_ch[last - 1].priority,
        new_ch[last - 1].status == old_ch[last - 1].status,
        new_ch[last - 1].due == old_ch[last - 1].due,
        new_ch[last - 1].tags == old_ch[last - 1].tags,
        new_ch[last - 1].children@ == old_ch[last - 1].children@.push(task),
    ensures
        forest_view(new_ch) == indent_list(forest_view(old_ch), last),
{
    let p = new_ch[last - 1];
    let o = old_ch[last - 1];
    lemma_children_view(p);
    lemma_children_view(o);
    assert(p@.children =~= o@.children.push(task@));
    assert(p@.tags =~= o@.tags);
    assert(forest_view(new_ch) =~= indent_list(forest_view(old_ch), last));
}

/// The list `cs` with child `ci` of entry `pi` moved out to sit right after entry `pi`.
pub open spec fn outdent_list(cs: Seq<TaskView>, pi: int, ci: int) -> Seq<TaskView> {
    let p = cs[pi];
    let t = p.children[ci];
    let r = cs.update(pi, TaskView { children: p.children.remove(ci), ..p });
    r.insert(pi + 1, t)
}

/// Where `outdent` works: the grandparent path and the indices of the parent
/// and of the selected task, when both exist.
pub open spec fn outdent_target(a: App) -> Option<(Seq<usize>, int, int)> {
    let sel = a.sel();
    if sel.len() <= 1 {
        None
    } else {
        let ci = sel.last() as int;
        let pi = sel.drop_last().last() as int;
        let grand = sel.drop_last().drop_last();
        match children_at(a.forest(), grand) {
            Some(cs) => if pi < cs.len() && ci < cs[pi].children.len() {
                Some((grand, pi, ci))
            } else {
                None
            },
            None => None,
        }
    }
}

/// The list `cs` with entry `idx` moved to position `to`.
pub open spec fn move_list(cs: Seq<TaskView>, idx: int, to: int) -> Seq<TaskView> {
    cs.remove(idx).insert(to, cs[idx])
}

/// `v` clamped into `[lo, hi]`.
pub open spec fn clamp(v: int, lo: int, hi: int) -> int {
    if v < lo {
        lo
    } else if v > hi {
        hi
    } else {
        v
    }
}

/// A change to one task's own fields.
#[derive(Clone, Copy, PartialEq, Eq, Debug, Structural)]
pub enum FieldOp {
    CyclePriority,
    CycleStatus,
    ToggleDone,
    SetStatus(Status),
    SetPriority(Priority),
    SetDue(Option<crate::date::Date>),
}

/// The task `t` after `op`.
pub open spec fn apply_op(t: TaskView, op: FieldOp) -> TaskView {
    match op {
        FieldOp::CyclePriority => TaskView { priority: priority_next(t.priority), ..t },
        FieldOp::CycleStatus => TaskView { status: status_next(t.status), ..t },
        FieldOp::ToggleDone => TaskView {
            status: if t.status == Status::Done {
                Status::Todo
            } else {
                Status::Done
            },
            ..t
        },
        FieldOp::SetStatus(s) => TaskView { status: s, ..t },
        FieldOp::SetPriority(p) => TaskView { priority: p, ..t },
        FieldOp::SetDue(d) => TaskView { due: crate::date::opt_day(d), ..t },
    }
}

/// `op` applied to the selected task as an undoable edit (message unchanged),
/// or nothing at all when no task is selected.
pub open spec fn field_op_done(a: App, b: App, op: FieldOp) -> bool {
    match forest_at(a.forest(), a.sel()) {
        Some(t) => committed(
            a,
            b,
            forest_set(a.forest(), a.sel(), apply_op(t, op)),
            a.sel(),
            a.expanded(),
            a.focus(),
            a.next_id,
            a.message@,
        ),
        None => unchanged(a, b),
    }
}

/// `w` is `u` with no pending delete and an open edit form cancelled (when
/// `u` was editing).
pub open spec fn edit_cancelled_if_editing(u: App, w: App) -> bool {
    &&& w.tasks == u.tasks
    &&& w.tree.selected_path == u.tree.selected_path
    &&& w.tree.visible == u.tree.visible
    &&& w.tree.visible_state == u.tree.visible_state
    &&& w.tree.expanded == u.tree.expanded
    &&& w.tree.pending_delete_path is None
    &&& w.tree.focus_path == u.tree.focus_path
    &&& w.tree.tree_rect == u.tree.tree_rect
    &&& w.tree.last_click == u.tree.last_click
    &&& w.persist == u.persist
    &&& w.filter == u.filter
    &&& w.sort_mode == u.sort_mode
    &&& w.total_tasks == u.total_tasks
    &&& w.done_tasks == u.done_tasks
    &&& w.search_buf == u.search_buf
    &&& w.command_buf == u.command_buf
    &&& w.undo_stack == u.undo_stack
    &&& w.next_id == u.next_id
    &&& if u.mode == Mode::Editing {
        &&& w.edit is None
        &&& w.mode == Mode::Normal
        &&& w.message@ == "Edit cancelled"@
    } else {
        &&& w.edit == u.edit
        &&& w.mode == u.mode
        &&& w.message == u.message
    }
}

/// The focus after deleting `deleted`: dropped when the focused task went with it.
pub open spec fn focus_after_delete(
    focus: Option<Seq<usize>>,
    s: Seq<TaskView>,
    deleted: TaskView,
) -> Option<Seq<usize>> {
    match focus {
        Some(fp) => match forest_at(s, fp) {
            Some(f) => if tree_ids(deleted).contains(f.id) {
                None
            } else {
                Some(fp)
            },
            None => None,
        },
        None => None,
    }
}

/// The tree after deleting the task at `sel` (with its subtree).
pub open spec fn delete_result(s: Seq<TaskView>, sel: Seq<usize>) -> Seq<TaskView> {
    let parent = sel.drop_last();
    set_children_at(s, parent, children_at(s, parent)->0.remove(sel.last() as int))
}

/// Removes every id of `ids` from `set`.
fn remove_all(set: &mut HashSet<u64>, ids: &HashSet<u64>)
    ensures
        final(set)@ == old(set)@.difference(ids@),
{
    let idv = ids_to_vec(ids);
    let ghost s0 = set@;
    let mut k: usize = 0;
    while k < idv.len()
        invariant
            k <= idv@.len(),
            idv@.to_set() == ids@,
            set@ == s0.difference(idv@.take(k as int).to_set()),
        decreases idv@.len() - k,
    {
        set.remove(&idv[k]);
        proof {
            idv@.take(k as int).lemma_push_to_set_commute(idv@[k as int]);
            assert(idv@.take(k + 1) =~= idv@.take(k as int).push(idv@[k as int]));
        }
        k += 1;
        assert(set@ =~= s0.difference(idv@.take(k as int).to_set()));
    }
    assert(idv@.take(k as int) =~= idv@);
}

/// How `delete_current` turns `a` into `b`.
pub open spec fn task_deleted(a: App, b: App) -> bool {
    match forest_at(a.forest(), a.sel()) {
        None => with_message(a, b, "Nothing to delete"@),
        Some(deleted) => {
            let sel = a.sel();
            let parent = sel.drop_last();
            let s2 = delete_result(a.forest(), sel);
            exists|u: App, w: App, m: App, p: App, d: int|
                #![trigger undo_pushed(a, u), edit_cancelled_if_editing(u, w), rebuild_rel(m, p, d)]
                undo_pushed(a, u) && edit_cancelled_if_editing(u, w) && edited(
                    w,
                    m,
                    s2,
                    if parent.len() == 0 {
                        if s2.len() == 0 {
                            Seq::empty()
                        } else {
                            seq![0usize]
                        }
                    } else {
                        parent
                    },
                    a.expanded().difference(tree_ids(deleted)),
                    focus_after_delete(a.focus(), s2, deleted),
                    a.next_id,
                ) && rebuild_rel(m, p, d) && dirtied_with(p, b, "Deleted task"@)
        },
    }
}

/// How `outdent` turns `a` into `b`.
pub open spec fn outdented(a: App, b: App) -> bool {
    ({
        let sel = a.sel();
        if sel.len() <= 1 {
            with_message(a, b, "Cannot outdent (already at top level)"@)
        } else if outdent_target(a) is None {
            with_message(a, b, "Cannot outdent (invalid selection)"@)
        } else {
            let (grand, pi, ci) = outdent_target(a)->0;
            let cs = children_at(a.forest(), grand)->0;
            committed(
                a,
                b,
                set_children_at(a.forest(), grand, outdent_list(cs, pi, ci)),
                grand.push((pi + 1) as usize),
                a.expanded(),
                a.focus(),
                a.next_id,
                "Outdented task"@,
            )
        }
    })
}

/// How `move_task(delta)` turns `a` into `b`.
pub open spec fn task_moved(a: App, b: App, delta: isize) -> bool {
    ({
        let sel = a.sel();
        let parent = sel.drop_last();
        if sel.len() == 0 || children_at(a.forest(), parent) is None
            || children_at(a.forest(), parent)->0.len() == 0 {
            super::rel::unchanged(a, b)
        } else {
            let cs = children_at(a.forest(), parent)->0;
            let idx = sel.last() as int;
            let to = clamp(idx + delta, 0, cs.len() - 1);
            if to == idx || idx >= cs.len() {
                super::rel::unchanged(a, b)
            } else {
                committed(
                    a,
                    b,
                    set_children_at(a.forest(), parent, move_list(cs, idx, to)),
                    parent.push(to as usize),
                    a.expanded(),
                    a.focus(),
                    a.next_id,
                    a.message@,
                )
            }
        }
    })
}

/// How `indent` turns `a` into `b`.
pub open spec fn indented(a: App, b: App) -> bool {
    ({
        let sel = a.sel();
        if sel.len() == 0 || sel.last() == 0 {
            with_message(
                a,
                b,
                "Cannot indent (no previous sibling or no selection)"@,
            )
        } else if indent_target(a) is None {
            with_message(a, b, "Cannot indent (invalid selection)"@)
        } else {
            let parent = sel.drop_last();
            let last = sel.last() as int;
            let cs = children_at(a.forest(), parent)->0;
            let ncs = indent_list(cs, last);
            committed(
                a,
                b,
                set_children_at(a.forest(), parent, ncs),
                parent.push((last - 1) as usize).push(cs[last - 1].children.len() as usize),
                if parent.len() == 0 {
                    a.expanded().insert(cs[last - 1].id)
                } else {
                    a.expanded()
                },
                a.focus(),
                a.next_id,
                "Indented task"@,
            )
        }
    })
}

impl App {
    /// Deletes the selected task and its subtree; the selection moves to the
    /// parent (or to the first root task).
    pub fn delete_current(&mut self)
        ensures
            task_deleted(*old(self), *final(self)),
    {
        let ids = match self.current_task() {
            None => {
                self.message = "Nothing to delete".to_owned();
                return;
            },
            Some(task) => {
                let mut ids: HashSet<u64> = HashSet::new();
                Self::collect_task_ids(task, &mut ids);
                ids
            },
        };
        let ghost a0 = *self;
        let ghost deleted = forest_at(self.forest(), self.sel())->0;
        assert(ids@ =~= tree_ids(deleted));
        let n = self.tree.selected_path.len();
        let last = self.tree.selected_path[n - 1];
        self.push_undo();
        let ghost u = *self;
        self.clear_pending_delete();
        if self.mode == Mode::Editing {
            self.cancel_edit();
        }
        let ghost w = *self;
        let parent = parent_of(self.tree.selected_path.as_slice());
        proof {
            if parent.len() > 0 {
                let pt = forest_at(self.forest(), parent@);
                lemma_path_prefix(self.forest(), self.sel());
                assert(children_at(self.forest(), parent@) == Some(pt->0.children));
            }
        }
        let ghost old_tasks = self.tasks@;
        let ch = children_mut_at(&mut self.tasks, parent.as_slice());
        let ghost old_ch = ch@;
        ch.remove(last);
        assert(forest_view(ch@) =~= forest_view(old_ch).remove(last as int));
        let ghost fch = *ch;
        proof {
            lemma_children_rel(old_tasks, self.tasks@, parent@, fch);
            assert(self.forest() == delete_result(a0.forest(), a0.sel()));
        }
        remove_all(&mut self.tree.expanded, &ids);
        let drop_focus = match &self.tree.focus_path {
            Some(fp) => match task_at(&self.tasks, fp.as_slice()) {
                Some(f) => ids.contains(&f.id),
                None => true,
            },
            None => false,
        };
        if drop_focus {
            self.tree.focus_path = None;
        }
        self.tree.selected_path = if parent.len() == 0 {
            if self.tasks.len() == 0 {
                Vec::new()
            } else {
                single(0)
            }
        } else {
            parent
        };
        proof {
            if self.sel().len() == 0 {
                assert(self.sel() =~= Seq::<usize>::empty());
            }
        }
        let ghost m = *self;
        assert(self.expanded() == a0.expanded().difference(tree_ids(deleted)));
        assert(self.focus() == focus_after_delete(a0.focus(), self.forest(), deleted));
        self.rebuild_visible();
        let ghost p = *self;
        self.mark_dirty();
        self.message = "Deleted task".to_owned();
        proof {
            let d = choose|d: int| rebuild_rel(m, p, d);
            assert(undo_pushed(a0, u) && edit_cancelled_if_editing(u, w) && rebuild_rel(m, p, d));
        }
    }

    /// Moves the selected task out of its parent, right after the parent.
    #[verifier::rlimit(40)]
    pub fn outdent(&mut self)
        ensures
            outdented(*old(self), *final(self)),
    {
        let ghost a0 = *self;
        let n = self.tree.selected_path.len();
        if n <= 1 {
            self.message = "Cannot outdent (already at top level)".to_owned();
            return;
        }
        let child_idx = self.tree.selected_path[n - 1];
        let parent_idx = self.tree.selected_path[n - 2];
        let parent = parent_of(self.tree.selected_path.as_slice());
        let grand = parent_of(parent.as_slice());
        assert(grand@ == self.sel().drop_last().drop_last());
        let can_outdent = if grand.len() == 0 {
            parent_idx < self.tasks.len() && child_idx < self.tasks[parent_idx].children.len()
        } else {
            match task_at(&self.tasks, grand.as_slice()) {
                Some(p) => {
                    proof {
                        lemma_children_view(*p);
                        if parent_idx < p.children@.len() {
                            lemma_children_view(p.children@[parent_idx as int]);
                        }
                    }
                    parent_idx < p.children.len() && child_idx
                        < p.children[parent_idx].children.len()
                },
                None => false,
            }
        };
        proof {
            if grand.len() == 0 {
                if parent_idx < self.tasks.len() {
                    lemma_children_view(self.tasks@[parent_idx as int]);
                }
            } else {
                if let Some(p) = forest_at(self.forest(), grand@) {
                    assert(children_at(self.forest(), grand@) == Some(p.children));
                }
            }
        }
        if !can_outdent {
            self.message = "Cannot outdent (invalid selection)".to_owned();
            return;
        }
        self.push_undo();
        let ghost u = *self;
        self.clear_pending_delete();
        let ghost old_tasks = self.tasks@;
        let ch = children_mut_at(&mut self.tasks, grand.as_slice());
        let ghost old_ch = ch@;
        proof {
            lemma_children_view(old_ch[parent_idx as int]);
        }
        let task = ch[parent_idx].children.remove(child_idx);
        assert(task == old_ch[parent_idx as int].children@[child_idx as int]);
        let insert_pos = parent_idx + 1;
        ch.insert(insert_pos, task);
        proof {
            let q = ch@[parent_idx as int];
            lemma_children_view(q);
            assert(q.children@ == old_ch[parent_idx as int].children@.remove(child_idx as int));
            assert(q@.children =~= old_ch[parent_idx as int]@.children.remove(child_idx as int));
            assert(q@.tags =~= old_ch[parent_idx as int]@.tags);
            assert(forest_view(ch@) =~= outdent_list(forest_view(old_ch), parent_idx as int, child_idx as int));
        }
        let ghost fch = *ch;
        proof {
            lemma_children_rel(old_tasks, self.tasks@, grand@, fch);
        }
        self.tree.selected_path = path_push(grand.as_slice(), insert_pos);
        let ghost m = *self;
        self.rebuild_visible();
        let ghost p = *self;
        self.mark_dirty();
        self.message = "Outdented task".to_owned();
        proof {
            let d = choose|d: int| rebuild_rel(m, p, d);
            lemma_committed(a0, u, m, p, d, *self, m.forest(), m.sel(), m.expanded(), m.focus(), m.next_id, self.message@);
        }
    }

    /// Moves the selected task `delta` places among its siblings (clamped to the list).
    #[verifier::rlimit(50)]
    pub fn move_task(&mut self, delta: isize)
        ensures
            task_moved(*old(self), *final(self), delta),
    {
        let ghost a0 = *self;
        let n = self.tree.selected_path.len();
        if n == 0 {
            return;
        }
        let idx = self.tree.selected_path[n - 1];
        let parent = parent_of(self.tree.selected_path.as_slice());
        let len = if parent.len() == 0 {
            self.tasks.len()
        } else {
            match task_at(&self.tasks, parent.as_slice()) {
                Some(p) => p.children.len(),
                None => 0,
            }
        };
        proof {
            if parent.len() > 0 {
                if let Some(p) = forest_at(self.forest(), parent@) {
                    assert(children_at(self.forest(), parent@) == Some(p.children));
                }
            }
        }
        if len == 0 {
            return;
        }
        let target: i128 = idx as i128 + delta as i128;
        let new_idx: usize = if target < 0 {
            0
        } else if target > (len - 1) as i128 {
            len - 1
        } else {
            target as usize
        };
        if new_idx == idx || idx >= len {
            return;
        }
        self.push_undo();
        let ghost u = *self;
        self.clear_pending_delete();
        let ghost old_tasks = self.tasks@;
        let ch = children_mut_at(&mut self.tasks, parent.as_slice());
        let ghost old_ch = ch@;
        let task = ch.remove(idx);
        ch.insert(new_idx, task);
        proof {
            assert(forest_view(ch@) =~= move_list(forest_view(old_ch), idx as int, new_idx as int));
        }
        let ghost fch = *ch;
        proof {
            lemma_children_rel(old_tasks, self.tasks@, parent@, fch);
        }
        self.tree.selected_path = path_push(parent.as_slice(), new_idx);
        let ghost m = *self;
        self.rebuild_visible();
        let ghost p = *self;
        self.mark_dirty();
        proof {
            let d = choose|d: int| rebuild_rel(m, p, d);
            lemma_committed(a0, u, m, p, d, *self, m.forest(), m.sel(), m.expanded(), m.focus(), m.next_id, self.message@);
        }
    }

    /// Applies `f` to the task at `path` (which must lead to a task).
    fn set_task_fields(&mut self, path: &Vec<usize>, op: FieldOp)
        requires
            forest_at(old(self).forest(), path@) is Some,
        ensures
            final(self).forest() == forest_set(
                old(self).forest(),
                path@,
                apply_op(forest_at(old(self).forest(), path@)->0, op),
            ),
            final(self).tree == old(self).tree,
            final(self).persist == old(self).persist,
            final(self).filter == old(self).filter,
            final(self).sort_mode == old(self).sort_mode,
            final(self).total_tasks == old(self).total_tasks,
            final(self).done_tasks == old(self).done_tasks,
            final(self).mode == old(self).mode,
            final(self).search_buf == old(self).search_buf,
            final(self).command_buf == old(self).command_buf,
            final(self).edit == old(self).edit,
            final(self).message == old(self).message,
            final(self).undo_stack == old(self).undo_stack,
            final(self).next_id == old(self).next_id,
    {
        let ghost old_tasks = self.tasks@;
        assert(path@.skip(0) =~= path@);
        let t = task_mut_at(&mut self.tasks, path.as_slice(), 0);
        let ghost t0 = *t;
        match op {
            FieldOp::CyclePriority => {
                t.priority = t.priority.cycle();
            },
            FieldOp::CycleStatus => {
                t.status = t.status.cycle();
            },
            FieldOp::ToggleDone => {
                t.status = if t.status == Status::Done {
                    Status::Todo
                } else {
                    Status::Done
                };
            },
            FieldOp::SetStatus(st) => {
                t.status = st;
            },
            FieldOp::SetPriority(pr) => {
                t.priority = pr;
            },
            FieldOp::SetDue(d) => {
                t.due = d;
            },
        }
        proof {
            lemma_children_view(t0);
            lemma_children_view(*t);
            assert(t@.tags =~= t0@.tags);
            assert(t@ == apply_op(t0@, op));
        }
        let ghost ft = *t;
        proof {
            lemma_set_rel(old_tasks, self.tasks@, path@, ft);
        }
    }

    /// Cycles the selected task's priority (Low → Medium → High → Low).
    pub fn cycle_priority(&mut self)
        ensures
            field_op_done(*old(self), *final(self), FieldOp::CyclePriority),
    {
        self.selected_field_op(FieldOp::CyclePriority);
    }

    /// Cycles the selected task's status (Todo → Doing → Done → Todo, Blocked → Todo).
    pub fn cycle_status(&mut self)
        ensures
            field_op_done(*old(self), *final(self), FieldOp::CycleStatus),
    {
        self.selected_field_op(FieldOp::CycleStatus);
    }

    /// Marks the selected task done, or back to Todo when it is done.
    pub fn toggle_done(&mut self)
        ensures
            field_op_done(*old(self), *final(self), FieldOp::ToggleDone),
    {
        self.selected_field_op(FieldOp::ToggleDone);
    }

    /// Applies `op` to the selected task as an undoable edit.
    fn selected_field_op(&mut self, op: FieldOp)
        ensures
            field_op_done(*old(self), *final(self), op),
    {
        let ghost a0 = *self;
        let path = copy_path(self.tree.selected_path.as_slice());
        if task_at(&self.tasks, path.as_slice()).is_none() {
            return;
        }
        self.push_undo();
        let ghost u = *self;
        self.clear_pending_delete();
        self.set_task_fields(&path, op);
        let ghost m = *self;
        self.rebuild_visible();
        let ghost p = *self;
        self.mark_dirty();
        proof {
            let d = choose|d: int| rebuild_rel(m, p, d);
            lemma_committed(a0, u, m, p, d, *self, m.forest(), m.sel(), m.expanded(), m.focus(), m.next_id, self.message@);
        }
    }

    /// Makes the selected task the last child of its previous sibling.
    #[verifier::rlimit(40)]
    pub fn indent(&mut self)
        ensures
            indented(*old(self), *final(self)),
    {
        let ghost a0 = *self;
        let n = self.tree.selected_path.len();
        if n == 0 || self.tree.selected_path[n - 1] == 0 {
            self.message = "Cannot indent (no previous sibling or no selection)".to_owned();
            return;
        }
        let last = self.tree.selected_path[n - 1];
        let parent = parent_of(self.tree.selected_path.as_slice());
        let can_indent = if parent.len() == 0 {
            last < self.tasks.len()
        } else {
            match task_at(&self.tasks, parent.as_slice()) {
                Some(p) => last < p.children.len() && last > 0,
                None => false,
            }
        };
        proof {
            if parent.len() > 0 {
                if let Some(p) = forest_at(self.forest(), parent@) {
                    assert(children_at(self.forest(), parent@) == Some(p.children));
                }
            }
        }
        if !can_indent {
            self.message = "Cannot indent (invalid selection)".to_owned();
            return;
        }
        self.push_undo();
        let ghost u = *self;
        self.clear_pending_delete();
        let ghost old_tasks = self.tasks@;
        let ghost cs = children_at(self.forest(), parent@)->0;
        let prev = last - 1;
        let ch = children_mut_at(&mut self.tasks, parent.as_slice());
        let ghost old_ch = ch@;
        let task = ch.remove(last);
        ch[prev].children.push(task);
        proof {
            lemma_indent_view(old_ch, ch@, last as int, task);
        }
        let prev_id = ch[prev].id;
        let child_len = ch[prev].children.len();
        let ghost fch = *ch;
        proof {
            lemma_children_rel(old_tasks, self.tasks@, parent@, fch);
        }
        if parent.len() == 0 {
            self.tree.expanded.insert(prev_id);
        }
        let mut new_path = path_push(parent.as_slice(), prev);
        new_path.push(child_len - 1);
        self.tree.selected_path = new_path;
        let ghost m = *self;
        self.rebuild_visible();
        let ghost p = *self;
        self.mark_dirty();
        self.message = "Indented task".to_owned();
        proof {
            let d = choose|d: int| rebuild_rel(m, p, d);
            lemma_committed(a0, u, m, p, d, *self, m.forest(), m.sel(), m.expanded(), m.focus(), m.next_id, self.message@);
        }
    }
}

/// The prefix of a path that leads to a task leads to a task too.
pub proof fn lemma_path_prefix(s: Seq<TaskView>, path: Seq<usize>)
    requires
        path.len() > 1,
        forest_at(s, path) is Some,
    ensures
        forest_at(s, path.drop_last()) is Some,
        path.last() < forest_at(s, path.drop_last())->0.children.len(),
        forest_at(s, path.drop_last())->0.children[path.last() as int] == forest_at(s, path)->0,
    decreases path.len(),
{
    let i = path[0] as int;
    if path.len() > 2 {
        assert(path.drop_first().drop_last() =~= path.drop_last().drop_first());
        assert(path.drop_last()[0] == path[0]);
        assert(path.drop_first().last() == path.last());
        assert(forest_at(s, path) == forest_at(s[i].children, path.drop_first()));
        lemma_path_prefix(s[i].children, path.drop_first());
        assert(forest_at(s, path.drop_last()) == forest_at(
            s[i].children,
            path.drop_last().drop_first(),
        ));
    } else {
        assert(path.drop_last() =~= seq![path[0]]);
        assert(path.drop_first() =~= seq![path[1]]);
        assert(forest_at(s, path) == forest_at(s[i].children, seq![path[1]]));
        assert(forest_at(s, path.drop_last()) == Some(s[i]));
    }
}

/// A fresh task with id `id` and title `title`.
pub open spec fn new_task_view(id: u64, title: Seq<char>) -> TaskView {
    TaskView {
        id,
        title,
        desc: Seq::empty(),
        priority: Priority::Medium,
        status: Status::Todo,
        due: None,
        tags: Seq::empty(),
        children: Seq::empty(),
    }
}

/// Where `add_task` puts the new task `t`, given the tree `s` and the selection
/// `sel`: the tree, the new selection, and the expanded set afterwards. With no
/// selection or no tasks it becomes the last root task; as a child it becomes
/// the selected task's last child (which gets expanded); as a sibling it goes
/// right after the selected task.
pub open spec fn add_result(
    s: Seq<TaskView>,
    sel: Seq<usize>,
    expanded: Set<u64>,
    as_child: bool,
    t: TaskView,
) -> (Seq<TaskView>, Seq<usize>, Set<u64>) {
    if sel.len() == 0 || s.len() == 0 {
        (s.push(t), seq![s.len() as usize], expanded)
    } else if as_child {
        let cs = children_at(s, sel)->0;
        (
            set_children_at(s, sel, cs.push(t)),
            sel.push(cs.len() as usize),
            expanded.insert(forest_at(s, sel)->0.id),
        )
    } else {
        let parent = sel.drop_last();
        match children_at(s, parent) {
            Some(cs) => {
                let at = if sel.last() < cs.len() {
                    sel.last() + 1
                } else {
                    cs.len() as int
                };
                (set_children_at(s, parent, cs.insert(at, t)), parent.push(at as usize), expanded)
            },
            None => (s, sel, expanded),
        }
    }
}

/// How `add_task(as_child)` turns `a` into `b`.
pub open spec fn task_added(a: App, b: App, as_child: bool) -> bool {
    let s = a.forest();
    let sel = a.sel();
    if as_child && sel.len() > 0 && forest_at(s, sel) is None {
        exists|a1: App|
            #![trigger view_moved(a, a1, sel, a.expanded(), a.focus(), None, false)]
            view_moved(a, a1, sel, a.expanded(), a.focus(), None, false) && with_message(
                a1,
                b,
                "Cannot add child (invalid selection)"@,
            )
    } else {
        let r = add_result(s, sel, a.expanded(), as_child, new_task_view(a.next_id, "New task"@));
        exists|a1: App, p: App|
            #![trigger view_moved(a, a1, sel, a.expanded(), a.focus(), None, false), edit_opened(p, b)]
            view_moved(a, a1, sel, a.expanded(), a.focus(), None, false) && committed(
                a1,
                p,
                r.0,
                r.1,
                r.2,
                a.focus(),
                (a.next_id + 1) as u64,
                if as_child {
                    "Added child task"@
                } else {
                    "Added sibling task"@
                },
            ) && edit_opened(p, b)
    }
}

/// How `add_named_task(title, open_edit)` turns `a` into `b`.
pub open spec fn named_task_added(a: App, b: App, title: Seq<char>, open_edit: bool) -> bool {
    let s = a.forest();
    exists|a1: App, p: App|
        #![trigger view_moved(a, a1, a.sel(), a.expanded(), a.focus(), None, false), committed(a1, p, s.push(new_task_view(a.next_id, title)), seq![s.len() as usize], a.expanded(), a.focus(), (a.next_id + 1) as u64, "Added: "@ + title)]
        view_moved(a, a1, a.sel(), a.expanded(), a.focus(), None, false) && committed(
            a1,
            p,
            s.push(new_task_view(a.next_id, title)),
            seq![s.len() as usize],
            a.expanded(),
            a.focus(),
            (a.next_id + 1) as u64,
            "Added: "@ + title,
        ) && if open_edit {
            edit_opened(p, b)
        } else {
            b == p
        }
}

impl App {
    /// Adds a task named "New task" (see `task_added`) and opens the edit form on it.
    pub fn add_task(&mut self, as_child: bool)
        requires
            old(self).next_id < u64::MAX,
        ensures
            task_added(*old(self), *final(self), as_child),
    {
        let ghost a0 = *self;
        self.clear_pending_delete();
        let ghost a1 = *self;
        let sel = copy_path(self.tree.selected_path.as_slice());
        if as_child && sel.len() > 0 && task_at(&self.tasks, sel.as_slice()).is_none() {
            self.message = "Cannot add child (invalid selection)".to_owned();
            assert(view_moved(a0, a1, a0.sel(), a0.expanded(), a0.focus(), None, false)
                && with_message(a1, *self, "Cannot add child (invalid selection)"@));
            return;
        }
        self.push_undo();
        let ghost u = *self;
        let new_task = Task::new(self.next_id, "New task");
        let ghost nt = new_task@;
        self.next_id = self.next_id + 1;
        let ghost s = self.forest();
        let ghost r = add_result(s, sel@, a0.expanded(), as_child, nt);
        if sel.len() == 0 || self.tasks.len() == 0 {
            self.tasks.push(new_task);
            assert(forest_view(self.tasks@) =~= s.push(nt));
            self.tree.selected_path = single(self.tasks.len() - 1);
        } else if as_child {
            let parent_id = match task_at(&self.tasks, sel.as_slice()) {
                Some(t) => t.id,
                None => 0,
            };
            proof {
                let pt = forest_at(s, sel@)->0;
                assert(children_at(s, sel@) == Some(pt.children));
            }
            let ghost old_tasks = self.tasks@;
            let ch = children_mut_at(&mut self.tasks, sel.as_slice());
            let ghost old_ch = ch@;
            ch.push(new_task);
            let n = ch.len();
            assert(forest_view(ch@) =~= forest_view(old_ch).push(nt));
            let ghost fch = *ch;
            proof {
                lemma_children_rel(old_tasks, self.tasks@, sel@, fch);
            }
            self.tree.selected_path = path_push(sel.as_slice(), n - 1);
            self.tree.expanded.insert(parent_id);
        } else {
            let parent = parent_of(sel.as_slice());
            let last = sel[sel.len() - 1];
            let len = if parent.len() == 0 {
                self.tasks.len()
            } else {
                match task_at(&self.tasks, parent.as_slice()) {
                    Some(p) => {
                        proof {
                            lemma_children_view(*p);
                        }
                        p.children.len()
                    },
                    None => 0,
                }
            };
            let exists = parent.len() == 0 || task_at(&self.tasks, parent.as_slice()).is_some();
            proof {
                if parent.len() > 0 {
                    if let Some(pt) = forest_at(s, parent@) {
                        assert(children_at(s, parent@) == Some(pt.children));
                    }
                }
            }
            if exists {
                let at = if last < len {
                    last + 1
                } else {
                    len
                };
                let ghost old_tasks = self.tasks@;
                let ch = children_mut_at(&mut self.tasks, parent.as_slice());
                let ghost old_ch = ch@;
                ch.insert(at, new_task);
                assert(forest_view(ch@) =~= forest_view(old_ch).insert(at as int, nt));
                let ghost fch = *ch;
                proof {
                    lemma_children_rel(old_tasks, self.tasks@, parent@, fch);
                }
                self.tree.selected_path = path_push(parent.as_slice(), at);
            }
        }
        assert(self.forest() == r.0);
        let ghost m = *self;
        self.rebuild_visible();
        let ghost p = *self;
        self.mark_dirty();
        self.message = if as_child {
            "Added child task".to_owned()
        } else {
            "Added sibling task".to_owned()
        };
        proof {
            let d = choose|d: int| rebuild_rel(m, p, d);
            lemma_committed(
                a1,
                u,
                m,
                p,
                d,
                *self,
                m.forest(),
                m.sel(),
                m.expanded(),
                m.focus(),
                m.next_id,
                self.message@,
            );
        }
        let ghost c = *self;
        self.start_edit();
        assert(view_moved(a0, a1, a0.sel(), a0.expanded(), a0.focus(), None, false));
        assert(edit_opened(c, *self));
    }

    /// Appends a root task named `title`, optionally opening the edit form on it.
    pub fn add_named_task(&mut self, title: &str, open_edit: bool)
        requires
            old(self).next_id < u64::MAX,
        ensures
            named_task_added(*old(self), *final(self), title@, open_edit),
    {
        let ghost a0 = *self;
        self.clear_pending_delete();
        let ghost a1 = *self;
        self.push_undo();
        let ghost u = *self;
        let new_task = Task::new(self.next_id, title);
        self.next_id = self.next_id + 1;
        let ghost s = self.forest();
        self.tasks.push(new_task);
        assert(forest_view(self.tasks@) =~= s.push(new_task_view(a0.next_id, title@)));
        self.tree.selected_path = single(self.tasks.len() - 1);
        let ghost m = *self;
        self.rebuild_visible();
        let ghost p = *self;
        self.mark_dirty();
        self.message = concat("Added: ", title);
        proof {
            let d = choose|d: int| rebuild_rel(m, p, d);
            lemma_committed(
                a1,
                u,
                m,
                p,
                d,
                *self,
                m.forest(),
                m.sel(),
                m.expanded(),
                m.focus(),
                m.next_id,
                self.message@,
            );
        }
        let ghost c = *self;
        if open_edit {
            self.start_edit();
        }
        assert(view_moved(a0, a1, a0.sel(), a0.expanded(), a0.focus(), None, false) && committed(
            a1,
            c,
            a0.forest().push(new_task_view(a0.next_id, title@)),
            seq![a0.forest().len() as usize],
            a0.expanded(),
            a0.focus(),
            (a0.next_id + 1) as u64,
            "Added: "@ + title@,
        ));
    }
}

} // verus!
