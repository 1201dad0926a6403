//! Lookups by path and id, and small state updates shared by the operations.
use std::collections::HashSet;
use vstd::prelude::*;
use crate::forest::{find_path, forest_at, forest_find, forest_ids, task_at, tree_ids};
use crate::model::{Task, forest_view};
use crate::tree_walk;
use super::state::{App, instant_now};

verus! {

broadcast use vstd::std_specs::hash::group_hash_axioms;

/// Whether two index lists are equal.
pub fn path_eq(a: &[usize], b: &[usize]) -> (r: bool)
    ensures
        r == (a@ == b@),
{
    if a.len() != b.len() {
        return false;
    }
    let mut i: usize = 0;
    while i < a.len()
        invariant
            i <= a@.len(),
            a@.len() == b@.len(),
            forall|j: int| 0 <= j < i ==> a@[j] == b@[j],
        decreases a@.len() - i,
    {
        if a[i] != b[i] {
            return false;
        }
        i += 1;
    }
    assert(a@ =~= b@);
    true
}

/// A copy of an index list.
pub fn copy_path(a: &[usize]) -> (r: Vec<usize>)
    ensures
        r@ == a@,
{
    let mut r: Vec<usize> = Vec::new();
    let mut i: usize = 0;
    while i < a.len()
        invariant
            i <= a@.len(),
            r@ == a@.take(i as int),
        decreases a@.len() - i,
    {
        r.push(a[i]);
        i += 1;
        assert(r@ =~= a@.take(i as int));
    }
    assert(a@.take(i as int) =~= a@);
    r
}

/// A copy of an optional index list.
pub fn copy_opt_path(a: &Option<Vec<usize>>) -> (r: Option<Vec<usize>>)
    ensures
        super::state::opt_path(r) == super::state::opt_path(*a),
{
    match a {
        Some(p) => Some(copy_path(p.as_slice())),
        None => None,
    }
}

/// The path `a` without its last entry.
pub fn parent_of(a: &[usize]) -> (r: Vec<usize>)
    requires
        a@.len() > 0,
    ensures
        r@ == a@.drop_last(),
{
    let mut r = copy_path(a);
    r.pop();
    assert(r@ =~= a@.drop_last());
    r
}

/// The path `a` followed by `i`.
pub fn path_push(a: &[usize], i: usize) -> (r: Vec<usize>)
    ensures
        r@ == a@.push(i),
{
    let mut r = copy_path(a);
    r.push(i);
    r
}

/// The path `[i]`.
pub fn single(i: usize) -> (r: Vec<usize>)
    ensures
        r@ == seq![i],
{
    let mut r: Vec<usize> = Vec::new();
    r.push(i);
    r
}

impl App {
    /// The task at `path`, if the path leads to one.
    pub fn task_at(&self, path: &[usize]) -> (r: Option<&Task>)
        ensures
            r is Some <==> forest_at(self.forest(), path@) is Some,
            r matches Some(t) ==> forest_at(self.forest(), path@) == Some(t@),
    {
        task_at(&self.tasks, path)
    }

    /// The selected task, if the selection leads to one.
    pub fn current_task(&self) -> (r: Option<&Task>)
        ensures
            r is Some <==> forest_at(self.forest(), self.sel()) is Some,
            r matches Some(t) ==> forest_at(self.forest(), self.sel()) == Some(t@),
    {
        task_at(&self.tasks, self.tree.selected_path.as_slice())
    }

    /// The path of the first task (pre-order) with id `target_id`.
    pub fn find_path_by_id(&self, target_id: u64) -> (r: Option<Vec<usize>>)
        ensures
            super::state::opt_path(r) == forest_find(self.forest(), target_id),
            r matches Some(p) ==> (forest_at(self.forest(), p@) matches Some(x) && x.id
                == target_id),
    {
        find_path(&self.tasks, target_id)
    }

    /// Marks the project as changed since the last save.
    pub fn mark_dirty(&mut self)
        ensures
            final(self).persist.dirty,
            final(self).persist.last_change is Some,
            final(self).persist.data_path == old(self).persist.data_path,
            final(self).persist.last_saved == old(self).persist.last_saved,
            final(self).persist.last_save_failed == old(self).persist.last_save_failed,
            final(self).tasks == old(self).tasks,
            final(self).tree == old(self).tree,
            final(self).filter == old(self).filter,
            final(self).sort_mode == old(self).sort_mode,
            final(self).total_tasks == old(self).total_tasks,
            final(self).done_tasks == old(self).done_tasks,
            final(self).mode == old(self).mode,
            final(self).search_buf == old(self).search_buf,
            final(self).command_buf == old(self).command_buf,
            final(self).edit == old(self).edit,
            final(self).message == old(self).message,
            final(self).undo_stack == old(self).undo_stack,
            final(self).next_id == old(self).next_id,
    {
        self.persist.dirty = true;
        self.persist.last_change = Some(instant_now());
    }

    /// Drops a pending delete confirmation.
    pub fn clear_pending_delete(&mut self)
        ensures
            final(self).tree.pending_delete_path is None,
            final(self).tree.selected_path == old(self).tree.selected_path,
            final(self).tree.visible == old(self).tree.visible,
            final(self).tree.visible_state == old(self).tree.visible_state,
            final(self).tree.expanded == old(self).tree.expanded,
            final(self).tree.focus_path == old(self).tree.focus_path,
            final(self).tree.tree_rect == old(self).tree.tree_rect,
            final(self).tree.last_click == old(self).tree.last_click,
            final(self).tasks == old(self).tasks,
            final(self).persist == old(self).persist,
            final(self).filter == old(self).filter,
            final(self).sort_mode == old(self).sort_mode,
            final(self).total_tasks == old(self).total_tasks,
            final(self).done_tasks == old(self).done_tasks,
            final(self).mode == old(self).mode,
            final(self).search_buf == old(self).search_buf,
            final(self).command_buf == old(self).command_buf,
            final(self).edit == old(self).edit,
            final(self).message == old(self).message,
            final(self).undo_stack == old(self).undo_stack,
            final(self).next_id == old(self).next_id,
    {
        self.tree.pending_delete_path = None;
    }

    /// Adds the ids of `task`'s subtree to `out`.
    pub fn collect_task_ids(task: &Task, out: &mut HashSet<u64>)
        ensures
            final(out)@ == old(out)@.union(tree_ids(task@)),
    {
        tree_walk::collect_task_ids(task, out);
    }

    /// The ids of all tasks in the tree.
    pub fn all_ids(&self) -> (r: HashSet<u64>)
        ensures
            r@ == forest_ids(self.forest()),
    {
        let ghost s = self.forest();
        let mut valid: HashSet<u64> = HashSet::new();
        let mut i: usize = 0;
        while i < self.tasks.len()
            invariant
                i <= self.tasks@.len(),
                s == forest_view(self.tasks@),
                valid@ == forest_ids(s.take(i as int)),
            decreases self.tasks@.len() - i,
        {
            assert(s.take(i + 1).drop_last() =~= s.take(i as int));
            Self::collect_task_ids(&self.tasks[i], &mut valid);
            i += 1;
        }
        assert(s.take(i as int) =~= s);
        valid
    }

    /// Forgets expanded ids that no longer belong to a task.
    pub fn prune_expanded(&mut self)
        ensures
            final(self).expanded() == old(self).expanded().intersect(forest_ids(old(self).forest())),
            final(self).tasks == old(self).tasks,
            final(self).tree.selected_path == old(self).tree.selected_path,
            final(self).tree.visible == old(self).tree.visible,
            final(self).tree.visible_state == old(self).tree.visible_state,
            final(self).tree.pending_delete_path == old(self).tree.pending_delete_path,
            final(self).tree.focus_path == old(self).tree.focus_path,
            final(self).tree.tree_rect == old(self).tree.tree_rect,
            final(self).tree.last_click == old(self).tree.last_click,
            final(self).persist == old(self).persist,
            final(self).filter == old(self).filter,
            final(self).sort_mode == old(self).sort_mode,
            final(self).total_tasks == old(self).total_tasks,
            final(self).done_tasks == old(self).done_tasks,
            final(self).mode == old(self).mode,
            final(self).search_buf == old(self).search_buf,
            final(self).command_buf == old(self).command_buf,
            final(self).edit == old(self).edit,
            final(self).message == old(self).message,
            final(self).undo_stack == old(self).undo_stack,
            final(self).next_id == old(self).next_id,
    {
        let valid = self.all_ids();
        let ids = ids_to_vec(&self.tree.expanded);
        let mut kept: HashSet<u64> = HashSet::new();
        let mut i: usize = 0;
        while i < ids.len()
            invariant
                i <= ids@.len(),
                valid@ == forest_ids(self.forest()),
                ids@.to_set() == self.expanded(),
                kept@ == ids@.take(i as int).to_set().intersect(valid@),
            decreases ids@.len() - i,
        {
            if valid.contains(&ids[i]) {
                kept.insert(ids[i]);
            }
            proof {
                ids@.take(i as int).lemma_push_to_set_commute(ids@[i as int]);
            }
            assert(ids@.take(i + 1) =~= ids@.take(i as int).push(ids@[i as int]));
            assert(kept@ =~= ids@.take(i + 1).to_set().intersect(valid@));
            i += 1;
        }
        assert(ids@.take(i as int) =~= ids@);
        self.tree.expanded = kept;
    }
}

/// The members of an id set, each once, in the set's iteration order.
pub fn ids_to_vec(s: &HashSet<u64>) -> (r: Vec<u64>)
    ensures
        r@.to_set() == s@,
        r@.no_duplicates(),
        r@.len() == s@.len(),
{
    let mut r: Vec<u64> = Vec::new();
    for id in it: s.iter()
        invariant
            it.seq().unref().to_set() == s@,
            it.seq().unref().no_duplicates(),
            it.seq().len() == s@.len(),
            r@ == it.seq().unref().take(it.index() as int),
            it.index() == it.seq().len() ==> r@ == it.seq().unref(),
    {
        r.push(*id);
        assert(r@ =~= it.seq().unref().take(it.index() + 1));
        assert(it.index() + 1 == it.seq().len() ==> r@ =~= it.seq().unref());
    }
    r
}

/// A copy of an id set.
pub fn copy_ids(s: &HashSet<u64>) -> (r: HashSet<u64>)
    ensures
        r@ == s@,
{
    let v = ids_to_vec(s);
    let mut r: HashSet<u64> = HashSet::new();
    let mut i: usize = 0;
    while i < v.len()
        invariant
            i <= v@.len(),
            r@ == v@.take(i as int).to_set(),
        decreases v@.len() - i,
    {
        r.insert(v[i]);
        assert(v@.take(i + 1) =~= v@.take(i as int).push(v@[i as int]));
        proof {
            v@.take(i as int).lemma_push_to_set_commute(v@[i as int]);
        }
        assert(r@ =~= v@.take(i + 1).to_set());
        i += 1;
    }
    assert(v@.take(i as int) =~= v@);
    r
}

} // verus!
