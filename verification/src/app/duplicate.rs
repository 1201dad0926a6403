//! Duplicating a subtree under fresh ids, and the selection's breadcrumb.
use vstd::prelude::*;
use crate::forest::{
    children_at, children_mut_at, forest_at, forest_size, lemma_children_rel, set_children_at,
    task_at, tree_size,
};
use crate::model::{Task, TaskView, forest_view, lemma_children_view};
use crate::text::{concat, decimal, join, join_spec, u64_to_string};
use super::access::{copy_path, parent_of, path_push, single};
use super::rel::{edited, unchanged, view_moved};
use super::state::App;
use super::undo::{dirtied_with, undo_pushed};
use super::visibility::rebuild_rel;

verus! {

/// `t` with its subtree renumbered in pre-order, starting at `start`.
pub open spec fn renumber_tree(t: TaskView, start: int) -> TaskView
    decreases t,
{
    TaskView { id: start as u64, children: renumber_list(t.children, start + 1), ..t }
}

/// The list `s` renumbered in pre-order, starting at `start`.
pub open spec fn renumber_list(s: Seq<TaskView>, start: int) -> Seq<TaskView>
    decreases s,
{
    if s.len() == 0 {
        s
    } else {
        renumber_list(s.drop_last(), start).push(
            renumber_tree(s.last(), start + forest_size(s.drop_last())),
        )
    }
}

proof fn lemma_renumber_len(s: Seq<TaskView>, start: int)
    ensures
        renumber_list(s, start).len() == s.len(),
    decreases s.len(),
{
    if s.len() > 0 {
        lemma_renumber_len(s.drop_last(), start);
    }
}

/// Gives `task` and its subtree the ids `next_id`, `next_id + 1`, ... in
/// pre-order and advances `next_id` past them.
pub fn assign_fresh_ids(task: &mut Task, next_id: &mut u64)
    requires
        *old(next_id) + tree_size(old(task)@) <= u64::MAX,
    ensures
        final(task)@ == renumber_tree(old(task)@, *old(next_id) as int),
        *final(next_id) == *old(next_id) + tree_size(old(task)@),
    decreases tree_size(old(task)@),
{
    let ghost t0 = task@;
    let ghost start = *next_id as int;
    proof {
        lemma_children_view(*task);
    }
    task.id = *next_id;
    *next_id = *next_id + 1;
    let mut kids: Vec<Task> = Vec::new();
    std::mem::swap(&mut kids, &mut task.children);
    let ghost ks = forest_view(kids@);
    assert(ks == t0.children);
    let mut i: usize = 0;
    while i < kids.len()
        invariant
            i <= kids@.len(),
            t0 == old(task)@,
            ks == t0.children,
            kids@.len() == ks.len(),
            forest_view(kids@).subrange(0, i as int) == renumber_list(ks.take(i as int), start + 1),
            forall|j: int| i <= j < kids@.len() ==> #[trigger] kids@[j]@ == ks[j],
            *next_id == start + 1 + forest_size(ks.take(i as int)),
            start + tree_size(t0) <= u64::MAX,
            tree_size(t0) == 1 + forest_size(ks),
        decreases kids@.len() - i,
    {
        proof {
            assert(ks.take(i + 1).drop_last() =~= ks.take(i as int));
            assert(ks.take(i + 1).last() == ks[i as int]);
            lemma_forest_size_prefix(ks, i + 1);
            lemma_elem_size(ks, i as int);
        }
        let ghost before = kids@;
        assign_fresh_ids(&mut kids[i], next_id);
        proof {
            assert forall|j: int| 0 <= j < kids@.len() && j != i implies kids@[j] == before[j] by {}
            assert(forest_view(kids@).subrange(0, i + 1) =~= forest_view(before).subrange(
                0,
                i as int,
            ).push(kids@[i as int]@));
        }
        i += 1;
    }
    assert(ks.take(i as int) =~= ks);
    std::mem::swap(&mut kids, &mut task.children);
    proof {
        lemma_children_view(*task);
        assert(forest_view(task.children@) =~= forest_view(task.children@).subrange(
            0,
            task.children@.len() as int,
        ));
        assert(task@.tags =~= t0.tags);
        assert(task@ =~= renumber_tree(t0, start));
    }
}

/// A task of a list is no larger than the list.
pub proof fn lemma_elem_size(s: Seq<TaskView>, i: int)
    requires
        0 <= i < s.len(),
    ensures
        tree_size(s[i]) <= forest_size(s),
    decreases s.len(),
{
    if i < s.len() - 1 {
        lemma_elem_size(s.drop_last(), i);
    }
}

/// The size of a prefix is at most that of the whole list.
proof fn lemma_forest_size_prefix(s: Seq<TaskView>, n: int)
    requires
        0 <= n <= s.len(),
    ensures
        forest_size(s.take(n)) <= forest_size(s),
    decreases s.len(),
{
    if n < s.len() {
        assert(s.drop_last().take(n) =~= s.take(n));
        lemma_forest_size_prefix(s.drop_last(), n);
    } else {
        assert(s.take(n) =~= s);
    }
}

/// Where a copy of the task at `sel` goes: right after it among its siblings.
pub open spec fn dup_result(s: Seq<TaskView>, sel: Seq<usize>, t: TaskView) -> (
    Seq<TaskView>,
    Seq<usize>,
) {
    let parent = sel.drop_last();
    let cs = children_at(s, parent)->0;
    let at = if sel.last() < cs.len() {
        sel.last() + 1
    } else {
        cs.len() as int
    };
    (set_children_at(s, parent, cs.insert(at, t)), parent.push(at as usize))
}

/// How `duplicate_current` turns `a` into `b`: with no selection nothing
/// happens; otherwise the state is saved for undo and the pending delete
/// dropped; when the selection leads to a task, a copy of its subtree with
/// fresh ids (from `next_id` on) is inserted right after it and selected, the
/// rows rebuilt, and the message names the id of the task then selected.
pub open spec fn duplicated(a: App, b: App) -> bool {
    let s = a.forest();
    let sel = a.sel();
    if sel.len() == 0 {
        unchanged(a, b)
    } else {
        match forest_at(s, sel) {
            None => exists|u: App|
                #![trigger undo_pushed(a, u)]
                undo_pushed(a, u) && view_moved(u, b, sel, a.expanded(), a.focus(), None, false),
            Some(t) => {
                let copy = renumber_tree(t, a.next_id as int);
                let r = dup_result(s, sel, copy);
                exists|u: App, m: App, p: App, d: int|
                    #![trigger undo_pushed(a, u), edited(u, m, r.0, r.1, a.expanded(), a.focus(), (a.next_id + tree_size(t)) as u64), rebuild_rel(m, p, d)]
                    undo_pushed(a, u) && edited(
                        u,
                        m,
                        r.0,
                        r.1,
                        a.expanded(),
                        a.focus(),
                        (a.next_id + tree_size(t)) as u64,
                    ) && rebuild_rel(m, p, d) && dirtied_with(
                        p,
                        b,
                        "Duplicated task as #"@ + decimal(
                            match forest_at(p.forest(), p.sel()) {
                                Some(x) => x.id as nat,
                                None => 0,
                            },
                        ),
                    )
            },
        }
    }
}

impl App {
    /// Inserts a copy of the selected task's subtree, with fresh ids, right
    /// after it (see `duplicated`).
    pub fn duplicate_current(&mut self)
        requires
            forest_at(old(self).forest(), old(self).sel()) matches Some(t) ==> old(self).next_id
                + tree_size(t) <= u64::MAX,
        ensures
            duplicated(*old(self), *final(self)),
    {
        let ghost a0 = *self;
        if self.tree.selected_path.len() == 0 {
            return;
        }
        self.push_undo();
        let ghost u = *self;
        self.clear_pending_delete();
        let path = copy_path(self.tree.selected_path.as_slice());
        let mut copy = match task_at(&self.tasks, path.as_slice()) {
            Some(t) => t.deep_copy(),
            None => {
                return;
            },
        };
        let ghost t = copy@;
        let ghost s = self.forest();
        assign_fresh_ids(&mut copy, &mut self.next_id);
        let ghost cv = copy@;
        let parent = parent_of(path.as_slice());
        let last = path[path.len() - 1];
        proof {
            if parent.len() > 0 {
                super::manipulate::lemma_path_prefix(s, path@);
                let pt = forest_at(s, parent@)->0;
                assert(children_at(s, parent@) == Some(pt.children));
            }
        }
        let ghost old_tasks = self.tasks@;
        let ch = children_mut_at(&mut self.tasks, parent.as_slice());
        let len = ch.len();
        let at = if last < len {
            last + 1
        } else {
            len
        };
        let ghost old_ch = ch@;
        ch.insert(at, copy);
        assert(forest_view(ch@) =~= forest_view(old_ch).insert(at as int, cv));
        let ghost fch = *ch;
        proof {
            lemma_children_rel(old_tasks, self.tasks@, parent@, fch);
        }
        self.tree.selected_path = path_push(parent.as_slice(), at);
        let ghost m = *self;
        assert(edited(
            u,
            m,
            dup_result(s, path@, cv).0,
            dup_result(s, path@, cv).1,
            a0.expanded(),
            a0.focus(),
            (a0.next_id + tree_size(t)) as u64,
        ));
        self.rebuild_visible();
        let ghost p = *self;
        let new_id: u64 = match task_at(&self.tasks, self.tree.selected_path.as_slice()) {
            Some(x) => x.id,
            None => 0,
        };
        self.mark_dirty();
        self.message = concat("Duplicated task as #", u64_to_string(new_id).as_str());
        proof {
            let d = choose|d: int| rebuild_rel(m, p, d);
            assert(undo_pushed(a0, u) && rebuild_rel(m, p, d));
        }
    }

    /// The ids along the selected path, as `#1 > #4 > #9` (the ids of the tasks
    /// at each prefix that leads to one).
    pub fn get_breadcrumb(&self) -> (r: String)
        ensures
            r@ == join_spec(crumbs(self.forest(), self.sel(), self.sel().len() as int), " > "@),
    {
        let ghost s = self.forest();
        let mut parts: Vec<String> = Vec::new();
        let mut cur: Vec<usize> = Vec::new();
        let mut k: usize = 0;
        while k < self.tree.selected_path.len()
            invariant
                k <= self.sel().len(),
                s == self.forest(),
                cur@ == self.sel().take(k as int),
                parts@.map_values(|x: String| x@) == crumbs(s, self.sel(), k as int),
            decreases self.sel().len() - k,
        {
            cur.push(self.tree.selected_path[k]);
            let ghost before = parts@;
            match task_at(&self.tasks, cur.as_slice()) {
                Some(t) => {
                    parts.push(concat("#", u64_to_string(t.id).as_str()));
                },
                None => {},
            }
            k += 1;
            assert(cur@ =~= self.sel().take(k as int));
            assert(parts@.map_values(|x: String| x@) =~= crumbs(s, self.sel(), k as int));
        }
        join(&parts, " > ")
    }
}

/// The `#id` labels of the tasks at the prefixes of `path` of length 1 to `k`.
pub open spec fn crumbs(s: Seq<TaskView>, path: Seq<usize>, k: int) -> Seq<Seq<char>>
    decreases k,
{
    if k <= 0 {
        Seq::empty()
    } else {
        let init = crumbs(s, path, k - 1);
        match forest_at(s, path.take(k)) {
            Some(t) => init.push("#"@ + decimal(t.id as nat)),
            None => init,
        }
    }
}

} // verus!
