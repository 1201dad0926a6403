//! Repairing duplicate task ids after a load.
use vstd::prelude::*;
use std::collections::HashSet;
use crate::forest::forest_size;
use crate::model::{Task, TaskView, forest_view, lemma_children_view};
use crate::tree_walk::{forest_max_id, max_id_in_forest, tree_max_id};
use super::rel::{dirty_marked, same_data};
use super::state::App;

verus! {

broadcast use vstd::std_specs::hash::group_hash_axioms;

/// The ids of `t`'s subtree in pre-order.
pub open spec fn tree_pre(t: TaskView) -> Seq<u64>
    decreases t,
{
    seq![t.id] + forest_pre(t.children)
}

/// The ids of the list `s` and below in pre-order.
pub open spec fn forest_pre(s: Seq<TaskView>) -> Seq<u64>
    decreases s,
{
    if s.len() == 0 {
        Seq::empty()
    } else {
        forest_pre(s.drop_last()) + tree_pre(s.last())
    }
}

/// `t`'s subtree renumbered in pre-order: an id already in `seen` gets `next`
/// (and `next` moves on); a new id is kept, added to `seen`, and moves `next`
/// past itself. The result also gives the final `seen` and `next`.
pub open spec fn renum_tree(t: TaskView, seen: Set<u64>, next: int) -> (TaskView, Set<u64>, int)
    decreases t,
{
    let (id2, seen1, next1) = if seen.contains(t.id) {
        (next as u64, seen, next + 1)
    } else {
        (t.id, seen.insert(t.id), if t.id >= next {
            t.id + 1
        } else {
            next
        })
    };
    let r = renum_list(t.children, seen1, next1);
    (TaskView { id: id2, children: r.0, ..t }, r.1, r.2)
}

/// The list `s` renumbered in pre-order (see `renum_tree`).
pub open spec fn renum_list(s: Seq<TaskView>, seen: Set<u64>, next: int) -> (
    Seq<TaskView>,
    Set<u64>,
    int,
)
    decreases s,
{
    if s.len() == 0 {
        (s, seen, next)
    } else {
        let a = renum_list(s.drop_last(), seen, next);
        let b = renum_tree(s.last(), a.1, a.2);
        (a.0.push(b.0), b.1, b.2)
    }
}

/// How `sanitize_duplicate_ids` turns `a` into `b`: without repeated ids only
/// `next_id` moves up past the largest id; otherwise every repeat (after its
/// first occurrence in pre-order) gets a fresh id from one past the largest
/// on, `next_id` follows the last one, and the project is marked dirty.
pub open spec fn sanitized(a: App, b: App) -> bool {
    let s = a.forest();
    let max = forest_max_id(s);
    &&& b.tree == a.tree
    &&& b.filter == a.filter
    &&& b.sort_mode == a.sort_mode
    &&& b.total_tasks == a.total_tasks
    &&& b.done_tasks == a.done_tasks
    &&& b.mode == a.mode
    &&& b.search_buf == a.search_buf
    &&& b.command_buf == a.command_buf
    &&& b.edit == a.edit
    &&& b.message == a.message
    &&& b.undo_stack == a.undo_stack
    &&& if forest_pre(s).no_duplicates() {
        &&& b.tasks == a.tasks
        &&& b.persist == a.persist
        &&& b.next_id == (if max + 1 > a.next_id {
            (max + 1) as u64
        } else {
            a.next_id
        })
    } else {
        let r = renum_list(s, Set::empty(), max + 1);
        &&& b.forest() == r.0
        &&& b.next_id == r.2
        &&& dirty_marked(a.persist, b.persist)
    }
}

fn pre_ids_into(tasks: &Vec<Task>, out: &mut Vec<u64>)
    ensures
        final(out)@ == old(out)@ + forest_pre(forest_view(tasks@)),
    decreases tasks@,
{
    let ghost s = forest_view(tasks@);
    let ghost o0 = out@;
    let mut i: usize = 0;
    while i < tasks.len()
        invariant
            i <= tasks@.len(),
            s == forest_view(tasks@),
            out@ == o0 + forest_pre(s.take(i as int)),
        decreases tasks@.len() - i,
    {
        assert(s.take(i + 1).drop_last() =~= s.take(i as int));
        assert(decreases_to!(tasks@ => tasks@[i as int]));
        assert(decreases_to!(tasks@[i as int] => tasks@[i as int].children));
        let t = &tasks[i];
        out.push(t.id);
        pre_ids_into(&t.children, out);
        proof {
            lemma_children_view(*t);
            assert(s.take(i + 1).last() == t@);
            assert(tree_pre(t@) == seq![t@.id] + forest_pre(t@.children));
            assert(forest_pre(s.take(i + 1)) == forest_pre(s.take(i as int)) + tree_pre(t@));
        }
        i += 1;
        assert(out@ =~= o0 + forest_pre(s.take(i as int)));
    }
    assert(s.take(i as int) =~= s);
}

/// Whether some id occurs twice in `v`.
fn has_repeat(v: &Vec<u64>) -> (r: bool)
    ensures
        r == !v@.no_duplicates(),
{
    let mut seen: HashSet<u64> = HashSet::new();
    let mut i: usize = 0;
    while i < v.len()
        invariant
            i <= v@.len(),
            seen@ == v@.take(i as int).to_set(),
            v@.take(i as int).no_duplicates(),
        decreases v@.len() - i,
    {
        let x = v[i];
        proof {
            v@.take(i as int).lemma_push_to_set_commute(x);
            assert(v@.take(i + 1) =~= v@.take(i as int).push(x));
        }
        if !seen.insert(x) {
            proof {
                let p = v@.take(i as int);
                assert(p.to_set().contains(x));
                let j = choose|j: int| 0 <= j < p.len() && p[j] == x;
                assert(v@[j] == v@[i as int]);
            }
            return true;
        }
        proof {
            let p = v@.take(i as int);
            assert(!p.contains(x));
            let q = v@.take(i + 1);
            assert forall|a: int, b: int|
                0 <= a < q.len() && 0 <= b < q.len() && a != b implies #[trigger] q[a] != #[trigger] q[b] by {
                if b == i {
                    assert(q[a] == p[a]);
                } else if a == i {
                    assert(q[b] == p[b]);
                } else {
                    assert(q[a] == p[a] && q[b] == p[b]);
                }
            }
        }
        i += 1;
    }
    assert(v@.take(i as int) =~= v@);
    false
}

/// The largest id of a list bounds the largest id of each of its tasks.
pub proof fn lemma_max_elem(s: Seq<TaskView>, i: int)
    requires
        0 <= i < s.len(),
    ensures
        tree_max_id(s[i]) <= forest_max_id(s),
    decreases s.len(),
{
    if i < s.len() - 1 {
        lemma_max_elem(s.drop_last(), i);
    }
}

/// The largest id of a prefix is at most that of the whole list.
proof fn lemma_max_prefix(s: Seq<TaskView>, n: int)
    requires
        0 <= n <= s.len(),
    ensures
        forest_max_id(s.take(n)) <= forest_max_id(s),
    decreases s.len(),
{
    if n < s.len() {
        assert(s.drop_last().take(n) =~= s.take(n));
        lemma_max_prefix(s.drop_last(), n);
    } else {
        assert(s.take(n) =~= s);
    }
}

/// Renumbers the list `tasks` and below in pre-order (see `renum_list`),
/// every id in it being below `next`.
fn renumber_list(tasks: &mut Vec<Task>, seen: &mut HashSet<u64>, next: &mut u64)
    requires
        forest_max_id(forest_view(old(tasks)@)) < *old(next),
        renum_list(forest_view(old(tasks)@), old(seen)@, *old(next) as int).2 <= u64::MAX,
    ensures
        ({
            let r = renum_list(forest_view(old(tasks)@), old(seen)@, *old(next) as int);
            &&& forest_view(final(tasks)@) == r.0
            &&& final(seen)@ == r.1
            &&& *final(next) == r.2
        }),
        *old(next) <= *final(next) <= *old(next) + forest_size(forest_view(old(tasks)@)),
    decreases forest_size(forest_view(old(tasks)@)),
{
    let ghost s = forest_view(tasks@);
    let ghost n0 = *next as int;
    let ghost seen0 = seen@;
    let n = tasks.len();
    let mut done: Vec<Task> = Vec::new();
    let mut rest: Vec<Task> = Vec::new();
    std::mem::swap(&mut rest, tasks);
    let mut i: usize = 0;
    assert(s.take(0) =~= Seq::<TaskView>::empty());
    while i < n
        invariant
            n == s.len(),
            i <= n,
            rest@.len() == n,
            s == forest_view(old(tasks)@),
            forall|j: int| i <= j < n ==> #[trigger] rest@[j]@ == s[j],
            ({
                let r = renum_list(s.take(i as int), seen0, n0);
                &&& forest_view(done@) == r.0
                &&& seen@ == r.1
                &&& *next == r.2
            }),
            n0 <= *next <= n0 + forest_size(s.take(i as int)),
            forest_max_id(s) < n0,
            renum_list(s, seen0, n0).2 <= u64::MAX,
        decreases n - i,
    {
        let mut t = Task::new(0, "");
        std::mem::swap(&mut t, &mut rest[i]);
        let ghost tv = t@;
        assert(tv == s[i as int]);
        proof {
            lemma_max_elem(s, i as int);
            crate::app::duplicate::lemma_elem_size(s, i as int);
            lemma_forest_size_prefix_le(s, i as int + 1);
            lemma_renum_prefix_le(s, seen0, n0, i as int + 1);
            assert(s.take(i + 1).drop_last() =~= s.take(i as int));
            assert(s.take(i + 1).last() == tv);
            lemma_children_view(t);
        }
        let ghost next_before = *next as int;
        let ghost seen_before = seen@;
        let ghost step = if seen_before.contains(tv.id) {
            (next_before as u64, seen_before, next_before + 1)
        } else {
            (tv.id, seen_before.insert(tv.id), if tv.id >= next_before {
                tv.id + 1
            } else {
                next_before
            })
        };
        proof {
            lemma_renum_tree_grows(tv, seen_before, next_before);
            assert(renum_list(s.take(i + 1), seen0, n0).2 == renum_tree(tv, seen_before, next_before).2);
        }
        if !seen.insert(t.id) {
            t.id = *next;
            *next = *next + 1;
            assert(seen@ =~= seen_before);
        } else if t.id >= *next {
            *next = t.id + 1;
        }
        assert(t.id == step.0 && seen@ == step.1 && *next == step.2);
        let mut kids: Vec<Task> = Vec::new();
        std::mem::swap(&mut kids, &mut t.children);
        assert(forest_view(kids@) == tv.children);
        proof {
            assert(forest_max_id(tv.children) <= tree_max_id(tv));
            assert(forest_size(tv.children) < crate::forest::tree_size(tv));
        }
        renumber_list(&mut kids, seen, next);
        std::mem::swap(&mut kids, &mut t.children);
        proof {
            lemma_children_view(t);
            assert(t@.tags =~= tv.tags);
            let rr = renum_list(tv.children, step.1, step.2);
            assert(renum_tree(tv, seen_before, next_before) == (
                TaskView { id: step.0, children: rr.0, ..tv },
                rr.1,
                rr.2,
            ));
            assert(t@ == renum_tree(tv, seen_before, next_before).0);
        }
        done.push(t);
        proof {
            assert(forest_view(done@) =~= renum_list(s.take(i + 1), seen0, n0).0);
        }
        i += 1;
    }
    assert(s.take(n as int) =~= s);
    std::mem::swap(&mut done, tasks);
}

/// Renumbering never moves `next` back, and a repeated id moves it on by one first.
proof fn lemma_renum_tree_grows(t: TaskView, seen: Set<u64>, next: int)
    ensures
        renum_tree(t, seen, next).2 >= (if seen.contains(t.id) {
            next + 1
        } else if t.id >= next {
            t.id + 1
        } else {
            next
        }),
    decreases t, 0int,
{
    let next1 = if seen.contains(t.id) {
        next + 1
    } else if t.id >= next {
        t.id + 1
    } else {
        next
    };
    let seen1 = if seen.contains(t.id) {
        seen
    } else {
        seen.insert(t.id)
    };
    lemma_renum_list_grows(t.children, seen1, next1);
}

/// Renumbering a list never moves `next` back.
proof fn lemma_renum_list_grows(s: Seq<TaskView>, seen: Set<u64>, next: int)
    ensures
        renum_list(s, seen, next).2 >= next,
    decreases s, 1int,
{
    if s.len() > 0 {
        lemma_renum_list_grows(s.drop_last(), seen, next);
        let a = renum_list(s.drop_last(), seen, next);
        lemma_renum_tree_grows(s.last(), a.1, a.2);
    }
}

/// Renumbering a prefix of a list ends at or before where the whole list ends.
proof fn lemma_renum_prefix_le(s: Seq<TaskView>, seen: Set<u64>, next: int, n: int)
    requires
        0 <= n <= s.len(),
    ensures
        renum_list(s.take(n), seen, next).2 <= renum_list(s, seen, next).2,
    decreases s.len(),
{
    if n < s.len() {
        assert(s.drop_last().take(n) =~= s.take(n));
        lemma_renum_prefix_le(s.drop_last(), seen, next, n);
        let a = renum_list(s.drop_last(), seen, next);
        lemma_renum_tree_grows(s.last(), a.1, a.2);
    } else {
        assert(s.take(n) =~= s);
    }
}

/// The size of a prefix is at most that of the whole list.
proof fn lemma_forest_size_prefix_le(s: Seq<TaskView>, n: int)
    requires
        0 <= n <= s.len(),
    ensures
        forest_size(s.take(n)) <= forest_size(s),
    decreases s.len(),
{
    if n < s.len() {
        assert(s.drop_last().take(n) =~= s.take(n));
        lemma_forest_size_prefix_le(s.drop_last(), n);
    } else {
        assert(s.take(n) =~= s);
    }
}

impl App {
    /// Renumbers repeated ids (see `sanitized`); `true` when there were any.
    pub fn sanitize_duplicate_ids(&mut self) -> (r: bool)
        requires
            forest_max_id(old(self).forest()) < u64::MAX,
            !forest_pre(old(self).forest()).no_duplicates() ==> renum_list(
                old(self).forest(),
                Set::empty(),
                forest_max_id(old(self).forest()) + 1,
            ).2 <= u64::MAX,
        ensures
            r == !forest_pre(old(self).forest()).no_duplicates(),
            sanitized(*old(self), *final(self)),
    {
        let mut pre: Vec<u64> = Vec::new();
        pre_ids_into(&self.tasks, &mut pre);
        assert(pre@ =~= forest_pre(self.forest()));
        let max_id = max_id_in_forest(&self.tasks);
        if has_repeat(&pre) {
            let mut seen: HashSet<u64> = HashSet::new();
            let mut next = max_id + 1;
            renumber_list(&mut self.tasks, &mut seen, &mut next);
            self.next_id = next;
            self.mark_dirty();
            true
        } else {
            if max_id + 1 > self.next_id {
                self.next_id = max_id + 1;
            }
            false
        }
    }
}

} // verus!
