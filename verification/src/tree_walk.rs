//! Shared read-only walks over the task tree.
use std::collections::HashSet;
use vstd::prelude::*;
use crate::forest::{forest_ids, tree_ids};
use crate::model::{Task, TaskView, forest_view, lemma_children_view};

verus! {

broadcast use vstd::std_specs::hash::group_hash_axioms;

/// The largest id in `t`'s subtree.
pub open spec fn tree_max_id(t: TaskView) -> u64
    decreases t,
{
    let m = forest_max_id(t.children);
    if m > t.id {
        m
    } else {
        t.id
    }
}

/// The largest id in the list `s` and below (0 for an empty list).
pub open spec fn forest_max_id(s: Seq<TaskView>) -> u64
    decreases s,
{
    if s.len() == 0 {
        0
    } else {
        let a = forest_max_id(s.drop_last());
        let b = tree_max_id(s.last());
        if a > b {
            a
        } else {
            b
        }
    }
}

/// The largest id in `task`'s subtree.
pub fn max_id_in_tree(task: &Task) -> (m: u64)
    ensures
        m == tree_max_id(task@),
    decreases task,
{
    let ghost s = task@.children;
    proof {
        lemma_children_view(*task);
    }
    let mut cm: u64 = 0;
    let mut i: usize = 0;
    while i < task.children.len()
        invariant
            i <= task.children@.len(),
            s == forest_view(task.children@),
            cm == forest_max_id(s.take(i as int)),
        decreases task.children@.len() - i,
    {
        assert(s.take(i + 1).drop_last() =~= s.take(i as int));
        assert(decreases_to!(task => task.children));
        let c = max_id_in_tree(&task.children[i]);
        if c > cm {
            cm = c;
        }
        i += 1;
    }
    assert(s.take(i as int) =~= s);
    if cm > task.id {
        cm
    } else {
        task.id
    }
}

/// The largest id in the list and below (0 for an empty list).
pub fn max_id_in_forest(tasks: &Vec<Task>) -> (m: u64)
    ensures
        m == forest_max_id(forest_view(tasks@)),
{
    let ghost s = forest_view(tasks@);
    let mut m: u64 = 0;
    let mut i: usize = 0;
    while i < tasks.len()
        invariant
            i <= tasks@.len(),
            s == forest_view(tasks@),
            m == forest_max_id(s.take(i as int)),
        decreases tasks@.len() - i,
    {
        assert(s.take(i + 1).drop_last() =~= s.take(i as int));
        let c = max_id_in_tree(&tasks[i]);
        if c > m {
            m = c;
        }
        i += 1;
    }
    assert(s.take(i as int) =~= s);
    m
}

/// Adds the ids of `task` and its whole subtree to `out`.
pub fn collect_task_ids(task: &Task, out: &mut HashSet<u64>)
    ensures
        final(out)@ == old(out)@.union(tree_ids(task@)),
    decreases task,
{
    out.insert(task.id);
    let ghost s = task@.children;
    proof {
        lemma_children_view(*task);
    }
    let mut i: usize = 0;
    while i < task.children.len()
        invariant
            i <= task.children@.len(),
            s == forest_view(task.children@),
            out@ == old(out)@.insert(task.id).union(forest_ids(s.take(i as int))),
        decreases task.children@.len() - i,
    {
        assert(s.take(i + 1).drop_last() =~= s.take(i as int));
        assert(decreases_to!(task => task.children));
        collect_task_ids(&task.children[i], out);
        i += 1;
        assert(out@ =~= old(out)@.insert(task.id).union(forest_ids(s.take(i as int))));
    }
    assert(s.take(i as int) =~= s);
    assert(out@ =~= old(out)@.union(tree_ids(task@)));
}

/// The ids of tasks in the list `s` and below, down to nesting depth 128
/// (`depth` is the depth of `s`).
pub open spec fn forest_ids_to_depth(s: Seq<TaskView>, depth: int) -> Set<u64>
    decreases s,
{
    if depth > 128 || s.len() == 0 {
        Set::empty()
    } else {
        forest_ids_to_depth(s.drop_last(), depth).union(tree_ids_to_depth(s.last(), depth))
    }
}

/// The ids of `t` and below it, down to nesting depth 128 (`depth` is `t`'s depth).
pub open spec fn tree_ids_to_depth(t: TaskView, depth: int) -> Set<u64>
    decreases t,
{
    forest_ids_to_depth(t.children, depth + 1).insert(t.id)
}

/// Adds to `set` the ids of every task in the list and below, stopping below depth 128.
pub fn expand_all_ids(tasks: &Vec<Task>, set: &mut HashSet<u64>, depth: usize)
    requires
        depth <= 1000,
    ensures
        final(set)@ == old(set)@.union(forest_ids_to_depth(forest_view(tasks@), depth as int)),
    decreases tasks@,
{
    let ghost s = forest_view(tasks@);
    if depth > 128 {
        assert(old(set)@.union(Set::empty()) =~= old(set)@);
        return;
    }
    let mut i: usize = 0;
    assert(old(set)@.union(Set::empty()) =~= old(set)@);
    while i < tasks.len()
        invariant
            i <= tasks@.len(),
            depth <= 128,
            s == forest_view(tasks@),
            set@ == old(set)@.union(forest_ids_to_depth(s.take(i as int), depth as int)),
        decreases tasks@.len() - i,
    {
        assert(s.take(i + 1).drop_last() =~= s.take(i as int));
        set.insert(tasks[i].id);
        assert(decreases_to!(tasks@ => tasks@[i as int]));
        assert(decreases_to!(tasks@[i as int] => tasks@[i as int].children));
        expand_all_ids(&tasks[i].children, set, depth + 1);
        proof {
            lemma_children_view(tasks@[i as int]);
        }
        assert(s.take(i + 1).last() == s[i as int]);
        assert(forest_ids_to_depth(s.take(i + 1), depth as int) == forest_ids_to_depth(
            s.take(i as int),
            depth as int,
        ).union(tree_ids_to_depth(s[i as int], depth as int)));
        assert(tree_ids_to_depth(s[i as int], depth as int) == forest_ids_to_depth(
            forest_view(tasks@[i as int].children@),
            depth + 1,
        ).insert(tasks@[i as int].id));
        i += 1;
        assert(set@ =~= old(set)@.union(forest_ids_to_depth(s.take(i as int), depth as int)));
    }
    assert(s.take(i as int) =~= s);
}

} // verus!
