//! Paths into the task tree: lookup, in-place access, search by id, counts.
//!
//! A path is a list of child indices: `[i]` is the i-th root task, `[i, j]`
//! its j-th child, and so on.
use vstd::prelude::*;
use crate::model::{Status, Task, TaskView, forest_view, lemma_children_view};

verus! {

/// The task at `path` in the list `s`, if the path leads to one.
pub open spec fn forest_at(s: Seq<TaskView>, path: Seq<usize>) -> Option<TaskView>
    decreases path.len(),
{
    if path.len() == 0 || path[0] >= s.len() {
        None
    } else if path.len() == 1 {
        Some(s[path[0] as int])
    } else {
        forest_at(s[path[0] as int].children, path.drop_first())
    }
}

/// `s` with the task at `path` replaced by `t` (unchanged when the path leads nowhere).
pub open spec fn forest_set(s: Seq<TaskView>, path: Seq<usize>, t: TaskView) -> Seq<TaskView>
    decreases path.len(),
{
    if path.len() == 0 || path[0] >= s.len() {
        s
    } else if path.len() == 1 {
        s.update(path[0] as int, t)
    } else {
        let c = s[path[0] as int];
        s.update(
            path[0] as int,
            TaskView { children: forest_set(c.children, path.drop_first(), t), ..c },
        )
    }
}

/// The list of children below `parent` (the root list for the empty path).
pub open spec fn children_at(s: Seq<TaskView>, parent: Seq<usize>) -> Option<Seq<TaskView>> {
    if parent.len() == 0 {
        Some(s)
    } else {
        match forest_at(s, parent) {
            Some(t) => Some(t.children),
            None => None,
        }
    }
}

/// `s` with the list of children below `parent` replaced by `cs`.
pub open spec fn set_children_at(s: Seq<TaskView>, parent: Seq<usize>, cs: Seq<TaskView>) -> Seq<
    TaskView,
> {
    if parent.len() == 0 {
        cs
    } else {
        match forest_at(s, parent) {
            Some(t) => forest_set(s, parent, TaskView { children: cs, ..t }),
            None => s,
        }
    }
}

/// The task at `path` with `f` applied to it.
pub open spec fn forest_map_at(
    s: Seq<TaskView>,
    path: Seq<usize>,
    f: spec_fn(TaskView) -> TaskView,
) -> Seq<TaskView> {
    match forest_at(s, path) {
        Some(t) => forest_set(s, path, f(t)),
        None => s,
    }
}

/// How an exec list relates to its old value when the task at `path` became `leaf`.
pub open spec fn set_rel(old: Seq<Task>, new: Seq<Task>, path: Seq<usize>, leaf: Task) -> bool
    decreases path.len(),
{
    if path.len() == 0 || path[0] >= old.len() {
        new == old
    } else {
        let i = path[0] as int;
        &&& new.len() == old.len()
        &&& forall|j: int| 0 <= j < old.len() && j != i ==> new[j] == old[j]
        &&& if path.len() == 1 {
            new[i] == leaf
        } else {
            &&& new[i].id == old[i].id
            &&& new[i].title == old[i].title
            &&& new[i].desc == old[i].desc
            &&& new[i].priority == old[i].priority
            &&& new[i].status == old[i].status
            &&& new[i].due == old[i].due
            &&& new[i].tags == old[i].tags
            &&& set_rel(old[i].children@, new[i].children@, path.drop_first(), leaf)
        }
    }
}

pub proof fn lemma_set_rel(old: Seq<Task>, new: Seq<Task>, path: Seq<usize>, leaf: Task)
    requires
        set_rel(old, new, path, leaf),
    ensures
        forest_view(new) == forest_set(forest_view(old), path, leaf@),
    decreases path.len(),
{
    if path.len() == 0 || path[0] >= old.len() {
    } else {
        let i = path[0] as int;
        if path.len() == 1 {
            assert(forest_view(new) =~= forest_set(forest_view(old), path, leaf@));
        } else {
            lemma_set_rel(old[i].children@, new[i].children@, path.drop_first(), leaf);
            lemma_children_view(new[i]);
            lemma_children_view(old[i]);
            assert(new[i]@.tags =~= old[i]@.tags);
            assert(forest_view(new) =~= forest_set(forest_view(old), path, leaf@));
        }
    }
}

/// A mutable reference to the task at `path[k..]`.
pub fn task_mut_at<'a>(tasks: &'a mut Vec<Task>, path: &[usize], k: usize) -> (r: &'a mut Task)
    requires
        k < path@.len(),
        forest_at(forest_view(old(tasks)@), path@.skip(k as int)) is Some,
    ensures
        r@ == forest_at(forest_view(old(tasks)@), path@.skip(k as int))->0,
        exec_at(old(tasks)@, path@.skip(k as int)) == Some(*r),
        set_rel(old(tasks)@, final(tasks)@, path@.skip(k as int), *final(r)),
    decreases path@.len() - k,
{
    let i = path[k];
    assert(path@.skip(k as int)[0] == i);
    if k + 1 == path.len() {
        &mut tasks[i]
    } else {
        assert(path@.skip(k as int).drop_first() =~= path@.skip(k + 1));
        proof {
            lemma_children_view(tasks@[i as int]);
        }
        task_mut_at(&mut tasks[i].children, path, k + 1)
    }
}

/// The task value (an exec `Task`) at `path` in `s`.
pub open spec fn exec_at(s: Seq<Task>, path: Seq<usize>) -> Option<Task>
    decreases path.len(),
{
    if path.len() == 0 || path[0] >= s.len() {
        None
    } else if path.len() == 1 {
        Some(s[path[0] as int])
    } else {
        exec_at(s[path[0] as int].children@, path.drop_first())
    }
}

/// How an exec list relates to its old value when the children below
/// `parent` became `cs` (the root list itself for the empty path).
pub open spec fn children_rel(old: Seq<Task>, new: Seq<Task>, parent: Seq<usize>, cs: Vec<Task>) -> bool {
    if parent.len() == 0 {
        new == cs@
    } else {
        exists|leaf: Task|
            {
                &&& set_rel(old, new, parent, leaf)
                &&& leaf.children == cs
                &&& exec_at(old, parent) matches Some(o) && leaf.id == o.id && leaf.title == o.title
                    && leaf.desc == o.desc && leaf.priority == o.priority && leaf.status == o.status
                    && leaf.due == o.due && leaf.tags == o.tags
            }
    }
}

pub proof fn lemma_exec_at(s: Seq<Task>, path: Seq<usize>)
    ensures
        match exec_at(s, path) {
            Some(t) => forest_at(forest_view(s), path) == Some(t@),
            None => forest_at(forest_view(s), path) is None,
        },
    decreases path.len(),
{
    if path.len() == 0 || path[0] >= s.len() {
    } else if path.len() == 1 {
    } else {
        lemma_children_view(s[path[0] as int]);
        lemma_exec_at(s[path[0] as int].children@, path.drop_first());
    }
}

pub proof fn lemma_children_rel(old: Seq<Task>, new: Seq<Task>, parent: Seq<usize>, cs: Vec<Task>)
    requires
        children_rel(old, new, parent, cs),
        children_at(forest_view(old), parent) is Some,
    ensures
        forest_view(new) == set_children_at(forest_view(old), parent, forest_view(cs@)),
{
    if parent.len() > 0 {
        let leaf = choose|leaf: Task|
            {
                &&& set_rel(old, new, parent, leaf)
                &&& leaf.children == cs
                &&& exec_at(old, parent) matches Some(o) && leaf.id == o.id && leaf.title == o.title
                    && leaf.desc == o.desc && leaf.priority == o.priority && leaf.status == o.status
                    && leaf.due == o.due && leaf.tags == o.tags
            };
        lemma_set_rel(old, new, parent, leaf);
        lemma_exec_at(old, parent);
        lemma_children_view(leaf);
        let o = exec_at(old, parent)->0;
        assert(leaf@.tags =~= o@.tags);
        assert(leaf@ == TaskView { children: forest_view(cs@), ..o@ });
    }
}

/// A mutable reference to the list of children below `parent` (the root list for the empty path).
pub fn children_mut_at<'a>(tasks: &'a mut Vec<Task>, parent: &[usize]) -> (r: &'a mut Vec<Task>)
    requires
        children_at(forest_view(old(tasks)@), parent@) is Some,
    ensures
        forest_view(r@) == children_at(forest_view(old(tasks)@), parent@)->0,
        children_rel(old(tasks)@, final(tasks)@, parent@, *final(r)),
{
    if parent.len() == 0 {
        tasks
    } else {
        assert(parent@.skip(0) =~= parent@);
        proof {
            lemma_exec_at(old(tasks)@, parent@);
        }
        let t = task_mut_at(tasks, parent, 0);
        proof {
            lemma_children_view(*t);
        }
        &mut t.children
    }
}

/// The task at `path`, if the path leads to one.
pub fn task_at<'a>(tasks: &'a Vec<Task>, path: &[usize]) -> (r: Option<&'a Task>)
    ensures
        r is Some <==> forest_at(forest_view(tasks@), path@) is Some,
        r matches Some(t) ==> forest_at(forest_view(tasks@), path@) == Some(t@),
{
    if path.len() == 0 {
        return None;
    }
    assert(path@.skip(0) =~= path@);
    task_at_from(tasks, path, 0)
}

fn task_at_from<'a>(tasks: &'a Vec<Task>, path: &[usize], k: usize) -> (r: Option<&'a Task>)
    requires
        k < path@.len(),
    ensures
        r is Some <==> forest_at(forest_view(tasks@), path@.skip(k as int)) is Some,
        r matches Some(t) ==> forest_at(forest_view(tasks@), path@.skip(k as int)) == Some(t@),
    decreases path@.len() - k,
{
    let i = path[k];
    assert(path@.skip(k as int)[0] == i);
    if i >= tasks.len() {
        return None;
    }
    if k + 1 == path.len() {
        Some(&tasks[i])
    } else {
        assert(path@.skip(k as int).drop_first() =~= path@.skip(k + 1));
        proof {
            lemma_children_view(tasks@[i as int]);
        }
        task_at_from(&tasks[i].children, path, k + 1)
    }
}

/// The path of the first task (in pre-order) whose id is `id`, relative to `t`:
/// the empty path for `t` itself.
pub open spec fn tree_find(t: TaskView, id: u64) -> Option<Seq<usize>>
    decreases t,
{
    if t.id == id {
        Some(Seq::empty())
    } else {
        forest_find(t.children, id)
    }
}

/// The path of the first task (in pre-order) in the list `s` whose id is `id`.
pub open spec fn forest_find(s: Seq<TaskView>, id: u64) -> Option<Seq<usize>>
    decreases s,
{
    if s.len() == 0 {
        None
    } else {
        match forest_find(s.drop_last(), id) {
            Some(p) => Some(p),
            None => match tree_find(s.last(), id) {
                Some(q) => Some(seq![(s.len() - 1) as usize] + q),
                None => None,
            },
        }
    }
}

/// The ids of `t` and every task below it.
pub open spec fn tree_ids(t: TaskView) -> Set<u64>
    decreases t,
{
    forest_ids(t.children).insert(t.id)
}

/// The ids of every task in the list `s` and below.
pub open spec fn forest_ids(s: Seq<TaskView>) -> Set<u64>
    decreases s,
{
    if s.len() == 0 {
        Set::empty()
    } else {
        forest_ids(s.drop_last()).union(tree_ids(s.last()))
    }
}

/// The number of tasks in `t`'s subtree, `t` included.
pub open spec fn tree_size(t: TaskView) -> nat
    decreases t,
{
    1 + forest_size(t.children)
}

/// The number of tasks in the list `s` and below (`count_all`).
pub open spec fn forest_size(s: Seq<TaskView>) -> nat
    decreases s,
{
    if s.len() == 0 {
        0
    } else {
        forest_size(s.drop_last()) + tree_size(s.last())
    }
}

/// The number of done tasks in `t`'s subtree.
pub open spec fn tree_done(t: TaskView) -> nat
    decreases t,
{
    (if t.status == Status::Done {
        1nat
    } else {
        0nat
    }) + forest_done(t.children)
}

/// The number of done tasks in the list `s` and below (`count_done`).
pub open spec fn forest_done(s: Seq<TaskView>) -> nat
    decreases s,
{
    if s.len() == 0 {
        0
    } else {
        forest_done(s.drop_last()) + tree_done(s.last())
    }
}

/// `n`, or `usize::MAX` when it does not fit.
pub open spec fn cap(n: nat) -> nat {
    if n > usize::MAX {
        usize::MAX as nat
    } else {
        n
    }
}

/// The path of the first task whose id is `target` (pre-order search).
pub fn find_path(tasks: &Vec<Task>, target: u64) -> (r: Option<Vec<usize>>)
    ensures
        match r {
            Some(p) => forest_find(forest_view(tasks@), target) == Some(p@),
            None => forest_find(forest_view(tasks@), target) is None,
        },
        r matches Some(p) ==> (forest_at(forest_view(tasks@), p@) matches Some(x) && x.id
            == target),
    decreases tasks@,
{
    let ghost s = forest_view(tasks@);
    let mut i: usize = 0;
    while i < tasks.len()
        invariant
            i <= tasks@.len(),
            s == forest_view(tasks@),
            forest_find(s.take(i as int), target) is None,
        decreases tasks@.len() - i,
    {
        assert(s.take(i + 1).drop_last() =~= s.take(i as int));
        assert(s.take(i + 1).last() == tasks@[i as int]@);
        if tasks[i].id == target {
            let mut p: Vec<usize> = Vec::new();
            p.push(i);
            proof {
                assert(tree_find(s.take(i + 1).last(), target) == Some(Seq::<usize>::empty()));
                assert(forest_find(s.take(i + 1), target) == Some(
                    seq![i] + Seq::<usize>::empty(),
                ));
                lemma_find_prefix(s, i as int + 1, target);
                assert(seq![i] + Seq::<usize>::empty() =~= p@);
            }
            return Some(p);
        }
        assert(decreases_to!(tasks@ => tasks@[i as int]));
        assert(decreases_to!(tasks@[i as int] => tasks@[i as int].children));
        let sub = find_path(&tasks[i].children, target);
        proof {
            lemma_children_view(tasks@[i as int]);
        }
        match sub {
            Some(q) => {
                let mut p: Vec<usize> = Vec::new();
                p.push(i);
                let mut j: usize = 0;
                while j < q.len()
                    invariant
                        j <= q@.len(),
                        p@ == seq![i] + q@.take(j as int),
                    decreases q@.len() - j,
                {
                    p.push(q[j]);
                    j += 1;
                    assert(p@ =~= seq![i] + q@.take(j as int));
                }
                proof {
                    assert(q@.take(j as int) =~= q@);
                    assert(tree_find(s.take(i + 1).last(), target) == Some(q@));
                    assert(forest_find(s.take(i + 1), target) == Some(seq![i] + q@));
                    lemma_find_prefix(s, i as int + 1, target);
                    assert(p@.drop_first() =~= q@);
                    assert(p@[0] == i);
                }
                return Some(p);
            },
            None => {},
        }
        i += 1;
    }
    assert(s.take(i as int) =~= s);
    None
}

/// A search that succeeds in a prefix of the list gives the same path on the whole list.
pub proof fn lemma_find_prefix(s: Seq<TaskView>, n: int, id: u64)
    requires
        0 <= n <= s.len(),
        forest_find(s.take(n), id) is Some,
    ensures
        forest_find(s, id) == forest_find(s.take(n), id),
    decreases s.len() - n,
{
    if n < s.len() {
        assert(s.take(n + 1).drop_last() =~= s.take(n));
        lemma_find_prefix(s, n + 1, id);
    } else {
        assert(s.take(n) =~= s);
    }
}

/// The number of tasks in the list and below, saturating at `usize::MAX`.
pub fn count_all(tasks: &Vec<Task>) -> (n: usize)
    ensures
        n == cap(forest_size(forest_view(tasks@))),
    decreases tasks@,
{
    let ghost s = forest_view(tasks@);
    let mut n: usize = 0;
    let mut i: usize = 0;
    while i < tasks.len()
        invariant
            i <= tasks@.len(),
            s == forest_view(tasks@),
            n == cap(forest_size(s.take(i as int))),
        decreases tasks@.len() - i,
    {
        assert(s.take(i + 1).drop_last() =~= s.take(i as int));
        assert(decreases_to!(tasks@ => tasks@[i as int]));
        assert(decreases_to!(tasks@[i as int] => tasks@[i as int].children));
        let c = count_all(&tasks[i].children);
        proof {
            lemma_children_view(tasks@[i as int]);
        }
        assert(tree_size(tasks@[i as int]@) == 1 + forest_size(tasks@[i as int]@.children));
        assert(forest_size(s.take(i + 1)) == forest_size(s.take(i + 1).drop_last()) + tree_size(s.take(i + 1).last()));
        assert(forest_size(s.take(i + 1)) == forest_size(s.take(i as int)) + 1 + forest_size(
            forest_view(tasks@[i as int].children@),
        ));
        n = n.saturating_add(1).saturating_add(c);
        i += 1;
    }
    assert(s.take(i as int) =~= s);
    n
}

/// The number of done tasks in the list and below, saturating at `usize::MAX`.
pub fn count_done(tasks: &Vec<Task>) -> (n: usize)
    ensures
        n == cap(forest_done(forest_view(tasks@))),
    decreases tasks@,
{
    let ghost s = forest_view(tasks@);
    let mut n: usize = 0;
    let mut i: usize = 0;
    while i < tasks.len()
        invariant
            i <= tasks@.len(),
            s == forest_view(tasks@),
            n == cap(forest_done(s.take(i as int))),
        decreases tasks@.len() - i,
    {
        assert(s.take(i + 1).drop_last() =~= s.take(i as int));
        assert(decreases_to!(tasks@ => tasks@[i as int]));
        assert(decreases_to!(tasks@[i as int] => tasks@[i as int].children));
        let c = count_done(&tasks[i].children);
        proof {
            lemma_children_view(tasks@[i as int]);
        }
        let own: usize = if tasks[i].status == Status::Done {
            1
        } else {
            0
        };
        assert(tree_done(tasks@[i as int]@) == own + forest_done(tasks@[i as int]@.children));
        assert(forest_done(s.take(i + 1)) == forest_done(s.take(i + 1).drop_last()) + tree_done(s.take(i + 1).last()));
        assert(forest_done(s.take(i + 1)) == forest_done(s.take(i as int)) + own + forest_done(
            forest_view(tasks@[i as int].children@),
        ));
        n = n.saturating_add(own).saturating_add(c);
        i += 1;
    }
    assert(s.take(i as int) =~= s);
    n
}

} // verus!
