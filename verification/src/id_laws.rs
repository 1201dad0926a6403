//! Task ids stay distinct: the ids of the tree counted through the edits
//! that add, remove, copy, and move tasks.
use vstd::prelude::*;
use crate::app::sanitize::{forest_pre, tree_pre};
use crate::forest::{children_at, forest_at, forest_set, set_children_at};
use crate::model::TaskView;
use crate::app::manipulate::{
    add_result, delete_result, indent_list, lemma_path_prefix, move_list, new_task_view, outdent_list,
};
use crate::laws::{law_duplicate_numbers_from_next_id, lemma_forest_pre_le_max};
use crate::app::duplicate::{dup_result, renumber_tree};
use crate::forest::tree_size;
use crate::tree_walk::forest_max_id;

verus! {

broadcast use {vstd::multiset::group_multiset_axioms, vstd::seq_lib::group_to_multiset_ensures};

/// How often `x` occurs among the ids of the list `s` and below.
pub open spec fn id_count(s: Seq<TaskView>, x: u64) -> nat {
    forest_pre(s).to_multiset().count(x)
}

/// How often `x` occurs among the ids of `t`'s subtree.
pub open spec fn tree_id_count(t: TaskView, x: u64) -> nat {
    tree_pre(t).to_multiset().count(x)
}

/// Occurrences in a concatenation add up.
proof fn lemma_count_concat(a: Seq<u64>, b: Seq<u64>)
    ensures
        forall|x: u64|
            #[trigger] (a + b).to_multiset().count(x) == a.to_multiset().count(x) + b.to_multiset().count(
                x,
            ),
{
    vstd::seq_lib::lemma_multiset_commutative(a, b);
}

/// The pre-order ids of two lists, one after the other.
proof fn lemma_pre_concat(a: Seq<TaskView>, b: Seq<TaskView>)
    ensures
        forest_pre(a + b) == forest_pre(a) + forest_pre(b),
    decreases b.len(),
{
    if b.len() == 0 {
        assert(a + b =~= a);
        assert(forest_pre(a) + forest_pre(b) =~= forest_pre(a));
    } else {
        lemma_pre_concat(a, b.drop_last());
        assert((a + b).drop_last() =~= a + b.drop_last());
        assert((a + b).last() == b.last());
        assert(forest_pre(a) + forest_pre(b.drop_last()) + tree_pre(b.last()) =~= forest_pre(a) + (
        forest_pre(b.drop_last()) + tree_pre(b.last())));
    }
}

/// Ids of two lists one after the other add up.
proof fn lemma_count_lists(a: Seq<TaskView>, b: Seq<TaskView>)
    ensures
        forall|x: u64| #[trigger] id_count(a + b, x) == id_count(a, x) + id_count(b, x),
{
    lemma_pre_concat(a, b);
    lemma_count_concat(forest_pre(a), forest_pre(b));
}

/// The ids of a one-task list are those of its subtree.
proof fn lemma_count_single(t: TaskView)
    ensures
        forall|x: u64| #[trigger] id_count(seq![t], x) == tree_id_count(t, x),
{
    assert(seq![t].drop_last() =~= Seq::<TaskView>::empty());
    assert(forest_pre(seq![t]) == forest_pre(Seq::<TaskView>::empty()) + tree_pre(t));
    assert(forest_pre(seq![t]) =~= tree_pre(t));
}

/// A subtree's ids: its own and its children's.
proof fn lemma_tree_count(t: TaskView)
    ensures
        forall|x: u64|
            #[trigger] tree_id_count(t, x) == (if x == t.id {
                1nat
            } else {
                0nat
            }) + id_count(t.children, x),
{
    let one = seq![t.id];
    assert(tree_pre(t) == one + forest_pre(t.children));
    lemma_count_concat(one, forest_pre(t.children));
    assert(one =~= Seq::<u64>::empty().push(t.id));
    assert(Seq::<u64>::empty().to_multiset() =~= vstd::multiset::Multiset::<u64>::empty());
}

/// Replacing the task at `i` trades its subtree's ids for those of `t`.
proof fn lemma_count_update(s: Seq<TaskView>, i: int, t: TaskView)
    requires
        0 <= i < s.len(),
    ensures
        forall|x: u64|
            #[trigger] id_count(s.update(i, t), x) + tree_id_count(s[i], x) == id_count(s, x)
                + tree_id_count(t, x),
{
    let l = s.take(i);
    let r = s.skip(i + 1);
    assert(s =~= l + seq![s[i]] + r);
    assert(s.update(i, t) =~= l + seq![t] + r);
    lemma_count_lists(l + seq![s[i]], r);
    lemma_count_lists(l, seq![s[i]]);
    lemma_count_lists(l + seq![t], r);
    lemma_count_lists(l, seq![t]);
    lemma_count_single(s[i]);
    lemma_count_single(t);
}

/// Inserting a task adds its subtree's ids.
proof fn lemma_count_insert(s: Seq<TaskView>, i: int, t: TaskView)
    requires
        0 <= i <= s.len(),
    ensures
        forall|x: u64| #[trigger] id_count(s.insert(i, t), x) == id_count(s, x) + tree_id_count(t, x),
{
    let l = s.take(i);
    let r = s.skip(i);
    assert(s =~= l + r);
    assert(s.insert(i, t) =~= l + seq![t] + r);
    lemma_count_lists(l, r);
    lemma_count_lists(l + seq![t], r);
    lemma_count_lists(l, seq![t]);
    lemma_count_single(t);
}

/// Removing a task drops its subtree's ids.
proof fn lemma_count_remove(s: Seq<TaskView>, i: int)
    requires
        0 <= i < s.len(),
    ensures
        forall|x: u64| #[trigger] id_count(s.remove(i), x) + tree_id_count(s[i], x) == id_count(s, x),
{
    let l = s.take(i);
    let r = s.skip(i + 1);
    assert(s =~= l + seq![s[i]] + r);
    assert(s.remove(i) =~= l + r);
    lemma_count_lists(l + seq![s[i]], r);
    lemma_count_lists(l, seq![s[i]]);
    lemma_count_lists(l, r);
    lemma_count_single(s[i]);
}

/// Setting the task at `path` trades its subtree's ids for those of `t`.
proof fn lemma_count_set(s: Seq<TaskView>, path: Seq<usize>, t: TaskView)
    requires
        forest_at(s, path) is Some,
    ensures
        forall|x: u64|
            #[trigger] id_count(forest_set(s, path, t), x) + tree_id_count(forest_at(s, path)->0, x)
                == id_count(s, x) + tree_id_count(t, x),
    decreases path.len(),
{
    let i = path[0] as int;
    if path.len() == 1 {
        lemma_count_update(s, i, t);
    } else {
        let c = s[i];
        let rest = path.drop_first();
        lemma_count_set(c.children, rest, t);
        let c2 = TaskView { children: forest_set(c.children, rest, t), ..c };
        lemma_tree_count(c);
        lemma_tree_count(c2);
        lemma_count_update(s, i, c2);
        assert(forest_set(s, path, t) == s.update(i, c2));
        assert(forest_at(s, path) == forest_at(c.children, rest));
    }
}

/// Replacing the children below `parent` trades their ids for those of `cs2`.
proof fn lemma_count_set_children(s: Seq<TaskView>, parent: Seq<usize>, cs2: Seq<TaskView>)
    requires
        children_at(s, parent) is Some,
    ensures
        forall|x: u64|
            #[trigger] id_count(set_children_at(s, parent, cs2), x) + id_count(
                children_at(s, parent)->0,
                x,
            ) == id_count(s, x) + id_count(cs2, x),
{
    if parent.len() > 0 {
        let p = forest_at(s, parent)->0;
        let p2 = TaskView { children: cs2, ..p };
        lemma_count_set(s, parent, p2);
        lemma_tree_count(p);
        lemma_tree_count(p2);
    }
}

/// Distinct ids are ids counted at most once.
proof fn lemma_distinct_counts(s: Seq<TaskView>)
    ensures
        forest_pre(s).no_duplicates() <==> forall|x: u64| #[trigger] id_count(s, x) <= 1,
{
    let q = forest_pre(s);
    if q.no_duplicates() {
        q.lemma_multiset_has_no_duplicates();
        assert forall|x: u64| #[trigger] id_count(s, x) <= 1 by {
            if q.to_multiset().contains(x) {
                assert(q.to_multiset().count(x) == 1);
            }
        }
    }
    if forall|x: u64| #[trigger] id_count(s, x) <= 1 {
        assert forall|x: u64| q.to_multiset().contains(x) implies q.to_multiset().count(x) == 1 by {
            assert(id_count(s, x) <= 1);
        }
        q.lemma_multiset_has_no_duplicates_conv();
    }
}

/// An id above the largest id of `s` does not occur in it.
proof fn lemma_count_above_max(s: Seq<TaskView>, x: u64)
    requires
        forest_max_id(s) < x,
    ensures
        id_count(s, x) == 0,
{
    lemma_forest_pre_le_max(s);
    let q = forest_pre(s);
    if q.to_multiset().count(x) > 0 {
        assert(q.contains(x));
        let i = choose|i: int| 0 <= i < q.len() && q[i] == x;
        assert(q[i] <= forest_max_id(s));
    }
}

/// The ids of a new task: its own, once.
proof fn lemma_new_task_count(id: u64, title: Seq<char>)
    ensures
        forall|x: u64|
            #[trigger] tree_id_count(new_task_view(id, title), x) == (if x == id {
                1nat
            } else {
                0nat
            }),
{
    let t = new_task_view(id, title);
    lemma_tree_count(t);
    assert(forest_pre(t.children) =~= Seq::<u64>::empty());
    assert(forest_pre(t.children).to_multiset() =~= vstd::multiset::Multiset::<u64>::empty());
}

/// Adding a task keeps ids distinct: when the tree's ids are distinct and
/// all below the next id `id`, the tree after `add_task` (sibling or child,
/// wherever the selection puts it) still has distinct ids.
pub proof fn law_add_keeps_ids_unique(
    s: Seq<TaskView>,
    sel: Seq<usize>,
    expanded: Set<u64>,
    as_child: bool,
    id: u64,
    title: Seq<char>,
)
    requires
        forest_pre(s).no_duplicates(),
        forest_max_id(s) < id,
    ensures
        forest_pre(add_result(s, sel, expanded, as_child, new_task_view(id, title)).0).no_duplicates(),
{
    let t = new_task_view(id, title);
    let res = add_result(s, sel, expanded, as_child, t).0;
    lemma_distinct_counts(s);
    lemma_new_task_count(id, title);
    lemma_count_above_max(s, id);
    if sel.len() == 0 || s.len() == 0 {
        assert(res =~= s + seq![t]);
        lemma_count_lists(s, seq![t]);
        lemma_count_single(t);
    } else if as_child {
        if forest_at(s, sel) is Some {
            let cs = children_at(s, sel)->0;
            assert(cs.push(t) =~= cs.insert(cs.len() as int, t));
            lemma_count_set_children(s, sel, cs.push(t));
            lemma_count_insert(cs, cs.len() as int, t);
        }
    } else {
        let parent = sel.drop_last();
        match children_at(s, parent) {
            Some(cs) => {
                let at = if sel.last() < cs.len() {
                    sel.last() + 1
                } else {
                    cs.len() as int
                };
                lemma_count_set_children(s, parent, cs.insert(at, t));
                lemma_count_insert(cs, at, t);
            },
            None => {},
        }
    }
    assert forall|x: u64| #[trigger] id_count(res, x) <= 1 by {
        assert(id_count(s, x) <= 1);
    }
    lemma_distinct_counts(res);
}

/// Deleting a task keeps ids distinct.
pub proof fn law_delete_keeps_ids_unique(s: Seq<TaskView>, sel: Seq<usize>)
    requires
        forest_pre(s).no_duplicates(),
        forest_at(s, sel) is Some,
    ensures
        forest_pre(delete_result(s, sel)).no_duplicates(),
{
    let parent = sel.drop_last();
    if sel.len() > 1 {
        lemma_path_prefix(s, sel);
    } else {
        assert(sel =~= seq![sel[0]]);
    }
    let cs = children_at(s, parent)->0;
    assert(children_at(s, parent) is Some);
    assert(sel.last() < cs.len());
    let idx = sel.last() as int;
    lemma_distinct_counts(s);
    lemma_count_set_children(s, parent, cs.remove(idx));
    lemma_count_remove(cs, idx);
    let res = delete_result(s, sel);
    assert forall|x: u64| #[trigger] id_count(res, x) <= 1 by {
        assert(id_count(s, x) <= 1);
    }
    lemma_distinct_counts(res);
}

/// Moving a task among its siblings keeps the ids as they were, each as
/// often as before.
pub proof fn law_move_keeps_ids(s: Seq<TaskView>, parent: Seq<usize>, idx: int, to: int)
    requires
        children_at(s, parent) is Some,
        0 <= idx < children_at(s, parent)->0.len(),
        0 <= to < children_at(s, parent)->0.len(),
    ensures
        forall|x: u64|
            #[trigger] id_count(
                set_children_at(s, parent, move_list(children_at(s, parent)->0, idx, to)),
                x,
            ) == id_count(s, x),
{
    let cs = children_at(s, parent)->0;
    let removed = cs.remove(idx);
    lemma_count_remove(cs, idx);
    lemma_count_insert(removed, to, cs[idx]);
    lemma_count_set_children(s, parent, move_list(cs, idx, to));
}

/// Duplicating a task keeps ids distinct: when the tree's ids are distinct
/// and all below the next id `start`, the tree with the copy (numbered from
/// `start`) inserted after the original still has distinct ids.
pub proof fn law_duplicate_keeps_ids_unique(s: Seq<TaskView>, sel: Seq<usize>, start: int)
    requires
        forest_pre(s).no_duplicates(),
        forest_at(s, sel) is Some,
        forest_max_id(s) < start,
        start + tree_size(forest_at(s, sel)->0) <= u64::MAX,
    ensures
        forest_pre(dup_result(s, sel, renumber_tree(forest_at(s, sel)->0, start)).0).no_duplicates(),
{
    let t = forest_at(s, sel)->0;
    let copy = renumber_tree(t, start);
    let parent = sel.drop_last();
    if sel.len() > 1 {
        lemma_path_prefix(s, sel);
    } else {
        assert(sel =~= seq![sel[0]]);
    }
    let cs = children_at(s, parent)->0;
    assert(children_at(s, parent) is Some);
    let at = if sel.last() < cs.len() {
        sel.last() + 1
    } else {
        cs.len() as int
    };
    lemma_distinct_counts(s);
    lemma_count_set_children(s, parent, cs.insert(at, copy));
    lemma_count_insert(cs, at, copy);
    law_duplicate_numbers_from_next_id(t, start);
    let q = tree_pre(copy);
    assert forall|i: int, j: int| 0 <= i < q.len() && 0 <= j < q.len() && i != j implies q[i]
        != q[j] by {}
    q.lemma_multiset_has_no_duplicates();
    lemma_forest_pre_le_max(s);
    let res = dup_result(s, sel, copy).0;
    assert forall|x: u64| #[trigger] id_count(res, x) <= 1 by {
        if tree_id_count(copy, x) > 0 {
            assert(q.contains(x));
            let i = choose|i: int| 0 <= i < q.len() && q[i] == x;
            assert(x >= start);
            if id_count(s, x) > 0 {
                assert(forest_pre(s).contains(x));
                let j = choose|j: int| 0 <= j < forest_pre(s).len() && forest_pre(s)[j] == x;
                assert(forest_pre(s)[j] <= forest_max_id(s));
            }
            assert(q.to_multiset().contains(x));
        }
        assert(id_count(s, x) <= 1);
    }
    lemma_distinct_counts(res);
}

/// Indenting a task under its previous sibling keeps the ids as they were,
/// each as often as before.
pub proof fn law_indent_keeps_ids(s: Seq<TaskView>, parent: Seq<usize>, last: int)
    requires
        children_at(s, parent) is Some,
        0 < last < children_at(s, parent)->0.len(),
    ensures
        forall|x: u64|
            #[trigger] id_count(
                set_children_at(s, parent, indent_list(children_at(s, parent)->0, last)),
                x,
            ) == id_count(s, x),
{
    let cs = children_at(s, parent)->0;
    let t = cs[last];
    let r = cs.remove(last);
    let p = r[last - 1];
    let p2 = TaskView { children: p.children.push(t), ..p };
    lemma_count_remove(cs, last);
    lemma_count_update(r, last - 1, p2);
    lemma_tree_count(p);
    lemma_tree_count(p2);
    assert(p.children.push(t) =~= p.children.insert(p.children.len() as int, t));
    lemma_count_insert(p.children, p.children.len() as int, t);
    lemma_count_set_children(s, parent, indent_list(cs, last));
}

/// Outdenting a task to follow its parent keeps the ids as they were, each
/// as often as before.
pub proof fn law_outdent_keeps_ids(s: Seq<TaskView>, grand: Seq<usize>, pi: int, ci: int)
    requires
        children_at(s, grand) is Some,
        0 <= pi < children_at(s, grand)->0.len(),
        0 <= ci < children_at(s, grand)->0[pi].children.len(),
    ensures
        forall|x: u64|
            #[trigger] id_count(
                set_children_at(s, grand, outdent_list(children_at(s, grand)->0, pi, ci)),
                x,
            ) == id_count(s, x),
{
    let cs = children_at(s, grand)->0;
    let p = cs[pi];
    let t = p.children[ci];
    let p2 = TaskView { children: p.children.remove(ci), ..p };
    let r = cs.update(pi, p2);
    lemma_count_remove(p.children, ci);
    lemma_tree_count(p);
    lemma_tree_count(p2);
    lemma_count_update(cs, pi, p2);
    lemma_count_insert(r, pi + 1, t);
    lemma_count_set_children(s, grand, outdent_list(cs, pi, ci));
}

/// Edits that keep every id's count keep ids distinct.
pub proof fn law_same_counts_keep_ids_unique(s: Seq<TaskView>, s2: Seq<TaskView>)
    requires
        forest_pre(s).no_duplicates(),
        forall|x: u64| #[trigger] id_count(s2, x) == id_count(s, x),
    ensures
        forest_pre(s2).no_duplicates(),
{
    lemma_distinct_counts(s);
    lemma_distinct_counts(s2);
}

} // verus!
