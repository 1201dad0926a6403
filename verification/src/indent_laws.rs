//! Outdent undoes indent on the whole application state: with distinct ids,
//! indenting the selected task and then outdenting it gives back the tree
//! and the selection.
use vstd::prelude::*;
use crate::model::TaskView;
use crate::forest::{children_at, forest_at, forest_find, set_children_at, tree_find};
use crate::app::sanitize::{forest_pre, tree_pre};
use crate::app::state::App;
use crate::app::manipulate::{indent_list, indented, outdent_list, outdented, lemma_path_prefix};
use crate::app::rel::{committed, edited};
use crate::app::undo::{dirtied_with, undo_pushed};
use crate::app::visibility::{lemma_rebuild_keeps, lemma_rebuild_keeps_selection, rebuild_rel, reselect};
use crate::laws::{law_outdent_undoes_indent, lists_fit, lemma_vec_lists_fit};
use crate::id_laws::{law_indent_keeps_ids, law_same_counts_keep_ids_unique};
use crate::row_laws::{lemma_lists_fit_at, lemma_lists_fit_elem};

verus! {

/// A sequence without repeats splits into two without repeats that share nothing.
proof fn lemma_no_dup_concat(a: Seq<u64>, b: Seq<u64>)
    requires
        (a + b).no_duplicates(),
    ensures
        a.no_duplicates(),
        b.no_duplicates(),
        forall|x: u64| a.contains(x) ==> !b.contains(x),
{
    let ab = a + b;
    assert forall|i: int, j: int| 0 <= i < a.len() && 0 <= j < a.len() && i != j implies a[i]
        != a[j] by {
        assert(ab[i] == a[i] && ab[j] == a[j]);
    }
    assert forall|i: int, j: int| 0 <= i < b.len() && 0 <= j < b.len() && i != j implies b[i]
        != b[j] by {
        assert(ab[a.len() + i] == b[i] && ab[a.len() + j] == b[j]);
    }
    assert forall|x: u64| a.contains(x) implies !b.contains(x) by {
        let i = choose|i: int| 0 <= i < a.len() && a[i] == x;
        if b.contains(x) {
            let j = choose|j: int| 0 <= j < b.len() && b[j] == x;
            assert(ab[i] == ab[a.len() + j]);
        }
    }
}

/// Every id of an entry's subtree occurs in the ids of the list.
proof fn lemma_elem_pre(s: Seq<TaskView>, i: int, x: u64)
    requires
        0 <= i < s.len(),
        tree_pre(s[i]).contains(x),
    ensures
        forest_pre(s).contains(x),
    decreases s.len(),
{
    let dl = s.drop_last();
    let a = forest_pre(dl);
    let b = tree_pre(s.last());
    assert(forest_pre(s) == a + b);
    if i == s.len() - 1 {
        let k = choose|k: int| 0 <= k < b.len() && b[k] == x;
        assert((a + b)[a.len() + k] == x);
    } else {
        assert(dl[i] == s[i]);
        lemma_elem_pre(dl, i, x);
        let k = choose|k: int| 0 <= k < a.len() && a[k] == x;
        assert((a + b)[k] == x);
    }
}

/// The id of the task a path leads to occurs in the ids of the list.
proof fn lemma_at_in_pre(s: Seq<TaskView>, p: Seq<usize>)
    requires
        forest_at(s, p) is Some,
    ensures
        forest_pre(s).contains(forest_at(s, p)->0.id),
    decreases p.len(),
{
    let i = p[0] as int;
    let t = s[i];
    let x = forest_at(s, p)->0.id;
    let tp = tree_pre(t);
    if p.len() == 1 {
        assert(tp[0] == t.id);
    } else {
        lemma_at_in_pre(t.children, p.drop_first());
        let fc = forest_pre(t.children);
        let k = choose|k: int| 0 <= k < fc.len() && fc[k] == x;
        assert(tp[k + 1] == x);
    }
    lemma_elem_pre(s, i, x);
}

/// A search by id finds a task with that id.
proof fn lemma_find_in_pre(s: Seq<TaskView>, id: u64)
    requires
        lists_fit(s),
        forest_find(s, id) is Some,
    ensures
        forest_pre(s).contains(id),
    decreases s,
{
    let n = s.len() - 1;
    let dl = s.drop_last();
    let a = forest_pre(dl);
    let b = tree_pre(s.last());
    assert(forest_pre(s) == a + b);
    match forest_find(dl, id) {
        Some(_) => {
            lemma_find_in_pre(dl, id);
            let k = choose|k: int| 0 <= k < a.len() && a[k] == id;
            assert((a + b)[k] == id);
        },
        None => {
            let t = s.last();
            assert(tree_find(t, id) is Some);
            if t.id == id {
                assert((a + b)[a.len() as int] == id);
            } else {
                assert(decreases_to!(s => s[n]));
                assert(decreases_to!(s[n] => s[n].children));
                lemma_lists_fit_elem(s, n);
                lemma_find_in_pre(t.children, id);
                let fc = forest_pre(t.children);
                let k = choose|k: int| 0 <= k < fc.len() && fc[k] == id;
                assert(b[k + 1] == id);
                assert((a + b)[a.len() + k + 1] == id);
            }
        },
    }
}

/// With distinct ids, the search for the id of the task a path leads to
/// finds that path.
pub proof fn lemma_find_unique(s: Seq<TaskView>, p: Seq<usize>)
    requires
        lists_fit(s),
        forest_pre(s).no_duplicates(),
        forest_at(s, p) is Some,
    ensures
        forest_find(s, forest_at(s, p)->0.id) == Some(p),
    decreases s,
{
    let n = s.len() - 1;
    let dl = s.drop_last();
    let id = forest_at(s, p)->0.id;
    let i = p[0] as int;
    let a = forest_pre(dl);
    let b = tree_pre(s.last());
    assert(forest_pre(s) == a + b);
    lemma_no_dup_concat(a, b);
    assert(lists_fit(dl));
    if i < n {
        assert(dl[i] == s[i]);
        assert(forest_at(dl, p) == forest_at(s, p));
        lemma_find_unique(dl, p);
    } else {
        let t = s.last();
        // the id lies in the last subtree, so not before it
        if p.len() == 1 {
            assert(b[0] == id);
        } else {
            lemma_at_in_pre(t.children, p.drop_first());
            let fc = forest_pre(t.children);
            let k = choose|k: int| 0 <= k < fc.len() && fc[k] == id;
            assert(b[k + 1] == id);
        }
        assert(b.contains(id));
        if forest_find(dl, id) is Some {
            lemma_find_in_pre(dl, id);
        }
        assert(forest_find(dl, id) is None);
        if p.len() == 1 {
            assert(tree_find(t, id) == Some(Seq::<usize>::empty()));
            assert(seq![n as usize] + Seq::<usize>::empty() =~= p);
        } else {
            let fc = forest_pre(t.children);
            assert(b =~= seq![t.id] + fc);
            lemma_no_dup_concat(seq![t.id], fc);
            assert(seq![t.id][0] == t.id);
            assert(t.id != id);
            assert(decreases_to!(s => s[n]));
            assert(decreases_to!(s[n] => s[n].children));
            lemma_lists_fit_elem(s, n);
            lemma_find_unique(t.children, p.drop_first());
            assert(seq![n as usize] + p.drop_first() =~= p);
        }
    }
}

/// Extending a path by a child index leads to that child.
proof fn lemma_path_extend(s: Seq<TaskView>, q: Seq<usize>, k: usize)
    requires
        q.len() > 0,
        forest_at(s, q) is Some,
        k < forest_at(s, q)->0.children.len(),
    ensures
        forest_at(s, q.push(k)) == Some(forest_at(s, q)->0.children[k as int]),
    decreases q.len(),
{
    let i = q[0] as int;
    let r = q.push(k);
    assert(r[0] == q[0]);
    if q.len() == 1 {
        assert(r.drop_first() =~= seq![k]);
    } else {
        assert(r.drop_first() =~= q.drop_first().push(k));
        lemma_path_extend(s[i].children, q.drop_first(), k);
    }
}

/// The children list below a path's parent holds the task the path leads to.
proof fn lemma_children_of_parent(s: Seq<TaskView>, p: Seq<usize>)
    requires
        p.len() > 0,
        forest_at(s, p) is Some,
    ensures
        children_at(s, p.drop_last()) is Some,
        p.last() < children_at(s, p.drop_last())->0.len(),
        children_at(s, p.drop_last())->0[p.last() as int] == forest_at(s, p)->0,
{
    if p.len() > 1 {
        lemma_path_prefix(s, p);
    } else {
        assert(p.drop_last() =~= Seq::<usize>::empty());
    }
}

/// An undoable edit whose selection leads to a task of the edited tree with
/// distinct ids ends with that tree and that selection.
proof fn lemma_committed_lands(
    a: App,
    b: App,
    tasks: Seq<TaskView>,
    sel: Seq<usize>,
    expanded: Set<u64>,
    focus: Option<Seq<usize>>,
    next_id: u64,
    msg: Seq<char>,
)
    requires
        committed(a, b, tasks, sel, expanded, focus, next_id, msg),
        forest_pre(tasks).no_duplicates(),
        forest_at(tasks, sel) is Some,
    ensures
        b.forest() == tasks,
        b.sel() == sel,
{
    let (u, m, p, d) = choose|u: App, m: App, p: App, d: int|
        #![trigger undo_pushed(a, u), edited(u, m, tasks, sel, expanded, focus, next_id), rebuild_rel(m, p, d), dirtied_with(p, b, msg)]
        undo_pushed(a, u) && edited(u, m, tasks, sel, expanded, focus, next_id) && rebuild_rel(
            m,
            p,
            d,
        ) && dirtied_with(p, b, msg);
    lemma_rebuild_keeps(m, p, d);
    assert(b.tasks@.len() <= usize::MAX) by {
        broadcast use vstd::std_specs::vec::group_vec_axioms;

        assert(b.tasks.len() == b.tasks@.len());
    }
    lemma_vec_lists_fit(b.tasks@);
    lemma_find_unique(tasks, sel);
    assert(reselect(tasks, sel) == sel);
    lemma_rebuild_keeps_selection(m, p, d);
}

/// Outdent undoes indent: with distinct ids, indenting the selected task
/// (which has a previous sibling) and then outdenting it gives back the tree
/// and the selection.
pub proof fn law_indent_then_outdent(a: App, b: App, c: App)
    requires
        forest_pre(a.forest()).no_duplicates(),
        forest_at(a.forest(), a.sel()) is Some,
        a.sel().last() > 0,
        indented(a, b),
        outdented(b, c),
    ensures
        c.forest() == a.forest(),
        c.sel() == a.sel(),
{
    let s = a.forest();
    let sel = a.sel();
    assert(a.tasks@.len() <= usize::MAX) by {
        broadcast use vstd::std_specs::vec::group_vec_axioms;

        assert(a.tasks.len() == a.tasks@.len());
    }
    lemma_vec_lists_fit(a.tasks@);
    lemma_children_of_parent(s, sel);
    let parent = sel.drop_last();
    let last = sel.last() as int;
    let cs = children_at(s, parent)->0;
    let ncs = indent_list(cs, last);
    let s2 = set_children_at(s, parent, ncs);
    let ci = cs[last - 1].children.len() as int;
    assert(lists_fit(cs)) by {
        if parent.len() > 0 {
            lemma_lists_fit_at(s, parent);
        }
    }
    lemma_lists_fit_elem(cs, last - 1);
    assert(ci <= usize::MAX);
    let nsel = parent.push((last - 1) as usize).push(ci as usize);
    law_outdent_undoes_indent(s, parent, last);
    // the indented task sits at `nsel` in the new tree
    assert(ncs[last - 1].children[ci] == cs[last]);
    assert(forest_at(s2, nsel) == Some(cs[last])) by {
        let q = parent.push((last - 1) as usize);
        if parent.len() == 0 {
            assert(s2 == ncs);
            assert(forest_at(s2, q) == Some(ncs[last - 1]));
        } else {
            assert(children_at(s2, parent) == Some(ncs));
            lemma_path_extend(s2, parent, (last - 1) as usize);
        }
        lemma_path_extend(s2, q, ci as usize);
    }
    law_indent_keeps_ids(s, parent, last);
    law_same_counts_keep_ids_unique(s, s2);
    lemma_committed_lands(
        a,
        b,
        s2,
        nsel,
        if parent.len() == 0 {
            a.expanded().insert(cs[last - 1].id)
        } else {
            a.expanded()
        },
        a.focus(),
        a.next_id,
        "Indented task"@,
    );
    // outdent from `nsel`
    assert(nsel.drop_last().drop_last() =~= parent);
    assert(nsel.drop_last().last() == last - 1);
    assert(nsel.last() == ci);
    let back = outdent_list(ncs, last - 1, ci);
    assert(set_children_at(s2, parent, back) == s);
    assert(parent.push(last as usize) =~= sel);
    lemma_committed_lands(
        b,
        c,
        s,
        sel,
        b.expanded(),
        b.focus(),
        b.next_id,
        "Outdented task"@,
    );
}

} // verus!
