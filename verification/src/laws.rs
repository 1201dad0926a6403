//! Properties of the library as a whole: what one operation undoes of
//! another, what repeated operations come back to, and what every operation keeps.
use vstd::prelude::*;
use crate::model::{
    Priority, Status, Task, TaskView, forest_view, lemma_children_view, priority_next, priority_prev,
    status_next, status_prev,
};
use crate::app::sanitize::{forest_pre, renum_list, renum_tree, sanitized, tree_pre};
use crate::tree_walk::{forest_max_id, tree_max_id};
use crate::forest::{forest_done, forest_size, tree_done, tree_size};
use crate::app::data::{progress, progress_list};
use crate::app::keymap::{d_pressed, pending_dropped, sort_cycled, sort_mode_set};
use crate::app::duplicate::{duplicated, renumber_list, renumber_tree};
use crate::app::navigation::toggled;
use crate::app::state::VisibleItemView;
use crate::app::visibility::{VisCtx, ctx_of, rows_of, shown, vis_item, vis_list, vis_prefix};
use crate::forest::{forest_at, forest_find, tree_find};
use crate::app::navigation::{path_opened, selected_path_shown};
use crate::app::rel::view_moved;
use crate::persist::next_id_spec;
use crate::sort::sort_order;
use crate::sort::sort_label;
use crate::app::manipulate::{
    FieldOp, add_result, apply_op, delete_result, indent_list, move_list, new_task_view, outdent_list,
    task_added,
};
use crate::app::edit::{edit_opened, kept_but_form, retasked, task_replaced};
use crate::app::commands::{dirtied_unpended, task_rewritten};
use crate::app::rel::with_message;
use crate::forest::{children_at, forest_set, set_children_at};
use crate::sort::{SortMode, sort_next};
use crate::app::state::{App, UndoSnapshot};
use crate::app::rel::{committed, edited};
use crate::app::undo::{MAX_UNDO_BYTES, MAX_UNDO_ENTRIES, total_bytes, dirtied_with, restored, same_state, trim_bytes, trimmed, undo_pushed, undone};
use crate::app::visibility::{
    lemma_rebuild_keeps, lemma_rebuild_keeps_selection, rebuild_rel, refocus, reselect,
};

verus! {

/// Trimming by bytes only drops the oldest snapshots: the newest stays on top.
proof fn lemma_trim_bytes_keeps_top(st: Seq<UndoSnapshot>)
    requires
        st.len() > 0,
    ensures
        trim_bytes(st).len() > 0,
        trim_bytes(st).len() <= st.len(),
        trim_bytes(st).last() == st.last(),
    decreases st.len(),
{
    if trim_bytes(st) != st {
        lemma_trim_bytes_keeps_top(st.drop_first());
    }
}

/// Trimming the undo stack keeps its newest snapshot on top.
proof fn lemma_trimmed_keeps_top(st: Seq<UndoSnapshot>)
    requires
        st.len() > 0,
    ensures
        trimmed(st).len() > 0,
        trimmed(st).last() == st.last(),
        trimmed(st).len() <= MAX_UNDO_ENTRIES,
{
    let e = if st.len() > MAX_UNDO_ENTRIES {
        st.skip(st.len() - MAX_UNDO_ENTRIES)
    } else {
        st
    };
    assert(e.len() > 0 && e.last() == st.last());
    lemma_trim_bytes_keeps_top(e);
}

/// After `push_undo`, the top of the stack holds the state it was called on.
proof fn lemma_pushed_top(a: App, u: App)
    requires
        undo_pushed(a, u),
    ensures
        u.undo_stack@.len() > 0,
        same_state(u.undo_stack@.last(), a),
{
    if !(a.undo_stack@.len() > 0 && same_state(a.undo_stack@.last(), a)) {
        let snap = choose|snap: UndoSnapshot|
            same_state(snap, a) && u.undo_stack@ == trimmed(a.undo_stack@.push(snap));
        lemma_trimmed_keeps_top(a.undo_stack@.push(snap));
    }
}

/// Undo right after an operation that pushed `a` onto the undo stack gives
/// back `a`'s tree, expanded set, next id, sort mode and focus.
proof fn lemma_undo_restores_top(a: App, b: App, c: App)
    requires
        b.undo_stack@.len() > 0,
        same_state(b.undo_stack@.last(), a),
        undone(b, c),
    ensures
        c.forest() == a.forest(),
        c.expanded() == a.expanded(),
        c.next_id == a.next_id,
        c.sort_mode == a.sort_mode,
        c.focus() == refocus(a.forest(), a.focus()),
        c.undo_stack@ == b.undo_stack@.drop_last(),
        c.persist.dirty,
        c.message@ == "Undid last change"@,
        c.edit is None,
        c.mode == (if b.mode == crate::app::state::Mode::Editing {
            crate::app::state::Mode::Normal
        } else {
            b.mode
        }),
        c.pending() is None,
{
    let snap = b.undo_stack@.last();
    let (m, p, d) = choose|m: App, p: App, d: int|
        #![trigger restored(b, m, snap), rebuild_rel(m, p, d)]
        restored(b, m, snap) && rebuild_rel(m, p, d) && dirtied_with(p, c, "Undid last change"@);
    lemma_rebuild_keeps(m, p, d);
}

/// After an undoable edit, the top of the undo stack holds the state before it.
proof fn lemma_committed_top(
    a: App,
    b: App,
    tasks: Seq<crate::model::TaskView>,
    sel: Seq<usize>,
    expanded: Set<u64>,
    focus: Option<Seq<usize>>,
    next_id: u64,
    msg: Seq<char>,
)
    requires
        committed(a, b, tasks, sel, expanded, focus, next_id, msg),
    ensures
        b.undo_stack@.len() > 0,
        same_state(b.undo_stack@.last(), a),
{
    let (u, m, p, d) = choose|u: App, m: App, p: App, d: int|
        #![trigger undo_pushed(a, u), edited(u, m, tasks, sel, expanded, focus, next_id), rebuild_rel(m, p, d), dirtied_with(p, b, msg)]
        undo_pushed(a, u) && edited(u, m, tasks, sel, expanded, focus, next_id) && rebuild_rel(
            m,
            p,
            d,
        ) && dirtied_with(p, b, msg);
    lemma_pushed_top(a, u);
    lemma_rebuild_keeps(m, p, d);
}

/// Undo restores what an undoable edit changed: after moving, indenting or
/// outdenting a task, or cycling its priority or status, or toggling it
/// done (each commits an edit), `undo` gives back the tree, the expanded
/// set, the next id and the sort mode from before it.
pub proof fn law_undo_reverts_edit(
    a: App,
    b: App,
    c: App,
    tasks: Seq<crate::model::TaskView>,
    sel: Seq<usize>,
    expanded: Set<u64>,
    focus: Option<Seq<usize>>,
    next_id: u64,
    msg: Seq<char>,
)
    requires
        committed(a, b, tasks, sel, expanded, focus, next_id, msg),
        undone(b, c),
    ensures
        c.forest() == a.forest(),
        c.expanded() == a.expanded(),
        c.next_id == a.next_id,
        c.sort_mode == a.sort_mode,
        c.focus() == refocus(a.forest(), a.focus()),
        c.undo_stack@ == b.undo_stack@.drop_last(),
        c.persist.dirty,
        c.message@ == "Undid last change"@,
{
    lemma_committed_top(a, b, tasks, sel, expanded, focus, next_id, msg);
    lemma_undo_restores_top(a, b, c);
}

/// Undo removes an added task: after `a` or `A` adds a task (and opens the
/// edit form on it), `undo` gives back the tree, the expanded set and the
/// next id from before.
pub proof fn law_undo_reverts_add(a: App, b: App, c: App, as_child: bool)
    requires
        task_added(a, b, as_child),
        !(as_child && a.sel().len() > 0 && forest_at(a.forest(), a.sel()) is None),
        undone(b, c),
    ensures
        c.forest() == a.forest(),
        c.expanded() == a.expanded(),
        c.next_id == a.next_id,
        c.sort_mode == a.sort_mode,
{
    let s = a.forest();
    let sel = a.sel();
    let r = add_result(s, sel, a.expanded(), as_child, new_task_view(a.next_id, "New task"@));
    let msg = if as_child {
        "Added child task"@
    } else {
        "Added sibling task"@
    };
    let (a1, p) = choose|a1: App, p: App|
        #![trigger view_moved(a, a1, sel, a.expanded(), a.focus(), None, false), edit_opened(p, b)]
        view_moved(a, a1, sel, a.expanded(), a.focus(), None, false) && committed(
            a1,
            p,
            r.0,
            r.1,
            r.2,
            a.focus(),
            (a.next_id + 1) as u64,
            msg,
        ) && edit_opened(p, b);
    lemma_committed_top(a1, p, r.0, r.1, r.2, a.focus(), (a.next_id + 1) as u64, msg);
    lemma_undo_restores_top(a1, b, c);
}

/// Undo restores a deleted task: after deleting the selected task, `undo`
/// gives back the tree, the expanded set, the next id and the sort mode
/// from before the delete.
pub proof fn law_undo_reverts_delete(a: App, b: App, c: App)
    requires
        crate::app::manipulate::task_deleted(a, b),
        crate::forest::forest_at(a.forest(), a.sel()) is Some,
        undone(b, c),
    ensures
        c.forest() == a.forest(),
        c.expanded() == a.expanded(),
        c.next_id == a.next_id,
        c.sort_mode == a.sort_mode,
        c.undo_stack@ == b.undo_stack@.drop_last(),
{
    let (u, w, m, p, d) = choose|u: App, w: App, m: App, p: App, d: int|
        #![trigger undo_pushed(a, u), crate::app::manipulate::edit_cancelled_if_editing(u, w), rebuild_rel(m, p, d)]
        undo_pushed(a, u) && crate::app::manipulate::edit_cancelled_if_editing(u, w) && m.undo_stack
            == w.undo_stack && rebuild_rel(m, p, d) && dirtied_with(p, b, "Deleted task"@);
    lemma_pushed_top(a, u);
    lemma_rebuild_keeps(m, p, d);
    lemma_undo_restores_top(a, b, c);
}

/// A delete leaves the selected task's siblings without it, marks the
/// project dirty and says so.
proof fn lemma_deleted_forest(a: App, b: App)
    requires
        crate::app::manipulate::task_deleted(a, b),
        crate::forest::forest_at(a.forest(), a.sel()) is Some,
    ensures
        b.forest() == delete_result(a.forest(), a.sel()),
        b.persist.dirty,
        b.message@ == "Deleted task"@,
{
    let (u, w, m, p, d) = choose|u: App, w: App, m: App, p: App, d: int|
        #![trigger undo_pushed(a, u), crate::app::manipulate::edit_cancelled_if_editing(u, w), rebuild_rel(m, p, d)]
        undo_pushed(a, u) && crate::app::manipulate::edit_cancelled_if_editing(u, w) && m.forest()
            == delete_result(a.forest(), a.sel()) && rebuild_rel(m, p, d) && dirtied_with(
            p,
            b,
            "Deleted task"@,
        );
    lemma_rebuild_keeps(m, p, d);
}

/// Pressing `d` twice deletes the selected task: the first press only asks
/// for confirmation and leaves the tree alone; the second deletes the task.
pub proof fn law_delete_needs_two_presses(a: App, b: App, c: App)
    requires
        a.pending() != Some(a.sel()),
        crate::forest::forest_at(a.forest(), a.sel()) is Some,
        d_pressed(a, b),
        d_pressed(b, c),
    ensures
        b.forest() == a.forest(),
        b.pending() == Some(a.sel()),
        c.forest() == delete_result(a.forest(), a.sel()),
        c.pending() is None,
        c.persist.dirty,
        c.message@ == "Deleted task"@,
{
    let q = choose|q: App|
        #![trigger crate::app::manipulate::task_deleted(b, q)]
        crate::app::manipulate::task_deleted(b, q) && pending_dropped(q, c);
    lemma_deleted_forest(b, q);
}

/// Moving a task down among its siblings and then back up restores their order.
pub proof fn law_move_round_trip(cs: Seq<TaskView>, idx: int, to: int)
    requires
        0 <= idx < cs.len(),
        0 <= to < cs.len(),
    ensures
        move_list(move_list(cs, idx, to), to, idx) == cs,
{
    let once = move_list(cs, idx, to);
    assert(once[to] == cs[idx]);
    assert(move_list(once, to, idx) =~= cs);
}

/// Marking a task done and then toggling again gives back a task that was
/// either to do or done.
pub proof fn law_toggle_done_twice(t: TaskView)
    requires
        t.status == Status::Todo || t.status == Status::Done,
    ensures
        apply_op(apply_op(t, FieldOp::ToggleDone), FieldOp::ToggleDone) == t,
{
}

/// Every id of `t`'s subtree is at most its largest id.
proof fn lemma_tree_pre_le_max(t: TaskView)
    ensures
        forall|i: int| 0 <= i < tree_pre(t).len() ==> tree_pre(t)[i] <= tree_max_id(t),
    decreases t,
{
    lemma_forest_pre_le_max(t.children);
    let c = forest_pre(t.children);
    assert(tree_pre(t) == seq![t.id] + c);
    assert forall|i: int| 0 <= i < tree_pre(t).len() implies tree_pre(t)[i] <= tree_max_id(t) by {
        if i > 0 {
            assert(tree_pre(t)[i] == c[i - 1]);
        }
    }
}

/// Every id of the list `s` and below is at most its largest id.
pub proof fn lemma_forest_pre_le_max(s: Seq<TaskView>)
    ensures
        forall|i: int| 0 <= i < forest_pre(s).len() ==> forest_pre(s)[i] <= forest_max_id(s),
    decreases s,
{
    if s.len() > 0 {
        assert(decreases_to!(s => s[s.len() - 1]));
        lemma_forest_pre_le_max(s.drop_last());
        lemma_tree_pre_le_max(s.last());
        let x = forest_pre(s.drop_last());
        let y = tree_pre(s.last());
        assert(forest_pre(s) == x + y);
        assert forall|i: int| 0 <= i < forest_pre(s).len() implies forest_pre(s)[i] <= forest_max_id(
            s,
        ) by {
            if i < x.len() {
                assert(forest_pre(s)[i] == x[i]);
            } else {
                assert(forest_pre(s)[i] == y[i - x.len()]);
            }
        }
    }
}

/// What renumbering from `seen` and `next` gives when every id is at most
/// `m`: ids that occur once each; each either an old id (at most `m`) not
/// seen before and now seen, or a fresh one from `next` up to `next2`.
spec fn renum_ok(
    out: Seq<u64>,
    seen: Set<u64>,
    seen2: Set<u64>,
    next: int,
    next2: int,
    m: int,
) -> bool {
    &&& out.no_duplicates()
    &&& next <= next2
    &&& seen.subset_of(seen2)
    &&& forall|x: u64| seen2.contains(x) ==> x <= m
    &&& forall|i: int|
        0 <= i < out.len() ==> ((out[i] <= m && !seen.contains(out[i]) && seen2.contains(out[i]))
            || (next <= out[i] < next2))
}

/// Renumbering a subtree gives distinct ids (see `renum_ok`).
proof fn lemma_renum_tree_ok(t: TaskView, seen: Set<u64>, next: int, m: int)
    requires
        forall|i: int| 0 <= i < tree_pre(t).len() ==> tree_pre(t)[i] <= m,
        0 <= m < next,
        next + tree_size(t) <= u64::MAX,
        forall|x: u64| seen.contains(x) ==> x <= m,
    ensures
        ({
            let r = renum_tree(t, seen, next);
            &&& renum_ok(tree_pre(r.0), seen, r.1, next, r.2, m)
            &&& r.2 <= next + tree_size(t)
        }),
    decreases t,
{
    let r = renum_tree(t, seen, next);
    let tc = forest_pre(t.children);
    assert(tree_pre(t) == seq![t.id] + tc);
    assert(tree_pre(t)[0] == t.id);
    assert forall|i: int| 0 <= i < tc.len() implies tc[i] <= m by {
        assert(tc[i] == tree_pre(t)[i + 1]);
    }
    let (id2, seen1, next1) = if seen.contains(t.id) {
        (next as u64, seen, next + 1)
    } else {
        (t.id, seen.insert(t.id), next)
    };
    lemma_renum_list_ok(t.children, seen1, next1, m);
    let c = renum_list(t.children, seen1, next1);
    let cp = forest_pre(c.0);
    assert(r.0.children == c.0);
    assert(r.0.id == id2);
    assert(tree_pre(r.0) == seq![id2] + cp);
    let out = tree_pre(r.0);
    assert(out[0] == id2);
    assert forall|i: int| 1 <= i < out.len() implies out[i] == cp[i - 1] by {}
    assert forall|i: int, j: int| 0 <= i < j < out.len() implies out[i] != out[j] by {
        assert(out[j] == cp[j - 1]);
        if i > 0 {
            assert(out[i] == cp[i - 1]);
        }
    }
    assert forall|i: int| 0 <= i < out.len() implies ((out[i] <= m && !seen.contains(out[i])
        && r.1.contains(out[i])) || (next <= out[i] < r.2)) by {
        if i > 0 {
            assert(out[i] == cp[i - 1]);
        }
    }
}

/// Renumbering a list gives distinct ids (see `renum_ok`).
proof fn lemma_renum_list_ok(s: Seq<TaskView>, seen: Set<u64>, next: int, m: int)
    requires
        forall|i: int| 0 <= i < forest_pre(s).len() ==> forest_pre(s)[i] <= m,
        0 <= m < next,
        next + forest_size(s) <= u64::MAX,
        forall|x: u64| seen.contains(x) ==> x <= m,
    ensures
        ({
            let r = renum_list(s, seen, next);
            &&& renum_ok(forest_pre(r.0), seen, r.1, next, r.2, m)
            &&& r.2 <= next + forest_size(s)
        }),
    decreases s,
{
    if s.len() == 0 {
        assert(forest_pre(renum_list(s, seen, next).0) =~= Seq::<u64>::empty());
    } else {
        assert(decreases_to!(s => s[s.len() - 1]));
        let pre_a = forest_pre(s.drop_last());
        let pre_b = tree_pre(s.last());
        assert(forest_pre(s) == pre_a + pre_b);
        assert forall|i: int| 0 <= i < pre_a.len() implies pre_a[i] <= m by {
            assert(pre_a[i] == forest_pre(s)[i]);
        }
        assert forall|i: int| 0 <= i < pre_b.len() implies pre_b[i] <= m by {
            assert(pre_b[i] == forest_pre(s)[i + pre_a.len()]);
        }
        let a = renum_list(s.drop_last(), seen, next);
        lemma_renum_list_ok(s.drop_last(), seen, next, m);
        let b = renum_tree(s.last(), a.1, a.2);
        lemma_renum_tree_ok(s.last(), a.1, a.2, m);
        let r = renum_list(s, seen, next);
        assert(r.0 == a.0.push(b.0));
        assert(r.0.drop_last() =~= a.0);
        assert(forest_pre(r.0) == forest_pre(a.0) + tree_pre(b.0));
        let x = forest_pre(a.0);
        let y = tree_pre(b.0);
        let out = forest_pre(r.0);
        assert forall|i: int, j: int| 0 <= i < j < out.len() implies out[i] != out[j] by {
            if j < x.len() {
                assert(out[i] == x[i] && out[j] == x[j]);
            } else if i >= x.len() {
                assert(out[i] == y[i - x.len()] && out[j] == y[j - x.len()]);
            } else {
                assert(out[i] == x[i] && out[j] == y[j - x.len()]);
            }
        }
        assert forall|i: int| 0 <= i < out.len() implies ((out[i] <= m && !seen.contains(out[i])
            && r.1.contains(out[i])) || (next <= out[i] < r.2)) by {
            if i < x.len() {
                assert(out[i] == x[i]);
            } else {
                assert(out[i] == y[i - x.len()]);
            }
        }
    }
}

/// After repairing ids, no id occurs twice in the tree (given room for the
/// new ids below `u64::MAX`, as `sanitize_duplicate_ids` requires).
pub proof fn law_sanitize_leaves_unique_ids(a: App, b: App)
    requires
        forest_max_id(a.forest()) + forest_size(a.forest()) < u64::MAX,
        sanitized(a, b),
    ensures
        forest_pre(b.forest()).no_duplicates(),
{
    let s = a.forest();
    if !forest_pre(s).no_duplicates() {
        lemma_forest_pre_le_max(s);
        lemma_renum_list_ok(s, Set::empty(), forest_max_id(s) + 1, forest_max_id(s) as int);
    }
}

/// Sorting is view-only: cycling the sort mode leaves the tree, the expanded
/// set and the undo stack as they were.
pub proof fn law_sort_is_view_only(a: App, b: App)
    requires
        sort_cycled(a, b),
    ensures
        b.forest() == a.forest(),
        b.expanded() == a.expanded(),
        b.undo_stack == a.undo_stack,
        b.sort_mode == sort_next(a.sort_mode),
{
    let (m, p, d) = choose|m: App, p: App, d: int|
        #![trigger sort_mode_set(a, m, sort_next(a.sort_mode), "Sort mode: "@ + sort_label(sort_next(a.sort_mode))), rebuild_rel(m, p, d)]
        sort_mode_set(a, m, sort_next(a.sort_mode), "Sort mode: "@ + sort_label(sort_next(a.sort_mode)))
            && rebuild_rel(m, p, d) && dirtied_with(
            p,
            b,
            "Sort mode: "@ + sort_label(sort_next(a.sort_mode)),
        );
    lemma_rebuild_keeps(m, p, d);
}

/// The pre-order of a list has one entry per task.
proof fn lemma_forest_pre_len(s: Seq<TaskView>)
    ensures
        forest_pre(s).len() == forest_size(s),
    decreases s,
{
    if s.len() > 0 {
        assert(decreases_to!(s => s[s.len() - 1]));
        lemma_forest_pre_len(s.drop_last());
        lemma_forest_pre_len(s.last().children);
        assert(forest_pre(s) == forest_pre(s.drop_last()) + tree_pre(s.last()));
        assert(tree_pre(s.last()) == seq![s.last().id] + forest_pre(s.last().children));
        assert(forest_size(s) == forest_size(s.drop_last()) + tree_size(s.last()));
    }
}

/// A renumbered list takes the ids `start`, `start + 1`, ... in pre-order.
proof fn lemma_renumber_list_ids(s: Seq<TaskView>, start: int)
    requires
        0 <= start,
        start + forest_size(s) <= u64::MAX,
    ensures
        forest_pre(renumber_list(s, start)) =~= Seq::new(forest_size(s), |i: int| (start + i) as u64),
    decreases s,
{
    if s.len() > 0 {
        assert(decreases_to!(s => s[s.len() - 1]));
        let dl = s.drop_last();
        let t = s.last();
        let st2 = start + forest_size(dl);
        assert(forest_size(s) == forest_size(dl) + tree_size(t));
        assert(tree_size(t) == 1 + forest_size(t.children));
        lemma_renumber_list_ids(dl, start);
        lemma_renumber_list_ids(t.children, st2 + 1);
        let r = renumber_list(s, start);
        let rt = renumber_tree(t, st2);
        assert(r == renumber_list(dl, start).push(rt));
        assert(r.drop_last() =~= renumber_list(dl, start));
        assert(forest_pre(r) == forest_pre(renumber_list(dl, start)) + tree_pre(rt));
        assert(tree_pre(rt) == seq![st2 as u64] + forest_pre(renumber_list(t.children, st2 + 1)));
        let x = forest_pre(renumber_list(dl, start));
        let y = tree_pre(rt);
        let c = forest_pre(renumber_list(t.children, st2 + 1));
        assert(x.len() == forest_size(dl));
        assert(y.len() == tree_size(t));
        assert forall|i: int| 0 <= i < forest_size(s) implies forest_pre(r)[i] == (start + i) as u64 by {
            if i < x.len() {
                assert(forest_pre(r)[i] == x[i]);
            } else if i == x.len() {
                assert(forest_pre(r)[i] == y[0]);
            } else {
                assert(forest_pre(r)[i] == y[i - x.len()]);
                assert(y[i - x.len()] == c[i - x.len() - 1]);
            }
        }
    }
}

/// A duplicated subtree takes fresh ids: the copy of `t` made from `start`
/// numbers its tasks `start`, `start + 1`, ... in pre-order, one per task of `t`.
pub proof fn law_duplicate_numbers_from_next_id(t: TaskView, start: int)
    requires
        0 <= start,
        start + tree_size(t) <= u64::MAX,
    ensures
        tree_pre(renumber_tree(t, start)) =~= Seq::new(tree_size(t), |i: int| (start + i) as u64),
{
    lemma_renumber_list_ids(t.children, start + 1);
    assert(tree_pre(renumber_tree(t, start)) == seq![start as u64] + forest_pre(
        renumber_list(t.children, start + 1),
    ));
}

/// A duplicate's ids are new to the tree: when every id of the tree `s` is
/// below the next id `start`, no id of the copy made from `start` occurs in `s`.
pub proof fn law_duplicate_ids_are_fresh(s: Seq<TaskView>, t: TaskView, start: int)
    requires
        forest_max_id(s) < start,
        start + tree_size(t) <= u64::MAX,
    ensures
        forall|i: int, j: int|
            0 <= i < tree_pre(renumber_tree(t, start)).len() && 0 <= j < forest_pre(s).len()
                ==> tree_pre(renumber_tree(t, start))[i] != forest_pre(s)[j],
{
    law_duplicate_numbers_from_next_id(t, start);
    lemma_forest_pre_le_max(s);
}

/// Adding a task at the root keeps ids unique: with distinct ids all below
/// the next id `id`, the tree with the new task appended still has distinct
/// ids, and its largest id is the new one.
pub proof fn law_root_add_keeps_ids_unique(s: Seq<TaskView>, id: u64, title: Seq<char>)
    requires
        forest_pre(s).no_duplicates(),
        forest_max_id(s) < id,
    ensures
        forest_pre(s.push(new_task_view(id, title))).no_duplicates(),
        forest_max_id(s.push(new_task_view(id, title))) == id,
{
    let t = new_task_view(id, title);
    let s2 = s.push(t);
    lemma_forest_pre_le_max(s);
    assert(s2.drop_last() =~= s);
    assert(forest_pre(t.children) =~= Seq::<u64>::empty());
    assert(tree_pre(t) =~= seq![id]);
    assert(forest_pre(s2) == forest_pre(s) + seq![id]);
    let out = forest_pre(s2);
    let x = forest_pre(s);
    assert forall|i: int, j: int| 0 <= i < j < out.len() implies out[i] != out[j] by {
        if j < x.len() {
            assert(out[i] == x[i] && out[j] == x[j]);
        } else {
            assert(out[i] == x[i] && out[j] == id);
        }
    }
    assert(forest_max_id(t.children) == 0);
    assert(tree_max_id(t) == id);
}

/// Toggling a task's expansion twice gives back the expanded set.
pub proof fn law_expand_toggle_twice(s: Set<u64>, id: u64)
    ensures
        toggled(toggled(s, id), id) == s,
{
    assert(toggled(toggled(s, id), id) =~= s);
}

/// Whether the row `r` of a list drawn for `s` under the path `base` leads,
/// below `base`, to a task that the context `c` lets through.
spec fn row_ok(r: VisibleItemView, s: Seq<TaskView>, base: Seq<usize>, c: VisCtx) -> bool {
    &&& r.path.len() > base.len()
    &&& r.path.take(base.len() as int) == base
    &&& forest_at(s, r.path.skip(base.len() as int)) matches Some(t) && shown(t, c)
}

/// Whether every row of `rows` is `row_ok`.
spec fn rows_ok(rows: Seq<VisibleItemView>, s: Seq<TaskView>, base: Seq<usize>, c: VisCtx) -> bool {
    forall|k: int| 0 <= k < rows.len() ==> row_ok(#[trigger] rows[k], s, base, c)
}

/// The rows of a list lead to tasks that are let through.
proof fn lemma_vis_list_ok(s: Seq<TaskView>, base: Seq<usize>, depth: int, c: VisCtx)
    ensures
        rows_ok(vis_list(s, base, depth, c), s, base, c),
    decreases s, 2int, 0int,
{
    let order = sort_order(s, c.mode);
    lemma_vis_prefix_ok(s, order, order.len() as int, base, depth, c);
}

/// The rows of the first `k` entries of `order` lead to tasks that are let through.
proof fn lemma_vis_prefix_ok(
    s: Seq<TaskView>,
    order: Seq<usize>,
    k: int,
    base: Seq<usize>,
    depth: int,
    c: VisCtx,
)
    ensures
        rows_ok(vis_prefix(s, order, k, base, depth, c), s, base, c),
    decreases s, 1int, k,
{
    if k > 0 {
        lemma_vis_prefix_ok(s, order, k - 1, base, depth, c);
        lemma_vis_item_ok(s, order, k - 1, base, depth, c);
        let x = vis_prefix(s, order, k - 1, base, depth, c);
        let y = vis_item(s, order, k - 1, base, depth, c);
        let rows = vis_prefix(s, order, k, base, depth, c);
        assert(rows == x + y);
        assert forall|j: int| 0 <= j < rows.len() implies row_ok(#[trigger] rows[j], s, base, c) by {
            if j < x.len() {
                assert(rows[j] == x[j]);
            } else {
                assert(rows[j] == y[j - x.len()]);
            }
        }
    }
}

/// The rows of one entry of `order` lead to tasks that are let through.
proof fn lemma_vis_item_ok(
    s: Seq<TaskView>,
    order: Seq<usize>,
    p: int,
    base: Seq<usize>,
    depth: int,
    c: VisCtx,
)
    ensures
        rows_ok(vis_item(s, order, p, base, depth, c), s, base, c),
    decreases s, 0int, 0int,
{
    if 0 <= p < order.len() && order[p] < s.len() {
        let i = order[p];
        let t = s[i as int];
        let path = base.push(i);
        let own: Seq<VisibleItemView> = if shown(t, c) {
            seq![VisibleItemView { path, depth, is_last: p == order.len() - 1 }]
        } else {
            Seq::empty()
        };
        let below = if depth < 128 && c.expanded.contains(t.id) && t.children.len() > 0 {
            vis_list(t.children, path, depth + 1, c)
        } else {
            Seq::empty()
        };
        let rows = vis_item(s, order, p, base, depth, c);
        assert(rows == own + below);
        assert(path.take(base.len() as int) =~= base);
        assert(path.skip(base.len() as int) =~= seq![i]);
        if depth < 128 && c.expanded.contains(t.id) && t.children.len() > 0 {
            assert(decreases_to!(s => s[i as int]));
            assert(decreases_to!(s[i as int] => s[i as int].children));
            lemma_vis_list_ok(t.children, path, depth + 1, c);
        }
        assert forall|j: int| 0 <= j < rows.len() implies row_ok(#[trigger] rows[j], s, base, c) by {
            if j < own.len() {
                assert(rows[j] == own[j]);
            } else {
                let r = below[j - own.len()];
                assert(rows[j] == r);
                assert(row_ok(r, t.children, path, c));
                let q = r.path.skip(base.len() as int);
                assert(r.path.take(base.len() as int) =~= r.path.take(path.len() as int).take(
                    base.len() as int,
                ));
                assert(q[0] == r.path[base.len() as int]);
                assert(r.path[base.len() as int] == r.path.take(path.len() as int)[base.len() as int]);
                assert(q.drop_first() =~= r.path.skip(path.len() as int));
                assert(forest_at(s, q) == forest_at(t.children, q.drop_first()));
            }
        }
    }
}

/// The task a path extended by `rel` leads to is the one `rel` leads to
/// below the task of the path.
proof fn lemma_forest_at_concat(s: Seq<TaskView>, fp: Seq<usize>, rel: Seq<usize>)
    requires
        forest_at(s, fp) is Some,
        rel.len() > 0,
    ensures
        forest_at(s, fp + rel) == forest_at(forest_at(s, fp)->0.children, rel),
    decreases fp.len(),
{
    let i = fp[0] as int;
    let q = fp + rel;
    assert(q[0] == fp[0]);
    if fp.len() == 1 {
        assert(q.drop_first() =~= rel);
    } else {
        assert(q.drop_first() =~= fp.drop_first() + rel);
        lemma_forest_at_concat(s[i].children, fp.drop_first(), rel);
    }
}

/// Filtering and search show only what they let through: each row of the
/// tree leads to a task that the quick filters let through (or, while a
/// search is active, that matches it or has a match below it); when the
/// view is focused, this holds of every row below the focused task.
pub proof fn law_rows_are_let_through(a: App, today: int)
    ensures
        ({
            let rows = rows_of(a, today);
            let focused = refocus(a.forest(), a.focus()) is Some;
            forall|k: int|
                0 <= k < rows.len() && !(focused && k == 0) ==> (forest_at(a.forest(), #[trigger] rows[k].path)
                    matches Some(t) && shown(t, ctx_of(a, today)))
        }),
{
    let s = a.forest();
    let c = ctx_of(a, today);
    let rows = rows_of(a, today);
    match refocus(s, a.focus()) {
        None => {
            lemma_vis_list_ok(s, Seq::empty(), 0, c);
            assert forall|k: int| 0 <= k < rows.len() implies (forest_at(s, #[trigger] rows[k].path)
                matches Some(t) && shown(t, c)) by {
                assert(row_ok(rows[k], s, Seq::empty(), c));
                assert(rows[k].path.skip(0) =~= rows[k].path);
            }
        },
        Some(fp) => {
            match forest_at(s, fp) {
                Some(t) => {
                    let below = if c.expanded.contains(t.id) && t.children.len() > 0 {
                        vis_list(t.children, fp, 1, c)
                    } else {
                        Seq::empty()
                    };
                    if c.expanded.contains(t.id) && t.children.len() > 0 {
                        lemma_vis_list_ok(t.children, fp, 1, c);
                    }
                    assert forall|k: int| 0 <= k < rows.len() && k != 0 implies (forest_at(
                        s,
                        #[trigger] rows[k].path,
                    ) matches Some(x) && shown(x, c)) by {
                        let r = below[k - 1];
                        assert(rows[k] == r);
                        assert(row_ok(r, t.children, fp, c));
                        let rel = r.path.skip(fp.len() as int);
                        assert(r.path =~= fp + rel);
                        lemma_forest_at_concat(s, fp, rel);
                    }
                },
                None => {},
            }
        },
    }
}

/// What a rebuild shows is let through: after `rebuild_visible` (on day
/// `today`), each row leads to a task of the tree that the quick filters let
/// through (or, while a search is active, that matches it or has a match
/// below it); when the view is focused, this holds of every row below the
/// focused task.
pub proof fn law_rebuilt_rows_are_let_through(pre: App, post: App, today: int)
    requires
        rebuild_rel(pre, post, today),
    ensures
        ({
            let rows = post.rows();
            let focused = post.focus() is Some;
            forall|k: int|
                0 <= k < rows.len() && !(focused && k == 0) ==> (forest_at(post.forest(), #[trigger] rows[k].path)
                    matches Some(t) && shown(t, ctx_of(post, today)))
        }),
{
    lemma_rebuild_keeps(pre, post, today);
    law_rows_are_let_through(pre, today);
    assert(ctx_of(post, today) == ctx_of(pre, today));
}

/// A loaded project's next id is fresh: above every id in the tree (unless
/// the largest id is `u64::MAX`, where nothing can be), and a saved next id
/// that is above every id comes back unchanged, so a save and a load keep it.
pub proof fn law_loaded_next_id_is_fresh(s: Seq<TaskView>, explicit: Option<u64>)
    ensures
        forest_max_id(s) < u64::MAX ==> forall|i: int|
            0 <= i < forest_pre(s).len() ==> forest_pre(s)[i] < next_id_spec(s, explicit),
        forall|n: u64| explicit == Some(n) && n > forest_max_id(s) ==> next_id_spec(s, explicit) == n,
{
    lemma_forest_pre_le_max(s);
}

/// Whether every list of the tree `s` has at most `usize::MAX` entries, as
/// any tree held in `Vec`s does.
pub open spec fn lists_fit(s: Seq<TaskView>) -> bool
    decreases s,
{
    &&& s.len() <= usize::MAX
    &&& s.len() > 0 ==> lists_fit(s.drop_last()) && lists_fit(s.last().children)
}

/// Every list of a tree held in `Vec`s fits: its length is a `usize`.
pub proof fn lemma_vec_lists_fit(ts: Seq<Task>)
    requires
        ts.len() <= usize::MAX,
    ensures
        lists_fit(forest_view(ts)),
    decreases ts,
{
    broadcast use vstd::std_specs::vec::group_vec_axioms;

    let s = forest_view(ts);
    if ts.len() > 0 {
        let n = ts.len() - 1;
        let t = ts[n];
        assert(s.drop_last() =~= forest_view(ts.drop_last()));
        lemma_vec_lists_fit(ts.drop_last());
        lemma_children_view(t);
        assert(t.children.len() == t.children@.len());
        assert(decreases_to!(ts => ts[n]));
        assert(decreases_to!(ts[n] => ts[n].children));
        assert(decreases_to!(ts[n].children => ts[n].children@));
        lemma_vec_lists_fit(t.children@);
        assert(s.last() == t@);
    }
}

/// A search by id that finds a subtree path finds the task with that id.
proof fn lemma_tree_find_leads(t: TaskView, id: u64)
    requires
        lists_fit(t.children),
        tree_find(t, id) is Some,
    ensures
        ({
            let q = tree_find(t, id)->0;
            (q.len() == 0 && t.id == id) || (q.len() > 0 && (forest_at(t.children, q) matches Some(
                x) && x.id == id))
        }),
    decreases t,
{
    if t.id != id {
        lemma_forest_find_leads(t.children, id);
    }
}

/// A search by id that finds a path finds the task with that id.
proof fn lemma_forest_find_leads(s: Seq<TaskView>, id: u64)
    requires
        lists_fit(s),
        forest_find(s, id) is Some,
    ensures
        forest_at(s, forest_find(s, id)->0) matches Some(x) && x.id == id,
    decreases s,
{
    let n = s.len() - 1;
    let dl = s.drop_last();
    assert(decreases_to!(s => s[n]));
    match forest_find(dl, id) {
        Some(p) => {
            lemma_forest_find_leads(dl, id);
            lemma_forest_at_prefix_list(s, p);
        },
        None => {
            let t = s.last();
            lemma_tree_find_leads(t, id);
            let q = tree_find(t, id)->0;
            let p = seq![n as usize] + q;
            assert(p[0] == n);
            if q.len() > 0 {
                assert(p.drop_first() =~= q);
            }
        },
    }
}

/// A path into the first tasks of a list leads to the same task in the whole list.
proof fn lemma_forest_at_prefix_list(s: Seq<TaskView>, p: Seq<usize>)
    requires
        s.len() > 0,
        forest_at(s.drop_last(), p) is Some,
    ensures
        forest_at(s, p) == forest_at(s.drop_last(), p),
{
    assert(s.drop_last()[p[0] as int] == s[p[0] as int]);
}

/// Jumping to an id selects that task: after `:42` (or `jump_to_id(42)`)
/// finds task #42, the tree is unchanged and the selection leads to #42.
pub proof fn law_jump_selects_the_task(a: App, b: App, id: u64)
    requires
        forest_find(a.forest(), id) is Some,
        selected_path_shown(a, b, forest_find(a.forest(), id)->0),
    ensures
        b.forest() == a.forest(),
        forest_at(b.forest(), b.sel()) matches Some(t) && t.id == id,
{
    let path = forest_find(a.forest(), id)->0;
    assert(a.tasks.len() == a.tasks@.len()) by {
        broadcast use vstd::std_specs::vec::group_vec_axioms;
    }
    lemma_vec_lists_fit(a.tasks@);
    lemma_forest_find_leads(a.forest(), id);
    let (m1, m2, d) = choose|m1: App, m2: App, d: int|
        #![trigger view_moved(a, m1, path, a.expanded(), a.focus(), None, false), path_opened(m1, m2, path), rebuild_rel(m2, b, d)]
        view_moved(a, m1, path, a.expanded(), a.focus(), None, false) && path_opened(m1, m2, path)
            && rebuild_rel(m2, b, d);
    assert(reselect(m2.forest(), m2.sel()) == path);
    lemma_rebuild_keeps(m2, b, d);
    lemma_rebuild_keeps_selection(m2, b, d);
}

/// Undo removes a duplicate: after `c` copies the selected task, `undo`
/// gives back the tree, the expanded set, the next id and the sort mode
/// from before.
pub proof fn law_undo_reverts_duplicate(a: App, b: App, c: App)
    requires
        duplicated(a, b),
        a.sel().len() > 0,
        forest_at(a.forest(), a.sel()) is Some,
        undone(b, c),
    ensures
        c.forest() == a.forest(),
        c.expanded() == a.expanded(),
        c.next_id == a.next_id,
        c.sort_mode == a.sort_mode,
{
    let (u, m, p, d) = choose|u: App, m: App, p: App, d: int|
        #![trigger undo_pushed(a, u), rebuild_rel(m, p, d)]
        undo_pushed(a, u) && m.undo_stack == u.undo_stack && rebuild_rel(m, p, d)
            && p.undo_stack == b.undo_stack;
    lemma_pushed_top(a, u);
    lemma_rebuild_keeps(m, p, d);
    lemma_undo_restores_top(a, b, c);
}

/// Undo reverts a command that rewrote a task (`:done 42`, `:priority high`,
/// `:tag +work`, ...): the tree, the expanded set, the next id and the sort
/// mode come back as they were before the command.
pub proof fn law_undo_reverts_rewrite(
    a: App,
    b: App,
    c: App,
    path: Seq<usize>,
    w: TaskView,
    msg: Seq<char>,
)
    requires
        task_rewritten(a, b, path, w, msg),
        undone(b, c),
    ensures
        c.forest() == a.forest(),
        c.expanded() == a.expanded(),
        c.next_id == a.next_id,
        c.sort_mode == a.sort_mode,
{
    let (u, m, p, d) = choose|u: App, m: App, p: App, d: int|
        #![trigger undo_pushed(a, u), retasked(u, m, forest_set(a.forest(), path, w)), rebuild_rel(m, p, d)]
        undo_pushed(a, u) && retasked(u, m, forest_set(a.forest(), path, w)) && rebuild_rel(m, p, d)
            && dirtied_unpended(p, b, msg);
    let x = choose|x: App|
        #![trigger view_moved(p, x, p.sel(), p.expanded(), p.focus(), None, true)]
        view_moved(p, x, p.sel(), p.expanded(), p.focus(), None, true) && with_message(x, b, msg);
    lemma_pushed_top(a, u);
    lemma_rebuild_keeps(m, p, d);
    lemma_undo_restores_top(a, b, c);
}

/// Undo reverts a saved edit form: after the form is committed to the task,
/// `undo` gives back the tree, the expanded set and the next id from before.
pub proof fn law_undo_reverts_form_save(
    a: App,
    b: App,
    c: App,
    path: Seq<usize>,
    w: TaskView,
    today: int,
)
    requires
        task_replaced(a, b, path, w, today),
        undone(b, c),
    ensures
        c.forest() == a.forest(),
        c.expanded() == a.expanded(),
        c.next_id == a.next_id,
        c.sort_mode == a.sort_mode,
{
    let (a1, u, m, p) = choose|a1: App, u: App, m: App, p: App|
        #![trigger undo_pushed(a1, u), retasked(u, m, forest_set(a.forest(), path, w)), rebuild_rel(m, p, today)]
        {
            &&& kept_but_form(a, a1)
            &&& a1.message == a.message
            &&& a1.edit is None
            &&& a1.mode == crate::app::state::Mode::Normal
            &&& undo_pushed(a1, u)
            &&& retasked(u, m, forest_set(a.forest(), path, w))
            &&& rebuild_rel(m, p, today)
            &&& dirtied_with(p, b, "Task updated"@)
        };
    lemma_pushed_top(a1, u);
    lemma_rebuild_keeps(m, p, today);
    lemma_undo_restores_top(a1, b, c);
}

/// Trimming by bytes keeps a suffix of the stack, never empties a non-empty
/// stack, and leaves it within the byte cap unless one snapshot is left.
proof fn lemma_trim_bytes_suffix(st: Seq<UndoSnapshot>) -> (j: int)
    ensures
        0 <= j <= st.len(),
        st.len() > 0 ==> j < st.len(),
        trim_bytes(st) == st.skip(j),
        total_bytes(trim_bytes(st)) <= MAX_UNDO_BYTES || trim_bytes(st).len() <= 1,
    decreases st.len(),
{
    if total_bytes(st) > MAX_UNDO_BYTES && st.len() > 1 {
        let j1 = lemma_trim_bytes_suffix(st.drop_first());
        assert(st.drop_first().skip(j1) =~= st.skip(j1 + 1));
        j1 + 1
    } else {
        assert(st.skip(0) =~= st);
        0
    }
}

/// Trimming keeps a non-empty suffix of at most 12 snapshots of a non-empty
/// stack, within the byte cap unless one snapshot is left.
proof fn lemma_trimmed_suffix(st: Seq<UndoSnapshot>) -> (i: int)
    requires
        st.len() > 0,
    ensures
        0 <= i < st.len(),
        trimmed(st) == st.skip(i),
        trimmed(st).len() <= MAX_UNDO_ENTRIES,
        total_bytes(trimmed(st)) <= MAX_UNDO_BYTES || trimmed(st).len() == 1,
{
    let k: int = if st.len() > MAX_UNDO_ENTRIES {
        st.len() - MAX_UNDO_ENTRIES
    } else {
        0
    };
    let e = st.skip(k);
    assert(e == (if st.len() > MAX_UNDO_ENTRIES {
        st.skip(st.len() - MAX_UNDO_ENTRIES)
    } else {
        st
    }));
    let j = lemma_trim_bytes_suffix(e);
    assert(e.skip(j) =~= st.skip(k + j));
    k + j
}

/// What every push leaves of the undo stack: at most 12 snapshots, and
/// within the byte cap unless it holds one snapshot.
pub open spec fn undo_stack_ok(st: Seq<UndoSnapshot>) -> bool {
    &&& st.len() <= MAX_UNDO_ENTRIES
    &&& (total_bytes(st) <= MAX_UNDO_BYTES || st.len() <= 1)
}

/// `push_undo` keeps the undo stack's shape: from a stack of at most 12
/// snapshots within the byte cap (or of one snapshot) it leaves one of 1 to 12
/// snapshots, again within the byte cap unless one is left; the stack is
/// unchanged when its top already holds the current state, and otherwise it
/// is a suffix of the old stack with a snapshot of the current state pushed.
pub proof fn law_undo_stack_bounded(a: App, b: App)
    requires
        undo_stack_ok(a.undo_stack@),
        undo_pushed(a, b),
    ensures
        undo_stack_ok(b.undo_stack@),
        1 <= b.undo_stack@.len() <= MAX_UNDO_ENTRIES,
        same_state(b.undo_stack@.last(), a),
        a.undo_stack@.len() > 0 && same_state(a.undo_stack@.last(), a) ==> b.undo_stack
            == a.undo_stack,
        !(a.undo_stack@.len() > 0 && same_state(a.undo_stack@.last(), a)) ==> exists|
            snap: UndoSnapshot,
            i: int,
        |
            #![trigger a.undo_stack@.push(snap).skip(i)]
            0 <= i <= a.undo_stack@.len() && same_state(snap, a) && b.undo_stack@
                == a.undo_stack@.push(snap).skip(i),
        b.tasks == a.tasks,
        b.tree == a.tree,
        b.persist == a.persist,
{
    lemma_pushed_top(a, b);
    if !(a.undo_stack@.len() > 0 && same_state(a.undo_stack@.last(), a)) {
        let snap = choose|snap: UndoSnapshot|
            same_state(snap, a) && snap.estimated_bytes >= crate::app::undo::snapshot_floor(a)
                && b.undo_stack@ == trimmed(a.undo_stack@.push(snap));
        let i = lemma_trimmed_suffix(a.undo_stack@.push(snap));
        assert(b.undo_stack@ == a.undo_stack@.push(snap).skip(i));
    }
}

/// Undo after a push gives back the pushed state, whatever happened in
/// between that left the undo stack alone: the tree, the expanded set, the
/// next id and the sort mode are those of the state `push_undo` was called
/// on; the stack loses its top; the edit form is closed (an open editor
/// returns to normal mode, any other mode stays); no delete is pending; the
/// project is dirty and the message says "Undid last change".
pub proof fn law_undo_after_push(a: App, u: App, b: App, c: App)
    requires
        undo_pushed(a, u),
        b.undo_stack == u.undo_stack,
        undone(b, c),
    ensures
        c.forest() == a.forest(),
        c.expanded() == a.expanded(),
        c.next_id == a.next_id,
        c.sort_mode == a.sort_mode,
        c.undo_stack@.len() + 1 == b.undo_stack@.len(),
        c.undo_stack@ == u.undo_stack@.drop_last(),
        c.edit is None,
        c.mode == (if b.mode == crate::app::state::Mode::Editing {
            crate::app::state::Mode::Normal
        } else {
            b.mode
        }),
        c.pending() is None,
        c.persist.dirty,
        c.message@ == "Undid last change"@,
{
    lemma_pushed_top(a, u);
    lemma_undo_restores_top(a, b, c);
}

/// Undo keeps the undo stack's shape: a stack of at most 12 snapshots
/// within the byte cap (or of one snapshot) stays so after undo.
pub proof fn law_undo_keeps_stack_shape(b: App, c: App)
    requires
        undo_stack_ok(b.undo_stack@),
        undone(b, c),
    ensures
        undo_stack_ok(c.undo_stack@),
{
    if b.undo_stack@.len() > 0 {
        let (m, p, d) = choose|m: App, p: App, d: int|
            #![trigger restored(b, m, b.undo_stack@.last()), rebuild_rel(m, p, d)]
            restored(b, m, b.undo_stack@.last()) && rebuild_rel(m, p, d) && dirtied_with(
                p,
                c,
                "Undid last change"@,
            );
        lemma_rebuild_keeps(m, p, d);
        assert(c.undo_stack@ == b.undo_stack@.drop_last());
        assert(total_bytes(b.undo_stack@) == total_bytes(b.undo_stack@.drop_last())
            + b.undo_stack@.last().estimated_bytes as nat);
    } else {
        assert(c.undo_stack == b.undo_stack);
    }
}

/// Cycling the priority three times comes back to where it started, and
/// cycling back undoes cycling forward.
pub proof fn law_priority_cycle(p: Priority)
    ensures
        priority_next(priority_next(priority_next(p))) == p,
        priority_prev(priority_next(p)) == p,
        priority_next(priority_prev(p)) == p,
{
}

/// Cycling the status goes Todo → Doing → Done → Blocked → Todo: four
/// steps come back to where they started, each step visits a new status,
/// and stepping back (as the edit form's Left does) undoes a step forward.
pub proof fn law_status_cycle(s: Status)
    ensures
        status_next(status_next(status_next(status_next(s)))) == s,
        status_next(s) != s,
        status_next(status_next(s)) != s,
        status_next(status_next(status_next(s))) != s,
        status_prev(status_next(s)) == s,
        status_next(status_prev(s)) == s,
{
}

/// Cycling the sort mode four times comes back to where it started, and
/// the four modes are all visited.
pub proof fn law_sort_cycle(m: SortMode)
    ensures
        sort_next(sort_next(sort_next(sort_next(m)))) == m,
        sort_next(m) != m,
        sort_next(sort_next(m)) != m,
        sort_next(sort_next(sort_next(m))) != m,
{
}


/// The number of levels of `t`'s subtree: 1 for a task without children.
pub open spec fn tree_levels(t: TaskView) -> nat
    decreases t, 0int,
{
    1 + forest_levels(t.children)
}

/// The most levels of any subtree of the list `s` (0 for an empty list).
pub open spec fn forest_levels(s: Seq<TaskView>) -> nat
    decreases s, 1int,
{
    if s.len() == 0 {
        0
    } else {
        let a = forest_levels(s.drop_last());
        let b = tree_levels(s.last());
        if a < b {
            b
        } else {
            a
        }
    }
}

/// Progress counted from nesting depth `depth` is exact while the subtree
/// stays within depth 128.
proof fn lemma_progress_exact(t: TaskView, depth: int)
    requires
        0 <= depth,
        depth + tree_levels(t) <= 129,
    ensures
        progress(t, depth) == (tree_done(t), tree_size(t)),
    decreases t, 0int,
{
    lemma_progress_list_exact(t.children, depth + 1);
}

/// Progress of a list counted from nesting depth `depth` is exact while its
/// subtrees stay within depth 128.
proof fn lemma_progress_list_exact(s: Seq<TaskView>, depth: int)
    requires
        0 <= depth,
        depth + forest_levels(s) <= 129,
    ensures
        progress_list(s, depth) == (forest_done(s), forest_size(s)),
    decreases s, 1int,
{
    if s.len() > 0 {
        lemma_progress_list_exact(s.drop_last(), depth);
        lemma_progress_exact(s.last(), depth);
    }
}

/// A task's progress is its subtree's done and total counts whenever the
/// subtree reaches at most 128 levels below the task (`tree_levels` at most
/// 129); deeper subtrees count as one open task each below that depth.
pub proof fn law_progress_counts_subtree(t: TaskView)
    requires
        tree_levels(t) <= 129,
    ensures
        progress(t, 0) == (tree_done(t), tree_size(t)),
{
    lemma_progress_exact(t, 0);
}


/// Setting the task a path leads to, then reading it, gives what was set.
proof fn lemma_forest_set_at(s: Seq<TaskView>, path: Seq<usize>, t: TaskView)
    requires
        forest_at(s, path) is Some,
    ensures
        forest_at(forest_set(s, path, t), path) == Some(t),
    decreases path.len(),
{
    if path.len() > 1 {
        let c = s[path[0] as int];
        lemma_forest_set_at(c.children, path.drop_first(), t);
    }
}

/// Setting the task at a path twice keeps the second one.
proof fn lemma_forest_set_twice(s: Seq<TaskView>, path: Seq<usize>, t1: TaskView, t2: TaskView)
    requires
        forest_at(s, path) is Some,
    ensures
        forest_set(forest_set(s, path, t1), path, t2) == forest_set(s, path, t2),
    decreases path.len(),
{
    if path.len() > 1 {
        let c = s[path[0] as int];
        lemma_forest_set_twice(c.children, path.drop_first(), t1, t2);
        let s1 = forest_set(s, path, t1);
        assert(s1[path[0] as int].children == forest_set(c.children, path.drop_first(), t1));
        assert(forest_set(s1, path, t2) =~= forest_set(s, path, t2));
    } else {
        assert(forest_set(forest_set(s, path, t1), path, t2) =~= forest_set(s, path, t2));
    }
}

/// Setting the task at a path to the one already there changes nothing.
proof fn lemma_forest_set_same(s: Seq<TaskView>, path: Seq<usize>)
    requires
        forest_at(s, path) is Some,
    ensures
        forest_set(s, path, forest_at(s, path)->0) == s,
    decreases path.len(),
{
    if path.len() > 1 {
        let c = s[path[0] as int];
        lemma_forest_set_same(c.children, path.drop_first());
        assert(forest_set(s, path, forest_at(s, path)->0) =~= s);
    } else {
        assert(forest_set(s, path, forest_at(s, path)->0) =~= s);
    }
}

/// Outdent undoes indent: indenting the task at position `last` (with a
/// previous sibling) under the list at `parent` selects it as the last
/// child of that sibling; outdenting from that selection puts the tree back
/// as it was and selects position `last` under `parent` again.
pub proof fn law_outdent_undoes_indent(s: Seq<TaskView>, parent: Seq<usize>, last: int)
    requires
        children_at(s, parent) is Some,
        0 < last < children_at(s, parent)->0.len(),
    ensures
        ({
            let cs = children_at(s, parent)->0;
            let ncs = indent_list(cs, last);
            let s2 = set_children_at(s, parent, ncs);
            let ci = cs[last - 1].children.len() as int;
            &&& children_at(s2, parent) == Some(ncs)
            &&& last - 1 < ncs.len()
            &&& ci < ncs[last - 1].children.len()
            &&& set_children_at(s2, parent, outdent_list(ncs, last - 1, ci)) == s
            &&& parent.push((last - 1) as usize).push(ci as usize).drop_last().drop_last()
                == parent
            &&& parent.push(((last - 1) + 1) as usize) == parent.push(last as usize)
        }),
{
    let cs = children_at(s, parent)->0;
    let ncs = indent_list(cs, last);
    let s2 = set_children_at(s, parent, ncs);
    let ci = cs[last - 1].children.len() as int;
    let p = cs[last - 1];
    let t = cs[last];
    let p2 = TaskView { children: p.children.push(t), ..p };
    assert(ncs[last - 1] == p2);
    let back = outdent_list(ncs, last - 1, ci);
    assert(p2.children.remove(ci) =~= p.children);
    assert(TaskView { children: p.children, ..p2 } == p);
    assert(back =~= cs);
    assert(parent.push((last - 1) as usize).push(ci as usize).drop_last().drop_last() =~= parent);
    if parent.len() > 0 {
        let pt = forest_at(s, parent)->0;
        lemma_forest_set_at(s, parent, TaskView { children: ncs, ..pt });
        lemma_forest_set_twice(
            s,
            parent,
            TaskView { children: ncs, ..pt },
            TaskView { children: back, ..pt },
        );
        assert(TaskView { children: back, ..pt } == pt);
        lemma_forest_set_same(s, parent);
    }
}


/// The test for a tag other than `t`.
pub open spec fn other_than(t: Seq<char>) -> spec_fn(Seq<char>) -> bool {
    |y: Seq<char>| y != t
}

/// `without` keeps, in order, exactly the tags other than `t`.
proof fn lemma_without_filter(tags: Seq<Seq<char>>, t: Seq<char>)
    ensures
        crate::app::commands::without(tags, t) == tags.filter(other_than(t)),
        !crate::app::commands::without(tags, t).contains(t),
    decreases tags.len(),
{
    reveal(Seq::filter);
    if tags.len() > 0 {
        lemma_without_filter(tags.drop_last(), t);
        let r = crate::app::commands::without(tags.drop_last(), t);
        assert(other_than(t)(tags.last()) == (tags.last() != t));
        if tags.last() != t {
            assert forall|y: Seq<char>| r.push(tags.last()).contains(y) implies y != t by {
                let k = choose|k: int| 0 <= k < r.push(tags.last()).len() && r.push(tags.last())[k] == y;
                if k < r.len() {
                    assert(r.contains(r[k]));
                }
            }
        }
    }
}

/// `:tag -x` removes the tag `x` and keeps every other tag in order; `:tag x`
/// (for `x` not starting with `+` or `-`) adds `x` at the end unless the task
/// has it already. Each word acts on the tags the earlier words left.
pub proof fn law_tag_words(tags: Seq<Seq<char>>, ws: Seq<Seq<char>>, x: Seq<char>)
    ensures
        (x.len() == 0 || x[0] != '-') ==> ({
            let r = crate::app::commands::tags_after(tags, ws.push(seq!['-'] + x));
            let prev = crate::app::commands::tags_after(tags, ws);
            &&& !r.contains(x)
            &&& r == prev.filter(other_than(x))
        }),
        (x.len() > 0 && x[0] != '-' && x[0] != '+') ==> ({
            let r = crate::app::commands::tags_after(tags, ws.push(x));
            let prev = crate::app::commands::tags_after(tags, ws);
            &&& r.contains(x)
            &&& r == (if prev.contains(x) {
                prev
            } else {
                prev.push(x)
            })
        }),
{
    let w = seq!['-'] + x;
    let ws1 = ws.push(w);
    assert(ws1.drop_last() =~= ws);
    assert(ws1.last() == w);
    assert(w[0] == '-');
    assert(crate::app::commands::strip_leading(w, '+') == w);
    assert(w.drop_first() =~= x);
    if x.len() == 0 || x[0] != '-' {
        assert(crate::app::commands::strip_leading(x, '-') == x);
        assert(crate::app::commands::strip_leading(w, '-') == x);
    }
    lemma_without_filter(crate::app::commands::tags_after(tags, ws), x);
    let ws2 = ws.push(x);
    assert(ws2.drop_last() =~= ws);
    assert(ws2.last() == x);
    if x.len() > 0 && x[0] != '-' && x[0] != '+' {
        assert(crate::app::commands::strip_leading(x, '+') == x);
        assert(crate::app::commands::strip_leading(x, '-') == x);
        let prev = crate::app::commands::tags_after(tags, ws);
        if !prev.contains(x) {
            assert(prev.push(x)[prev.len() as int] == x);
        }
    }
}

} // verus!
