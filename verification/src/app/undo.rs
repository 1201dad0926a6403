//! Undo snapshots: taking, deduplicating, trimming and restoring them.
use std::collections::HashSet;
use vstd::prelude::*;
use crate::model::{Task, TaskView, forest_view, lemma_children_view, strings_view};
use crate::text::byte_len;
use vstd::layout::size_of;
use super::access::{copy_ids, copy_opt_path, copy_path, ids_to_vec, path_eq};
use super::state::{App, Mode, UndoSnapshot, opt_path};
use super::visibility::rebuild_rel;

verus! {

broadcast use vstd::std_specs::hash::group_hash_axioms;

/// Max undo steps kept regardless of tree size.
pub const MAX_UNDO_ENTRIES: usize = 12;

/// Total estimated heap for all undo snapshots (~32 MiB).
pub const MAX_UNDO_BYTES: usize = 33554432;

/// Whether `snap` holds the same tree state as `a`.
pub open spec fn same_state(snap: UndoSnapshot, a: App) -> bool {
    &&& forest_view(snap.tasks@) == a.forest()
    &&& snap.expanded@ == a.expanded()
    &&& snap.next_id == a.next_id
    &&& snap.sort_mode == a.sort_mode
    &&& snap.selected_path@ == a.sel()
    &&& opt_path(snap.focus_path) == a.focus()
}

/// The estimated bytes of all snapshots.
pub open spec fn total_bytes(st: Seq<UndoSnapshot>) -> nat
    decreases st.len(),
{
    if st.len() == 0 {
        0
    } else {
        total_bytes(st.drop_last()) + st.last().estimated_bytes as nat
    }
}

/// Oldest snapshots dropped while their estimated bytes exceed the cap (one always stays).
pub open spec fn trim_bytes(st: Seq<UndoSnapshot>) -> Seq<UndoSnapshot>
    decreases st.len(),
{
    if total_bytes(st) > MAX_UNDO_BYTES && st.len() > 1 {
        trim_bytes(st.drop_first())
    } else {
        st
    }
}

/// The stack after trimming: at most 12 entries, then within the byte cap.
pub open spec fn trimmed(st: Seq<UndoSnapshot>) -> Seq<UndoSnapshot> {
    let e = if st.len() > MAX_UNDO_ENTRIES {
        st.skip(st.len() - MAX_UNDO_ENTRIES)
    } else {
        st
    };
    trim_bytes(e)
}

/// All fields of `b` but the undo stack equal those of `a`.
pub open spec fn same_except_undo(a: App, b: App) -> bool {
    &&& b.tasks == a.tasks
    &&& b.tree == a.tree
    &&& b.persist == a.persist
    &&& b.filter == a.filter
    &&& b.sort_mode == a.sort_mode
    &&& b.total_tasks == a.total_tasks
    &&& b.done_tasks == a.done_tasks
    &&& b.mode == a.mode
    &&& b.search_buf == a.search_buf
    &&& b.command_buf == a.command_buf
    &&& b.edit == a.edit
    &&& b.message == a.message
    &&& b.next_id == a.next_id
}

/// The least byte estimate of a snapshot of `a`: the least heap of its tasks
/// (`heap_floor`) and 8 bytes per expanded id, capped at `usize::MAX`.
pub open spec fn snapshot_floor(a: App) -> int {
    capped((heap_floor(a.forest()) + a.expanded().len() * 8) as int)
}

/// How `push_undo` changes the stack: unchanged when its top already holds the
/// current state, else a snapshot of the current state (its byte estimate at
/// least `snapshot_floor`) is pushed and the stack trimmed.
pub open spec fn undo_pushed(a: App, b: App) -> bool {
    &&& same_except_undo(a, b)
    &&& if a.undo_stack@.len() > 0 && same_state(a.undo_stack@.last(), a) {
        b.undo_stack == a.undo_stack
    } else {
        exists|snap: UndoSnapshot|
            same_state(snap, a) && snap.estimated_bytes >= snapshot_floor(a) && b.undo_stack@
                == trimmed(a.undo_stack@.push(snap))
    }
}

/// The state `undo` restores from the snapshot `snap` on top of `a`'s stack,
/// before the rows are rebuilt.
pub open spec fn restored(a: App, m: App, snap: UndoSnapshot) -> bool {
    &&& m.tasks == snap.tasks
    &&& m.tree.expanded == snap.expanded
    &&& m.next_id == snap.next_id
    &&& m.sort_mode == snap.sort_mode
    &&& m.tree.selected_path == snap.selected_path
    &&& m.tree.focus_path == snap.focus_path
    &&& m.tree.pending_delete_path is None
    &&& m.tree.visible == a.tree.visible
    &&& m.tree.visible_state == a.tree.visible_state
    &&& m.tree.tree_rect == a.tree.tree_rect
    &&& m.tree.last_click == a.tree.last_click
    &&& m.edit is None
    &&& m.mode == (if a.mode == Mode::Editing {
        Mode::Normal
    } else {
        a.mode
    })
    &&& m.undo_stack@ == a.undo_stack@.drop_last()
    &&& m.persist == a.persist
    &&& m.filter == a.filter
    &&& m.total_tasks == a.total_tasks
    &&& m.done_tasks == a.done_tasks
    &&& m.search_buf == a.search_buf
    &&& m.command_buf == a.command_buf
    &&& m.message == a.message
}

/// How `undo` turns `a` into `b`: with an empty stack it only says so;
/// otherwise the newest snapshot is restored (see `restored`), the rows
/// rebuilt, and the project marked dirty.
pub open spec fn undone(a: App, b: App) -> bool {
    if a.undo_stack@.len() == 0 {
        super::rel::with_message(a, b, "Nothing to undo"@)
    } else {
        exists|m: App, p: App, d: int|
            #![trigger restored(a, m, a.undo_stack@.last()), rebuild_rel(m, p, d)]
            restored(a, m, a.undo_stack@.last()) && rebuild_rel(m, p, d) && dirtied_with(
                p,
                b,
                "Undid last change"@,
            )
    }
}

/// `b` is `a` after marking it dirty and setting its message to `msg`.
pub open spec fn dirtied_with(a: App, b: App, msg: Seq<char>) -> bool {
    &&& b.persist.dirty
    &&& b.persist.last_change is Some
    &&& b.persist.data_path == a.persist.data_path
    &&& b.persist.last_saved == a.persist.last_saved
    &&& b.persist.last_save_failed == a.persist.last_save_failed
    &&& b.message@ == msg
    &&& b.tasks == a.tasks
    &&& b.tree == a.tree
    &&& b.filter == a.filter
    &&& b.sort_mode == a.sort_mode
    &&& b.total_tasks == a.total_tasks
    &&& b.done_tasks == a.done_tasks
    &&& b.mode == a.mode
    &&& b.search_buf == a.search_buf
    &&& b.command_buf == a.command_buf
    &&& b.edit == a.edit
    &&& b.undo_stack == a.undo_stack
    &&& b.next_id == a.next_id
}

/// Whether two tasks have the same value.
pub fn task_eq(a: &Task, b: &Task) -> (r: bool)
    ensures
        r == (a@ == b@),
    decreases a,
{
    if a.id != b.id || a.priority != b.priority || a.status != b.status {
        return false;
    }
    let same_due = match (a.due, b.due) {
        (Some(x), Some(y)) => x.days() == y.days(),
        (None, None) => true,
        _ => false,
    };
    if !same_due {
        return false;
    }
    if a.title != b.title || a.desc != b.desc {
        return false;
    }
    if a.tags.len() != b.tags.len() || a.children.len() != b.children.len() {
        assert(a@.tags.len() != b@.tags.len() || a@.children.len() != b@.children.len());
        return false;
    }
    let mut i: usize = 0;
    while i < a.tags.len()
        invariant
            i <= a.tags@.len() == b.tags@.len(),
            forall|j: int| 0 <= j < i ==> a.tags@[j]@ == b.tags@[j]@,
        decreases a.tags@.len() - i,
    {
        if a.tags[i] != b.tags[i] {
            assert(a@.tags[i as int] != b@.tags[i as int]);
            return false;
        }
        i += 1;
    }
    assert(a@.tags =~= b@.tags);
    let mut k: usize = 0;
    proof {
        lemma_children_view(*a);
        lemma_children_view(*b);
    }
    while k < a.children.len()
        invariant
            k <= a.children@.len() == b.children@.len(),
            forall|j: int| 0 <= j < k ==> a.children@[j]@ == b.children@[j]@,
        decreases a.children@.len() - k,
    {
        assert(decreases_to!(a => a.children));
        if !task_eq(&a.children[k], &b.children[k]) {
            assert(a@.children[k as int] != b@.children[k as int]);
            return false;
        }
        k += 1;
    }
    assert(a@.children =~= b@.children);
    true
}

/// Whether two task lists have the same value.
pub fn forest_eq(a: &Vec<Task>, b: &Vec<Task>) -> (r: bool)
    ensures
        r == (forest_view(a@) == forest_view(b@)),
{
    if a.len() != b.len() {
        assert(forest_view(a@).len() != forest_view(b@).len());
        return false;
    }
    let mut k: usize = 0;
    while k < a.len()
        invariant
            k <= a@.len() == b@.len(),
            forall|j: int| 0 <= j < k ==> a@[j]@ == b@[j]@,
        decreases a@.len() - k,
    {
        if !task_eq(&a[k], &b[k]) {
            assert(forest_view(a@)[k as int] != forest_view(b@)[k as int]);
            return false;
        }
        k += 1;
    }
    assert(forest_view(a@) =~= forest_view(b@));
    true
}

/// A copy of a task list.
pub fn copy_forest(a: &Vec<Task>) -> (r: Vec<Task>)
    ensures
        forest_view(r@) == forest_view(a@),
{
    let mut r: Vec<Task> = Vec::new();
    let mut k: usize = 0;
    while k < a.len()
        invariant
            k <= a@.len(),
            r@.len() == k,
            forall|j: int| 0 <= j < k ==> r@[j]@ == a@[j]@,
        decreases a@.len() - k,
    {
        let t = a[k].deep_copy();
        r.push(t);
        k += 1;
    }
    assert(forest_view(r@) =~= forest_view(a@));
    r
}

/// Whether `b` holds every id of `a`.
fn ids_within(a: &HashSet<u64>, b: &HashSet<u64>) -> (r: bool)
    ensures
        r == a@.subset_of(b@),
{
    let v = ids_to_vec(a);
    let mut i: usize = 0;
    while i < v.len()
        invariant
            i <= v@.len(),
            v@.to_set() == a@,
            forall|j: int| 0 <= j < i ==> b@.contains(#[trigger] v@[j]),
        decreases v@.len() - i,
    {
        if !b.contains(&v[i]) {
            assert(a@.contains(v@[i as int]));
            return false;
        }
        i += 1;
    }
    assert forall|x: u64| a@.contains(x) implies b@.contains(x) by {
        assert(v@.contains(x));
    }
    true
}

/// Whether two id sets are equal.
pub fn ids_eq(a: &HashSet<u64>, b: &HashSet<u64>) -> (r: bool)
    ensures
        r == (a@ == b@),
{
    let r = ids_within(a, b) && ids_within(b, a);
    proof {
        if r {
            assert(a@ =~= b@);
        }
    }
    r
}

/// The capacity of a string's buffer (`String::capacity`): at least its
/// length in bytes; beyond that it depends on the allocation history, so
/// nothing more is stated.
#[verifier::external_body]
fn string_capacity(s: &String) -> (c: usize)
    ensures
        c >= byte_len(s@),
{
    s.capacity()
}

/// The capacity of a task list's buffer (`Vec::capacity`): at least its
/// length; beyond that nothing is stated.
#[verifier::external_body]
fn task_vec_capacity(v: &Vec<Task>) -> (c: usize)
    ensures
        c >= v@.len(),
{
    v.capacity()
}

/// `x`, capped at `usize::MAX`.
pub open spec fn capped(x: int) -> int {
    if x > usize::MAX {
        usize::MAX as int
    } else {
        x
    }
}

/// The UTF-8 bytes of the tags `tags`, all together.
pub open spec fn tags_bytes(tags: Seq<Seq<char>>) -> nat
    decreases tags.len(),
{
    if tags.len() == 0 {
        0
    } else {
        tags_bytes(tags.drop_last()) + byte_len(tags.last()) as nat
    }
}

/// The least heap a copy of the task `t` itself takes: the task, its title,
/// description and tags in UTF-8, and a task's room per child.
pub open spec fn own_floor(t: TaskView) -> nat {
    size_of::<Task>() + byte_len(t.title) as nat + byte_len(t.desc) as nat + tags_bytes(t.tags)
        + t.children.len() * size_of::<Task>()
}

/// The least heap a copy of `t` and its subtree takes.
pub open spec fn task_floor(t: TaskView) -> nat
    decreases t,
{
    own_floor(t) + heap_floor(t.children)
}

/// The least heap a copy of the task list `s` takes: the sum of `task_floor`.
pub open spec fn heap_floor(s: Seq<TaskView>) -> nat
    decreases s,
{
    if s.len() == 0 {
        0
    } else {
        heap_floor(s.drop_last()) + task_floor(s.last())
    }
}

/// A saturating sum of two values that bound `x` and `y` from below (each
/// capped) bounds `x + y` from below, capped.
proof fn lemma_sat_add_floor(a: int, b: int, x: int, y: int)
    requires
        0 <= x,
        0 <= y,
        0 <= a <= usize::MAX,
        0 <= b <= usize::MAX,
        a >= capped(x),
        b >= capped(y),
    ensures
        capped(a + b) >= capped(x + y),
{
}

/// `a * b`, saturating at `usize::MAX`.
fn sat_mul(a: usize, b: usize) -> (r: usize)
    ensures
        r == capped(a * b),
{
    match a.checked_mul(b) {
        Some(x) => x,
        None => usize::MAX,
    }
}

/// A rough estimate of the heap that a copy of `tasks` takes (saturating): at
/// least what its contents take (`heap_floor`), more as the buffers hold
/// spare room.
#[verifier::rlimit(30)]
fn estimate_tasks_heap(tasks: &Vec<Task>) -> (r: usize)
    ensures
        r >= capped(heap_floor(forest_view(tasks@)) as int),
    decreases tasks@,
{
    let ghost s = forest_view(tasks@);
    let task_size = core::mem::size_of::<Task>();
    let mut n: usize = 0;
    let mut i: usize = 0;
    assert(s.take(0) =~= Seq::<TaskView>::empty());
    while i < tasks.len()
        invariant
            i <= tasks@.len(),
            s == forest_view(tasks@),
            task_size == size_of::<Task>(),
            n >= capped(heap_floor(s.take(i as int)) as int),
        decreases tasks@.len() - i,
    {
        let t = &tasks[i];
        let ghost tv = t@;
        let ghost tg = strings_view(t.tags@);
        let mut tags: usize = 0;
        let mut j: usize = 0;
        assert(tg.take(0) =~= Seq::<Seq<char>>::empty());
        while j < t.tags.len()
            invariant
                j <= t.tags@.len(),
                tg == strings_view(t.tags@),
                tags >= capped(tags_bytes(tg.take(j as int)) as int),
            decreases t.tags@.len() - j,
        {
            let c = string_capacity(&t.tags[j]);
            proof {
                assert(tg.take(j + 1).drop_last() =~= tg.take(j as int));
                assert(tg.take(j + 1).last() == t.tags@[j as int]@);
                lemma_sat_add_floor(tags as int, c as int, tags_bytes(tg.take(j as int)) as int, byte_len(t.tags@[j as int]@) as int);
            }
            tags = tags.saturating_add(c);
            j += 1;
        }
        assert(tg.take(j as int) =~= tg);
        let c_title = string_capacity(&t.title);
        let c_desc = string_capacity(&t.desc);
        let c_kids = task_vec_capacity(&t.children);
        let kids = sat_mul(c_kids, task_size);
        proof {
            lemma_children_view(*t);
            assert(tv.tags == tg);
            assert(tv.children.len() == t.children@.len());
            assert(c_kids * task_size >= t.children@.len() * task_size) by (nonlinear_arith)
                requires
                    c_kids >= t.children@.len(),
                    task_size >= 0,
            ;
            lemma_sat_add_floor(task_size as int, c_title as int, size_of::<Task>() as int, byte_len(tv.title) as int);
        }
        let o1 = task_size.saturating_add(c_title);
        proof {
            lemma_sat_add_floor(o1 as int, c_desc as int, size_of::<Task>() + byte_len(tv.title), byte_len(tv.desc) as int);
        }
        let o2 = o1.saturating_add(c_desc);
        proof {
            lemma_sat_add_floor(o2 as int, tags as int, size_of::<Task>() + byte_len(tv.title) + byte_len(tv.desc), tags_bytes(tg) as int);
        }
        let o3 = o2.saturating_add(tags);
        proof {
            lemma_sat_add_floor(o3 as int, kids as int, size_of::<Task>() + byte_len(tv.title) + byte_len(tv.desc) + tags_bytes(tg), (tv.children.len() * size_of::<Task>()) as int);
        }
        let own = o3.saturating_add(kids);
        assert(own >= capped(own_floor(tv) as int));
        assert(decreases_to!(tasks@ => tasks@[i as int]));
        assert(decreases_to!(tasks@[i as int] => tasks@[i as int].children));
        let below = estimate_tasks_heap(&t.children);
        proof {
            lemma_sat_add_floor(n as int, own as int, heap_floor(s.take(i as int)) as int, own_floor(tv) as int);
        }
        let n1 = n.saturating_add(own);
        proof {
            lemma_sat_add_floor(n1 as int, below as int, (heap_floor(s.take(i as int)) + own_floor(tv)) as int, heap_floor(tv.children) as int);
            assert(s.take(i + 1).drop_last() =~= s.take(i as int));
            assert(s.take(i + 1).last() == tv);
            assert(heap_floor(s.take(i + 1)) == heap_floor(s.take(i as int)) + task_floor(tv));
        }
        n = n1.saturating_add(below);
        i += 1;
    }
    assert(s.take(i as int) =~= s);
    n
}

/// The estimated bytes of a snapshot of `tasks` and `expanded`: at least the
/// least heap of the tasks (`heap_floor`) and 8 bytes per expanded id, capped.
fn estimate_snapshot_bytes(tasks: &Vec<Task>, expanded: &HashSet<u64>) -> (r: usize)
    ensures
        r >= capped((heap_floor(forest_view(tasks@)) + expanded@.len() * 8) as int),
{
    let h = estimate_tasks_heap(tasks);
    let e = sat_mul(expanded.len(), 8);
    proof {
        lemma_sat_add_floor(h as int, e as int, heap_floor(forest_view(tasks@)) as int, (expanded@.len() * 8) as int);
    }
    h.saturating_add(e)
}

/// Drops the oldest snapshots: down to 12, then while over the byte cap (keeping one).
pub fn trim_stack(stack: &mut Vec<UndoSnapshot>)
    ensures
        final(stack)@ == trimmed(old(stack)@),
{
    let ghost st = stack@;
    let ghost mut k: int = 0;
    assert(st.skip(0) =~= st);
    while stack.len() > MAX_UNDO_ENTRIES
        invariant
            0 <= k <= st.len(),
            stack@ == st.skip(k),
            st.len() > MAX_UNDO_ENTRIES ==> stack@.len() >= MAX_UNDO_ENTRIES,
            st.len() <= MAX_UNDO_ENTRIES ==> k == 0,
        decreases stack@.len(),
    {
        stack.remove(0);
        proof {
            k = k + 1;
        }
        assert(stack@ =~= st.skip(k));
    }
    let ghost e = stack@;
    assert(e == (if st.len() > MAX_UNDO_ENTRIES {
        st.skip(st.len() - MAX_UNDO_ENTRIES)
    } else {
        st
    }));
    let mut total: u128 = 0;
    let mut i: usize = 0;
    while i < stack.len()
        invariant
            i <= stack@.len(),
            stack@ == e,
            total == total_bytes(e.take(i as int)),
            total <= i * (usize::MAX as nat),
            e.len() <= MAX_UNDO_ENTRIES,
        decreases stack@.len() - i,
    {
        assert(e.take(i + 1).drop_last() =~= e.take(i as int));
        assert(total + stack[i as int].estimated_bytes <= (i + 1) * (usize::MAX as nat)) by (nonlinear_arith)
            requires
                total <= i * (usize::MAX as nat),
                stack[i as int].estimated_bytes <= usize::MAX,
        ;
        assert((i + 1) * (usize::MAX as nat) <= 13 * (usize::MAX as nat)) by (nonlinear_arith)
            requires
                i + 1 <= 13,
        ;
        total = total + stack[i].estimated_bytes as u128;
        i += 1;
    }
    assert(e.take(i as int) =~= e);
    while total > MAX_UNDO_BYTES as u128 && stack.len() > 1
        invariant
            total == total_bytes(stack@),
            trim_bytes(e) == trim_bytes(stack@),
        decreases stack@.len(),
    {
        let ghost before = stack@;
        let removed = stack[0].estimated_bytes;
        proof {
            lemma_total_bytes_first(before);
        }
        total = total - removed as u128;
        stack.remove(0);
        assert(stack@ =~= before.drop_first());
    }
}

proof fn lemma_total_bytes_first(st: Seq<UndoSnapshot>)
    requires
        st.len() > 0,
    ensures
        total_bytes(st) == st[0].estimated_bytes + total_bytes(st.drop_first()),
    decreases st.len(),
{
    if st.len() > 1 {
        lemma_total_bytes_first(st.drop_last());
        assert(st.drop_last().drop_first() =~= st.drop_first().drop_last());
        assert(total_bytes(st.drop_first()) == total_bytes(st.drop_first().drop_last())
            + st.drop_first().last().estimated_bytes);
        assert(st.drop_first().last() == st.last());
        assert(st.drop_last()[0] == st[0]);
    } else {
        assert(st.drop_first() =~= Seq::<UndoSnapshot>::empty());
        assert(st.drop_last() =~= Seq::<UndoSnapshot>::empty());
        assert(total_bytes(st) == total_bytes(st.drop_last()) + st.last().estimated_bytes);
    }
}

impl App {
    /// Saves the current tree state for `undo`, unless the newest snapshot
    /// already holds it; old snapshots are dropped beyond 12 entries or the byte cap.
    pub fn push_undo(&mut self)
        ensures
            undo_pushed(*old(self), *final(self)),
            same_except_undo(*old(self), *final(self)),
    {
        let n = self.undo_stack.len();
        if n > 0 {
            let last = &self.undo_stack[n - 1];
            let same = forest_eq(&last.tasks, &self.tasks) && ids_eq(
                &last.expanded,
                &self.tree.expanded,
            ) && last.next_id == self.next_id && last.sort_mode == self.sort_mode && path_eq(
                last.selected_path.as_slice(),
                self.tree.selected_path.as_slice(),
            ) && match (&last.focus_path, &self.tree.focus_path) {
                (Some(a), Some(b)) => path_eq(a.as_slice(), b.as_slice()),
                (None, None) => true,
                _ => false,
            };
            if same {
                return;
            }
        }
        let bytes = estimate_snapshot_bytes(&self.tasks, &self.tree.expanded);
        let snap = UndoSnapshot {
            tasks: copy_forest(&self.tasks),
            expanded: copy_ids(&self.tree.expanded),
            next_id: self.next_id,
            sort_mode: self.sort_mode,
            selected_path: copy_path(self.tree.selected_path.as_slice()),
            focus_path: copy_opt_path(&self.tree.focus_path),
            estimated_bytes: bytes,
        };
        let ghost gs = snap;
        self.undo_stack.push(snap);
        trim_stack(&mut self.undo_stack);
        assert(same_state(gs, *old(self)));
    }

    /// Restores the newest snapshot (see `restored`), rebuilds the rows and
    /// marks the project dirty; with no snapshot only says so.
    pub fn undo(&mut self)
        ensures
            undone(*old(self), *final(self)),
    {
        if self.undo_stack.len() == 0 {
            self.message = "Nothing to undo".to_owned();
            assert(super::rel::with_message(*old(self), *self, "Nothing to undo"@));
            return;
        }
        match self.undo_stack.pop() {
            Some(prev) => {
                let ghost snap = prev;
                self.tasks = prev.tasks;
                self.tree.expanded = prev.expanded;
                self.next_id = prev.next_id;
                self.sort_mode = prev.sort_mode;
                self.tree.selected_path = prev.selected_path;
                self.tree.focus_path = prev.focus_path;
                self.tree.pending_delete_path = None;
                self.edit = None;
                if self.mode == Mode::Editing {
                    self.mode = Mode::Normal;
                }
                let ghost m = *self;
                assert(restored(*old(self), m, snap));
                self.rebuild_visible();
                let ghost p = *self;
                self.mark_dirty();
                self.message = "Undid last change".to_owned();
                assert(dirtied_with(p, *self, "Undid last change"@));
                proof {
                    let d = choose|d: int| rebuild_rel(m, p, d);
                    assert(restored(*old(self), m, old(self).undo_stack@.last()) && rebuild_rel(m, p, d));
                }
            },
            None => {},
        }
    }
}

} // verus!
