//! Moving the selection, expanding ancestors, and focus mode.
use vstd::prelude::*;
use crate::forest::{forest_at, forest_find, task_at};
use crate::text::{concat, decimal, u64_to_string};
use crate::model::TaskView;
use super::access::{copy_path, parent_of, single};
use super::rel::{dirty_marked, same_data, unchanged, view_moved, with_message};
use super::state::{App, VisibleItemView};
use super::visibility::{first_row, rebuild_rel, scrolled};

verus! {

broadcast use vstd::std_specs::hash::group_hash_axioms;

/// The id of the task at the first `j` entries of `path`, if there is one.
pub open spec fn prefix_id(s: Seq<TaskView>, path: Seq<usize>, j: int) -> Option<u64> {
    match forest_at(s, path.take(j)) {
        Some(t) => Some(t.id),
        None => None,
    }
}

/// The ids of the tasks at the prefixes of `path` of length 1 to `k`.
pub open spec fn prefix_ids(s: Seq<TaskView>, path: Seq<usize>, k: int) -> Set<u64> {
    Set::new(|id: u64| exists|j: int| 1 <= j <= k && #[trigger] prefix_id(s, path, j) == Some(id))
}

/// The ids of the ancestors of the task at `path` (the tasks at its proper prefixes).
pub open spec fn ancestor_ids(s: Seq<TaskView>, path: Seq<usize>) -> Set<u64> {
    prefix_ids(s, path, path.len() - 1)
}

/// How `ensure_path_visible(path)` changes `a`: the ancestors of `path` are
/// expanded, and the project is marked dirty when that expanded anything new.
pub open spec fn path_opened(a: App, b: App, path: Seq<usize>) -> bool {
    let added = ancestor_ids(a.forest(), path);
    view_moved(
        a,
        b,
        a.sel(),
        a.expanded().union(added),
        a.focus(),
        a.pending(),
        !added.subset_of(a.expanded()),
    )
}

/// The index of the first row showing `path` or, failing that, its nearest
/// ancestor.
pub open spec fn nearest_row(rows: Seq<VisibleItemView>, p: Seq<usize>) -> Option<int>
    decreases p.len(),
{
    if p.len() == 0 {
        None
    } else {
        match first_row(rows, p) {
            Some(i) => Some(i),
            None => nearest_row(rows, p.drop_last()),
        }
    }
}

/// The row that stands for `path`: its own row, else its nearest visible ancestor's.
pub open spec fn row_for_path(rows: Seq<VisibleItemView>, path: Seq<usize>) -> Option<int> {
    match first_row(rows, path) {
        Some(i) => Some(i),
        None => nearest_row(rows, path),
    }
}

/// `b` is `a` with the list selection on row `i` and the selected path taken from it.
pub open spec fn row_selected(a: App, b: App, i: int) -> bool {
    &&& same_data(a, b)
    &&& b.persist == a.persist
    &&& b.sel() == a.rows()[i].path
    &&& b.tree.visible_state.selected == Some(i as usize)
    &&& b.tree.visible == a.tree.visible
    &&& b.expanded() == a.expanded()
    &&& b.focus() == a.focus()
    &&& b.tree.tree_rect == a.tree.tree_rect
    &&& b.tree.last_click == a.tree.last_click
}

/// `s` with `id` added when absent and removed when present.
pub open spec fn toggled(s: Set<u64>, id: u64) -> Set<u64> {
    if s.contains(id) {
        s.remove(id)
    } else {
        s.insert(id)
    }
}

/// Selects the task at `path` after expanding its ancestors: the focus stays,
/// the pending delete goes, the rows are rebuilt.
pub open spec fn selected_path_shown(a: App, b: App, path: Seq<usize>) -> bool {
    exists|m1: App, m2: App, d: int|
        #![trigger view_moved(a, m1, path, a.expanded(), a.focus(), None, false), path_opened(m1, m2, path), rebuild_rel(m2, b, d)]
        view_moved(a, m1, path, a.expanded(), a.focus(), None, false) && path_opened(m1, m2, path)
            && rebuild_rel(m2, b, d)
}

/// Focus on the task at `path` (its ancestors expanded, it selected, the rows
/// rebuilt), with a message naming its id.
pub open spec fn focused(a: App, b: App, path: Seq<usize>, id: u64) -> bool {
    exists|m1: App, m2: App, p: App, d: int|
        #![trigger view_moved(a, m1, path, a.expanded(), Some(path), None, false), path_opened(m1, m2, path), rebuild_rel(m2, p, d)]
        view_moved(a, m1, path, a.expanded(), Some(path), None, false) && path_opened(m1, m2, path)
            && rebuild_rel(m2, p, d) && with_message(p, b, "Focused on #"@ + decimal(id as nat))
}

/// How `focus_on(id)` turns `a` into `b`.
pub open spec fn focused_on(a: App, b: App, id: u64) -> bool {
    match forest_find(a.forest(), id) {
        Some(path) => focused(a, b, path, id),
        None => with_message(a, b, "No task #"@ + decimal(id as nat) + " to focus"@),
    }
}

/// A view change followed by a rebuild of the rows.
pub open spec fn moved_and_rebuilt(
    a: App,
    b: App,
    sel: Seq<usize>,
    expanded: Set<u64>,
    focus: Option<Seq<usize>>,
    dirty: bool,
) -> bool {
    exists|m: App, d: int|
        #![trigger view_moved(a, m, sel, expanded, focus, None, dirty), rebuild_rel(m, b, d)]
        view_moved(a, m, sel, expanded, focus, None, dirty) && rebuild_rel(m, b, d)
}

/// The ancestor ids found along the first `k` prefixes, one more prefix at a time.
proof fn lemma_prefix_ids_step(s: Seq<TaskView>, path: Seq<usize>, k: int)
    requires
        0 <= k,
    ensures
        prefix_ids(s, path, k + 1) == prefix_ids(s, path, k).union(
            match prefix_id(s, path, k + 1) {
                Some(id) => set![id],
                None => Set::empty(),
            },
        ),
{
    let lhs = prefix_ids(s, path, k + 1);
    let rhs = prefix_ids(s, path, k).union(
        match prefix_id(s, path, k + 1) {
            Some(id) => set![id],
            None => Set::empty(),
        },
    );
    assert forall|id: u64| lhs.contains(id) implies rhs.contains(id) by {
        let j = choose|j: int| 1 <= j <= k + 1 && #[trigger] prefix_id(s, path, j) == Some(id);
        if j <= k {
            assert(prefix_ids(s, path, k).contains(id));
        }
    }
    assert forall|id: u64| rhs.contains(id) implies lhs.contains(id) by {
        if prefix_ids(s, path, k).contains(id) {
            let j = choose|j: int| 1 <= j <= k && #[trigger] prefix_id(s, path, j) == Some(id);
            assert(prefix_id(s, path, j) == Some(id));
        } else {
            assert(prefix_id(s, path, k + 1) == Some(id));
        }
    }
    assert(lhs =~= rhs);
}

/// How `go_to_parent` turns `a` into `b`.
pub open spec fn went_to_parent(a: App, b: App) -> bool {
    if a.sel().len() > 1 {
        selected_path_shown(a, b, a.sel().drop_last())
    } else {
        unchanged(a, b)
    }
}

/// How `go_to_top` turns `a` into `b`.
pub open spec fn went_to_top(a: App, b: App) -> bool {
    if a.tasks@.len() == 0 {
        unchanged(a, b)
    } else {
        moved_and_rebuilt(
            a,
            b,
            seq![0usize],
            a.expanded(),
            a.focus(),
            false,
        )
    }
}

/// How `go_to_bottom` turns `a` into `b`.
pub open spec fn went_to_bottom(a: App, b: App) -> bool {
    if a.rows().len() == 0 {
        unchanged(a, b)
    } else {
        &&& row_selected(a, b, a.rows().len() - 1)
        &&& b.tree.visible_state.offset == a.tree.visible_state.offset
        &&& b.pending() is None
    }
}

/// How `move_selection(delta)` turns `a` into `b`.
pub open spec fn selection_moved(a: App, b: App, delta: isize) -> bool {
    ({
        let rows = a.rows();
        if rows.len() == 0 {
            unchanged(a, b)
        } else {
            let cur: int = match a.tree.visible_state.selected {
                Some(i) => i as int,
                None => match row_for_path(rows, a.sel()) {
                    Some(i) => i,
                    None => 0,
                },
            };
            let t = cur + delta;
            let new: int = if t < 0 {
                0
            } else if t > rows.len() - 1 {
                rows.len() - 1
            } else {
                t
            };
            &&& row_selected(a, b, new)
            &&& b.pending() == a.pending()
            &&& b.tree.visible_state.offset == scrolled(
                a.tree.visible_state.offset as int,
                new,
                a.tree.tree_rect.height as int,
            )
        }
    })
}

/// How `toggle_expanded` turns `a` into `b`.
pub open spec fn selected_toggled(a: App, b: App) -> bool {
    match forest_at(a.forest(), a.sel()) {
        Some(t) => exists|p: App|
            #![trigger with_message(p, b, "Toggled expand"@)]
            moved_and_rebuilt(
                a,
                p,
                a.sel(),
                toggled(a.expanded(), t.id),
                a.focus(),
                true,
            ) && with_message(p, b, "Toggled expand"@),
        None => unchanged(a, b),
    }
}

/// How `unfocus` turns `a` into `b`.
pub open spec fn unfocused(a: App, b: App) -> bool {
    if a.focus() is Some {
        exists|p: App|
            #![trigger with_message(p, b, "Unfocused (showing full tree)"@)]
            moved_and_rebuilt(
                a,
                p,
                a.sel(),
                a.expanded(),
                None,
                false,
            ) && with_message(p, b, "Unfocused (showing full tree)"@)
    } else {
        unchanged(a, b)
    }
}

impl App {
    /// Expands every ancestor of the task at `path` (see `path_opened`).
    pub fn ensure_path_visible(&mut self, path: &[usize])
        ensures
            path_opened(*old(self), *final(self), path@),
    {
        let ghost a0 = *self;
        let ghost s = self.forest();
        let mut changed = false;
        let mut current: Vec<usize> = Vec::new();
        let lim = if path.len() > 0 {
            path.len() - 1
        } else {
            0
        };
        assert(prefix_ids(s, path@, 0) =~= Set::<u64>::empty());
        let mut k: usize = 0;
        while k < lim
            invariant
                k <= lim,
                lim == (if path@.len() > 0 {
                    path@.len() - 1
                } else {
                    0
                }),
                s == self.forest(),
                self.tasks == a0.tasks,
                current@ == path@.take(k as int),
                self.expanded() == a0.expanded().union(prefix_ids(s, path@, k as int)),
                changed == !prefix_ids(s, path@, k as int).subset_of(a0.expanded()),
                self.tree.selected_path == a0.tree.selected_path,
                self.tree.visible == a0.tree.visible,
                self.tree.visible_state == a0.tree.visible_state,
                self.tree.pending_delete_path == a0.tree.pending_delete_path,
                self.tree.focus_path == a0.tree.focus_path,
                self.tree.tree_rect == a0.tree.tree_rect,
                self.tree.last_click == a0.tree.last_click,
                same_data(a0, *self),
                self.persist == a0.persist,
            decreases lim - k,
        {
            current.push(path[k]);
            assert(current@ == path@.take(k + 1));
            proof {
                lemma_prefix_ids_step(s, path@, k as int);
            }
            match task_at(&self.tasks, current.as_slice()) {
                Some(t) => {
                    let id = t.id;
                    let fresh = self.tree.expanded.insert(id);
                    if fresh {
                        changed = true;
                    }
                },
                None => {},
            }
            k += 1;
            assert(self.expanded() =~= a0.expanded().union(prefix_ids(s, path@, k as int)));
        }
        assert(prefix_ids(s, path@, k as int) =~= ancestor_ids(s, path@));
        if changed {
            self.mark_dirty();
        }
    }

    /// Selects the parent of the selected task, expanding its ancestors.
    pub fn go_to_parent(&mut self)
        ensures
            went_to_parent(*old(self), *final(self)),
    {
        if self.tree.selected_path.len() > 1 {
            let ghost a0 = *self;
            let p = parent_of(self.tree.selected_path.as_slice());
            let q = copy_path(p.as_slice());
            self.tree.selected_path = p;
            self.clear_pending_delete();
            let ghost m1 = *self;
            self.ensure_path_visible(q.as_slice());
            let ghost m2 = *self;
            self.rebuild_visible();
            proof {
                let d = choose|d: int| rebuild_rel(m2, *self, d);
                assert(view_moved(a0, m1, q@, a0.expanded(), a0.focus(), None, false)
                    && path_opened(m1, m2, q@) && rebuild_rel(m2, *self, d));
            }
        }
    }

    /// Selects the first root task.
    pub fn go_to_top(&mut self)
        ensures
            went_to_top(*old(self), *final(self)),
    {
        if self.tasks.len() == 0 {
            return;
        }
        let ghost a0 = *self;
        self.tree.selected_path = single(0);
        self.clear_pending_delete();
        let ghost m = *self;
        self.rebuild_visible();
        proof {
            let d = choose|d: int| rebuild_rel(m, *self, d);
            assert(view_moved(a0, m, seq![0usize], a0.expanded(), a0.focus(), None, false)
                && rebuild_rel(m, *self, d));
        }
    }

    /// Points the selected path at the selected row, if there is one.
    pub fn sync_selection_from_visible(&mut self)
        ensures
            match old(self).tree.visible_state.selected {
                Some(i) if i < old(self).rows().len() => final(self).sel() == old(self).rows()[i as int].path,
                _ => final(self).sel() == old(self).sel(),
            },
            same_data(*old(self), *final(self)),
            final(self).persist == old(self).persist,
            final(self).tree.visible == old(self).tree.visible,
            final(self).tree.visible_state == old(self).tree.visible_state,
            final(self).tree.expanded == old(self).tree.expanded,
            final(self).tree.pending_delete_path == old(self).tree.pending_delete_path,
            final(self).tree.focus_path == old(self).tree.focus_path,
            final(self).tree.tree_rect == old(self).tree.tree_rect,
            final(self).tree.last_click == old(self).tree.last_click,
    {
        match self.tree.visible_state.selected() {
            Some(idx) => {
                if idx < self.tree.visible.len() {
                    let p = copy_path(self.tree.visible[idx].path.as_slice());
                    self.tree.selected_path = p;
                }
            },
            None => {},
        }
    }

    /// Selects the last row.
    pub fn go_to_bottom(&mut self)
        ensures
            went_to_bottom(*old(self), *final(self)),
    {
        if self.tree.visible.len() == 0 {
            return;
        }
        let last = self.tree.visible.len() - 1;
        self.tree.visible_state.select(Some(last));
        self.sync_selection_from_visible();
        self.clear_pending_delete();
    }

    /// The row for `path`: its own, else its nearest visible ancestor's.
    pub fn find_visible_index_for_path(&self, path: &[usize]) -> (r: Option<usize>)
        ensures
            match r {
                Some(i) => row_for_path(self.rows(), path@) == Some(i as int),
                None => row_for_path(self.rows(), path@) is None,
            },
    {
        match self.find_exact_visible_index(path) {
            Some(i) => {
                return Some(i);
            },
            None => {},
        }
        let mut ancestor = copy_path(path);
        while ancestor.len() > 0
            invariant
                nearest_row(self.rows(), ancestor@) == nearest_row(self.rows(), path@),
            decreases ancestor@.len(),
        {
            match self.find_exact_visible_index(ancestor.as_slice()) {
                Some(i) => {
                    return Some(i);
                },
                None => {},
            }
            ancestor.pop();
        }
        None
    }

    /// Moves the list selection `delta` rows (clamped to the list) and
    /// selects that row's task, scrolling it into view.
    pub fn move_selection(&mut self, delta: isize)
        ensures
            selection_moved(*old(self), *final(self), delta),
    {
        if self.tree.visible.len() == 0 {
            return;
        }
        let n = self.tree.visible.len();
        let cur: i128 = match self.tree.visible_state.selected() {
            Some(i) => i as i128,
            None => match self.find_visible_index_for_path(self.tree.selected_path.as_slice()) {
                Some(i) => i as i128,
                None => 0,
            },
        };
        let t = cur + delta as i128;
        let new: usize = if t < 0 {
            0
        } else if t > (n - 1) as i128 {
            n - 1
        } else {
            t as usize
        };
        self.tree.visible_state.select(Some(new));
        self.sync_selection_from_visible();
        self.ensure_selection_visible(new);
    }

    /// Expands or collapses the selected task.
    pub fn toggle_expanded(&mut self)
        ensures
            selected_toggled(*old(self), *final(self)),
    {
        let ghost a0 = *self;
        let id = match self.current_task() {
            Some(t) => t.id,
            None => {
                return;
            },
        };
        if self.tree.expanded.contains(&id) {
            self.tree.expanded.remove(&id);
        } else {
            self.tree.expanded.insert(id);
        }
        self.clear_pending_delete();
        self.mark_dirty();
        let ghost m = *self;
        self.rebuild_visible();
        let ghost p = *self;
        self.message = "Toggled expand".to_owned();
        proof {
            let d = choose|d: int| rebuild_rel(m, p, d);
            assert(view_moved(a0, m, a0.sel(), toggled(a0.expanded(), id), a0.focus(), None, true)
                && rebuild_rel(m, p, d));
            assert(with_message(p, *self, "Toggled expand"@));
        }
    }

    /// Shows only the subtree of the task with id `id`.
    pub fn focus_on(&mut self, id: u64)
        ensures
            focused_on(*old(self), *final(self), id),
    {
        let ghost a0 = *self;
        match self.find_path_by_id(id) {
            Some(path) => {
                self.tree.focus_path = Some(copy_path(path.as_slice()));
                self.tree.selected_path = copy_path(path.as_slice());
                self.clear_pending_delete();
                let ghost m1 = *self;
                self.ensure_path_visible(path.as_slice());
                let ghost m2 = *self;
                self.rebuild_visible();
                let ghost p = *self;
                self.message = concat("Focused on #", u64_to_string(id).as_str());
                proof {
                    let d = choose|d: int| rebuild_rel(m2, p, d);
                    assert(view_moved(a0, m1, path@, a0.expanded(), Some(path@), None, false)
                        && path_opened(m1, m2, path@) && rebuild_rel(m2, p, d) && with_message(
                        p,
                        *self,
                        "Focused on #"@ + decimal(id as nat),
                    ));
                }
            },
            None => {
                let t = concat("No task #", u64_to_string(id).as_str());
                self.message = concat(t.as_str(), " to focus");
            },
        }
    }

    /// Leaves focus mode.
    pub fn unfocus(&mut self)
        ensures
            unfocused(*old(self), *final(self)),
    {
        if self.tree.focus_path.is_none() {
            return;
        }
        let ghost a0 = *self;
        self.tree.focus_path = None;
        self.clear_pending_delete();
        let ghost m = *self;
        self.rebuild_visible();
        let ghost p = *self;
        self.message = "Unfocused (showing full tree)".to_owned();
        proof {
            let d = choose|d: int| rebuild_rel(m, p, d);
            assert(view_moved(a0, m, a0.sel(), a0.expanded(), None, None, false) && rebuild_rel(
                m,
                p,
                d,
            ));
            assert(with_message(p, *self, "Unfocused (showing full tree)"@));
        }
    }

    /// Selects the task with id `id`, expanding its ancestors; `false` when there is none.
    pub fn jump_to_id(&mut self, id: u64) -> (r: bool)
        ensures
            r == forest_find(old(self).forest(), id) is Some,
            match forest_find(old(self).forest(), id) {
                Some(path) => selected_path_shown(*old(self), *final(self), path),
                None => unchanged(*old(self), *final(self)),
            },
    {
        let ghost a0 = *self;
        match self.find_path_by_id(id) {
            Some(path) => {
                self.clear_pending_delete();
                self.tree.selected_path = copy_path(path.as_slice());
                let ghost m1 = *self;
                self.ensure_path_visible(path.as_slice());
                let ghost m2 = *self;
                self.rebuild_visible();
                proof {
                    let d = choose|d: int| rebuild_rel(m2, *self, d);
                    assert(view_moved(a0, m1, path@, a0.expanded(), a0.focus(), None, false)
                        && path_opened(m1, m2, path@) && rebuild_rel(m2, *self, d));
                }
                true
            },
            None => false,
        }
    }
}

} // verus!
