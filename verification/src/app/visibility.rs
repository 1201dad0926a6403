//! Visible tree list construction and selection scrolling.
use std::collections::HashSet;
use vstd::prelude::*;
use crate::date::{Date, today};
use crate::forest::{
    cap, count_all, count_done, forest_at, forest_done, forest_find, forest_size, task_at,
};
use crate::model::{
    Priority, Status, Task, TaskView, forest_view, lemma_children_view, task_matches,
    tree_has_match,
};
use crate::sort::{SortMode, sort_order, sorted_indices};
use crate::text::{lowercase, to_lowercase};
use super::access::{copy_path, path_eq, path_push};
use super::state::{
    App, FilterState, ListView, Mode, VisibleItem, VisibleItemView, opt_path, rows_view,
};

verus! {

broadcast use vstd::std_specs::hash::group_hash_axioms;

/// What decides which tasks are listed.
pub struct VisCtx {
    pub hide_done: bool,
    pub only_high: bool,
    pub only_due: bool,
    pub search: Seq<char>,
    pub expanded: Set<u64>,
    pub today: int,
    pub mode: SortMode,
}

/// Whether the quick filters let `t` through.
pub open spec fn included(t: TaskView, c: VisCtx) -> bool {
    &&& !(c.hide_done && t.status == Status::Done)
    &&& !(c.only_high && t.priority != Priority::High)
    &&& !(c.only_due && (t.due is None || t.due->0 > c.today))
}

/// Whether `t` gets a row: with a search, when it or a task below it matches;
/// without one, when the quick filters let it through.
pub open spec fn shown(t: TaskView, c: VisCtx) -> bool {
    if c.search.len() == 0 {
        included(t, c)
    } else {
        task_matches(t, c.search) || tree_has_match(t, c.search)
    }
}

/// The rows for the list `s` whose path is `base` and nesting depth `depth`.
pub open spec fn vis_list(s: Seq<TaskView>, base: Seq<usize>, depth: int, c: VisCtx) -> Seq<
    VisibleItemView,
>
    decreases s, 2int, 0int,
{
    let order = sort_order(s, c.mode);
    vis_prefix(s, order, order.len() as int, base, depth, c)
}

/// The rows for the first `k` entries of `order`.
pub open spec fn vis_prefix(
    s: Seq<TaskView>,
    order: Seq<usize>,
    k: int,
    base: Seq<usize>,
    depth: int,
    c: VisCtx,
) -> Seq<VisibleItemView>
    decreases s, 1int, k,
{
    if k <= 0 {
        Seq::empty()
    } else {
        vis_prefix(s, order, k - 1, base, depth, c) + vis_item(s, order, k - 1, base, depth, c)
    }
}

/// The rows for the task at position `p` of `order`: its own row when it is
/// shown, then the rows below it when it is expanded (down to depth 128).
pub open spec fn vis_item(
    s: Seq<TaskView>,
    order: Seq<usize>,
    p: int,
    base: Seq<usize>,
    depth: int,
    c: VisCtx,
) -> Seq<VisibleItemView>
    decreases s, 0int, 0int,
{
    if 0 <= p < order.len() && order[p] < s.len() {
        let i = order[p];
        let t = s[i as int];
        let path = base.push(i);
        (if shown(t, c) {
            seq![VisibleItemView { path, depth, is_last: p == order.len() - 1 }]
        } else {
            Seq::empty()
        }) + (if depth < 128 && c.expanded.contains(t.id) && t.children.len() > 0 {
            vis_list(t.children, path, depth + 1, c)
        } else {
            Seq::empty()
        })
    } else {
        Seq::empty()
    }
}

/// The rows when the view is focused on the task at `fp`.
pub open spec fn focus_rows(s: Seq<TaskView>, fp: Seq<usize>, c: VisCtx) -> Seq<VisibleItemView> {
    match forest_at(s, fp) {
        Some(t) => {
            let expanded = c.expanded.contains(t.id);
            seq![
                VisibleItemView {
                    path: fp,
                    depth: 0,
                    is_last: t.children.len() == 0 || !expanded,
                },
            ] + (if expanded && t.children.len() > 0 {
                vis_list(t.children, fp, 1, c)
            } else {
                Seq::empty()
            })
        },
        None => Seq::empty(),
    }
}

/// The index of the first row whose path is `path`.
pub open spec fn first_row(rows: Seq<VisibleItemView>, path: Seq<usize>) -> Option<int>
    decreases rows.len(),
{
    if rows.len() == 0 {
        None
    } else {
        match first_row(rows.drop_last(), path) {
            Some(i) => Some(i),
            None => if rows.last().path == path {
                Some(rows.len() - 1)
            } else {
                None
            },
        }
    }
}

/// The selection after the tree changed: the first path of the selected task's id.
pub open spec fn reselect(s: Seq<TaskView>, sel: Seq<usize>) -> Seq<usize> {
    match forest_at(s, sel) {
        Some(t) => match forest_find(s, t.id) {
            Some(p) => p,
            None => sel,
        },
        None => sel,
    }
}

/// The focus after the tree changed: the first path of the focused task's id.
pub open spec fn refocus(s: Seq<TaskView>, focus: Option<Seq<usize>>) -> Option<Seq<usize>> {
    match focus {
        Some(fp) => match forest_at(s, fp) {
            Some(t) => forest_find(s, t.id),
            None => None,
        },
        None => None,
    }
}

/// `a + b`, saturating at `usize::MAX`.
pub open spec fn sat_add(a: int, b: int) -> int {
    if a + b > usize::MAX {
        usize::MAX as int
    } else {
        a + b
    }
}

/// The scroll offset that keeps row `sel` on screen, given the tree area's height.
pub open spec fn scrolled(offset: int, sel: int, height: int) -> int {
    let viewport = if height - 2 > 1 {
        height - 2
    } else {
        1
    };
    if sel < offset {
        sel
    } else if sel >= sat_add(offset, viewport) {
        if sel - (viewport - 1) > 0 {
            sel - (viewport - 1)
        } else {
            0
        }
    } else {
        offset
    }
}

/// The search text in effect: the one being typed in search mode, else the committed one.
pub open spec fn active_search(a: App) -> Seq<char> {
    if a.mode == Mode::Search {
        a.search_buf@
    } else {
        a.filter.search@
    }
}

/// The listing context of `a` on day `today`.
pub open spec fn ctx_of(a: App, today: int) -> VisCtx {
    VisCtx {
        hide_done: a.filter.hide_done,
        only_high: a.filter.only_high,
        only_due: a.filter.only_overdue_or_today,
        search: lowercase(active_search(a)),
        expanded: a.expanded(),
        today,
        mode: a.sort_mode,
    }
}

/// The rows that `a` shows on day `today` once selection and focus are re-found.
pub open spec fn rows_of(a: App, today: int) -> Seq<VisibleItemView> {
    match refocus(a.forest(), a.focus()) {
        Some(fp) => focus_rows(a.forest(), fp, ctx_of(a, today)),
        None => vis_list(a.forest(), Seq::empty(), 0, ctx_of(a, today)),
    }
}

/// How `rebuild_visible` (on day `today`) turns the state `pre` into `post`:
/// the tree and all settings stay; selection and focus follow their task's
/// id; the rows are recomputed; the list selection points at the selected
/// row (or at nothing when the selected task is filtered out, or at the first
/// row when the selection is gone); a stale pending delete is dropped; the
/// counters are recomputed.
pub open spec fn rebuild_rel(pre: App, post: App, today: int) -> bool {
    let s = pre.forest();
    let sel1 = reselect(s, pre.sel());
    let focus1 = refocus(s, pre.focus());
    let rows = rows_of(pre, today);
    &&& post.tasks == pre.tasks
    &&& post.tree.expanded == pre.tree.expanded
    &&& post.tree.tree_rect == pre.tree.tree_rect
    &&& post.tree.last_click == pre.tree.last_click
    &&& post.persist == pre.persist
    &&& post.filter == pre.filter
    &&& post.sort_mode == pre.sort_mode
    &&& post.mode == pre.mode
    &&& post.search_buf == pre.search_buf
    &&& post.command_buf == pre.command_buf
    &&& post.edit == pre.edit
    &&& post.message == pre.message
    &&& post.undo_stack == pre.undo_stack
    &&& post.next_id == pre.next_id
    &&& post.focus() == focus1
    &&& post.rows() == rows
    &&& post.total_tasks == cap(forest_size(s))
    &&& post.done_tasks == cap(forest_done(s))
    &&& post.pending() == (match pre.pending() {
        Some(p) => if forest_at(s, p) is Some {
            Some(p)
        } else {
            None
        },
        None => None,
    })
    &&& if rows.len() > 0 {
        let exact = first_row(rows, sel1);
        let chosen: Option<int> = if exact is Some {
            exact
        } else if forest_at(s, sel1) is Some {
            None
        } else {
            Some(0)
        };
        &&& post.sel() == (if exact is None && forest_at(s, sel1) is None {
            Seq::empty()
        } else {
            sel1
        })
        &&& post.tree.visible_state.selected == (match chosen {
            Some(i) => Some(i as usize),
            None => None,
        })
        &&& post.tree.visible_state.offset == (match chosen {
            Some(i) => {
                let prev = pre.tree.visible_state.offset as int;
                let start = if prev < rows.len() - 1 {
                    prev
                } else {
                    rows.len() - 1
                };
                scrolled(start, i, pre.tree.tree_rect.height as int) as usize
            },
            None => 0,
        })
    } else {
        &&& post.sel() == (if forest_at(s, sel1) is None {
            Seq::empty()
        } else {
            sel1
        })
        &&& post.tree.visible_state.selected is None
        &&& post.tree.visible_state.offset == 0
    }
}

/// A rebuild keeps the selection on its task when that task is still in the tree.
pub proof fn lemma_rebuild_keeps_selection(pre: App, post: App, today: int)
    requires
        rebuild_rel(pre, post, today),
        forest_at(pre.forest(), reselect(pre.forest(), pre.sel())) is Some,
    ensures
        post.sel() == reselect(pre.forest(), pre.sel()),
{
}

/// A rebuild leaves the tasks, the expanded set, the sort mode, the next id,
/// the undo stack, the save state, the buffers and the edit form alone, keeps
/// the focus where it still names a task, shows the rows `rows_of` gives, and
/// recounts the tasks.
pub proof fn lemma_rebuild_keeps(pre: App, post: App, today: int)
    requires
        rebuild_rel(pre, post, today),
    ensures
        post.tasks == pre.tasks,
        post.tree.expanded == pre.tree.expanded,
        post.sort_mode == pre.sort_mode,
        post.next_id == pre.next_id,
        post.undo_stack == pre.undo_stack,
        post.persist == pre.persist,
        post.filter == pre.filter,
        post.mode == pre.mode,
        post.edit == pre.edit,
        post.search_buf == pre.search_buf,
        post.command_buf == pre.command_buf,
        post.message == pre.message,
        post.focus() == refocus(pre.forest(), pre.focus()),
        post.rows() == rows_of(pre, today),
        post.total_tasks == cap(forest_size(pre.forest())),
        post.done_tasks == cap(forest_done(pre.forest())),
{
}

/// The filter fields that decide listing, as exec values.
fn included_exec(t: &Task, filter: &FilterState, today: Date) -> (r: bool)
    ensures
        r == included(
            t@,
            VisCtx {
                hide_done: filter.hide_done,
                only_high: filter.only_high,
                only_due: filter.only_overdue_or_today,
                search: Seq::empty(),
                expanded: Set::empty(),
                today: today.day(),
                mode: SortMode::Manual,
            },
        ),
{
    let mut keep = true;
    if filter.hide_done && t.status == Status::Done {
        keep = false;
    }
    if filter.only_high && t.priority != Priority::High {
        keep = false;
    }
    if filter.only_overdue_or_today {
        match t.due {
            Some(d) => {
                if today.before(&d) {
                    keep = false;
                }
            },
            None => {
                keep = false;
            },
        }
    }
    keep
}

/// Appends the rows of the list `tasks` (path `base`, depth `depth`) to `visible`.
#[verifier::rlimit(40)]
fn collect_visible(
    tasks: &Vec<Task>,
    base: &Vec<usize>,
    depth: usize,
    filter: &FilterState,
    search_lower: &str,
    expanded: &HashSet<u64>,
    today: Date,
    sort_mode: SortMode,
    visible: &mut Vec<VisibleItem>,
    Ghost(c): Ghost<VisCtx>,
)
    requires
        depth <= 128,
        c.hide_done == filter.hide_done,
        c.only_high == filter.only_high,
        c.only_due == filter.only_overdue_or_today,
        c.search == search_lower@,
        c.expanded == expanded@,
        c.today == today.day(),
        c.mode == sort_mode,
    ensures
        rows_view(final(visible)@) == rows_view(old(visible)@) + vis_list(
            forest_view(tasks@),
            base@,
            depth as int,
            c,
        ),
    decreases tasks@,
{
    let ghost s = forest_view(tasks@);
    let order = sorted_indices(tasks, sort_mode);
    let ghost ord = order@;
    let n = order.len();
    let mut pos: usize = 0;
    while pos < n
        invariant
            pos <= n == ord.len() == s.len(),
            s == forest_view(tasks@),
            ord == order@,
            ord == sort_order(s, c.mode),
            forall|k: int| 0 <= k < ord.len() ==> #[trigger] ord[k] < s.len(),
            depth <= 128,
            c.hide_done == filter.hide_done,
            c.only_high == filter.only_high,
            c.only_due == filter.only_overdue_or_today,
            c.search == search_lower@,
            c.expanded == expanded@,
            c.today == today.day(),
            c.mode == sort_mode,
            rows_view(visible@) == rows_view(old(visible)@) + vis_prefix(
                s,
                ord,
                pos as int,
                base@,
                depth as int,
                c,
            ),
        decreases n - pos,
    {
        let i = order[pos];
        let task = &tasks[i];
        let path = path_push(base.as_slice(), i);
        let is_last = pos == n - 1;
        let keep = included_exec(task, filter, today);
        let show = if search_lower.is_empty() {
            keep
        } else {
            task.matches_search(search_lower) || task.has_matching_descendant(search_lower)
        };
        let ghost before = rows_view(visible@);
        if show {
            let item_path = copy_path(path.as_slice());
            visible.push(VisibleItem { path: item_path, depth, is_last });
            assert(rows_view(visible@) =~= before + seq![
                VisibleItemView { path: path@, depth: depth as int, is_last },
            ]);
        }
        let ghost mid = rows_view(visible@);
        proof {
            lemma_children_view(tasks@[i as int]);
        }
        if depth < 128 && expanded.contains(&task.id) && !task.children.is_empty() {
            assert(decreases_to!(tasks@ => tasks@[i as int]));
            assert(decreases_to!(tasks@[i as int] => tasks@[i as int].children));
            collect_visible(
                &task.children,
                &path,
                depth + 1,
                filter,
                search_lower,
                expanded,
                today,
                sort_mode,
                visible,
                Ghost(c),
            );
        }
        proof {
            let item = vis_item(s, ord, pos as int, base@, depth as int, c);
            assert(rows_view(visible@) =~= before + item);
            assert(vis_prefix(s, ord, pos + 1, base@, depth as int, c) == vis_prefix(
                s,
                ord,
                pos as int,
                base@,
                depth as int,
                c,
            ) + item);
        }
        pos += 1;
    }
}

impl App {
    /// Recomputes the visible rows for today's date (see `rebuild_rel`).
    pub fn rebuild_visible(&mut self)
        ensures
            exists|d: int| rebuild_rel(*old(self), *final(self), d),
            final(self).tasks == old(self).tasks,
            final(self).tree.expanded == old(self).tree.expanded,
            final(self).persist == old(self).persist,
            final(self).filter == old(self).filter,
            final(self).sort_mode == old(self).sort_mode,
            final(self).mode == old(self).mode,
            final(self).search_buf == old(self).search_buf,
            final(self).command_buf == old(self).command_buf,
            final(self).edit == old(self).edit,
            final(self).message == old(self).message,
            final(self).undo_stack == old(self).undo_stack,
            final(self).next_id == old(self).next_id,
    {
        let d = today();
        self.rebuild_visible_on(d);
    }

    /// Recomputes the visible rows on day `today` (see `rebuild_rel`).
    pub fn rebuild_visible_on(&mut self, today: Date)
        ensures
            rebuild_rel(*old(self), *final(self), today.day()),
            final(self).tasks == old(self).tasks,
            final(self).tree.expanded == old(self).tree.expanded,
            final(self).persist == old(self).persist,
            final(self).filter == old(self).filter,
            final(self).sort_mode == old(self).sort_mode,
            final(self).mode == old(self).mode,
            final(self).search_buf == old(self).search_buf,
            final(self).command_buf == old(self).command_buf,
            final(self).edit == old(self).edit,
            final(self).message == old(self).message,
            final(self).undo_stack == old(self).undo_stack,
            final(self).next_id == old(self).next_id,
    {
        let ghost pre = *self;
        self.refind_selection();
        let visible = self.compute_rows(today, Ghost(pre));
        self.tree.visible = visible;
        self.select_row(Ghost(pre));
        let stale = match &self.tree.pending_delete_path {
            Some(p) => task_at(&self.tasks, p.as_slice()).is_none(),
            None => false,
        };
        if stale {
            self.tree.pending_delete_path = None;
        }
        self.total_tasks = count_all(&self.tasks);
        self.done_tasks = count_done(&self.tasks);
    }

    /// Points the selection and the focus at the first path of their task's id.
    fn refind_selection(&mut self)
        ensures
            final(self).sel() == reselect(old(self).forest(), old(self).sel()),
            final(self).focus() == refocus(old(self).forest(), old(self).focus()),
            final(self).tasks == old(self).tasks,
            final(self).tree.visible == old(self).tree.visible,
            final(self).tree.visible_state == old(self).tree.visible_state,
            final(self).tree.expanded == old(self).tree.expanded,
            final(self).tree.pending_delete_path == old(self).tree.pending_delete_path,
            final(self).tree.tree_rect == old(self).tree.tree_rect,
            final(self).tree.last_click == old(self).tree.last_click,
            final(self).persist == old(self).persist,
            final(self).filter == old(self).filter,
            final(self).sort_mode == old(self).sort_mode,
            final(self).total_tasks == old(self).total_tasks,
            final(self).done_tasks == old(self).done_tasks,
            final(self).mode == old(self).mode,
            final(self).search_buf == old(self).search_buf,
            final(self).command_buf == old(self).command_buf,
            final(self).edit == old(self).edit,
            final(self).message == old(self).message,
            final(self).undo_stack == old(self).undo_stack,
            final(self).next_id == old(self).next_id,
    {
        let selected_id: Option<u64> = match task_at(&self.tasks, self.tree.selected_path.as_slice()) {
            Some(t) => Some(t.id),
            None => None,
        };
        let focus_id: Option<u64> = match &self.tree.focus_path {
            Some(p) => match task_at(&self.tasks, p.as_slice()) {
                Some(t) => Some(t.id),
                None => None,
            },
            None => None,
        };
        if let Some(id) = selected_id {
            if let Some(path) = self.find_path_by_id(id) {
                self.tree.selected_path = path;
            }
        }
        if let Some(id) = focus_id {
            self.tree.focus_path = self.find_path_by_id(id);
        } else {
            self.tree.focus_path = None;
        }
    }

    /// The rows for the current focus, listing context as in `pre`.
    fn compute_rows(&self, today: Date, Ghost(pre): Ghost<App>) -> (r: Vec<VisibleItem>)
        requires
            self.focus() == refocus(pre.forest(), pre.focus()),
            self.tasks == pre.tasks,
            self.tree.expanded == pre.tree.expanded,
            self.filter == pre.filter,
            self.mode == pre.mode,
            self.search_buf == pre.search_buf,
            self.sort_mode == pre.sort_mode,
        ensures
            rows_view(r@) == rows_of(pre, today.day()),
    {
        let ghost s = self.forest();
        let search_lower = if self.mode == Mode::Search {
            to_lowercase(self.search_buf.as_str())
        } else {
            to_lowercase(self.filter.search.as_str())
        };
        let ghost c = ctx_of(pre, today.day());
        let mut visible: Vec<VisibleItem> = Vec::new();
        match &self.tree.focus_path {
            Some(fp) => {
                match task_at(&self.tasks, fp.as_slice()) {
                    Some(t) => {
                        let expanded = self.tree.expanded.contains(&t.id);
                        let is_last = t.children.is_empty() || !expanded;
                        visible.push(VisibleItem { path: copy_path(fp.as_slice()), depth: 0, is_last });
                        proof {
                            lemma_children_view(*t);
                        }
                        if expanded && !t.children.is_empty() {
                            collect_visible(
                                &t.children,
                                fp,
                                1,
                                &self.filter,
                                search_lower.as_str(),
                                &self.tree.expanded,
                                today,
                                self.sort_mode,
                                &mut visible,
                                Ghost(c),
                            );
                        }
                        assert(rows_view(visible@) =~= focus_rows(s, fp@, c));
                    },
                    None => {
                        assert(rows_view(visible@) =~= focus_rows(s, fp@, c));
                    },
                }
            },
            None => {
                let base: Vec<usize> = Vec::new();
                collect_visible(
                    &self.tasks,
                    &base,
                    0,
                    &self.filter,
                    search_lower.as_str(),
                    &self.tree.expanded,
                    today,
                    self.sort_mode,
                    &mut visible,
                    Ghost(c),
                );
                assert(base@ =~= Seq::<usize>::empty());
                assert(rows_view(visible@) =~= rows_view(Seq::<VisibleItem>::empty()) + vis_list(
                    s,
                    Seq::empty(),
                    0,
                    c,
                ));
            },
        }
        visible
    }

    /// Points the list selection at the selected row once the rows are rebuilt.
    fn select_row(&mut self, Ghost(pre): Ghost<App>)
        requires
            old(self).sel() == reselect(pre.forest(), pre.sel()),
            old(self).tasks == pre.tasks,
            old(self).tree.tree_rect == pre.tree.tree_rect,
            old(self).tree.visible_state.offset == pre.tree.visible_state.offset,
        ensures
            ({
                let s = pre.forest();
                let sel1 = old(self).sel();
                let rows = old(self).rows();
                if rows.len() > 0 {
                    let exact = first_row(rows, sel1);
                    let chosen: Option<int> = if exact is Some {
                        exact
                    } else if forest_at(s, sel1) is Some {
                        None
                    } else {
                        Some(0)
                    };
                    &&& final(self).sel() == (if exact is None && forest_at(s, sel1) is None {
                        Seq::empty()
                    } else {
                        sel1
                    })
                    &&& final(self).tree.visible_state.selected == (match chosen {
                        Some(i) => Some(i as usize),
                        None => None,
                    })
                    &&& final(self).tree.visible_state.offset == (match chosen {
                        Some(i) => {
                            let prev = pre.tree.visible_state.offset as int;
                            let start = if prev < rows.len() - 1 {
                                prev
                            } else {
                                rows.len() - 1
                            };
                            scrolled(start, i, pre.tree.tree_rect.height as int) as usize
                        },
                        None => 0,
                    })
                } else {
                    &&& final(self).sel() == (if forest_at(s, sel1) is None {
                        Seq::empty()
                    } else {
                        sel1
                    })
                    &&& final(self).tree.visible_state.selected is None
                    &&& final(self).tree.visible_state.offset == 0
                }
            }),
            final(self).tasks == old(self).tasks,
            final(self).tree.visible == old(self).tree.visible,
            final(self).tree.expanded == old(self).tree.expanded,
            final(self).tree.pending_delete_path == old(self).tree.pending_delete_path,
            final(self).tree.focus_path == old(self).tree.focus_path,
            final(self).tree.tree_rect == old(self).tree.tree_rect,
            final(self).tree.last_click == old(self).tree.last_click,
            final(self).persist == old(self).persist,
            final(self).filter == old(self).filter,
            final(self).sort_mode == old(self).sort_mode,
            final(self).total_tasks == old(self).total_tasks,
            final(self).done_tasks == old(self).done_tasks,
            final(self).mode == old(self).mode,
            final(self).search_buf == old(self).search_buf,
            final(self).command_buf == old(self).command_buf,
            final(self).edit == old(self).edit,
            final(self).message == old(self).message,
            final(self).undo_stack == old(self).undo_stack,
            final(self).next_id == old(self).next_id,
    {
        let ghost s = self.forest();
        let previous_offset = self.tree.visible_state.offset();
        self.tree.visible_state = ListView::new();
        if !self.tree.visible.is_empty() {
            let exact = self.find_exact_visible_index(self.tree.selected_path.as_slice());
            if let Some(idx) = exact {
                self.tree.visible_state.select(Some(idx));
            } else if task_at(&self.tasks, self.tree.selected_path.as_slice()).is_some() {
                // The task exists but is filtered out: keep its path, highlight nothing.
                self.tree.visible_state.select(None);
            } else if !self.tree.selected_path.is_empty() {
                self.tree.selected_path = Vec::new();
                self.tree.visible_state.select(Some(0));
            } else {
                self.tree.visible_state.select(Some(0));
            }
            if let Some(sel) = self.tree.visible_state.selected() {
                let max_offset = self.tree.visible.len() - 1;
                self.tree.visible_state.offset = if previous_offset < max_offset {
                    previous_offset
                } else {
                    max_offset
                };
                self.ensure_selection_visible(sel);
            }
        } else if task_at(&self.tasks, self.tree.selected_path.as_slice()).is_none() {
            self.tree.selected_path = Vec::new();
        }
        proof {
            if self.sel().len() == 0 {
                assert(self.sel() =~= Seq::<usize>::empty());
            }
        }
    }

    /// Scrolls so that row `selected` is on screen.
    pub fn ensure_selection_visible(&mut self, selected: usize)
        ensures
            final(self).tree.visible_state.offset == scrolled(
                old(self).tree.visible_state.offset as int,
                selected as int,
                old(self).tree.tree_rect.height as int,
            ),
            final(self).tree.visible_state.selected == old(self).tree.visible_state.selected,
            final(self).tree.selected_path == old(self).tree.selected_path,
            final(self).tree.visible == old(self).tree.visible,
            final(self).tree.expanded == old(self).tree.expanded,
            final(self).tree.pending_delete_path == old(self).tree.pending_delete_path,
            final(self).tree.focus_path == old(self).tree.focus_path,
            final(self).tree.tree_rect == old(self).tree.tree_rect,
            final(self).tree.last_click == old(self).tree.last_click,
            final(self).tasks == old(self).tasks,
            final(self).persist == old(self).persist,
            final(self).filter == old(self).filter,
            final(self).sort_mode == old(self).sort_mode,
            final(self).total_tasks == old(self).total_tasks,
            final(self).done_tasks == old(self).done_tasks,
            final(self).mode == old(self).mode,
            final(self).search_buf == old(self).search_buf,
            final(self).command_buf == old(self).command_buf,
            final(self).edit == old(self).edit,
            final(self).message == old(self).message,
            final(self).undo_stack == old(self).undo_stack,
            final(self).next_id == old(self).next_id,
    {
        let h = self.tree.tree_rect.height;
        let viewport: usize = if h > 3 {
            (h - 2) as usize
        } else {
            1
        };
        let offset = self.tree.visible_state.offset;
        if selected < offset {
            self.tree.visible_state.offset = selected;
        } else if selected >= offset.saturating_add(viewport) {
            self.tree.visible_state.offset = selected.saturating_sub(viewport - 1);
        }
    }

    /// The index of the first visible row whose path is exactly `path`.
    pub fn find_exact_visible_index(&self, path: &[usize]) -> (r: Option<usize>)
        ensures
            match r {
                Some(i) => first_row(self.rows(), path@) == Some(i as int),
                None => first_row(self.rows(), path@) is None,
            },
    {
        let ghost rows = self.rows();
        let mut i: usize = 0;
        while i < self.tree.visible.len()
            invariant
                i <= self.tree.visible@.len(),
                rows == rows_view(self.tree.visible@),
                first_row(rows.take(i as int), path@) is None,
            decreases self.tree.visible@.len() - i,
        {
            assert(rows.take(i + 1).drop_last() =~= rows.take(i as int));
            if path_eq(self.tree.visible[i].path.as_slice(), path) {
                proof {
                    lemma_first_row_prefix(rows, i + 1, path@);
                }
                return Some(i);
            }
            i += 1;
        }
        assert(rows.take(i as int) =~= rows);
        None
    }
}

/// A row found in a prefix of the rows is the first one in all of them.
pub proof fn lemma_first_row_prefix(rows: Seq<VisibleItemView>, n: int, path: Seq<usize>)
    requires
        0 <= n <= rows.len(),
        first_row(rows.take(n), path) is Some,
    ensures
        first_row(rows, path) == first_row(rows.take(n), path),
    decreases rows.len() - n,
{
    if n < rows.len() {
        assert(rows.take(n + 1).drop_last() =~= rows.take(n));
        lemma_first_row_prefix(rows, n + 1, path);
    } else {
        assert(rows.take(n) =~= rows);
    }
}

} // verus!
