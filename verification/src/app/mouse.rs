//! Mouse clicks on the tree list.
use vstd::prelude::*;
use std::time::Instant;
use crate::forest::{forest_at, forest_set, lemma_set_rel, task_at, task_mut_at};
use crate::model::{TaskView, lemma_children_view, status_next};
use super::access::copy_path;
use super::edit::edit_opened;
use super::navigation::toggled;
use super::rel::{dirty_marked, same_data, view_moved, with_message};
use super::state::{App, instant_now};
use super::undo::{dirtied_with, undo_pushed};
use super::visibility::rebuild_rel;
use super::edit::retasked;

verus! {

broadcast use vstd::std_specs::hash::group_hash_axioms;

/// `Instant::duration_since(..).as_millis()`: the whole milliseconds from
/// `earlier` to `later` (zero when `later` is not after `earlier`). It rests on
/// the clock, so nothing is stated of the value.
#[verifier::external_body]
fn millis_between(earlier: Instant, later: Instant) -> (ms: u128) {
    later.duration_since(earlier).as_millis()
}

/// Whether `(x, y)` lies inside the tree area.
pub open spec fn in_tree_area(a: App, x: int, y: int) -> bool {
    let r = a.tree.tree_rect;
    r.x <= x < r.x + r.width && r.y <= y < r.y + r.height
}

/// The row under `y`, counting from the scroll offset.
pub open spec fn clicked_row(a: App, y: int) -> int {
    y - a.tree.tree_rect.y + a.tree.visible_state.offset
}

/// Whether `x` falls on the tree connectors and icon of a row at `depth`.
pub open spec fn on_icon(a: App, x: int, depth: int) -> bool {
    let w = 3 + (if depth * 3 < 20 {
        depth * 3
    } else {
        20
    });
    x - a.tree.tree_rect.x < (if w > 6 {
        w
    } else {
        6
    })
}

/// A click at `(x, y)` at some instant, with some time since the last click.
pub open spec fn tree_clicked(a: App, b: App, x: u16, y: u16, right: bool) -> bool {
    exists|now: Instant, since: Option<u128>|
        #![trigger clicked(a, b, x, y, right, now, since)]
        clicked(a, b, x, y, right, now, since)
}

/// `c` is `a` with row `i` (showing `path`) selected, no pending delete, and
/// the click at `(x, y)` at `now` remembered.
pub open spec fn click_noted(a: App, c: App, path: Seq<usize>, i: int, x: u16, y: u16, now: Instant) -> bool {
    &&& same_data(a, c)
    &&& c.persist == a.persist
    &&& c.sel() == path
    &&& c.pending() is None
    &&& c.tree.visible_state.selected == Some(i as usize)
    &&& c.tree.visible_state.offset == a.tree.visible_state.offset
    &&& c.tree.last_click == Some((x, y, now))
    &&& c.tree.visible == a.tree.visible
    &&& c.tree.expanded == a.tree.expanded
    &&& c.tree.focus_path == a.tree.focus_path
    &&& c.tree.tree_rect == a.tree.tree_rect
}

/// The expanded set of `c` changed to `e`, the project marked dirty, the
/// rows rebuilt, and the message set.
pub open spec fn expand_toggled(c: App, b: App, path: Seq<usize>, e: Set<u64>) -> bool {
    exists|m: App, p: App, d: int|
        #![trigger view_moved(c, m, path, e, c.focus(), None, true), rebuild_rel(m, p, d)]
        view_moved(c, m, path, e, c.focus(), None, true) && rebuild_rel(m, p, d) && with_message(
            p,
            b,
            "Toggled expand/collapse"@,
        )
}

/// How a click at `(x, y)` (a right click when `right`) at instant `now`
/// turns `a` into `b`, given `since_last`, the milliseconds since the last
/// click when there was one. Outside the rows only the pending delete goes.
/// On a row: its task is selected and the click remembered; a second click on
/// the same cell within 350 ms opens the edit form; a click on the icon area
/// expands or collapses; a right click elsewhere cycles the status as an
/// undoable edit.
pub open spec fn clicked(
    a: App,
    b: App,
    x: u16,
    y: u16,
    right: bool,
    now: Instant,
    since_last: Option<u128>,
) -> bool {
    let rows = a.rows();
    let i = clicked_row(a, y as int);
    if !in_tree_area(a, x as int, y as int) || i >= rows.len() {
        view_moved(a, b, a.sel(), a.expanded(), a.focus(), None, false)
    } else {
        let path = rows[i].path;
        let double = (a.tree.last_click matches Some((lx, ly, lt)) && lx == x && ly == y) && (
        since_last matches Some(ms) && ms < 350);
        exists|c: App|
            #![trigger click_noted(a, c, path, i, x, y, now)]
            {
                &&& click_noted(a, c, path, i, x, y, now)
                &&& if double {
                    edit_opened(c, b)
                } else if on_icon(a, x as int, rows[i].depth) {
                    let e = match forest_at(a.forest(), path) {
                        Some(t) => toggled(a.expanded(), t.id),
                        None => a.expanded(),
                    };
                    expand_toggled(c, b, path, e)
                } else if right {
                    match forest_at(a.forest(), path) {
                        Some(t) => exists|u: App, m: App, p: App, d: int|
                            #![trigger undo_pushed(c, u), rebuild_rel(m, p, d)]
                            undo_pushed(c, u) && retasked(
                                u,
                                m,
                                forest_set(a.forest(), path, TaskView { status: status_next(t.status), ..t }),
                            ) && rebuild_rel(m, p, d) && dirtied_with(
                                p,
                                b,
                                "Status cycled (right-click)"@,
                            ),
                        None => undo_pushed(c, b),
                    }
                } else {
                    b == c
                }
            }
    }
}

impl App {
    /// Handles a click at `(x, y)` on the tree (see `clicked`).
    pub fn handle_tree_click(&mut self, x: u16, y: u16, is_right_click: bool)
        ensures
            tree_clicked(*old(self), *final(self), x, y, is_right_click),
    {
        let now = instant_now();
        let since = match self.tree.last_click {
            Some((_, _, lt)) => Some(millis_between(lt, now)),
            None => None,
        };
        self.tree_click(x, y, is_right_click, now, since);
    }

    /// Handles a click at `(x, y)` at instant `now`, `since_last` being the
    /// milliseconds since the last click (see `clicked`).
    pub fn tree_click(
        &mut self,
        x: u16,
        y: u16,
        is_right_click: bool,
        now: Instant,
        since_last: Option<u128>,
    )
        ensures
            clicked(*old(self), *final(self), x, y, is_right_click, now, since_last),
    {
        let ghost a0 = *self;
        self.clear_pending_delete();
        let r = self.tree.tree_rect;
        if x < r.x || x as u32 >= r.x as u32 + r.width as u32 || y < r.y || y as u32 >= r.y as u32
            + r.height as u32 {
            return;
        }
        let rel_y = (y - r.y) as usize;
        let offset = self.tree.visible_state.offset();
        let n = self.tree.visible.len();
        if n == 0 || offset >= n || rel_y >= n - offset {
            return;
        }
        let idx = rel_y + offset;
        let depth = self.tree.visible[idx].depth;
        let clicked_path = copy_path(self.tree.visible[idx].path.as_slice());
        self.tree.selected_path = copy_path(clicked_path.as_slice());
        self.tree.visible_state.select(Some(idx));
        let is_double = match self.tree.last_click {
            Some((lx, ly, _)) => lx == x && ly == y && match since_last {
                Some(ms) => ms < 350,
                None => false,
            },
            None => false,
        };
        self.tree.last_click = Some((x, y, now));
        let ghost c = *self;
        assert(idx == clicked_row(a0, y as int));
        assert(clicked_path@ == a0.rows()[idx as int].path);
        assert(click_noted(a0, c, clicked_path@, idx as int, x, y, now));
        if is_double {
            self.start_edit();
            return;
        }
        let w: usize = 3 + if depth < 7 {
            depth * 3
        } else {
            20
        };
        let relative_x = (x - r.x) as usize;
        let icon = relative_x < (if w > 6 {
            w
        } else {
            6
        });
        if icon {
            match task_at(&self.tasks, clicked_path.as_slice()) {
                Some(t) => {
                    let id = t.id;
                    if self.tree.expanded.contains(&id) {
                        self.tree.expanded.remove(&id);
                    } else {
                        self.tree.expanded.insert(id);
                    }
                },
                None => {},
            }
            self.mark_dirty();
            let ghost m = *self;
            self.rebuild_visible();
            let ghost p = *self;
            self.message = "Toggled expand/collapse".to_owned();
            proof {
                let d = choose|d: int| rebuild_rel(m, p, d);
                let e = match forest_at(a0.forest(), clicked_path@) {
                    Some(t) => toggled(a0.expanded(), t.id),
                    None => a0.expanded(),
                };
                assert(view_moved(c, m, clicked_path@, e, c.focus(), None, true) && rebuild_rel(
                    m,
                    p,
                    d,
                ) && with_message(p, *self, "Toggled expand/collapse"@));
                assert(clicked(a0, *self, x, y, is_right_click, now, since_last));
            }
        } else if is_right_click {
            self.push_undo();
            let ghost u = *self;
            if task_at(&self.tasks, clicked_path.as_slice()).is_some() {
                let ghost old_tasks = self.tasks@;
                assert(clicked_path@.skip(0) =~= clicked_path@);
                let t = task_mut_at(&mut self.tasks, clicked_path.as_slice(), 0);
                let ghost t0 = *t;
                t.status = t.status.cycle();
                proof {
                    lemma_children_view(t0);
                    lemma_children_view(*t);
                    assert(t@.tags =~= t0@.tags);
                }
                let ghost ft = *t;
                proof {
                    lemma_set_rel(old_tasks, self.tasks@, clicked_path@, ft);
                }
                let ghost m = *self;
                self.rebuild_visible();
                let ghost p = *self;
                self.mark_dirty();
                self.message = "Status cycled (right-click)".to_owned();
                proof {
                    let d = choose|d: int| rebuild_rel(m, p, d);
                    let t = forest_at(a0.forest(), clicked_path@)->0;
                    assert(undo_pushed(c, u) && retasked(
                        u,
                        m,
                        forest_set(a0.forest(), clicked_path@, TaskView { status: status_next(t.status), ..t }),
                    ) && rebuild_rel(m, p, d));
                    assert(clicked(a0, *self, x, y, is_right_click, now, since_last));
                }
            } else {
                assert(clicked(a0, *self, x, y, is_right_click, now, since_last));
            }
        } else {
            assert(clicked(a0, *self, x, y, is_right_click, now, since_last));
        }
    }
}

} // verus!
