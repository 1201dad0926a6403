//! Live search and the quick filters.
use vstd::prelude::*;
use super::rel::{unchanged, with_message};
use super::state::{App, FilterState, Mode};
use super::visibility::rebuild_rel;

verus! {

/// `m` is `a` with the filter, mode, and search buffer as given (and, when
/// `drop_pending`, no pending delete); all else stays.
pub open spec fn ui_set(
    a: App,
    m: App,
    search: Seq<char>,
    hide_done: bool,
    only_high: bool,
    only_overdue: bool,
    mode: Mode,
    buf: Seq<char>,
    drop_pending: bool,
) -> bool {
    &&& m.filter.search@ == search
    &&& m.filter.hide_done == hide_done
    &&& m.filter.only_high == only_high
    &&& m.filter.only_overdue_or_today == only_overdue
    &&& m.mode == mode
    &&& m.search_buf@ == buf
    &&& m.tasks == a.tasks
    &&& m.tree.selected_path == a.tree.selected_path
    &&& m.tree.visible == a.tree.visible
    &&& m.tree.visible_state == a.tree.visible_state
    &&& m.tree.expanded == a.tree.expanded
    &&& m.tree.focus_path == a.tree.focus_path
    &&& m.tree.tree_rect == a.tree.tree_rect
    &&& m.tree.last_click == a.tree.last_click
    &&& m.pending() == (if drop_pending {
        None
    } else {
        a.pending()
    })
    &&& m.persist == a.persist
    &&& m.sort_mode == a.sort_mode
    &&& m.total_tasks == a.total_tasks
    &&& m.done_tasks == a.done_tasks
    &&& m.command_buf == a.command_buf
    &&& m.edit == a.edit
    &&& m.message == a.message
    &&& m.undo_stack == a.undo_stack
    &&& m.next_id == a.next_id
}

/// A change of the filter, mode, and search buffer followed by a rebuild of the rows.
pub open spec fn ui_set_rebuilt(
    a: App,
    b: App,
    search: Seq<char>,
    hide_done: bool,
    only_high: bool,
    only_overdue: bool,
    mode: Mode,
    buf: Seq<char>,
    drop_pending: bool,
) -> bool {
    exists|m: App, d: int|
        #![trigger ui_set(a, m, search, hide_done, only_high, only_overdue, mode, buf, drop_pending), rebuild_rel(m, b, d)]
        ui_set(a, m, search, hide_done, only_high, only_overdue, mode, buf, drop_pending)
            && rebuild_rel(m, b, d)
}

/// The quick filters after `f` in the cycle all → hide done → high only →
/// overdue-or-today with done hidden → all, with the message for the new one.
pub open spec fn next_quick_filter(f: FilterState) -> (bool, bool, bool, Seq<char>) {
    if f.hide_done {
        (false, true, false, "Filter: High priority only"@)
    } else if f.only_high {
        (true, false, true, "Filter: Overdue / Today + hide done"@)
    } else if f.only_overdue_or_today {
        (false, false, false, "Filter: All tasks"@)
    } else {
        (true, f.only_high, f.only_overdue_or_today, "Filter: Hide completed"@)
    }
}

/// `m` is `a` with the next quick filter on (a search is kept, except when
/// the cycle comes back to all tasks) and its message.
pub open spec fn filter_switched(a: App, m: App) -> bool {
    let (h, o, v, msg) = next_quick_filter(a.filter);
    let back_to_all = !a.filter.hide_done && !a.filter.only_high && a.filter.only_overdue_or_today;
    &&& m.filter.search@ == (if back_to_all {
        Seq::empty()
    } else {
        a.filter.search@
    })
    &&& m.filter.hide_done == h
    &&& m.filter.only_high == o
    &&& m.filter.only_overdue_or_today == v
    &&& m.message@ == msg
    &&& m.mode == a.mode
    &&& m.search_buf == a.search_buf
    &&& m.tasks == a.tasks
    &&& m.tree == a.tree
    &&& m.persist == a.persist
    &&& m.sort_mode == a.sort_mode
    &&& m.total_tasks == a.total_tasks
    &&& m.done_tasks == a.done_tasks
    &&& m.command_buf == a.command_buf
    &&& m.edit == a.edit
    &&& m.undo_stack == a.undo_stack
    &&& m.next_id == a.next_id
}

/// The quick filter switched, then the rows rebuilt.
pub open spec fn quick_filter_cycled(a: App, b: App) -> bool {
    exists|m: App, d: int|
        #![trigger filter_switched(a, m), rebuild_rel(m, b, d)]
        filter_switched(a, m) && rebuild_rel(m, b, d)
}

/// How `clear_filters` turns `a` into `b`.
pub open spec fn filters_cleared(a: App, b: App) -> bool {
    exists|p: App|
        #![trigger with_message(p, b, "Filters cleared"@)]
        ui_set_rebuilt(
            a,
            p,
            Seq::empty(),
            false,
            false,
            false,
            a.mode,
            Seq::empty(),
            true,
        ) && with_message(p, b, "Filters cleared"@)
}

/// How `start_search` turns `a` into `b`.
pub open spec fn search_started(a: App, b: App) -> bool {
    ui_set_rebuilt(
        a,
        b,
        a.filter.search@,
        a.filter.hide_done,
        a.filter.only_high,
        a.filter.only_overdue_or_today,
        Mode::Search,
        Seq::empty(),
        true,
    )
}

/// How `end_search` turns `a` into `b`.
pub open spec fn search_ended(a: App, b: App) -> bool {
    ui_set_rebuilt(
        a,
        b,
        a.search_buf@,
        a.filter.hide_done,
        a.filter.only_high,
        a.filter.only_overdue_or_today,
        Mode::Normal,
        a.search_buf@,
        false,
    )
}

impl App {
    /// Enters search mode with an empty search.
    pub fn start_search(&mut self)
        ensures
            search_started(*old(self), *final(self)),
    {
        let ghost a0 = *self;
        self.mode = Mode::Search;
        self.search_buf = String::new();
        self.clear_pending_delete();
        let ghost m = *self;
        self.rebuild_visible();
        proof {
            let d = choose|d: int| rebuild_rel(m, *self, d);
            assert(ui_set(
                a0,
                m,
                a0.filter.search@,
                a0.filter.hide_done,
                a0.filter.only_high,
                a0.filter.only_overdue_or_today,
                Mode::Search,
                Seq::empty(),
                true,
            ) && rebuild_rel(m, *self, d));
        }
    }

    /// Refreshes the rows for the search being typed.
    pub fn update_search(&mut self)
        ensures
            exists|d: int| rebuild_rel(*old(self), *final(self), d),
    {
        self.rebuild_visible();
    }

    /// Commits the typed search as the filter's search and leaves search mode.
    pub fn end_search(&mut self)
        ensures
            search_ended(*old(self), *final(self)),
    {
        let ghost a0 = *self;
        self.filter.search = self.search_buf.clone();
        self.mode = Mode::Normal;
        let ghost m = *self;
        self.rebuild_visible();
        proof {
            let d = choose|d: int| rebuild_rel(m, *self, d);
            assert(ui_set(
                a0,
                m,
                a0.search_buf@,
                a0.filter.hide_done,
                a0.filter.only_high,
                a0.filter.only_overdue_or_today,
                Mode::Normal,
                a0.search_buf@,
                false,
            ) && rebuild_rel(m, *self, d));
        }
    }

    /// Drops the search and every quick filter.
    pub fn clear_filters(&mut self)
        ensures
            filters_cleared(*old(self), *final(self)),
    {
        let ghost a0 = *self;
        self.filter = FilterState::new();
        self.search_buf = String::new();
        self.tree.pending_delete_path = None;
        let ghost m = *self;
        self.rebuild_visible();
        let ghost p = *self;
        self.message = "Filters cleared".to_owned();
        proof {
            let d = choose|d: int| rebuild_rel(m, p, d);
            assert(ui_set(a0, m, Seq::empty(), false, false, false, a0.mode, Seq::empty(), true)
                && rebuild_rel(m, p, d));
            assert(with_message(p, *self, "Filters cleared"@));
        }
    }

    /// Moves to the next quick filter (see `next_quick_filter`).
    pub fn cycle_quick_filter(&mut self)
        ensures
            quick_filter_cycled(*old(self), *final(self)),
    {
        let ghost a0 = *self;
        if self.filter.hide_done {
            self.filter.hide_done = false;
            self.filter.only_high = true;
            self.filter.only_overdue_or_today = false;
            self.message = "Filter: High priority only".to_owned();
        } else if self.filter.only_high {
            self.filter.only_high = false;
            self.filter.only_overdue_or_today = true;
            self.filter.hide_done = true;
            self.message = "Filter: Overdue / Today + hide done".to_owned();
        } else if self.filter.only_overdue_or_today {
            self.filter = FilterState::new();
            self.message = "Filter: All tasks".to_owned();
        } else {
            self.filter.hide_done = true;
            self.message = "Filter: Hide completed".to_owned();
        }
        let ghost m = *self;
        self.rebuild_visible();
        proof {
            let d = choose|d: int| rebuild_rel(m, *self, d);
            assert(filter_switched(a0, m) && rebuild_rel(m, *self, d));
        }
    }
}

} // verus!
