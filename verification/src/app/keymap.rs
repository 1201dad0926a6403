//! Keyboard input routing by application mode. Each mode has its own
//! handler, so bindings do not leak between modes.
use vstd::prelude::*;
use crate::forest::{forest_at, forest_size, task_at, tree_size};
use crate::keys::{KeyCode, KeyEvent, is_ctrl_char_spec, is_quit_key, is_save_key, is_undo_key};
use crate::model::{Task, TaskView, lemma_children_view, strings_view};
use crate::sort::{SortMode, sort_label, sort_next};
use crate::text::{concat, concat3, decimal, string_pop, string_push, u64_to_string};
use super::access::copy_path;
use super::commands::{
    Effect, cmd_reset, cmd_text, command_rel, lemma_at_size, task_rewritten_keep,
};
use super::duplicate::duplicated;
use super::edit::{edit_key_rel, edit_opened};
use super::form::{form_key_ok, has_string};
use super::manipulate::{
    FieldOp, field_op_done, indented, outdented, task_added, task_deleted, task_moved,
};
use super::navigation::{selected_toggled, selection_moved, went_to_parent, went_to_top};
use super::rel::{same_data, view_moved, with_message};
use super::search::{filters_cleared, quick_filter_cycled, search_ended, search_started};
use super::state::{App, Mode};
use super::undo::{dirtied_with, undone};
use super::visibility::rebuild_rel;
use crate::text::trim;

verus! {

/// `b` is `a` with the search buffer and command line as given.
pub open spec fn bufs_set(a: App, b: App, search: Seq<char>, command: Seq<char>) -> bool {
    &&& b.search_buf@ == search
    &&& b.command_buf@ == command
    &&& b.tasks == a.tasks
    &&& b.tree == a.tree
    &&& b.persist == a.persist
    &&& b.filter == a.filter
    &&& b.sort_mode == a.sort_mode
    &&& b.total_tasks == a.total_tasks
    &&& b.done_tasks == a.done_tasks
    &&& b.mode == a.mode
    &&& b.edit == a.edit
    &&& b.message == a.message
    &&& b.undo_stack == a.undo_stack
    &&& b.next_id == a.next_id
}

/// `b` is `a` in the mode `mode`, with the command line emptied when `clear`.
pub open spec fn mode_set(a: App, b: App, mode: Mode, clear: bool) -> bool {
    &&& b.mode == mode
    &&& if clear {
        b.command_buf@ == Seq::<char>::empty()
    } else {
        b.command_buf == a.command_buf
    }
    &&& b.tasks == a.tasks
    &&& b.tree == a.tree
    &&& b.persist == a.persist
    &&& b.filter == a.filter
    &&& b.sort_mode == a.sort_mode
    &&& b.total_tasks == a.total_tasks
    &&& b.done_tasks == a.done_tasks
    &&& b.search_buf == a.search_buf
    &&& b.edit == a.edit
    &&& b.message == a.message
    &&& b.undo_stack == a.undo_stack
    &&& b.next_id == a.next_id
}

/// `b` is `a` with the list selection on row `i` and, when that row exists,
/// the selected path taken from it.
pub open spec fn list_jumped(a: App, b: App, i: int) -> bool {
    &&& same_data(a, b)
    &&& b.persist == a.persist
    &&& b.tree.visible_state.selected == Some(i as usize)
    &&& b.tree.visible_state.offset == a.tree.visible_state.offset
    &&& b.sel() == (if i < a.rows().len() {
        a.rows()[i].path
    } else {
        a.sel()
    })
    &&& b.tree.visible == a.tree.visible
    &&& b.tree.expanded == a.tree.expanded
    &&& b.tree.pending_delete_path == a.tree.pending_delete_path
    &&& b.tree.focus_path == a.tree.focus_path
    &&& b.tree.tree_rect == a.tree.tree_rect
    &&& b.tree.last_click == a.tree.last_click
}

/// `b` is `a` without its pending delete.
pub open spec fn pending_dropped(a: App, b: App) -> bool {
    view_moved(a, b, a.sel(), a.expanded(), a.focus(), None, false)
}

/// What `d` does: a second press on the task awaiting confirmation deletes
/// it; otherwise the selected task (if any) awaits confirmation.
pub open spec fn d_pressed(a: App, b: App) -> bool {
    if a.pending() == Some(a.sel()) {
        exists|p: App|
            #![trigger task_deleted(a, p)]
            task_deleted(a, p) && pending_dropped(p, b)
    } else {
        match forest_at(a.forest(), a.sel()) {
            Some(t) => exists|x: App|
                #![trigger view_moved(a, x, a.sel(), a.expanded(), a.focus(), Some(a.sel()), false)]
                view_moved(a, x, a.sel(), a.expanded(), a.focus(), Some(a.sel()), false)
                    && with_message(
                    x,
                    b,
                    "Press 'd' again to confirm delete #"@ + decimal(t.id as nat) + ": "@ + t.title,
                ),
            None => b == a,
        }
    }
}

/// `m` is `a` with the sort mode `mode` and the message `msg`.
pub open spec fn sort_mode_set(a: App, m: App, mode: SortMode, msg: Seq<char>) -> bool {
    &&& m.sort_mode == mode
    &&& m.message@ == msg
    &&& m.tasks == a.tasks
    &&& m.tree == a.tree
    &&& m.persist == a.persist
    &&& m.filter == a.filter
    &&& m.total_tasks == a.total_tasks
    &&& m.done_tasks == a.done_tasks
    &&& m.mode == a.mode
    &&& m.search_buf == a.search_buf
    &&& m.command_buf == a.command_buf
    &&& m.edit == a.edit
    &&& m.undo_stack == a.undo_stack
    &&& m.next_id == a.next_id
}

/// What `s` does: the next sort mode, the rows rebuilt, the project marked dirty.
pub open spec fn sort_cycled(a: App, b: App) -> bool {
    let mode = sort_next(a.sort_mode);
    let msg = "Sort mode: "@ + sort_label(mode);
    exists|m: App, p: App, d: int|
        #![trigger sort_mode_set(a, m, sort_next(a.sort_mode), "Sort mode: "@ + sort_label(sort_next(a.sort_mode))), rebuild_rel(m, p, d)]
        sort_mode_set(a, m, sort_next(a.sort_mode), "Sort mode: "@ + sort_label(sort_next(a.sort_mode)))
            && rebuild_rel(m, p, d) && dirtied_with(
            p,
            b,
            "Sort mode: "@ + sort_label(sort_next(a.sort_mode)),
        )
}

/// What `t` does: the selected task gets the tag `quick` when it lacks it.
pub open spec fn quick_tagged(a: App, b: App) -> bool {
    match forest_at(a.forest(), a.sel()) {
        Some(t) => if t.tags.contains("quick"@) {
            b == a
        } else {
            task_rewritten_keep(a, b, a.sel(), TaskView { tags: t.tags.push("quick"@), ..t }, a.message@)
        },
        None => b == a,
    }
}

/// Whether `key` is the character `c`, whatever the modifiers.
pub open spec fn is_char(key: KeyEvent, c: char) -> bool {
    key.code == KeyCode::Char(c)
}

/// The action of `key` in normal mode, once a pending delete was dropped (for
/// keys other than `d` and `D`); `r` is the work left to the caller.
pub open spec fn normal_action(a: App, b: App, key: KeyEvent, r: Effect) -> bool {
    let code = key.code;
    let n = a.rows().len();
    if is_char(key, '?') {
        mode_set(a, b, Mode::Help, false) && r is Nothing
    } else if is_char(key, ':') {
        mode_set(a, b, Mode::Command, true) && r is Nothing
    } else if is_char(key, '/') {
        search_started(a, b) && r is Nothing
    } else if code == KeyCode::Esc && (a.filter.search@.len() > 0 || a.search_buf@.len() > 0) {
        filters_cleared(a, b) && r is Nothing
    } else if is_char(key, 'j') || code == KeyCode::Down {
        selection_moved(a, b, 1) && r is Nothing
    } else if is_char(key, 'k') || code == KeyCode::Up {
        selection_moved(a, b, -1isize) && r is Nothing
    } else if code == KeyCode::PageDown {
        selection_moved(a, b, 10) && r is Nothing
    } else if code == KeyCode::PageUp {
        selection_moved(a, b, -10isize) && r is Nothing
    } else if is_char(key, 'g') {
        list_jumped(a, b, 0) && r is Nothing
    } else if is_char(key, 'G') && n > 0 {
        list_jumped(a, b, n - 1) && r is Nothing
    } else if is_char(key, 'h') || code == KeyCode::Left || is_char(key, 'l') || code
        == KeyCode::Right || is_char(key, ' ') {
        selected_toggled(a, b) && r is Nothing
    } else if is_char(key, 'b') || is_char(key, 'B') || is_char(key, 'u') || is_char(key, 'U') {
        went_to_parent(a, b) && r is Nothing
    } else if is_char(key, '0') {
        went_to_top(a, b) && r is Nothing
    } else if is_char(key, 'a') {
        task_added(a, b, false) && r is Nothing
    } else if is_char(key, 'A') {
        task_added(a, b, true) && r is Nothing
    } else if (is_char(key, 'c') || is_char(key, 'C')) && !key.modifiers.control {
        duplicated(a, b) && r is Nothing
    } else if is_char(key, 'd') {
        d_pressed(a, b) && r is Nothing
    } else if is_char(key, 'D') {
        r is Nothing && exists|p: App|
            #![trigger pending_dropped(a, p)]
            pending_dropped(a, p) && task_deleted(p, b)
    } else if is_char(key, 'J') {
        task_moved(a, b, 1) && r is Nothing
    } else if is_char(key, 'K') {
        task_moved(a, b, -1isize) && r is Nothing
    } else if is_char(key, '>') || is_char(key, 'L') {
        indented(a, b) && r is Nothing
    } else if is_char(key, '<') || is_char(key, 'H') {
        outdented(a, b) && r is Nothing
    } else if is_char(key, 'p') || is_char(key, 'P') {
        field_op_done(a, b, FieldOp::CyclePriority) && r is Nothing
    } else if is_char(key, 'm') || is_char(key, 'M') {
        field_op_done(a, b, FieldOp::CycleStatus) && r is Nothing
    } else if is_char(key, 'x') || is_char(key, 'X') {
        field_op_done(a, b, FieldOp::ToggleDone) && r is Nothing
    } else if is_char(key, 'e') || code == KeyCode::Enter {
        edit_opened(a, b) && r is Nothing
    } else if is_char(key, 'f') {
        quick_filter_cycled(a, b) && r is Nothing
    } else if is_char(key, 'F') {
        filters_cleared(a, b) && r is Nothing
    } else if is_ctrl_char_spec(key, 's') {
        b == a && r is Save
    } else if is_char(key, 's') {
        sort_cycled(a, b) && r is Nothing
    } else if is_ctrl_char_spec(key, 'z') {
        undone(a, b) && r is Nothing
    } else if is_char(key, 't') {
        quick_tagged(a, b) && r is Nothing
    } else {
        b == a && r is Nothing
    }
}

/// `a1` is `a` before a normal-mode key acts: any key but `d` and `D` drops
/// the pending delete.
pub open spec fn before_normal_key(a: App, a1: App, key: KeyEvent) -> bool {
    if is_char(key, 'd') || is_char(key, 'D') {
        a1 == a
    } else {
        pending_dropped(a, a1)
    }
}

/// What `key` does in normal mode; the result says whether to quit (`q`,
/// Ctrl+Q, and Ctrl+C quit).
pub open spec fn normal_key_rel(a: App, b: App, key: KeyEvent, quit: bool, r: Effect) -> bool {
    if is_ctrl_char_spec(key, 'q') || is_ctrl_char_spec(key, 'c') || is_char(key, 'q') {
        quit && b == a && r is Nothing
    } else {
        !quit && exists|a1: App|
            #![trigger before_normal_key(a, a1, key)]
            before_normal_key(a, a1, key) && normal_action(a1, b, key, r)
    }
}

/// What `key` does in search mode.
pub open spec fn search_key_rel(a: App, b: App, key: KeyEvent) -> bool {
    let code = key.code;
    if is_ctrl_char_spec(key, 'q') || is_ctrl_char_spec(key, 'c') || code == KeyCode::Esc {
        exists|c: App|
            #![trigger bufs_set(a, c, Seq::empty(), a.command_buf@)]
            bufs_set(a, c, Seq::empty(), a.command_buf@) && search_ended(c, b)
    } else if code == KeyCode::Enter {
        search_ended(a, b)
    } else if (code matches KeyCode::Char(ch)) && !key.modifiers.control {
        exists|c: App, d: int|
            #![trigger bufs_set(a, c, a.search_buf@.push(code->0), a.command_buf@), rebuild_rel(c, b, d)]
            bufs_set(a, c, a.search_buf@.push(code->0), a.command_buf@) && rebuild_rel(c, b, d)
    } else if code == KeyCode::Backspace {
        exists|c: App, d: int|
            #![trigger bufs_set(a, c, super::form::pop_last(a.search_buf@), a.command_buf@), rebuild_rel(c, b, d)]
            bufs_set(a, c, super::form::pop_last(a.search_buf@), a.command_buf@) && rebuild_rel(
                c,
                b,
                d,
            )
    } else if code == KeyCode::Up || is_char(key, 'k') {
        selection_moved(a, b, -1isize)
    } else if code == KeyCode::Down || is_char(key, 'j') {
        selection_moved(a, b, 1)
    } else {
        b == a
    }
}

/// What `key` does in command mode; `r` is the work left to the caller.
pub open spec fn command_key_rel(a: App, b: App, key: KeyEvent, r: Effect) -> bool {
    let code = key.code;
    if is_ctrl_char_spec(key, 'q') || is_ctrl_char_spec(key, 'c') || code == KeyCode::Esc {
        cmd_reset(a, b) && r is Nothing
    } else if code == KeyCode::Enter {
        exists|c: App|
            #![trigger cmd_reset(a, c)]
            cmd_reset(a, c) && command_rel(
                c,
                b,
                r,
                cmd_text(a.command_buf@),
                trim(a.command_buf@),
            )
    } else if code == KeyCode::Backspace {
        bufs_set(a, b, a.search_buf@, super::form::pop_last(a.command_buf@)) && r is Nothing
    } else if (code matches KeyCode::Char(ch)) && !key.modifiers.control && !key.modifiers.alt {
        bufs_set(a, b, a.search_buf@, a.command_buf@.push(code->0)) && r is Nothing
    } else {
        b == a && r is Nothing
    }
}

/// What `key` does in the help screen; the result says whether to quit
/// (`q`, `Q`, Ctrl+Q, and Ctrl+C quit; Esc and `?` close the help).
pub open spec fn help_key_rel(a: App, b: App, key: KeyEvent, quit: bool) -> bool {
    if is_ctrl_char_spec(key, 'q') || is_ctrl_char_spec(key, 'c') || is_char(key, 'q') || is_char(
        key,
        'Q',
    ) {
        quit && b == a
    } else if key.code == KeyCode::Esc || is_char(key, '?') {
        !quit && mode_set(a, b, Mode::Normal, false)
    } else {
        !quit && b == a
    }
}

/// Whether the ids that `key` takes in normal mode stay within `u64::MAX`:
/// adding a task takes one, copying the selected task one per task of its
/// subtree; no other key takes any.
pub open spec fn normal_key_room(a: App, key: KeyEvent) -> bool {
    &&& (key.code == KeyCode::Char('a') || key.code == KeyCode::Char('A')) ==> a.next_id
        < u64::MAX
    &&& ((key.code == KeyCode::Char('c') || key.code == KeyCode::Char('C'))
        && !key.modifiers.control) ==> (forest_at(a.forest(), a.sel()) matches Some(t) ==> a.next_id
        + tree_size(t) <= u64::MAX)
}

/// Whether `a` can take `key`: the edit form can take it (see `form_key_ok`),
/// and the ids the key may take cannot run past `u64::MAX` (in normal mode
/// see `normal_key_room`; in command mode only Enter runs a command, which
/// may add or copy tasks).
pub open spec fn key_ok(a: App, key: KeyEvent) -> bool {
    &&& a.mode == Mode::Normal ==> normal_key_room(a, key)
    &&& a.mode == Mode::Command && key.code == KeyCode::Enter ==> a.next_id + forest_size(
        a.forest(),
    ) < u64::MAX
    &&& a.mode == Mode::Editing ==> (a.edit matches Some(e) ==> (!is_ctrl_char_spec(key, 'c')
        && !crate::keys::is_edit_save_spec(key) && key.code != KeyCode::Esc ==> form_key_ok(e@, key)))
}

/// What `key` does in `a`'s mode: the first result says whether to quit, the
/// second is the work left to the caller.
pub open spec fn key_rel(a: App, b: App, key: KeyEvent, quit: bool, r: Effect) -> bool {
    match a.mode {
        Mode::Editing => !quit && r is Nothing && exists|d: int|
            #![trigger edit_key_rel(a, b, key, d)]
            edit_key_rel(a, b, key, d),
        Mode::Help => help_key_rel(a, b, key, quit) && r is Nothing,
        Mode::Search => !quit && r is Nothing && search_key_rel(a, b, key),
        Mode::Command => !quit && command_key_rel(a, b, key, r),
        Mode::Normal => normal_key_rel(a, b, key, quit, r),
    }
}

impl App {
    /// Handles a key in the help screen; `true` to quit.
    pub fn handle_help_key(&mut self, key: KeyEvent) -> (quit: bool)
        ensures
            help_key_rel(*old(self), *final(self), key, quit),
    {
        if is_quit_key(&key) || key.code == KeyCode::Char('q') || key.code == KeyCode::Char('Q') {
            return true;
        }
        if key.code == KeyCode::Esc || key.code == KeyCode::Char('?') {
            self.mode = Mode::Normal;
        }
        false
    }

    /// Handles a key in search mode.
    pub fn handle_search_key(&mut self, key: KeyEvent)
        ensures
            search_key_rel(*old(self), *final(self), key),
    {
        let ghost a = *self;
        if is_quit_key(&key) || key.code == KeyCode::Esc {
            self.search_buf = String::new();
            let ghost c = *self;
            self.end_search();
            assert(bufs_set(a, c, Seq::empty(), a.command_buf@));
            return;
        }
        match key.code {
            KeyCode::Enter => {
                self.end_search();
            },
            KeyCode::Char(ch) => {
                if !key.modifiers.control {
                    string_push(&mut self.search_buf, ch);
                    let ghost c = *self;
                    self.update_search();
                    proof {
                        let d = choose|d: int| rebuild_rel(c, *self, d);
                        assert(bufs_set(a, c, a.search_buf@.push(ch), a.command_buf@)
                            && rebuild_rel(c, *self, d));
                    }
                } else if ch == 'k' {
                    self.move_selection(-1);
                } else if ch == 'j' {
                    self.move_selection(1);
                }
            },
            KeyCode::Backspace => {
                string_pop(&mut self.search_buf);
                let ghost c = *self;
                self.update_search();
                proof {
                    let d = choose|d: int| rebuild_rel(c, *self, d);
                    assert(bufs_set(a, c, super::form::pop_last(a.search_buf@), a.command_buf@)
                        && rebuild_rel(c, *self, d));
                }
            },
            KeyCode::Up => {
                self.move_selection(-1);
            },
            KeyCode::Down => {
                self.move_selection(1);
            },
            _ => {},
        }
    }

    /// Handles a key in command mode; the result is the work left to the caller.
    pub fn handle_command_key(&mut self, key: KeyEvent) -> (r: Effect)
        requires
            key.code == KeyCode::Enter ==> old(self).next_id + forest_size(old(self).forest())
                < u64::MAX,
        ensures
            command_key_rel(*old(self), *final(self), key, r),
    {
        if is_quit_key(&key) || key.code == KeyCode::Esc {
            self.command_buf = String::new();
            self.mode = Mode::Normal;
            return Effect::Nothing;
        }
        match key.code {
            KeyCode::Enter => {
                return self.execute_command();
            },
            KeyCode::Backspace => {
                string_pop(&mut self.command_buf);
            },
            KeyCode::Char(ch) => {
                if !key.modifiers.control && !key.modifiers.alt {
                    string_push(&mut self.command_buf, ch);
                }
            },
            _ => {},
        }
        Effect::Nothing
    }

    /// Puts the list selection on row `i` and selects that row's task.
    fn select_list_row(&mut self, i: usize)
        ensures
            list_jumped(*old(self), *final(self), i as int),
    {
        self.tree.visible_state.select(Some(i));
        self.sync_selection_from_visible();
    }

    /// `d`: asks for confirmation, or deletes on the second press.
    fn press_d(&mut self)
        ensures
            d_pressed(*old(self), *final(self)),
    {
        let ghost a = *self;
        let sel = copy_path(self.tree.selected_path.as_slice());
        let confirmed = match &self.tree.pending_delete_path {
            Some(p) => super::access::path_eq(p.as_slice(), sel.as_slice()),
            None => false,
        };
        if confirmed {
            self.delete_current();
            let ghost p = *self;
            self.tree.pending_delete_path = None;
            assert(pending_dropped(p, *self));
            return;
        }
        let info = match task_at(&self.tasks, sel.as_slice()) {
            Some(t) => Some((t.id, t.title.clone())),
            None => None,
        };
        match info {
            Some((id, title)) => {
                self.tree.pending_delete_path = Some(sel);
                let ghost x = *self;
                let m = concat3(
                    "Press 'd' again to confirm delete #",
                    u64_to_string(id).as_str(),
                    ": ",
                );
                self.message = concat(m.as_str(), title.as_str());
                assert(view_moved(a, x, a.sel(), a.expanded(), a.focus(), Some(a.sel()), false));
            },
            None => {},
        }
    }

    /// `s`: the next sort mode.
    fn cycle_sort(&mut self)
        ensures
            sort_cycled(*old(self), *final(self)),
    {
        let ghost a = *self;
        let mode = self.sort_mode.next();
        self.sort_mode = mode;
        self.message = concat("Sort mode: ", mode.label());
        let ghost m = *self;
        self.rebuild_visible();
        let ghost p = *self;
        self.mark_dirty();
        proof {
            let d = choose|d: int| rebuild_rel(m, p, d);
            assert(sort_mode_set(a, m, sort_next(a.sort_mode), "Sort mode: "@ + sort_label(sort_next(a.sort_mode)))
                && rebuild_rel(m, p, d));
        }
    }

    /// `t`: tags the selected task `quick` when it lacks the tag.
    fn quick_tag(&mut self)
        ensures
            quick_tagged(*old(self), *final(self)),
    {
        let sel = copy_path(self.tree.selected_path.as_slice());
        let tagged = match task_at(&self.tasks, sel.as_slice()) {
            Some(t) => {
                let mut w = t.deep_copy();
                let quick = "quick".to_owned();
                if has_string(&w.tags, &quick) {
                    None
                } else {
                    let ghost w0 = w;
                    w.tags.push(quick);
                    proof {
                        lemma_children_view(w0);
                        lemma_children_view(w);
                        assert(w@.tags =~= w0@.tags.push("quick"@));
                    }
                    Some(w)
                }
            },
            None => None,
        };
        match tagged {
            Some(w) => {
                let msg = self.message.clone();
                self.commit_rewrite_keep_pub(&sel, w, msg);
            },
            None => {},
        }
    }

    /// Handles a key in normal mode; `true` to quit; the effect is the work
    /// left to the caller.
    pub fn handle_normal_key(&mut self, key: KeyEvent) -> (r: (bool, Effect))
        requires
            normal_key_room(*old(self), key),
        ensures
            normal_key_rel(*old(self), *final(self), key, r.0, r.1),
    {
        let ghost a = *self;
        if is_quit_key(&key) || key.code == KeyCode::Char('q') {
            return (true, Effect::Nothing);
        }
        if !(key.code == KeyCode::Char('d') || key.code == KeyCode::Char('D')) {
            self.tree.pending_delete_path = None;
        }
        let ghost a1 = *self;
        assert(before_normal_key(a, a1, key));
        let e = self.normal_action(key);
        (false, e)
    }

    fn normal_action(&mut self, key: KeyEvent) -> (r: Effect)
        requires
            normal_key_room(*old(self), key),
        ensures
            normal_action(*old(self), *final(self), key, r),
    {
        let ghost a = *self;
        let code = key.code;
        let n = self.tree.visible.len();
        if code == KeyCode::Char('?') {
            self.mode = Mode::Help;
        } else if code == KeyCode::Char(':') {
            self.mode = Mode::Command;
            self.command_buf = String::new();
        } else if code == KeyCode::Char('/') {
            self.start_search();
        } else if code == KeyCode::Esc && (!self.filter.search.as_str().is_empty()
            || !self.search_buf.as_str().is_empty()) {
            self.clear_filters();
        } else if code == KeyCode::Char('j') || code == KeyCode::Down {
            self.move_selection(1);
        } else if code == KeyCode::Char('k') || code == KeyCode::Up {
            self.move_selection(-1);
        } else if code == KeyCode::PageDown {
            self.move_selection(10);
        } else if code == KeyCode::PageUp {
            self.move_selection(-10);
        } else if code == KeyCode::Char('g') {
            self.select_list_row(0);
        } else if code == KeyCode::Char('G') && n > 0 {
            self.select_list_row(n - 1);
        } else if code == KeyCode::Char('h') || code == KeyCode::Left || code == KeyCode::Char('l')
            || code == KeyCode::Right || code == KeyCode::Char(' ') {
            self.toggle_expanded();
        } else if code == KeyCode::Char('b') || code == KeyCode::Char('B') || code
            == KeyCode::Char('u') || code == KeyCode::Char('U') {
            self.go_to_parent();
        } else if code == KeyCode::Char('0') {
            self.go_to_top();
        } else if code == KeyCode::Char('a') {
            self.add_task(false);
        } else if code == KeyCode::Char('A') {
            self.add_task(true);
        } else if (code == KeyCode::Char('c') || code == KeyCode::Char('C'))
            && !key.modifiers.control {
            proof {
                if forest_at(a.forest(), a.sel()) is Some {
                    lemma_at_size(a.forest(), a.sel());
                }
            }
            self.duplicate_current();
        } else if code == KeyCode::Char('d') {
            self.press_d();
        } else if code == KeyCode::Char('D') {
            self.tree.pending_delete_path = None;
            let ghost p = *self;
            assert(pending_dropped(a, p));
            self.delete_current();
        } else if code == KeyCode::Char('J') {
            self.move_task(1);
        } else if code == KeyCode::Char('K') {
            self.move_task(-1);
        } else if code == KeyCode::Char('>') || code == KeyCode::Char('L') {
            self.indent();
        } else if code == KeyCode::Char('<') || code == KeyCode::Char('H') {
            self.outdent();
        } else if code == KeyCode::Char('p') || code == KeyCode::Char('P') {
            self.cycle_priority();
        } else if code == KeyCode::Char('m') || code == KeyCode::Char('M') {
            self.cycle_status();
        } else if code == KeyCode::Char('x') || code == KeyCode::Char('X') {
            self.toggle_done();
        } else if code == KeyCode::Char('e') || code == KeyCode::Enter {
            self.start_edit();
        } else if code == KeyCode::Char('f') {
            self.cycle_quick_filter();
        } else if code == KeyCode::Char('F') {
            self.clear_filters();
        } else if is_save_key(&key) {
            return Effect::Save;
        } else if code == KeyCode::Char('s') {
            self.cycle_sort();
        } else if is_undo_key(&key) {
            self.undo();
        } else if code == KeyCode::Char('t') {
            self.quick_tag();
        }
        Effect::Nothing
    }

    /// Handles a key in the current mode (see `key_rel`): whether to quit, and
    /// the work left to the caller.
    pub fn handle_key(&mut self, key: KeyEvent) -> (r: (bool, Effect))
        requires
            key_ok(*old(self), key),
        ensures
            key_rel(*old(self), *final(self), key, r.0, r.1),
    {
        match self.mode {
            Mode::Editing => {
                self.edit_handle_key(key);
                (false, Effect::Nothing)
            },
            Mode::Help => {
                let q = self.handle_help_key(key);
                (q, Effect::Nothing)
            },
            Mode::Search => {
                self.handle_search_key(key);
                (false, Effect::Nothing)
            },
            Mode::Command => {
                let e = self.handle_command_key(key);
                (false, e)
            },
            Mode::Normal => self.handle_normal_key(key),
        }
    }
}

} // verus!
