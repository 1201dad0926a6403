//! The edit form: opening, committing, cancelling, and key handling.
use vstd::prelude::*;
use crate::date::{Date, formatted_date, format_date, opt_day, parse_relative_date, relative_date_spec, today};
use crate::forest::{forest_at, forest_find, forest_set, lemma_set_rel, task_mut_at};
use crate::keys::{KeyCode, KeyEvent, is_ctrl_char_spec, is_edit_cancel_key, is_edit_save_key, is_edit_save_spec};
use crate::model::{Task, TaskView, lemma_children_view, strings_view};
use crate::text::{chars_of, is_blank, join, join_spec, string_of_range, trim, trim_str};
use super::form::{FormView, form_handle_key, form_key, form_key_ok};
use super::rel::unchanged;
use super::state::{App, EditState, Mode};
use super::undo::{dirtied_with, undo_pushed};
use super::visibility::rebuild_rel;

verus! {

/// `s` without one trailing carriage return.
pub open spec fn strip_cr(s: Seq<char>) -> Seq<char> {
    if s.len() > 0 && s.last() == '\r' {
        s.drop_last()
    } else {
        s
    }
}

/// The lines of `s` as `str::lines` yields them: split at `\n`, a `\r` before
/// it dropped, no empty line after a final `\n`.
pub open spec fn lines_of(s: Seq<char>) -> Seq<Seq<char>>
    decreases s.len(),
{
    if s.len() == 0 {
        Seq::empty()
    } else {
        match first_newline(s, 0) {
            Some(k) => {
                proof {
                    lemma_first_newline_range(s, 0);
                }
                seq![strip_cr(s.take(k))] + lines_of(s.skip(k + 1))
            },
            None => seq![s],
        }
    }
}

/// The index of the first `\n` in `s` at or after `from`.
pub open spec fn first_newline(s: Seq<char>, from: int) -> Option<int>
    decreases s.len() - from,
{
    if from < 0 || from >= s.len() {
        None
    } else if s[from] == '\n' {
        Some(from)
    } else {
        first_newline(s, from + 1)
    }
}

pub proof fn lemma_first_newline_range(s: Seq<char>, from: int)
    requires
        0 <= from,
    ensures
        first_newline(s, from) matches Some(k) ==> from <= k < s.len() && s[k] == '\n',
    decreases s.len() - from,
{
    if from < s.len() && s[from] != '\n' {
        lemma_first_newline_range(s, from + 1);
    }
}

/// The lines of `s` (`str::lines`).
pub fn lines(s: &str) -> (r: Vec<String>)
    ensures
        strings_view(r@) == lines_of(s@),
{
    let v = chars_of(s);
    let mut out: Vec<String> = Vec::new();
    let mut start: usize = 0;
    assert(v@.skip(0) =~= v@);
    while start < v.len()
        invariant
            start <= v@.len(),
            v@ == s@,
            lines_of(s@) == strings_view(out@) + lines_of(v@.skip(start as int)),
        decreases v@.len() - start,
    {
        let ghost rest = v@.skip(start as int);
        let mut k = start;
        while k < v.len() && v[k] != '\n'
            invariant
                start <= k <= v@.len(),
                rest == v@.skip(start as int),
                first_newline(rest, 0) == first_newline(rest, k - start),
            decreases v@.len() - k,
        {
            k += 1;
        }
        let mut end = k;
        if k < v.len() && end > start && v[end - 1] == '\r' {
            end -= 1;
        }
        let line = string_of_range(&v, start, end);
        let ghost before = out@;
        out.push(line);
        proof {
            assert(strings_view(out@) =~= strings_view(before).push(line@));
            if k < v@.len() {
                assert(first_newline(rest, k - start) == Some(k - start));
                assert(rest.take(k - start) =~= v@.subrange(start as int, k as int));
                assert(rest.skip(k - start + 1) =~= v@.skip(k + 1));
                assert(line@ =~= strip_cr(rest.take(k - start)));
            } else {
                assert(first_newline(rest, k - start) is None);
                assert(line@ =~= rest);
                assert(v@.skip(k as int) =~= Seq::<char>::empty());
            }
        }
        start = if k < v.len() {
            k + 1
        } else {
            k
        };
        assert(lines_of(s@) =~= strings_view(out@) + lines_of(v@.skip(start as int)));
    }
    assert(v@.skip(start as int) =~= Seq::<char>::empty());
    assert(strings_view(out@) =~= lines_of(s@));
    out
}

/// The lines the description editor starts with: one empty line for an empty description.
pub open spec fn desc_lines_of(desc: Seq<char>) -> Seq<Seq<char>> {
    if desc.len() == 0 {
        seq![Seq::empty()]
    } else {
        lines_of(desc)
    }
}

/// The due field's text for a due date: `YYYY-MM-DD`, empty for none.
pub open spec fn due_text(due: Option<int>) -> Seq<char> {
    match due {
        Some(d) => formatted_date(d, "%Y-%m-%d"@),
        None => Seq::empty(),
    }
}

/// An edit form freshly opened on the task `t`.
pub open spec fn fresh_form(e: EditState, t: TaskView) -> bool {
    &&& e.working@ == t
    &&& e.current_field == 0
    &&& strings_view(e.desc_lines@) == desc_lines_of(t.desc)
    &&& e.desc_row == 0
    &&& e.desc_col == 0
    &&& e.title_buf@ == t.title
    &&& e.due_buf@ == due_text(t.due)
    &&& e.tag_buf@.len() == 0
    &&& opt_day(e.parsed_due_preview) == t.due
}

/// How `start_edit` changes the state: no pending delete; when a task is
/// selected, the form opens on it.
pub open spec fn edit_opened(a: App, b: App) -> bool {
    &&& b.pending() is None
    &&& b.tasks == a.tasks
    &&& b.tree.selected_path == a.tree.selected_path
    &&& b.tree.visible == a.tree.visible
    &&& b.tree.visible_state == a.tree.visible_state
    &&& b.tree.expanded == a.tree.expanded
    &&& b.tree.focus_path == a.tree.focus_path
    &&& b.tree.tree_rect == a.tree.tree_rect
    &&& b.tree.last_click == a.tree.last_click
    &&& b.persist == a.persist
    &&& b.filter == a.filter
    &&& b.sort_mode == a.sort_mode
    &&& b.total_tasks == a.total_tasks
    &&& b.done_tasks == a.done_tasks
    &&& b.search_buf == a.search_buf
    &&& b.command_buf == a.command_buf
    &&& b.message == a.message
    &&& b.undo_stack == a.undo_stack
    &&& b.next_id == a.next_id
    &&& match forest_at(a.forest(), a.sel()) {
        Some(t) => b.mode == Mode::Editing && (b.edit matches Some(e) && fresh_form(e, t)),
        None => b.mode == a.mode && b.edit == a.edit,
    }
}

impl App {
    /// Opens the edit form on the selected task.
    pub fn start_edit(&mut self)
        ensures
            edit_opened(*old(self), *final(self)),
    {
        self.tree.pending_delete_path = None;
        let form = match self.current_task() {
            Some(task) => {
                let working = task.deep_copy();
                let desc_lines: Vec<String> = if working.desc.as_str().is_empty() {
                    let mut v: Vec<String> = Vec::new();
                    v.push(String::new());
                    assert(strings_view(v@) =~= seq![Seq::<char>::empty()]);
                    v
                } else {
                    lines(working.desc.as_str())
                };
                let due_buf = match task.due {
                    Some(d) => format_date(&d, "%Y-%m-%d"),
                    None => String::new(),
                };
                Some(
                    EditState {
                        working,
                        current_field: 0,
                        desc_lines,
                        desc_row: 0,
                        desc_col: 0,
                        title_buf: task.title.clone(),
                        due_buf,
                        tag_buf: String::new(),
                        parsed_due_preview: task.due,
                    },
                )
            },
            None => None,
        };
        if let Some(f) = form {
            self.edit = Some(f);
            self.mode = Mode::Editing;
        }
    }

    /// Closes the edit form without saving.
    pub fn cancel_edit(&mut self)
        ensures
            final(self).edit is None,
            final(self).mode == Mode::Normal,
            final(self).message@ == "Edit cancelled"@,
            final(self).tasks == old(self).tasks,
            final(self).tree == old(self).tree,
            final(self).persist == old(self).persist,
            final(self).filter == old(self).filter,
            final(self).sort_mode == old(self).sort_mode,
            final(self).total_tasks == old(self).total_tasks,
            final(self).done_tasks == old(self).done_tasks,
            final(self).search_buf == old(self).search_buf,
            final(self).command_buf == old(self).command_buf,
            final(self).undo_stack == old(self).undo_stack,
            final(self).next_id == old(self).next_id,
    {
        self.edit = None;
        self.mode = Mode::Normal;
        self.message = "Edit cancelled".to_owned();
    }
}

/// `l` without its trailing blank lines.
pub open spec fn drop_blank_tail(l: Seq<Seq<char>>) -> Seq<Seq<char>>
    decreases l.len(),
{
    if l.len() > 0 && trim(l.last()).len() == 0 {
        drop_blank_tail(l.drop_last())
    } else {
        l
    }
}

/// The task a form commits on day `today`: trimmed title, the description
/// lines (trailing blank ones dropped) joined by newlines, and the due date
/// the trimmed due text parses to (none for an empty text).
pub open spec fn committed_task(f: FormView, today: int) -> TaskView {
    let due_t = trim(f.due);
    TaskView {
        title: trim(f.title),
        desc: join_spec(drop_blank_tail(f.lines), "\n"@),
        due: if due_t.len() == 0 {
            None
        } else {
            relative_date_spec(due_t, today)
        },
        ..f.working
    }
}

/// `b` equals `a` in all but its edit form, mode, and message.
pub open spec fn kept_but_form(a: App, b: App) -> bool {
    &&& b.tasks == a.tasks
    &&& b.tree == a.tree
    &&& b.persist == a.persist
    &&& b.filter == a.filter
    &&& b.sort_mode == a.sort_mode
    &&& b.total_tasks == a.total_tasks
    &&& b.done_tasks == a.done_tasks
    &&& b.search_buf == a.search_buf
    &&& b.command_buf == a.command_buf
    &&& b.undo_stack == a.undo_stack
    &&& b.next_id == a.next_id
}

/// `b` is `a` with its edit form closed without saving.
pub open spec fn edit_cancelled(a: App, b: App) -> bool {
    &&& kept_but_form(a, b)
    &&& b.edit is None
    &&& b.mode == Mode::Normal
    &&& b.message@ == "Edit cancelled"@
}

/// `m` is `u` with the tree replaced by `tasks`; nothing else differs.
pub open spec fn retasked(u: App, m: App, tasks: Seq<TaskView>) -> bool {
    &&& m.forest() == tasks
    &&& m.tree == u.tree
    &&& m.persist == u.persist
    &&& m.filter == u.filter
    &&& m.sort_mode == u.sort_mode
    &&& m.total_tasks == u.total_tasks
    &&& m.done_tasks == u.done_tasks
    &&& m.mode == u.mode
    &&& m.search_buf == u.search_buf
    &&& m.command_buf == u.command_buf
    &&& m.edit == u.edit
    &&& m.message == u.message
    &&& m.undo_stack == u.undo_stack
    &&& m.next_id == u.next_id
}

/// The edit form closed and the task at `path` replaced by `w` as an undoable
/// edit, with the rows rebuilt on day `today` and the message "Task updated".
pub open spec fn task_replaced(a: App, b: App, path: Seq<usize>, w: TaskView, today: int) -> bool {
    exists|a1: App, u: App, m: App, p: App|
        #![trigger undo_pushed(a1, u), retasked(u, m, forest_set(a.forest(), path, w)), rebuild_rel(m, p, today)]
        {
            &&& kept_but_form(a, a1)
            &&& a1.message == a.message
            &&& a1.edit is None
            &&& a1.mode == Mode::Normal
            &&& undo_pushed(a1, u)
            &&& retasked(u, m, forest_set(a.forest(), path, w))
            &&& rebuild_rel(m, p, today)
            &&& dirtied_with(p, b, "Task updated"@)
        }
}

/// How committing the edit form on day `today` turns `a` into `b`. An empty
/// title or a due text that does not parse keeps the form open (with its
/// title trimmed, and in the second case its description lines settled) and
/// says why; a task that is gone closes the form; otherwise the task with the
/// form's id is replaced by the committed task as an undoable edit.
pub open spec fn applied(a: App, b: App, today: int) -> bool {
    match a.edit {
        None => unchanged(a, b),
        Some(e) => {
            let f = e@;
            let title = trim(f.title);
            let lines = drop_blank_tail(f.lines);
            let due_t = trim(f.due);
            let w = committed_task(f, today);
            if title.len() == 0 {
                &&& kept_but_form(a, b)
                &&& b.mode == a.mode
                &&& b.message@ == "Cannot save task with empty title"@
                &&& b.edit matches Some(e2)
                &&& e2@ == (FormView { working: TaskView { title, ..f.working }, ..f })
            } else if due_t.len() > 0 && relative_date_spec(due_t, today) is None {
                &&& kept_but_form(a, b)
                &&& b.mode == a.mode
                &&& b.message@ == "Invalid due date \u{2014} fix the field or clear it to remove the due date"@
                &&& b.edit matches Some(e2)
                &&& e2@ == (FormView {
                    working: TaskView { title, desc: join_spec(lines, "\n"@), ..f.working },
                    lines,
                    ..f
                })
            } else {
                match forest_find(a.forest(), w.id) {
                    None => {
                        &&& kept_but_form(a, b)
                        &&& b.edit is None
                        &&& b.mode == Mode::Normal
                        &&& b.message@ == "Task no longer exists \u{2014} edit discarded"@
                    },
                    Some(path) => task_replaced(a, b, path, w, today),
                }
            }
        },
    }
}

/// A commit that went through the undo stack, the tree, the rows, and the
/// dirty flag is what `applied` describes.
proof fn lemma_applied_commit(
    a: App,
    a1: App,
    u: App,
    m: App,
    p: App,
    d: int,
    b: App,
    path: Seq<usize>,
)
    requires
        a.edit matches Some(e) && ({
            let f = e@;
            &&& trim(f.title).len() != 0
            &&& !(trim(f.due).len() > 0 && relative_date_spec(trim(f.due), d) is None)
            &&& forest_find(a.forest(), f.working.id) == Some(path)
            &&& retasked(u, m, forest_set(a.forest(), path, committed_task(f, d)))
        }),
        kept_but_form(a, a1),
        a1.message == a.message,
        a1.edit is None,
        a1.mode == Mode::Normal,
        undo_pushed(a1, u),
        rebuild_rel(m, p, d),
        dirtied_with(p, b, "Task updated"@),
    ensures
        applied(a, b, d),
{
    let w = committed_task(a.edit->0@, d);
    assert(undo_pushed(a1, u) && retasked(u, m, forest_set(a.forest(), path, w)) && rebuild_rel(m, p, d));
}

/// Sets the working task's title.
fn set_title(w: &mut Task, title: String)
    ensures
        final(w)@ == (TaskView { title: title@, ..old(w)@ }),
{
    let ghost w0 = *w;
    w.title = title;
    proof {
        lemma_children_view(w0);
        lemma_children_view(*w);
        assert(w@.tags =~= w0@.tags);
    }
}

/// Sets the working task's description and due date.
fn set_desc_due(w: &mut Task, desc: String, due: Option<Date>)
    ensures
        final(w)@ == (TaskView { desc: desc@, due: opt_day(due), ..old(w)@ }),
{
    let ghost w0 = *w;
    w.desc = desc;
    w.due = due;
    proof {
        lemma_children_view(w0);
        lemma_children_view(*w);
        assert(w@.tags =~= w0@.tags);
    }
}

/// Drops the trailing blank lines of `lines`.
fn drop_blank_lines(lines: &mut Vec<String>)
    ensures
        strings_view(final(lines)@) == drop_blank_tail(strings_view(old(lines)@)),
{
    while lines.len() > 0 && is_blank(lines[lines.len() - 1].as_str())
        invariant
            drop_blank_tail(strings_view(lines@)) == drop_blank_tail(strings_view(old(lines)@)),
        decreases lines@.len(),
    {
        let ghost before = lines@;
        let _ = lines.pop();
        assert(strings_view(lines@) =~= strings_view(before).drop_last());
    }
}

impl App {
    /// Commits the edit form (see `applied`), parsing the due text against today's date.
    pub fn apply_edit(&mut self)
        ensures
            exists|d: int| applied(*old(self), *final(self), d),
    {
        let d = today();
        self.apply_edit_on(d);
    }

    /// Commits the edit form on day `today` (see `applied`).
    pub fn apply_edit_on(&mut self, today: Date)
        ensures
            applied(*old(self), *final(self), today.day()),
    {
        let ghost a0 = *self;
        let mut ed = match self.edit.take() {
            Some(e) => e,
            None => {
                return;
            },
        };
        let ghost f = ed@;
        let title = trim_str(ed.title_buf.as_str());
        let empty_title = title.as_str().is_empty();
        set_title(&mut ed.working, title);
        if empty_title {
            self.message = "Cannot save task with empty title".to_owned();
            self.edit = Some(ed);
            return;
        }
        drop_blank_lines(&mut ed.desc_lines);
        let desc = join(&ed.desc_lines, "\n");
        assert(ed.desc_lines@.map_values(|x: String| x@) =~= strings_view(ed.desc_lines@));
        let due_trimmed = trim_str(ed.due_buf.as_str());
        let parsed = parse_relative_date(due_trimmed.as_str(), today);
        let due_empty = due_trimmed.as_str().is_empty();
        if !due_empty && parsed.is_none() {
            let keep_due = ed.working.due;
            set_desc_due(&mut ed.working, desc, keep_due);
            proof {
                lemma_children_view(ed.working);
            }
            self.message = "Invalid due date \u{2014} fix the field or clear it to remove the due date".to_owned();
            self.edit = Some(ed);
            return;
        }
        let due = if due_empty {
            None
        } else {
            parsed
        };
        set_desc_due(&mut ed.working, desc, due);
        assert(ed.working@ == committed_task(f, today.day()));
        let path = match self.find_path_by_id(ed.working.id) {
            Some(p) => p,
            None => {
                self.message = "Task no longer exists \u{2014} edit discarded".to_owned();
                self.mode = Mode::Normal;
                return;
            },
        };
        self.mode = Mode::Normal;
        let ghost a1 = *self;
        self.push_undo();
        let ghost u = *self;
        let ghost old_tasks = self.tasks@;
        assert(path@.skip(0) =~= path@);
        let t = task_mut_at(&mut self.tasks, path.as_slice(), 0);
        *t = ed.working;
        let ghost ft = *t;
        proof {
            lemma_set_rel(old_tasks, self.tasks@, path@, ft);
        }
        let ghost m = *self;
        self.rebuild_visible_on(today);
        let ghost p = *self;
        self.mark_dirty();
        self.message = "Task updated".to_owned();
        proof {
            lemma_applied_commit(a0, a1, u, m, p, today.day(), *self, path@);
        }
    }

    /// Handles a key in the edit form on day `today`: Ctrl+C and Esc cancel,
    /// the save keys commit (see `applied`), any other key goes to the form
    /// (see `form_key`).
    pub fn edit_handle_key_on(&mut self, key: KeyEvent, today: Date)
        requires
            old(self).edit matches Some(e) ==> (!is_ctrl_char_spec(key, 'c') && !is_edit_save_spec(
                key,
            ) && key.code != KeyCode::Esc ==> form_key_ok(e@, key)),
        ensures
            edit_key_rel(*old(self), *final(self), key, today.day()),
    {
        if is_edit_cancel_key(&key) {
            self.cancel_edit();
            return;
        }
        if is_edit_save_key(&key) {
            self.apply_edit_on(today);
            return;
        }
        if key.code == KeyCode::Esc {
            self.cancel_edit();
            return;
        }
        let mut ed = match self.edit.take() {
            Some(e) => e,
            None => {
                return;
            },
        };
        form_handle_key(&mut ed, &key, today);
        self.edit = Some(ed);
    }

    /// Handles a key in the edit form against today's date (see `edit_key_rel`).
    pub fn edit_handle_key(&mut self, key: KeyEvent)
        requires
            old(self).edit matches Some(e) ==> (!is_ctrl_char_spec(key, 'c') && !is_edit_save_spec(
                key,
            ) && key.code != KeyCode::Esc ==> form_key_ok(e@, key)),
        ensures
            exists|d: int| edit_key_rel(*old(self), *final(self), key, d),
    {
        let d = today();
        self.edit_handle_key_on(key, d);
    }
}

/// How a key in the edit form turns `a` into `b` on day `today`.
pub open spec fn edit_key_rel(a: App, b: App, key: KeyEvent, today: int) -> bool {
    if is_ctrl_char_spec(key, 'c') {
        edit_cancelled(a, b)
    } else if is_edit_save_spec(key) {
        applied(a, b, today)
    } else if key.code == KeyCode::Esc {
        edit_cancelled(a, b)
    } else {
        match a.edit {
            None => unchanged(a, b),
            Some(e) => {
                &&& kept_but_form(a, b)
                &&& b.mode == a.mode
                &&& b.message == a.message
                &&& b.edit matches Some(e2)
                &&& e2@ == form_key(e@, key, today)
            },
        }
    }
}

} // verus!
