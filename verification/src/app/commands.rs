//! The `:` command line: parsing the words and carrying out each command.
use vstd::prelude::*;
use crate::date::{Date, parse_relative_date, relative_date_spec, today};
use crate::forest::{forest_at, forest_find, forest_set, forest_size, lemma_set_rel, task_mut_at, tree_size};
use crate::model::{Priority, Status, Task, TaskView, forest_view, lemma_children_view, priority_next, status_next, strings_view};
use crate::text::{
    lowercase, to_lowercase, trim, trim_str, byte_len, concat, concat3, decimal, eq_ignore_ascii_case, eq_ignore_ascii_case_spec, join, join_spec,
    parse_u64, parse_u64_spec, split_whitespace, str_len, u64_to_string, usize_to_string, words,
};
use crate::forest::cap;
use crate::persist::{expand_user_path, expanded_path};
use super::data::{forest_overdue, md_list};
use super::edit::{edit_cancelled, lines, lines_of};
use super::navigation::{focused_on, unfocused, went_to_bottom, went_to_parent, went_to_top};
use super::search::{filters_cleared, ui_set_rebuilt};
use super::form::has_string;
use super::manipulate::{named_task_added};
use super::undo::undone;
use crate::sort::{SortMode, sort_label};
use crate::tree_walk::{expand_all_ids, forest_ids_to_depth};
use super::rel::same_data;
use super::state::Mode;
use super::access::copy_path;
use super::duplicate::{duplicated, lemma_elem_size};
use super::edit::{edit_opened, retasked};
use super::manipulate::task_deleted;
use super::navigation::{ancestor_ids, path_opened, selected_path_shown};
use super::rel::{view_moved, with_message};
use super::state::App;
use super::undo::{dirtied_with, undo_pushed};
use super::visibility::rebuild_rel;

verus! {

/// `w`'s strings as a sequence of texts.
pub open spec fn texts(w: Vec<String>) -> Seq<Seq<char>> {
    strings_view(w@)
}

/// `b` is `p` marked dirty, with no pending delete and the message `msg`.
pub open spec fn dirtied_unpended(p: App, b: App, msg: Seq<char>) -> bool {
    exists|x: App|
        #![trigger view_moved(p, x, p.sel(), p.expanded(), p.focus(), None, true)]
        view_moved(p, x, p.sel(), p.expanded(), p.focus(), None, true) && with_message(x, b, msg)
}

/// The task at `path` replaced by `w` as an undoable edit: the state saved for
/// undo, the rows rebuilt, the project marked dirty, the pending delete
/// dropped, and the message set to `msg`.
pub open spec fn task_rewritten(c: App, b: App, path: Seq<usize>, w: TaskView, msg: Seq<char>) -> bool {
    exists|u: App, m: App, p: App, d: int|
        #![trigger undo_pushed(c, u), retasked(u, m, forest_set(c.forest(), path, w)), rebuild_rel(m, p, d)]
        undo_pushed(c, u) && retasked(u, m, forest_set(c.forest(), path, w)) && rebuild_rel(m, p, d)
            && dirtied_unpended(p, b, msg)
}

/// Like `task_rewritten`, but the pending delete stays.
pub open spec fn task_rewritten_keep(
    c: App,
    b: App,
    path: Seq<usize>,
    w: TaskView,
    msg: Seq<char>,
) -> bool {
    exists|u: App, m: App, p: App, d: int|
        #![trigger undo_pushed(c, u), retasked(u, m, forest_set(c.forest(), path, w)), rebuild_rel(m, p, d)]
        undo_pushed(c, u) && retasked(u, m, forest_set(c.forest(), path, w)) && rebuild_rel(m, p, d)
            && dirtied_with(p, b, msg)
}

/// The id a command's second word names, when it has one.
pub open spec fn id_arg(ps: Seq<Seq<char>>) -> Option<u64> {
    if ps.len() >= 2 {
        parse_u64_spec(ps[1])
    } else {
        None
    }
}

/// Whether `ps` is one of the id commands (`delete 7`, `mark 7 done`, ...).
pub open spec fn id_verb_known(ps: Seq<Seq<char>>) -> bool {
    let v = ps[0];
    ||| v == "delete"@ || v == "del"@ || v == "rm"@
    ||| v == "done"@ || v == "edit"@ || v == "toggle"@
    ||| (v == "priority"@ || v == "due"@ || v == "mark"@) && ps.len() >= 3
    ||| v == "duplicate"@ || v == "copy"@ || v == "dup"@
}

/// The priority a word names, else `cur`.
pub open spec fn prio_word(w: Seq<char>, cur: Priority) -> Priority {
    if w == "high"@ {
        Priority::High
    } else if w == "med"@ || w == "medium"@ {
        Priority::Medium
    } else if w == "low"@ {
        Priority::Low
    } else {
        cur
    }
}

/// Whether `w` is a value `mark` knows.
pub open spec fn mark_known(w: Seq<char>) -> bool {
    w == "done"@ || w == "todo"@ || w == "doing"@ || w == "blocked"@ || w == "high"@ || w
        == "med"@ || w == "medium"@ || w == "low"@
}

/// `t` with the status or priority that `w` names.
pub open spec fn mark_applied(t: TaskView, w: Seq<char>) -> TaskView {
    if w == "done"@ {
        TaskView { status: Status::Done, ..t }
    } else if w == "todo"@ {
        TaskView { status: Status::Todo, ..t }
    } else if w == "doing"@ {
        TaskView { status: Status::Doing, ..t }
    } else if w == "blocked"@ {
        TaskView { status: Status::Blocked, ..t }
    } else {
        TaskView { priority: prio_word(w, t.priority), ..t }
    }
}

/// `c1` is `c` with the ancestors of `path` expanded and `path` selected.
pub open spec fn opened_selected(c: App, c1: App, path: Seq<usize>) -> bool {
    let added = ancestor_ids(c.forest(), path);
    view_moved(
        c,
        c1,
        path,
        c.expanded().union(added),
        c.focus(),
        c.pending(),
        !added.subset_of(c.expanded()),
    )
}

/// What the id command `ps` does once the task `id` at `path` is selected in `c1`.
pub open spec fn id_verb_rel(c1: App, b: App, ps: Seq<Seq<char>>, id: u64, path: Seq<usize>) -> bool {
    let v = ps[0];
    let t = forest_at(c1.forest(), path)->0;
    let hash_id = "#"@ + decimal(id as nat);
    if v == "delete"@ || v == "del"@ || v == "rm"@ {
        exists|p: App|
            #![trigger task_deleted(c1, p)]
            task_deleted(c1, p) && with_message(p, b, "Deleted "@ + hash_id)
    } else if v == "done"@ {
        task_rewritten(c1, b, path, TaskView { status: Status::Done, ..t }, "Marked "@ + hash_id + " done"@)
    } else if v == "edit"@ {
        exists|p: App|
            #![trigger view_moved(c1, p, path, c1.expanded(), c1.focus(), None, false)]
            view_moved(c1, p, path, c1.expanded(), c1.focus(), None, false) && edit_opened(p, b)
    } else if v == "priority"@ {
        task_rewritten(
            c1,
            b,
            path,
            TaskView { priority: prio_word(ps[2], t.priority), ..t },
            "Set priority on "@ + hash_id + " to "@ + ps[2],
        )
    } else if v == "due"@ {
        exists|d: int|
            #![trigger relative_date_spec(join_spec(ps.skip(2), " "@), d)]
            task_rewritten(
                c1,
                b,
                path,
                TaskView { due: relative_date_spec(join_spec(ps.skip(2), " "@), d), ..t },
                "Set due on "@ + hash_id,
            )
    } else if v == "toggle"@ {
        task_rewritten(
            c1,
            b,
            path,
            TaskView { status: status_next(t.status), ..t },
            "Toggled status on "@ + hash_id,
        )
    } else if v == "mark"@ {
        if mark_known(ps[2]) {
            task_rewritten(c1, b, path, mark_applied(t, ps[2]), "Marked "@ + hash_id + " "@ + ps[2])
        } else {
            with_message(c1, b, "Unknown mark value: "@ + ps[2])
        }
    } else {
        duplicated(c1, b)
    }
}

/// The task `id` at `path` selected with its ancestors expanded, then the
/// verb of `ps` carried out when it is an id command.
pub open spec fn id_found_rel(c: App, b: App, ps: Seq<Seq<char>>, id: u64, path: Seq<usize>) -> bool {
    exists|c1: App|
        #![trigger opened_selected(c, c1, path)]
        opened_selected(c, c1, path) && if id_verb_known(ps) {
            id_verb_rel(c1, b, ps, id, path)
        } else {
            b == c1
        }
}

/// Whether the id commands take `ps` in state `c`.
pub open spec fn id_handled(c: App, ps: Seq<Seq<char>>) -> bool {
    match id_arg(ps) {
        None => false,
        Some(id) => forest_find(c.forest(), id) is None || id_verb_known(ps),
    }
}

/// What trying `ps` as an id command does to `c`: when the second word is an
/// id, a missing task is reported; otherwise the task is selected with its
/// ancestors expanded (even when the first word is no id command), and a
/// known verb is carried out.
pub open spec fn id_command_rel(c: App, b: App, ps: Seq<Seq<char>>) -> bool {
    match id_arg(ps) {
        None => b == c,
        Some(id) => match forest_find(c.forest(), id) {
            None => with_message(c, b, "No task #"@ + decimal(id as nat)),
            Some(path) => id_found_rel(c, b, ps, id, path),
        },
    }
}

/// The size of the task at a path is at most that of the whole list.
pub proof fn lemma_at_size(s: Seq<TaskView>, path: Seq<usize>)
    requires
        forest_at(s, path) is Some,
    ensures
        tree_size(forest_at(s, path)->0) <= forest_size(s),
    decreases path.len(),
{
    let i = path[0] as int;
    lemma_elem_size(s, i);
    if path.len() > 1 {
        lemma_at_size(s[i].children, path.drop_first());
    }
}

impl App {
    /// Replaces the task at `path` by `w` (see `task_rewritten`, without the message).
    fn rewrite_task(&mut self, path: &Vec<usize>, w: Task)
        requires
            forest_at(old(self).forest(), path@) is Some,
        ensures
            final(self).forest() == forest_set(old(self).forest(), path@, w@),
            final(self).tree == old(self).tree,
            final(self).persist == old(self).persist,
            final(self).filter == old(self).filter,
            final(self).sort_mode == old(self).sort_mode,
            final(self).total_tasks == old(self).total_tasks,
            final(self).done_tasks == old(self).done_tasks,
            final(self).mode == old(self).mode,
            final(self).search_buf == old(self).search_buf,
            final(self).command_buf == old(self).command_buf,
            final(self).edit == old(self).edit,
            final(self).message == old(self).message,
            final(self).undo_stack == old(self).undo_stack,
            final(self).next_id == old(self).next_id,
    {
        let ghost old_tasks = self.tasks@;
        assert(path@.skip(0) =~= path@);
        let t = task_mut_at(&mut self.tasks, path.as_slice(), 0);
        *t = w;
        let ghost ft = *t;
        proof {
            lemma_set_rel(old_tasks, self.tasks@, path@, ft);
        }
    }

    /// A copy of the task at `path` with status `st`.
    fn with_status(&self, path: &Vec<usize>, st: Status) -> (r: Task)
        requires
            forest_at(self.forest(), path@) is Some,
        ensures
            r@ == (TaskView { status: st, ..forest_at(self.forest(), path@)->0 }),
    {
        let mut t = match self.task_at(path.as_slice()) {
            Some(t) => t.deep_copy(),
            None => Task::new(0, ""),
        };
        let ghost t0 = t;
        t.status = st;
        proof {
            lemma_children_view(t0);
            lemma_children_view(t);
            assert(t@.tags =~= t0@.tags);
        }
        t
    }

    /// A copy of the task at `path` with priority `p`.
    fn with_priority(&self, path: &Vec<usize>, p: Priority) -> (r: Task)
        requires
            forest_at(self.forest(), path@) is Some,
        ensures
            r@ == (TaskView { priority: p, ..forest_at(self.forest(), path@)->0 }),
    {
        let mut t = match self.task_at(path.as_slice()) {
            Some(t) => t.deep_copy(),
            None => Task::new(0, ""),
        };
        let ghost t0 = t;
        t.priority = p;
        proof {
            lemma_children_view(t0);
            lemma_children_view(t);
            assert(t@.tags =~= t0@.tags);
        }
        t
    }

    /// A copy of the task at `path` with due date `due`.
    fn with_due(&self, path: &Vec<usize>, due: Option<Date>) -> (r: Task)
        requires
            forest_at(self.forest(), path@) is Some,
        ensures
            r@ == (TaskView { due: crate::date::opt_day(due), ..forest_at(self.forest(), path@)->0 }),
    {
        let mut t = match self.task_at(path.as_slice()) {
            Some(t) => t.deep_copy(),
            None => Task::new(0, ""),
        };
        let ghost t0 = t;
        t.due = due;
        proof {
            lemma_children_view(t0);
            lemma_children_view(t);
            assert(t@.tags =~= t0@.tags);
        }
        t
    }

    /// Replaces the task at `path` by `w` as an undoable edit that also drops
    /// the pending delete (see `task_rewritten`).
    fn commit_rewrite(&mut self, path: &Vec<usize>, w: Task, msg: String)
        requires
            forest_at(old(self).forest(), path@) is Some,
        ensures
            task_rewritten(*old(self), *final(self), path@, w@, msg@),
    {
        let ghost c = *self;
        self.push_undo();
        let ghost u = *self;
        let ghost wv = w@;
        self.rewrite_task(path, w);
        let ghost m = *self;
        self.rebuild_visible();
        let ghost p = *self;
        self.mark_dirty();
        self.clear_pending_delete();
        let ghost x = *self;
        self.message = msg;
        proof {
            let d = choose|d: int| rebuild_rel(m, p, d);
            assert(view_moved(p, x, p.sel(), p.expanded(), p.focus(), None, true) && with_message(
                x,
                *self,
                msg@,
            ));
            assert(undo_pushed(c, u) && retasked(u, m, forest_set(c.forest(), path@, wv))
                && rebuild_rel(m, p, d));
        }
    }

    /// Like `commit_rewrite`, but the pending delete stays (see `task_rewritten_keep`).
    fn commit_rewrite_keep(&mut self, path: &Vec<usize>, w: Task, msg: String)
        requires
            forest_at(old(self).forest(), path@) is Some,
        ensures
            task_rewritten_keep(*old(self), *final(self), path@, w@, msg@),
    {
        let ghost c = *self;
        self.push_undo();
        let ghost u = *self;
        let ghost wv = w@;
        self.rewrite_task(path, w);
        let ghost m = *self;
        self.rebuild_visible();
        let ghost p = *self;
        self.mark_dirty();
        self.message = msg;
        proof {
            let d = choose|d: int| rebuild_rel(m, p, d);
            assert(undo_pushed(c, u) && retasked(u, m, forest_set(c.forest(), path@, wv))
                && rebuild_rel(m, p, d));
        }
    }

    /// Replaces the task at `path` by `w` as an undoable edit, the pending
    /// delete kept (see `task_rewritten_keep`).
    pub fn commit_rewrite_keep_pub(&mut self, path: &Vec<usize>, w: Task, msg: String)
        requires
            forest_at(old(self).forest(), path@) is Some,
        ensures
            task_rewritten_keep(*old(self), *final(self), path@, w@, msg@),
    {
        self.commit_rewrite_keep(path, w, msg);
    }

    /// Carries out the verb of an id command on the task at `path`, already selected.
    fn id_verb(&mut self, ps: &Vec<String>, id: u64, path: &Vec<usize>)
        requires
            texts(*ps).len() >= 2,
            id_verb_known(texts(*ps)),
            forest_at(old(self).forest(), path@) is Some,
            old(self).sel() == path@,
            old(self).next_id + forest_size(old(self).forest()) <= u64::MAX,
        ensures
            id_verb_rel(*old(self), *final(self), texts(*ps), id, path@),
    {
        let ghost c1 = *self;
        let ghost pv = texts(*ps);
        assert(pv[0] == ps@[0]@);
        let v = ps[0].as_str();
        let hash_id = concat("#", u64_to_string(id).as_str());
        proof {
            reveal_strlit("delete");
            reveal_strlit("del");
            reveal_strlit("rm");
            reveal_strlit("done");
            reveal_strlit("edit");
            reveal_strlit("toggle");
            reveal_strlit("priority");
            reveal_strlit("due");
            reveal_strlit("mark");
            reveal_strlit("duplicate");
            reveal_strlit("copy");
            reveal_strlit("dup");
        }
        if crate::date::str_eq(v, "delete") || crate::date::str_eq(v, "del") || crate::date::str_eq(
            v,
            "rm",
        ) {
            self.delete_current();
            let ghost p = *self;
            self.message = concat("Deleted ", hash_id.as_str());
            assert(task_deleted(c1, p) && with_message(p, *self, "Deleted "@ + hash_id@));
        } else if crate::date::str_eq(v, "done") {
            let w = self.with_status(path, Status::Done);
            let msg = concat3("Marked ", hash_id.as_str(), " done");
            self.commit_rewrite(path, w, msg);
        } else if crate::date::str_eq(v, "edit") {
            self.clear_pending_delete();
            let ghost p = *self;
            self.start_edit();
            assert(view_moved(c1, p, path@, c1.expanded(), c1.focus(), None, false));
        } else if crate::date::str_eq(v, "priority") {
            assert(pv[2] == ps@[2]@);
            let cur = match self.task_at(path.as_slice()) {
                Some(t) => t.priority,
                None => Priority::Medium,
            };
            let w = self.with_priority(path, prio_of_word(ps[2].as_str(), cur));
            let msg = concat3("Set priority on ", hash_id.as_str(), " to ");
            let msg = concat(msg.as_str(), ps[2].as_str());
            self.commit_rewrite(path, w, msg);
        } else if crate::date::str_eq(v, "due") {
            let rest = join_from(ps, 2);
            let d = today();
            let due = parse_relative_date(rest.as_str(), d);
            let w = self.with_due(path, due);
            let msg = concat("Set due on ", hash_id.as_str());
            self.commit_rewrite(path, w, msg);
            assert(relative_date_spec(join_spec(pv.skip(2), " "@), d.day()) == crate::date::opt_day(due));
        } else if crate::date::str_eq(v, "toggle") {
            let cur = match self.task_at(path.as_slice()) {
                Some(t) => t.status,
                None => Status::Todo,
            };
            let w = self.with_status(path, cur.cycle());
            let msg = concat("Toggled status on ", hash_id.as_str());
            self.commit_rewrite(path, w, msg);
        } else if crate::date::str_eq(v, "mark") {
            assert(pv[0] == "mark"@);
            assert(pv[0] != "copy"@) by {
                assert(pv[0][0] != "copy"@[0]);
            }
            assert(ps@.len() >= 3);
            assert(pv[2] == ps@[2]@);
            let arg = ps[2].as_str();
            if !is_mark_word(arg) {
                self.message = concat("Unknown mark value: ", arg);
            } else {
                let w = self.marked_copy(path, arg);
                let msg = concat3("Marked ", hash_id.as_str(), " ");
                let msg = concat(msg.as_str(), arg);
                self.commit_rewrite(path, w, msg);
            }
        } else {
            proof {
                lemma_at_size(c1.forest(), path@);
            }
            self.duplicate_current();
        }
    }

    /// A copy of the task at `path` marked as `w` says (see `mark_applied`).
    fn marked_copy(&self, path: &Vec<usize>, w: &str) -> (r: Task)
        requires
            forest_at(self.forest(), path@) is Some,
            mark_known(w@),
        ensures
            r@ == mark_applied(forest_at(self.forest(), path@)->0, w@),
    {
        if crate::date::str_eq(w, "done") {
            self.with_status(path, Status::Done)
        } else if crate::date::str_eq(w, "todo") {
            self.with_status(path, Status::Todo)
        } else if crate::date::str_eq(w, "doing") {
            self.with_status(path, Status::Doing)
        } else if crate::date::str_eq(w, "blocked") {
            self.with_status(path, Status::Blocked)
        } else {
            let cur = match self.task_at(path.as_slice()) {
                Some(t) => t.priority,
                None => Priority::Medium,
            };
            self.with_priority(path, prio_of_word(w, cur))
        }
    }

    /// Tries `ps` as an id command (see `id_command_rel`); `true` when it was one.
    pub fn id_command(&mut self, ps: &Vec<String>) -> (r: bool)
        requires
            old(self).next_id + forest_size(old(self).forest()) <= u64::MAX,
        ensures
            r == id_handled(*old(self), texts(*ps)),
            id_command_rel(*old(self), *final(self), texts(*ps)),
    {
        let ghost c = *self;
        let ghost pv = texts(*ps);
        proof {
            reveal_strlit("delete");
            reveal_strlit("del");
            reveal_strlit("rm");
            reveal_strlit("done");
            reveal_strlit("edit");
            reveal_strlit("toggle");
            reveal_strlit("priority");
            reveal_strlit("due");
            reveal_strlit("mark");
            reveal_strlit("duplicate");
            reveal_strlit("copy");
            reveal_strlit("dup");
        }
        if ps.len() < 2 {
            return false;
        }
        assert(pv[1] == ps@[1]@);
        let id = match parse_u64(ps[1].as_str()) {
            Some(i) => i,
            None => {
                return false;
            },
        };
        let path = match self.find_path_by_id(id) {
            Some(p) => p,
            None => {
                let t = concat("No task #", u64_to_string(id).as_str());
                self.message = t;
                return true;
            },
        };
        self.ensure_path_visible(path.as_slice());
        self.tree.selected_path = copy_path(path.as_slice());
        let ghost c1 = *self;
        assert(opened_selected(c, c1, path@));
        assert(id_arg(pv) == Some(id));
        assert(forest_find(c.forest(), id) == Some(path@));
        if !is_id_verb(ps) {
            assert(id_command_rel(c, *self, pv));
            return false;
        }
        self.id_verb(ps, id, &path);
        true
    }
}

/// The priority that `w` names, else `cur`.
fn prio_of_word(w: &str, cur: Priority) -> (r: Priority)
    ensures
        r == prio_word(w@, cur),
{
    if crate::date::str_eq(w, "high") {
        Priority::High
    } else if crate::date::str_eq(w, "med") || crate::date::str_eq(w, "medium") {
        Priority::Medium
    } else if crate::date::str_eq(w, "low") {
        Priority::Low
    } else {
        cur
    }
}

fn is_mark_word(w: &str) -> (r: bool)
    ensures
        r == mark_known(w@),
{
    crate::date::str_eq(w, "done") || crate::date::str_eq(w, "todo") || crate::date::str_eq(
        w,
        "doing",
    ) || crate::date::str_eq(w, "blocked") || crate::date::str_eq(w, "high")
        || crate::date::str_eq(w, "med") || crate::date::str_eq(w, "medium")
        || crate::date::str_eq(w, "low")
}

fn is_id_verb(ps: &Vec<String>) -> (r: bool)
    requires
        ps@.len() >= 1,
    ensures
        r == id_verb_known(texts(*ps)),
{
    assert(texts(*ps)[0] == ps@[0]@);
    let v = ps[0].as_str();
    let n = ps.len();
    crate::date::str_eq(v, "delete") || crate::date::str_eq(v, "del") || crate::date::str_eq(
        v,
        "rm",
    ) || crate::date::str_eq(v, "done") || crate::date::str_eq(v, "edit")
        || crate::date::str_eq(v, "toggle") || ((crate::date::str_eq(v, "priority")
        || crate::date::str_eq(v, "due") || crate::date::str_eq(v, "mark")) && n >= 3)
        || crate::date::str_eq(v, "duplicate") || crate::date::str_eq(v, "copy")
        || crate::date::str_eq(v, "dup")
}

/// The words of `ps` from index `k` on, joined by single spaces.
fn join_from(ps: &Vec<String>, k: usize) -> (r: String)
    requires
        k <= ps@.len(),
    ensures
        r@ == join_spec(texts(*ps).skip(k as int), " "@),
{
    let mut rest: Vec<String> = Vec::new();
    let mut i = k;
    while i < ps.len()
        invariant
            k <= i <= ps@.len(),
            strings_view(rest@) == texts(*ps).subrange(k as int, i as int),
        decreases ps@.len() - i,
    {
        let ghost before = rest@;
        let w = ps[i].clone();
        rest.push(w);
        assert(strings_view(rest@) =~= strings_view(before).push(ps@[i as int]@));
        i += 1;
        assert(strings_view(rest@) =~= texts(*ps).subrange(k as int, i as int));
    }
    let r = join(&rest, " ");
    assert(rest@.map_values(|x: String| x@) =~= strings_view(rest@));
    assert(texts(*ps).subrange(k as int, i as int) =~= texts(*ps).skip(k as int));
    r
}

/// Work a command leaves to the caller: file writes and loads.
pub enum Effect {
    /// Nothing to do.
    Nothing,
    /// Write this markdown export next to the project file.
    WriteExport(String),
    /// Open the project file at the path (the flag: even with unsaved changes).
    Open(String, bool),
    /// Save the project under the path.
    SaveAs(String),
    /// Reload the project from disk.
    Reload,
    /// Save the project now and report the outcome.
    Save,
}

/// The usage line of `:help`.
pub open spec fn help_text() -> Seq<char> {
    "Cmds: add/due/priority/status/tag/filter/expand/sort/undo ; ID actions: delete/done/edit/priority/due/toggle <id> ; :42 or :jump/:select/:go 42 jumps ; :open/:save-as <path.tdl> [confirm] ; :parent/:up/:back/:b :top :bottom :clear :export :stats :help :duplicate/:copy <id> :mark <id> <status/priority> :focus <id> :unfocus :reload confirm. See ? for keys."@
}

/// The path words and the confirm flag of `open <path> [confirm]` in `raw`
/// (the command word and `confirm` matched without regard to ASCII case).
pub open spec fn open_args(raw: Seq<char>) -> Option<(Seq<char>, bool)> {
    let ws = words(raw);
    if ws.len() == 0 || !eq_ignore_ascii_case_spec(ws[0], "open"@) {
        None
    } else {
        let rest = ws.drop_first();
        let confirm = rest.len() > 0 && eq_ignore_ascii_case_spec(rest.last(), "confirm"@);
        let rest2 = if confirm {
            rest.drop_last()
        } else {
            rest
        };
        if rest2.len() == 0 {
            None
        } else {
            Some((join_spec(rest2, " "@), confirm))
        }
    }
}

/// The path words of `save-as <path>` (or `saveas`) in `raw`.
pub open spec fn save_as_arg(raw: Seq<char>) -> Option<Seq<char>> {
    let ws = words(raw);
    if ws.len() < 2 {
        None
    } else if !eq_ignore_ascii_case_spec(ws[0], "save-as"@) && !eq_ignore_ascii_case_spec(
        ws[0],
        "saveas"@,
    ) {
        None
    } else {
        Some(join_spec(ws.skip(1), " "@))
    }
}

/// The message of `:stats`, with `n` overdue tasks.
pub open spec fn stats_text(c: App, n: nat) -> Seq<char> {
    "Stats: "@ + decimal(c.total_tasks as nat) + " total, "@ + decimal(c.done_tasks as nat)
        + " done, "@ + decimal(n) + " overdue"@
}

/// The first (up to) five lines of `md`.
pub open spec fn preview_lines(md: Seq<char>) -> Seq<Seq<char>> {
    let ls = lines_of(md);
    ls.take(if ls.len() < 5 {
        ls.len() as int
    } else {
        5
    })
}

/// The message of `:export` for the markdown `md`.
pub open spec fn export_text(md: Seq<char>) -> Seq<char> {
    "Exported markdown ("@ + decimal(byte_len(md) as nat) + " chars). Preview:\n"@ + join_spec(
        preview_lines(md),
        "\n"@,
    )
}

/// Whether the navigation and file commands take `ps`.
pub open spec fn nav_handled(ps: Seq<Seq<char>>) -> bool {
    ps.len() > 0 && {
        let v = ps[0];
        ||| v == "help"@ || v == "stats"@ || v == "export"@ || v == "open"@
        ||| v == "save-as"@ || v == "saveas"@ || v == "parent"@ || v == "up"@
        ||| v == "back"@ || v == "b"@ || v == "clear"@ || v == "top"@ || v == "bottom"@
        ||| v == "focus"@ && ps.len() >= 2
        ||| v == "unfocus"@ || v == "reload"@
    }
}

/// What the navigation or file command `ps` (typed as `raw`) does to `c`,
/// and the work `r` it leaves to the caller.
pub open spec fn nav_rel(c: App, b: App, ps: Seq<Seq<char>>, raw: Seq<char>, r: Effect) -> bool {
    let v = ps[0];
    if v == "help"@ {
        with_message(c, b, help_text()) && r is Nothing
    } else if v == "stats"@ {
        r is Nothing && exists|d: int|
            #![trigger forest_overdue(c.forest(), d)]
            with_message(c, b, stats_text(c, cap(forest_overdue(c.forest(), d))))
    } else if v == "export"@ {
        r matches Effect::WriteExport(md) && (exists|d: int|
            #![trigger md_list(c.forest(), Seq::empty(), d)]
            md@ == md_list(c.forest(), Seq::empty(), d)) && with_message(c, b, export_text(md@))
    } else if v == "open"@ {
        match open_args(raw) {
            Some((j, cf)) => b == c && (r matches Effect::Open(p, f) && f == cf && exists|
                h: Option<Seq<char>>,
            | p@ == expanded_path(j, h)),
            None => r is Nothing && with_message(
                c,
                b,
                "Usage: :open <path.tdl> [confirm]  \u{2014} e.g. :open ~/projects/foo.tdl confirm"@,
            ),
        }
    } else if v == "save-as"@ || v == "saveas"@ {
        match save_as_arg(raw) {
            Some(j) => b == c && (r matches Effect::SaveAs(p) && exists|h: Option<Seq<char>>|
                p@ == expanded_path(j, h)),
            None => r is Nothing && with_message(
                c,
                b,
                "Usage: :save-as <path.tdl>  \u{2014} e.g. :save-as ~/projects/foo.tdl"@,
            ),
        }
    } else if v == "parent"@ || v == "up"@ || v == "back"@ || v == "b"@ {
        r is Nothing && exists|p: App|
            #![trigger went_to_parent(c, p)]
            went_to_parent(c, p) && with_message(p, b, "Went to parent"@)
    } else if v == "clear"@ {
        r is Nothing && exists|p: App|
            #![trigger filters_cleared(c, p)]
            filters_cleared(c, p) && with_message(p, b, "Filters cleared"@)
    } else if v == "top"@ {
        r is Nothing && exists|p: App|
            #![trigger went_to_top(c, p)]
            went_to_top(c, p) && with_message(p, b, "Went to top"@)
    } else if v == "bottom"@ {
        r is Nothing && exists|p: App|
            #![trigger went_to_bottom(c, p)]
            went_to_bottom(c, p) && with_message(p, b, "Went to bottom"@)
    } else if v == "focus"@ && ps.len() >= 2 {
        r is Nothing && match parse_u64_spec(ps[1]) {
            Some(id) => focused_on(c, b, id),
            None => b == c,
        }
    } else if v == "unfocus"@ {
        r is Nothing && unfocused(c, b)
    } else if v == "reload"@ && ps.len() >= 2 && ps[1] == "confirm"@ {
        r is Reload && edit_cancelled(c, b)
    } else {
        r is Nothing && with_message(
            c,
            b,
            "Type :reload confirm to reload from disk (discards unsaved changes)"@,
        )
    }
}

/// The words of `s` (`str::split_whitespace`).
fn words_of(s: &str) -> (r: Vec<String>)
    ensures
        texts(r) == words(s@),
{
    let r = split_whitespace(s);
    assert(texts(r) =~= words(s@));
    r
}

/// The path and confirm flag of `open <path> [confirm]` in `raw`, the path
/// with a leading `~` expanded (see `open_args`).
pub fn parse_open_path_raw(raw: &str) -> (r: Option<(String, bool)>)
    ensures
        match open_args(raw@) {
            None => r is None,
            Some((j, cf)) => r matches Some((p, f)) && f == cf && exists|h: Option<Seq<char>>|
                p@ == expanded_path(j, h),
        },
{
    let ws = words_of(raw);
    let ghost wv = texts(ws);
    if ws.len() == 0 {
        return None;
    }
    assert(wv[0] == ws@[0]@);
    if !eq_ignore_ascii_case(ws[0].as_str(), "open") {
        return None;
    }
    let mut rest: Vec<String> = Vec::new();
    let mut i: usize = 1;
    while i < ws.len()
        invariant
            1 <= i <= ws@.len(),
            wv == texts(ws),
            strings_view(rest@) == wv.subrange(1, i as int),
        decreases ws@.len() - i,
    {
        let ghost before = rest@;
        let w = ws[i].clone();
        rest.push(w);
        assert(strings_view(rest@) =~= strings_view(before).push(ws@[i as int]@));
        i += 1;
        assert(strings_view(rest@) =~= wv.subrange(1, i as int));
    }
    assert(wv.subrange(1, i as int) =~= wv.drop_first());
    let n = rest.len();
    let confirm = n > 0 && eq_ignore_ascii_case(rest[n - 1].as_str(), "confirm");
    if confirm {
        assert(strings_view(rest@).last() == rest@[n - 1]@);
        let ghost before = rest@;
        let _ = rest.pop();
        assert(strings_view(rest@) =~= strings_view(before).drop_last());
    }
    if rest.len() == 0 {
        return None;
    }
    let joined = join(&rest, " ");
    assert(rest@.map_values(|x: String| x@) =~= strings_view(rest@));
    let p = expand_user_path(joined.as_str());
    proof {
        let h = choose|h: Option<Seq<char>>| p@ == expanded_path(joined@, h);
        assert(open_args(raw@) == Some((joined@, confirm)));
        assert(p@ == expanded_path((open_args(raw@)->0).0, h));
    }
    Some((p, confirm))
}

/// The path of `save-as <path>` in `raw`, with a leading `~` expanded (see `save_as_arg`).
pub fn parse_save_as_path_raw(raw: &str) -> (r: Option<String>)
    ensures
        match save_as_arg(raw@) {
            None => r is None,
            Some(j) => r matches Some(p) && exists|h: Option<Seq<char>>| p@ == expanded_path(j, h),
        },
{
    let ws = words_of(raw);
    let ghost wv = texts(ws);
    if ws.len() < 2 {
        return None;
    }
    assert(wv[0] == ws@[0]@);
    if !eq_ignore_ascii_case(ws[0].as_str(), "save-as") && !eq_ignore_ascii_case(
        ws[0].as_str(),
        "saveas",
    ) {
        return None;
    }
    let joined = join_from(&ws, 1);
    let p = expand_user_path(joined.as_str());
    proof {
        let h = choose|h: Option<Seq<char>>| p@ == expanded_path(joined@, h);
        assert(save_as_arg(raw@) == Some(joined@));
        assert(p@ == expanded_path(save_as_arg(raw@)->0, h));
    }
    Some(p)
}

impl App {
    /// Tries `ps` (typed as `raw`) as a navigation or file command (see
    /// `nav_rel`); `None` when it is none.
    pub fn nav_command(&mut self, ps: &Vec<String>, raw: &str) -> (r: Option<Effect>)
        ensures
            r is Some == nav_handled(texts(*ps)),
            match r {
                Some(e) => nav_rel(*old(self), *final(self), texts(*ps), raw@, e),
                None => *final(self) == *old(self),
            },
    {
        let ghost c = *self;
        let ghost pv = texts(*ps);
        if ps.len() == 0 {
            return None;
        }
        assert(pv[0] == ps@[0]@);
        let v = ps[0].as_str();
        let eq = |w: &str| -> (b: bool)
            ensures
                b == (v@ == w@),
            { crate::date::str_eq(v, w) };
        if eq("help") {
            self.message = "Cmds: add/due/priority/status/tag/filter/expand/sort/undo ; ID actions: delete/done/edit/priority/due/toggle <id> ; :42 or :jump/:select/:go 42 jumps ; :open/:save-as <path.tdl> [confirm] ; :parent/:up/:back/:b :top :bottom :clear :export :stats :help :duplicate/:copy <id> :mark <id> <status/priority> :focus <id> :unfocus :reload confirm. See ? for keys.".to_owned();
            return Some(Effect::Nothing);
        }
        if eq("stats") {
            let overdue = self.count_overdue();
            let mut m = concat("Stats: ", usize_to_string(self.total_tasks).as_str());
            m = concat3(m.as_str(), " total, ", usize_to_string(self.done_tasks).as_str());
            m = concat3(m.as_str(), " done, ", usize_to_string(overdue).as_str());
            m = concat(m.as_str(), " overdue");
            self.message = m;
            return Some(Effect::Nothing);
        }
        if eq("export") {
            let md = self.export_markdown();
            let ls = lines(md.as_str());
            let k = if ls.len() < 5 {
                ls.len()
            } else {
                5
            };
            let mut first: Vec<String> = Vec::new();
            let mut i: usize = 0;
            while i < k
                invariant
                    i <= k <= ls@.len(),
                    strings_view(first@) == strings_view(ls@).take(i as int),
                decreases k - i,
            {
                let ghost before = first@;
                let w = ls[i].clone();
                first.push(w);
                assert(strings_view(first@) =~= strings_view(before).push(ls@[i as int]@));
                i += 1;
                assert(strings_view(first@) =~= strings_view(ls@).take(i as int));
            }
            let preview = join(&first, "\n");
            assert(first@.map_values(|x: String| x@) =~= strings_view(first@));
            let mut m = concat("Exported markdown (", usize_to_string(str_len(md.as_str())).as_str());
            m = concat3(m.as_str(), " chars). Preview:\n", preview.as_str());
            self.message = m;
            return Some(Effect::WriteExport(md));
        }
        if eq("open") {
            match parse_open_path_raw(raw) {
                Some((path, confirm)) => {
                    return Some(Effect::Open(path, confirm));
                },
                None => {
                    self.message = "Usage: :open <path.tdl> [confirm]  \u{2014} e.g. :open ~/projects/foo.tdl confirm".to_owned();
                    return Some(Effect::Nothing);
                },
            }
        }
        if eq("save-as") || eq("saveas") {
            match parse_save_as_path_raw(raw) {
                Some(path) => {
                    return Some(Effect::SaveAs(path));
                },
                None => {
                    self.message = "Usage: :save-as <path.tdl>  \u{2014} e.g. :save-as ~/projects/foo.tdl".to_owned();
                    return Some(Effect::Nothing);
                },
            }
        }
        if eq("parent") || eq("up") || eq("back") || eq("b") {
            self.go_to_parent();
            self.message = "Went to parent".to_owned();
            return Some(Effect::Nothing);
        }
        if eq("clear") {
            self.clear_filters();
            self.message = "Filters cleared".to_owned();
            return Some(Effect::Nothing);
        }
        if eq("top") {
            self.go_to_top();
            self.message = "Went to top".to_owned();
            return Some(Effect::Nothing);
        }
        if eq("bottom") {
            self.go_to_bottom();
            self.message = "Went to bottom".to_owned();
            return Some(Effect::Nothing);
        }
        if eq("focus") && ps.len() >= 2 {
            assert(pv[1] == ps@[1]@);
            match parse_u64(ps[1].as_str()) {
                Some(id) => self.focus_on(id),
                None => {},
            }
            return Some(Effect::Nothing);
        }
        if eq("unfocus") {
            self.unfocus();
            return Some(Effect::Nothing);
        }
        if eq("reload") {
            if ps.len() >= 2 && crate::date::str_eq(ps[1].as_str(), "confirm") {
                assert(pv[1] == ps@[1]@);
                self.cancel_edit();
                return Some(Effect::Reload);
            }
            self.message = "Type :reload confirm to reload from disk (discards unsaved changes)".to_owned();
            return Some(Effect::Nothing);
        }
        None
    }
}

/// The priority `:priority <word>` sets: the one named, else the next in the cycle.
pub open spec fn prio_cmd(ps: Seq<Seq<char>>, cur: Priority) -> Priority {
    if ps.len() > 1 && ps[1] == "high"@ {
        Priority::High
    } else if ps.len() > 1 && (ps[1] == "med"@ || ps[1] == "medium"@) {
        Priority::Medium
    } else if ps.len() > 1 && ps[1] == "low"@ {
        Priority::Low
    } else {
        priority_next(cur)
    }
}

/// The status `:status <word>` sets: done, doing or blocked when named, else
/// the next in the cycle.
pub open spec fn status_cmd(ps: Seq<Seq<char>>, cur: Status) -> Status {
    if ps.len() > 1 && ps[1] == "done"@ {
        Status::Done
    } else if ps.len() > 1 && ps[1] == "doing"@ {
        Status::Doing
    } else if ps.len() > 1 && ps[1] == "blocked"@ {
        Status::Blocked
    } else {
        status_next(cur)
    }
}

/// The sort mode `:sort <word>` picks (manual for any other word).
pub open spec fn sort_word(ps: Seq<Seq<char>>) -> SortMode {
    if ps.len() > 1 && ps[1] == "priority"@ {
        SortMode::Priority
    } else if ps.len() > 1 && ps[1] == "due"@ {
        SortMode::DueDate
    } else if ps.len() > 1 && ps[1] == "title"@ {
        SortMode::Title
    } else {
        SortMode::Manual
    }
}

/// `s` without its leading copies of `c`.
pub open spec fn strip_leading(s: Seq<char>, c: char) -> Seq<char>
    decreases s.len(),
{
    if s.len() > 0 && s[0] == c {
        strip_leading(s.drop_first(), c)
    } else {
        s
    }
}

/// `tags` without any copy of `t`.
pub open spec fn without(tags: Seq<Seq<char>>, t: Seq<char>) -> Seq<Seq<char>>
    decreases tags.len(),
{
    if tags.len() == 0 {
        tags
    } else {
        let r = without(tags.drop_last(), t);
        if tags.last() == t {
            r
        } else {
            r.push(tags.last())
        }
    }
}

/// The tags after `:tag` with the words `ws`: `-x` removes the tag `x`, any
/// other word adds itself (leading `+` and `-` stripped) unless present.
pub open spec fn tags_after(tags: Seq<Seq<char>>, ws: Seq<Seq<char>>) -> Seq<Seq<char>>
    decreases ws.len(),
{
    if ws.len() == 0 {
        tags
    } else {
        let prev = tags_after(tags, ws.drop_last());
        let w = ws.last();
        let t = strip_leading(strip_leading(w, '+'), '-');
        if w.len() > 0 && w[0] == '-' {
            without(prev, t)
        } else if prev.contains(t) {
            prev
        } else {
            prev.push(t)
        }
    }
}

/// The title `:add` gives: the words of the raw command after the first, joined by spaces.
pub open spec fn add_title(raw: Seq<char>) -> Seq<char> {
    let ws = words(raw);
    join_spec(
        if ws.len() > 0 {
            ws.skip(1)
        } else {
            ws
        },
        " "@,
    )
}

/// Every task down to the depth limit expanded, the project marked dirty, the
/// rows rebuilt, and the message "Expanded all".
pub open spec fn expanded_all(c: App, b: App) -> bool {
    exists|m: App, p: App, d: int|
        #![trigger view_moved(c, m, c.sel(), c.expanded().union(forest_ids_to_depth(c.forest(), 0)), c.focus(), c.pending(), true), rebuild_rel(m, p, d)]
        view_moved(
            c,
            m,
            c.sel(),
            c.expanded().union(forest_ids_to_depth(c.forest(), 0)),
            c.focus(),
            c.pending(),
            true,
        ) && rebuild_rel(m, p, d) && with_message(p, b, "Expanded all"@)
}

/// `m` is `c` with the sort mode `mode` and its message.
pub open spec fn sort_set(c: App, m: App, mode: SortMode) -> bool {
    &&& m.sort_mode == mode
    &&& m.message@ == "Sort: "@ + sort_label(mode)
    &&& m.tasks == c.tasks
    &&& m.tree == c.tree
    &&& m.persist == c.persist
    &&& m.filter == c.filter
    &&& m.total_tasks == c.total_tasks
    &&& m.done_tasks == c.done_tasks
    &&& m.mode == c.mode
    &&& m.search_buf == c.search_buf
    &&& m.command_buf == c.command_buf
    &&& m.edit == c.edit
    &&& m.undo_stack == c.undo_stack
    &&& m.next_id == c.next_id
}

/// The sort mode set, the rows rebuilt, and the project marked dirty.
pub open spec fn sorted(c: App, b: App, mode: SortMode) -> bool {
    exists|m: App, p: App, d: int|
        #![trigger sort_set(c, m, mode), rebuild_rel(m, p, d)]
        sort_set(c, m, mode) && rebuild_rel(m, p, d) && dirtied_with(
            p,
            b,
            "Sort: "@ + sort_label(mode),
        )
}

/// What the task command `ps` (`cmd` lower-cased, `raw` as typed) does to `c`.
pub open spec fn task_command_rel(c: App, b: App, ps: Seq<Seq<char>>, cmd: Seq<char>, raw: Seq<char>) -> bool {
    let v = if ps.len() > 0 {
        ps[0]
    } else {
        Seq::empty()
    };
    let sel = c.sel();
    let at = forest_at(c.forest(), sel);
    if ps.len() > 0 && (v == "add"@ || v == "a"@) {
        if add_title(raw).len() > 0 {
            named_task_added(c, b, add_title(raw), false)
        } else {
            b == c
        }
    } else if ps.len() > 0 && v == "due"@ {
        match at {
            Some(t) => exists|d: int|
                #![trigger relative_date_spec(join_spec(ps.skip(1), " "@), d)]
                task_rewritten_keep(
                    c,
                    b,
                    sel,
                    TaskView { due: relative_date_spec(join_spec(ps.skip(1), " "@), d), ..t },
                    "Due date set via command"@,
                ),
            None => with_message(c, b, "No task selected for :due"@),
        }
    } else if ps.len() > 0 && (v == "priority"@ || v == "p"@) {
        match at {
            Some(t) => task_rewritten_keep(
                c,
                b,
                sel,
                TaskView { priority: prio_cmd(ps, t.priority), ..t },
                c.message@,
            ),
            None => with_message(c, b, "No task selected for :priority"@),
        }
    } else if ps.len() > 0 && (v == "status"@ || v == "s"@) {
        match at {
            Some(t) => task_rewritten_keep(
                c,
                b,
                sel,
                TaskView { status: status_cmd(ps, t.status), ..t },
                c.message@,
            ),
            None => with_message(c, b, "No task selected for :status"@),
        }
    } else if ps.len() > 0 && v == "tag"@ {
        match at {
            Some(t) => task_rewritten_keep(
                c,
                b,
                sel,
                TaskView { tags: tags_after(t.tags, ps.skip(1)), ..t },
                c.message@,
            ),
            None => with_message(c, b, "No task selected for :tag"@),
        }
    } else if ps.len() > 0 && v == "filter"@ {
        if ps.len() > 1 && ps[1] == "clear"@ {
            filters_cleared(c, b)
        } else if ps.len() > 1 && (ps[1] == "today"@ || ps[1] == "overdue"@) {
            ui_set_rebuilt(
                c,
                b,
                c.filter.search@,
                c.filter.hide_done,
                c.filter.only_high,
                true,
                c.mode,
                c.search_buf@,
                false,
            )
        } else {
            b == c
        }
    } else if ps.len() > 0 && v == "expand"@ {
        if ps.len() > 1 && ps[1] == "all"@ {
            expanded_all(c, b)
        } else {
            b == c
        }
    } else if ps.len() > 0 && v == "sort"@ {
        sorted(c, b, sort_word(ps))
    } else if ps.len() > 0 && v == "undo"@ {
        undone(c, b)
    } else {
        with_message(c, b, "Unknown command: "@ + cmd)
    }
}

/// `s` without its leading copies of `c` (`str::trim_start_matches` with a char).
fn strip_leading_char(s: &str, c: char) -> (r: String)
    ensures
        r@ == strip_leading(s@, c),
{
    let v = crate::text::chars_of(s);
    let mut i: usize = 0;
    assert(v@.skip(0) =~= v@);
    while i < v.len() && v[i] == c
        invariant
            i <= v@.len(),
            v@ == s@,
            strip_leading(s@, c) == strip_leading(v@.skip(i as int), c),
        decreases v@.len() - i,
    {
        assert(v@.skip(i as int).drop_first() =~= v@.skip(i + 1));
        i += 1;
    }
    crate::text::string_of_range(&v, i, v.len())
}

/// `tags` without any copy of `t` (`Vec::retain`).
fn without_tag(tags: &Vec<String>, t: &String) -> (r: Vec<String>)
    ensures
        strings_view(r@) == without(strings_view(tags@), t@),
{
    let mut r: Vec<String> = Vec::new();
    let mut i: usize = 0;
    while i < tags.len()
        invariant
            i <= tags@.len(),
            strings_view(r@) == without(strings_view(tags@).take(i as int), t@),
        decreases tags@.len() - i,
    {
        let ghost before = r@;
        assert(strings_view(tags@).take(i + 1).drop_last() =~= strings_view(tags@).take(i as int));
        if tags[i] != *t {
            let w = tags[i].clone();
            r.push(w);
            assert(strings_view(r@) =~= strings_view(before).push(tags@[i as int]@));
        }
        i += 1;
    }
    assert(strings_view(tags@).take(i as int) =~= strings_view(tags@));
    r
}

/// The tags after `:tag` with the words `ps[1..]` (see `tags_after`).
fn apply_tag_words(tags: &Vec<String>, ps: &Vec<String>) -> (r: Vec<String>)
    requires
        ps@.len() >= 1,
    ensures
        strings_view(r@) == tags_after(strings_view(tags@), texts(*ps).skip(1)),
{
    let ghost ws = texts(*ps).skip(1);
    let mut cur: Vec<String> = Vec::new();
    let mut j: usize = 0;
    while j < tags.len()
        invariant
            j <= tags@.len(),
            strings_view(cur@) == strings_view(tags@).take(j as int),
        decreases tags@.len() - j,
    {
        let ghost before = cur@;
        let w = tags[j].clone();
        cur.push(w);
        assert(strings_view(cur@) =~= strings_view(before).push(tags@[j as int]@));
        j += 1;
        assert(strings_view(cur@) =~= strings_view(tags@).take(j as int));
    }
    assert(strings_view(tags@).take(j as int) =~= strings_view(tags@));
    assert(ws.take(0) =~= Seq::<Seq<char>>::empty());
    let mut i: usize = 1;
    while i < ps.len()
        invariant
            1 <= i <= ps@.len(),
            ws == texts(*ps).skip(1),
            strings_view(cur@) == tags_after(strings_view(tags@), ws.take(i - 1)),
        decreases ps@.len() - i,
    {
        assert(ws.take(i as int).drop_last() =~= ws.take(i - 1));
        assert(ws.take(i as int).last() == ps@[i as int]@);
        let w = ps[i].as_str();
        let t0 = strip_leading_char(w, '+');
        let t = strip_leading_char(t0.as_str(), '-');
        let v = crate::text::chars_of(w);
        if v.len() > 0 && v[0] == '-' {
            cur = without_tag(&cur, &t);
        } else if !has_string(&cur, &t) {
            let ghost before = cur@;
            cur.push(t);
            assert(strings_view(cur@) =~= strings_view(before).push(t@));
        }
        i += 1;
    }
    assert(ws.take(i - 1) =~= ws);
    cur
}

/// The sort mode `:sort <word>` picks.
fn sort_of_words(ps: &Vec<String>) -> (r: SortMode)
    ensures
        r == sort_word(texts(*ps)),
{
    if ps.len() > 1 {
        assert(texts(*ps)[1] == ps@[1]@);
        let w = ps[1].as_str();
        if crate::date::str_eq(w, "priority") {
            return SortMode::Priority;
        } else if crate::date::str_eq(w, "due") {
            return SortMode::DueDate;
        } else if crate::date::str_eq(w, "title") {
            return SortMode::Title;
        }
    }
    SortMode::Manual
}

/// Whether `ps` has a second word equal to `w`.
fn second_is(ps: &Vec<String>, w: &str) -> (r: bool)
    ensures
        r == (texts(*ps).len() > 1 && texts(*ps)[1] == w@),
{
    if ps.len() > 1 {
        assert(texts(*ps)[1] == ps@[1]@);
        crate::date::str_eq(ps[1].as_str(), w)
    } else {
        false
    }
}

impl App {
    /// Carries out the task command `ps` (see `task_command_rel`).
    pub fn task_command(&mut self, ps: &Vec<String>, cmd: &str, raw: &str)
        requires
            old(self).next_id < u64::MAX,
        ensures
            task_command_rel(*old(self), *final(self), texts(*ps), cmd@, raw@),
    {
        let ghost c = *self;
        let ghost pv = texts(*ps);
        let sel = copy_path(self.tree.selected_path.as_slice());
        let v: &str = if ps.len() > 0 {
            ps[0].as_str()
        } else {
            ""
        };
        proof {
            reveal_strlit("");
            if ps@.len() > 0 {
                assert(pv[0] == ps@[0]@);
            } else {
                assert(v@ =~= Seq::<char>::empty());
            }
        }
        let n = ps.len();
        if n > 0 && (crate::date::str_eq(v, "add") || crate::date::str_eq(v, "a")) {
            let ws = words_of(raw);
            let mut title = String::new();
            if ws.len() > 0 {
                title = join_from(&ws, 1);
            } else {
                let joined = join(&ws, " ");
                assert(ws@.map_values(|x: String| x@) =~= strings_view(ws@));
                title = joined;
            }
            if !title.as_str().is_empty() {
                self.add_named_task(title.as_str(), false);
            }
        } else if n > 0 && crate::date::str_eq(v, "due") {
            match self.task_at(sel.as_slice()) {
                Some(_) => {
                    let rest = join_from(ps, 1);
                    let d = today();
                    let due = parse_relative_date(rest.as_str(), d);
                    let w = self.with_due(&sel, due);
                    self.commit_rewrite_keep(&sel, w, "Due date set via command".to_owned());
                    assert(relative_date_spec(join_spec(pv.skip(1), " "@), d.day())
                        == crate::date::opt_day(due));
                },
                None => {
                    self.message = "No task selected for :due".to_owned();
                },
            }
        } else if n > 0 && (crate::date::str_eq(v, "priority") || crate::date::str_eq(v, "p")) {
            match self.task_at(sel.as_slice()) {
                Some(t) => {
                    let cur = t.priority;
                    let p = if second_is(ps, "high") {
                        Priority::High
                    } else if second_is(ps, "med") || second_is(ps, "medium") {
                        Priority::Medium
                    } else if second_is(ps, "low") {
                        Priority::Low
                    } else {
                        cur.cycle()
                    };
                    let w = self.with_priority(&sel, p);
                    let msg = self.message.clone();
                    self.commit_rewrite_keep(&sel, w, msg);
                },
                None => {
                    self.message = "No task selected for :priority".to_owned();
                },
            }
        } else if n > 0 && (crate::date::str_eq(v, "status") || crate::date::str_eq(v, "s")) {
            match self.task_at(sel.as_slice()) {
                Some(t) => {
                    let cur = t.status;
                    let st = if second_is(ps, "done") {
                        Status::Done
                    } else if second_is(ps, "doing") {
                        Status::Doing
                    } else if second_is(ps, "blocked") {
                        Status::Blocked
                    } else {
                        cur.cycle()
                    };
                    let w = self.with_status(&sel, st);
                    let msg = self.message.clone();
                    self.commit_rewrite_keep(&sel, w, msg);
                },
                None => {
                    self.message = "No task selected for :status".to_owned();
                },
            }
        } else if n > 0 && crate::date::str_eq(v, "tag") {
            match self.task_at(sel.as_slice()) {
                Some(t) => {
                    let mut w = t.deep_copy();
                    let ghost w0 = w;
                    let tags = apply_tag_words(&w.tags, ps);
                    w.tags = tags;
                    proof {
                        lemma_children_view(w0);
                        lemma_children_view(w);
                    }
                    let msg = self.message.clone();
                    self.commit_rewrite_keep(&sel, w, msg);
                },
                None => {
                    self.message = "No task selected for :tag".to_owned();
                },
            }
        } else if n > 0 && crate::date::str_eq(v, "filter") {
            if second_is(ps, "clear") {
                self.clear_filters();
            } else if second_is(ps, "today") || second_is(ps, "overdue") {
                let ghost c0 = *self;
                self.filter.only_overdue_or_today = true;
                let ghost m = *self;
                self.rebuild_visible();
                proof {
                    let d = choose|d: int| rebuild_rel(m, *self, d);
                    assert(super::search::ui_set(
                        c0,
                        m,
                        c0.filter.search@,
                        c0.filter.hide_done,
                        c0.filter.only_high,
                        true,
                        c0.mode,
                        c0.search_buf@,
                        false,
                    ) && rebuild_rel(m, *self, d));
                }
            }
        } else if n > 0 && crate::date::str_eq(v, "expand") {
            if second_is(ps, "all") {
                expand_all_ids(&self.tasks, &mut self.tree.expanded, 0);
                self.mark_dirty();
                let ghost m = *self;
                self.rebuild_visible();
                let ghost p = *self;
                self.message = "Expanded all".to_owned();
                proof {
                    let d = choose|d: int| rebuild_rel(m, p, d);
                    assert(view_moved(
                        c,
                        m,
                        c.sel(),
                        c.expanded().union(forest_ids_to_depth(c.forest(), 0)),
                        c.focus(),
                        c.pending(),
                        true,
                    ) && rebuild_rel(m, p, d) && with_message(p, *self, "Expanded all"@));
                }
            }
        } else if n > 0 && crate::date::str_eq(v, "sort") {
            let mode = sort_of_words(ps);
            self.sort_mode = mode;
            self.message = concat("Sort: ", mode.label());
            let ghost m = *self;
            self.rebuild_visible();
            let ghost p = *self;
            self.mark_dirty();
            proof {
                let d = choose|d: int| rebuild_rel(m, p, d);
                assert(sort_set(c, m, mode) && rebuild_rel(m, p, d));
            }
        } else if n > 0 && crate::date::str_eq(v, "undo") {
            self.undo();
        } else {
            self.message = concat("Unknown command: ", cmd);
        }
    }
}

/// The command typed in `buf`: trimmed and lower-cased.
pub open spec fn cmd_text(buf: Seq<char>) -> Seq<char> {
    lowercase(trim(buf))
}

/// `c` is `a` with the command line emptied and the mode back to normal.
pub open spec fn cmd_reset(a: App, c: App) -> bool {
    &&& c.command_buf@ == Seq::<char>::empty()
    &&& c.mode == Mode::Normal
    &&& c.tasks == a.tasks
    &&& c.tree == a.tree
    &&& c.persist == a.persist
    &&& c.filter == a.filter
    &&& c.sort_mode == a.sort_mode
    &&& c.total_tasks == a.total_tasks
    &&& c.done_tasks == a.done_tasks
    &&& c.search_buf == a.search_buf
    &&& c.edit == a.edit
    &&& c.message == a.message
    &&& c.undo_stack == a.undo_stack
    &&& c.next_id == a.next_id
}

/// A jump to the task `id`, with the message `yes` or `no` followed by the id.
pub open spec fn jumped(c: App, b: App, id: u64, yes: Seq<char>, no: Seq<char>) -> bool {
    match forest_find(c.forest(), id) {
        Some(path) => exists|p: App|
            #![trigger selected_path_shown(c, p, path)]
            selected_path_shown(c, p, path) && with_message(p, b, yes + decimal(id as nat)),
        None => with_message(c, b, no + decimal(id as nat)),
    }
}

/// Whether `w` is one of the jump commands.
pub open spec fn jump_word(w: Seq<char>) -> bool {
    w == "jump"@ || w == "select"@ || w == "go"@ || w == "g"@
}

/// The id commands, then the navigation and file commands, then the task commands.
pub open spec fn dispatched(c: App, b: App, r: Effect, ps: Seq<Seq<char>>, cmd: Seq<char>, raw: Seq<char>) -> bool {
    exists|c1: App|
        #![trigger id_command_rel(c, c1, ps)]
        id_command_rel(c, c1, ps) && if id_handled(c, ps) {
            b == c1 && r is Nothing
        } else if nav_handled(ps) {
            nav_rel(c1, b, ps, raw, r)
        } else {
            r is Nothing && task_command_rel(c1, b, ps, cmd, raw)
        }
}

/// What the command `cmd` (typed as `raw`) does to `c`: nothing when empty;
/// a bare id or `jump`/`select`/`go`/`g` with an id jumps there; anything else
/// goes to the id, navigation, and task commands in turn.
pub open spec fn command_rel(c: App, b: App, r: Effect, cmd: Seq<char>, raw: Seq<char>) -> bool {
    if cmd.len() == 0 {
        b == c && r is Nothing
    } else {
        match parse_u64_spec(cmd) {
            Some(id) => r is Nothing && jumped(c, b, id, "Jumped to task #"@, "No task with ID #"@),
            None => {
                let ps = words(cmd);
                if ps.len() >= 2 && jump_word(ps[0]) && parse_u64_spec(ps[1]) is Some {
                    r is Nothing && jumped(c, b, parse_u64_spec(ps[1])->0, "Jumped to #"@, "No task #"@)
                } else {
                    dispatched(c, b, r, ps, cmd, raw)
                }
            },
        }
    }
}

impl App {
    /// Jumps to `id` and reports it with `yes` or `no` followed by the id.
    fn jump_with_message(&mut self, id: u64, yes: &str, no: &str)
        ensures
            jumped(*old(self), *final(self), id, yes@, no@),
    {
        let ghost c = *self;
        let found = self.jump_to_id(id);
        let ghost p = *self;
        let t = if found {
            concat(yes, u64_to_string(id).as_str())
        } else {
            concat(no, u64_to_string(id).as_str())
        };
        self.message = t;
        proof {
            if found {
                let path = forest_find(c.forest(), id)->0;
                assert(selected_path_shown(c, p, path) && with_message(
                    p,
                    *self,
                    yes@ + decimal(id as nat),
                ));
            }
        }
    }

    /// Runs the typed command line and leaves command mode (see `command_rel`);
    /// the result is the file work left to the caller.
    pub fn execute_command(&mut self) -> (r: Effect)
        requires
            old(self).next_id + forest_size(old(self).forest()) < u64::MAX,
        ensures
            exists|c: App|
                #![trigger cmd_reset(*old(self), c)]
                cmd_reset(*old(self), c) && command_rel(
                    c,
                    *final(self),
                    r,
                    cmd_text(old(self).command_buf@),
                    trim(old(self).command_buf@),
                ),
    {
        let ghost a0 = *self;
        let raw = trim_str(self.command_buf.as_str());
        let cmd = to_lowercase(raw.as_str());
        self.command_buf = String::new();
        self.mode = Mode::Normal;
        let ghost c = *self;
        assert(cmd_reset(a0, c));
        if cmd.as_str().is_empty() {
            return Effect::Nothing;
        }
        match parse_u64(cmd.as_str()) {
            Some(id) => {
                self.jump_with_message(id, "Jumped to task #", "No task with ID #");
                return Effect::Nothing;
            },
            None => {},
        }
        let ps = words_of(cmd.as_str());
        let ghost pv = texts(ps);
        if ps.len() >= 2 {
            assert(pv[0] == ps@[0]@ && pv[1] == ps@[1]@);
            let w = ps[0].as_str();
            if crate::date::str_eq(w, "jump") || crate::date::str_eq(w, "select")
                || crate::date::str_eq(w, "go") || crate::date::str_eq(w, "g") {
                match parse_u64(ps[1].as_str()) {
                    Some(id) => {
                        self.jump_with_message(id, "Jumped to #", "No task #");
                        return Effect::Nothing;
                    },
                    None => {},
                }
            }
        }
        if self.id_command(&ps) {
            return Effect::Nothing;
        }
        let ghost c1 = *self;
        match self.nav_command(&ps, raw.as_str()) {
            Some(e) => {
                return e;
            },
            None => {},
        }
        self.task_command(&ps, cmd.as_str(), raw.as_str());
        Effect::Nothing
    }
}

} // verus!
