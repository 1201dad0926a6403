//! Building the state from a loaded project, the sample project, and the
//! state changes around loading, saving, and autosave.
use vstd::prelude::*;
use std::collections::HashSet;
use crate::date::{from_ymd, opt_day, ymd_date};
use crate::forest::{forest_ids, forest_size};
use crate::model::{Priority, Status, Task, TaskView, forest_view, strings_view};
use crate::persist::{LoadedProject, MissingFilePolicy, id_set};
use crate::sort::SortMode;
use crate::text::{concat, concat3, has_substring};
use crate::tree_walk::forest_max_id;
use super::access::single;
use super::manipulate::new_task_view;
use super::rel::{dirty_marked, same_data, unchanged, with_message};
use super::sanitize::{forest_pre, renum_list, sanitized};
use super::state::{
    App, FilterState, ListView, Mode, PersistState, Rect, TreeViewState, instant_now,
};
use super::visibility::rebuild_rel;

verus! {

/// The tasks of the sample project.
pub open spec fn sample_tree() -> Seq<TaskView> {
    seq![
        TaskView {
            id: 1,
            title: "Build the ultimate Rust TUI todo"@,
            desc: "Make a deeply nested, feature-rich hierarchical todo list.\n\nFeatures wanted:\n- Tree navigation\n- Rich metadata\n- Powerful filters\n- Full edit experience\n- Persistence & undo"@,
            priority: Priority::High,
            status: Status::Doing,
            due: ymd_date(2026, 6, 25),
            tags: seq!["rust"@, "tui"@, "ambitious"@],
            children: seq![
                TaskView {
                    status: Status::Done,
                    ..new_task_view(2, "Design data model (nested Task + rich fields)"@)
                },
                new_task_view(3, "Implement tree rendering with connectors"@),
                TaskView {
                    id: 4,
                    title: "Build the edit modal (very deep form)"@,
                    desc: "Support title, multi-line desc, priority, status, due date parser, tags management."@,
                    priority: Priority::High,
                    status: Status::Todo,
                    due: ymd_date(2026, 6, 18),
                    tags: seq!["ui"@],
                    children: seq![
                        new_task_view(5, "Title + due date input with live parsing"@),
                        new_task_view(6, "Multi-line description editor"@),
                        new_task_view(7, "Tag add/remove UI"@),
                    ],
                },
            ],
        },
        TaskView {
            id: 8,
            title: "Write documentation and examples"@,
            desc: Seq::empty(),
            priority: Priority::Medium,
            status: Status::Todo,
            due: ymd_date(2026, 6, 30),
            tags: seq!["docs"@],
            children: Seq::empty(),
        },
        TaskView {
            id: 9,
            title: "Polish & release"@,
            desc: "Make sure undo, persistence, filters, and navigation feel buttery."@,
            priority: Priority::Low,
            status: Status::Todo,
            due: None,
            tags: seq!["release"@],
            children: seq![
                new_task_view(10, "Add more relative date parsing"@),
                new_task_view(11, "Bulk actions (visual mode)"@),
            ],
        },
    ]
}

fn one_tag(a: &str) -> (r: Vec<String>)
    ensures
        strings_view(r@) == seq![a@],
{
    let mut v: Vec<String> = Vec::new();
    v.push(a.to_owned());
    assert(strings_view(v@) =~= seq![a@]);
    v
}

fn sample_first() -> (t: Task)
    ensures
        t@ == sample_tree()[0],
{
    let mut c2 = Task::new(2, "Design data model (nested Task + rich fields)");
    c2.status = Status::Done;
    let c3 = Task::new(3, "Implement tree rendering with connectors");
    let mut gc: Vec<Task> = Vec::new();
    gc.push(Task::new(5, "Title + due date input with live parsing"));
    gc.push(Task::new(6, "Multi-line description editor"));
    gc.push(Task::new(7, "Tag add/remove UI"));
    let c4 = Task {
        id: 4,
        title: "Build the edit modal (very deep form)".to_owned(),
        desc: "Support title, multi-line desc, priority, status, due date parser, tags management.".to_owned(),
        priority: Priority::High,
        status: Status::Todo,
        due: from_ymd(2026, 6, 18),
        tags: one_tag("ui"),
        children: gc,
    };
    let mut kids: Vec<Task> = Vec::new();
    kids.push(c2);
    kids.push(c3);
    kids.push(c4);
    let mut tags: Vec<String> = Vec::new();
    tags.push("rust".to_owned());
    tags.push("tui".to_owned());
    tags.push("ambitious".to_owned());
    let t = Task {
        id: 1,
        title: "Build the ultimate Rust TUI todo".to_owned(),
        desc: "Make a deeply nested, feature-rich hierarchical todo list.\n\nFeatures wanted:\n- Tree navigation\n- Rich metadata\n- Powerful filters\n- Full edit experience\n- Persistence & undo".to_owned(),
        priority: Priority::High,
        status: Status::Doing,
        due: from_ymd(2026, 6, 25),
        tags,
        children: kids,
    };
    proof {
        assert(strings_view(t.tags@) =~= seq!["rust"@, "tui"@, "ambitious"@]);
        let c = t.children@;
        assert(c[2]@.children =~= seq![
            new_task_view(5, "Title + due date input with live parsing"@),
            new_task_view(6, "Multi-line description editor"@),
            new_task_view(7, "Tag add/remove UI"@),
        ]);
        assert(c[0]@.tags =~= Seq::<Seq<char>>::empty());
        assert(c[0]@.children =~= Seq::<TaskView>::empty());
        assert(t@.children =~= sample_tree()[0].children);
    }
    t
}

fn sample_rest() -> (r: (Task, Task))
    ensures
        r.0@ == sample_tree()[1],
        r.1@ == sample_tree()[2],
{
    let t8 = Task {
        id: 8,
        title: "Write documentation and examples".to_owned(),
        desc: String::new(),
        priority: Priority::Medium,
        status: Status::Todo,
        due: from_ymd(2026, 6, 30),
        tags: one_tag("docs"),
        children: Vec::new(),
    };
    let mut kids: Vec<Task> = Vec::new();
    kids.push(Task::new(10, "Add more relative date parsing"));
    kids.push(Task::new(11, "Bulk actions (visual mode)"));
    let t9 = Task {
        id: 9,
        title: "Polish & release".to_owned(),
        desc: "Make sure undo, persistence, filters, and navigation feel buttery.".to_owned(),
        priority: Priority::Low,
        status: Status::Todo,
        due: None,
        tags: one_tag("release"),
        children: kids,
    };
    proof {
        assert(t8@.children =~= Seq::<TaskView>::empty());
        assert(t9@.children =~= sample_tree()[2].children);
    }
    (t8, t9)
}

impl App {
    /// The sample project: its tasks (see `sample_tree`), the next id 12, and
    /// the tasks 1 and 4 expanded.
    pub fn sample_data() -> (r: (Vec<Task>, u64, HashSet<u64>))
        ensures
            forest_view(r.0@) == sample_tree(),
            r.1 == 12,
            r.2@ == set![1u64, 4u64],
    {
        let first = sample_first();
        let (t8, t9) = sample_rest();
        let mut tasks: Vec<Task> = Vec::new();
        tasks.push(first);
        tasks.push(t8);
        tasks.push(t9);
        let mut expanded: HashSet<u64> = HashSet::new();
        expanded.insert(1);
        expanded.insert(4);
        assert(forest_view(tasks@) =~= sample_tree());
        assert(expanded@ =~= set![1u64, 4u64]);
        let max_id: u64 = 11;
        (tasks, max_id + 1, expanded)
    }
}

/// `m` holds the loaded project `(tasks, next_id, expanded, sort_mode)` as
/// `apply_loaded_project` sets it up, before the rows are rebuilt: the first
/// root task (if any) selected, no focus, no pending delete, an empty undo
/// stack, no edit form, normal mode, no filters, empty buffers, and expanded
/// ids that name no task dropped.
pub open spec fn project_installed(
    a: App,
    m: App,
    tasks: Seq<TaskView>,
    next_id: u64,
    expanded: Set<u64>,
    sort_mode: SortMode,
) -> bool {
    &&& m.forest() == tasks
    &&& m.next_id == next_id
    &&& m.expanded() == expanded.intersect(forest_ids(tasks))
    &&& m.sort_mode == sort_mode
    &&& m.pending() is None
    &&& m.focus() is None
    &&& m.sel() == (if tasks.len() == 0 {
        Seq::<usize>::empty()
    } else {
        seq![0usize]
    })
    &&& m.undo_stack@.len() == 0
    &&& m.edit is None
    &&& m.mode == Mode::Normal
    &&& m.filter.is_clear()
    &&& m.search_buf@.len() == 0
    &&& m.command_buf@.len() == 0
    &&& m.tree.visible == a.tree.visible
    &&& m.tree.visible_state == a.tree.visible_state
    &&& m.tree.tree_rect == a.tree.tree_rect
    &&& m.tree.last_click == a.tree.last_click
    &&& m.persist == a.persist
    &&& m.total_tasks == a.total_tasks
    &&& m.done_tasks == a.done_tasks
    &&& m.message == a.message
}

/// The project installed, then the rows rebuilt.
pub open spec fn project_applied(
    a: App,
    b: App,
    tasks: Seq<TaskView>,
    next_id: u64,
    expanded: Set<u64>,
    sort_mode: SortMode,
) -> bool {
    exists|m: App, d: int|
        #![trigger project_installed(a, m, tasks, next_id, expanded, sort_mode), rebuild_rel(m, b, d)]
        project_installed(a, m, tasks, next_id, expanded, sort_mode) && rebuild_rel(m, b, d)
}

/// `b` is `a` with the project file path `path` (all else the same).
pub open spec fn path_set(a: App, b: App, path: Seq<char>) -> bool {
    &&& b.persist.data_path@ == path
    &&& b.persist.dirty == a.persist.dirty
    &&& b.persist.last_change == a.persist.last_change
    &&& b.persist.last_saved == a.persist.last_saved
    &&& b.persist.last_save_failed == a.persist.last_save_failed
    &&& same_data(a, b)
    &&& b.tree == a.tree
}

/// `b` is `a` marked as saved just now (not dirty, last save set) with the message `msg`.
pub open spec fn marked_saved(a: App, b: App, msg: Seq<char>) -> bool {
    &&& !b.persist.dirty
    &&& b.persist.last_saved is Some
    &&& b.persist.data_path == a.persist.data_path
    &&& b.persist.last_change == a.persist.last_change
    &&& b.persist.last_save_failed == a.persist.last_save_failed
    &&& b.message@ == msg
    &&& b.tasks == a.tasks
    &&& b.tree == a.tree
    &&& b.filter == a.filter
    &&& b.sort_mode == a.sort_mode
    &&& b.total_tasks == a.total_tasks
    &&& b.done_tasks == a.done_tasks
    &&& b.mode == a.mode
    &&& b.search_buf == a.search_buf
    &&& b.command_buf == a.command_buf
    &&& b.edit == a.edit
    &&& b.undo_stack == a.undo_stack
    &&& b.next_id == a.next_id
}

/// `b` is `a` marked dirty with the message `msg`.
pub open spec fn dirty_with(a: App, b: App, msg: Seq<char>) -> bool {
    &&& dirty_marked(a.persist, b.persist)
    &&& b.message@ == msg
    &&& b.tasks == a.tasks
    &&& b.tree == a.tree
    &&& b.filter == a.filter
    &&& b.sort_mode == a.sort_mode
    &&& b.total_tasks == a.total_tasks
    &&& b.done_tasks == a.done_tasks
    &&& b.mode == a.mode
    &&& b.search_buf == a.search_buf
    &&& b.command_buf == a.command_buf
    &&& b.edit == a.edit
    &&& b.undo_stack == a.undo_stack
    &&& b.next_id == a.next_id
}

/// How the messages after a load settle, in `b`, from the state `p` just
/// after the project was applied: repeated ids are renumbered (and
/// reported with `dup_msg`, the project marked dirty when `dup_dirty`); else a
/// load message is shown and the project marked dirty; else an existing file
/// counts as saved (`open_msg`); else the project is new (`new_msg`, dirty).
pub open spec fn load_settled(
    p: App,
    b: App,
    load_msg: Option<Seq<char>>,
    exists_on_disk: bool,
    dup_msg: Seq<char>,
    dup_dirty: bool,
    open_msg: Seq<char>,
    new_msg: Option<Seq<char>>,
) -> bool {
    if !forest_pre(p.forest()).no_duplicates() {
        exists|q: App|
            #![trigger sanitized(p, q)]
            sanitized(p, q) && if dup_dirty {
                dirty_with(q, b, dup_msg)
            } else {
                with_message(q, b, dup_msg)
            }
    } else {
        exists|q: App|
            #![trigger sanitized(p, q)]
            sanitized(p, q) && match load_msg {
                Some(msg) => dirty_with(q, b, msg),
                None => if exists_on_disk {
                    marked_saved(q, b, open_msg)
                } else {
                    match new_msg {
                        Some(msg) => dirty_with(q, b, msg),
                        None => b == q,
                    }
                },
            }
    }
}

/// How `open_loaded` turns `a` into `b`: the path set, the project applied,
/// and the messages settled.
pub open spec fn project_opened(
    a: App,
    b: App,
    path: Seq<char>,
    tasks: Seq<TaskView>,
    next_id: u64,
    expanded: Set<u64>,
    sort_mode: SortMode,
    load_msg: Option<Seq<char>>,
    exists_on_disk: bool,
) -> bool {
    exists|a1: App, p: App|
        #![trigger path_set(a, a1, path), project_applied(a1, p, tasks, next_id, expanded, sort_mode)]
        path_set(a, a1, path) && project_applied(a1, p, tasks, next_id, expanded, sort_mode)
            && load_settled(
            p,
            b,
            load_msg,
            exists_on_disk,
            "Opened "@ + path + " \u{2014} duplicate IDs were renumbered."@,
            true,
            "Opened "@ + path,
            Some("New project \u{2014} will save to "@ + path),
        )
}

/// How `reload_loaded` turns `a` into `b`: the project applied and the
/// messages settled.
pub open spec fn project_reloaded(
    a: App,
    b: App,
    tasks: Seq<TaskView>,
    next_id: u64,
    expanded: Set<u64>,
    sort_mode: SortMode,
    load_msg: Option<Seq<char>>,
) -> bool {
    exists|p: App|
        #![trigger project_applied(a, p, tasks, next_id, expanded, sort_mode)]
        project_applied(a, p, tasks, next_id, expanded, sort_mode) && load_settled(
            p,
            b,
            load_msg,
            true,
            "Reloaded from disk; duplicate IDs were renumbered."@,
            false,
            "Reloaded from disk"@,
            None,
        )
}

/// What `new_loaded` builds: a fresh state with the welcome message, the
/// project applied, and the messages settled.
pub open spec fn project_started(
    r: App,
    path: Seq<char>,
    tasks: Seq<TaskView>,
    next_id: u64,
    expanded: Set<u64>,
    sort_mode: SortMode,
    load_msg: Option<Seq<char>>,
    exists_on_disk: bool,
    on_missing: MissingFilePolicy,
) -> bool {
    exists|a: App, p: App|
        #![trigger project_applied(a, p, tasks, next_id, expanded, sort_mode)]
        project_applied(a, p, tasks, next_id, expanded, sort_mode) && a.message@
            == "Welcome to Deep Todo \u{2014} Press ? for help"@ && a.persist.data_path@ == path
            && !a.persist.dirty && load_settled(
            p,
            r,
            load_msg,
            exists_on_disk,
            "Duplicate IDs detected and renumbered in loaded data."@,
            false,
            "Opened "@ + path,
            if on_missing == MissingFilePolicy::EmptyProject {
                Some("New project \u{2014} will save to "@ + path)
            } else {
                None
            },
        )
}

/// Whether the loaded ids leave room for the id after the largest and, when
/// some id repeats, for the fresh ids that renumbering hands out from there.
pub open spec fn ids_fit(tasks: Seq<TaskView>) -> bool {
    &&& forest_max_id(tasks) < u64::MAX
    &&& !forest_pre(tasks).no_duplicates() ==> renum_list(
        tasks,
        Set::empty(),
        forest_max_id(tasks) + 1,
    ).2 <= u64::MAX
}

impl App {
    /// Installs a loaded project (see `project_applied`).
    pub fn apply_loaded_project(&mut self, project: LoadedProject)
        ensures
            project_applied(
                *old(self),
                *final(self),
                forest_view(project.tasks@),
                project.next_id,
                project.expanded@.to_set(),
                project.sort_mode,
            ),
            final(self).forest() == forest_view(project.tasks@),
            final(self).persist == old(self).persist,
    {
        let ghost a = *self;
        let ghost pv = forest_view(project.tasks@);
        let ghost pe = project.expanded@.to_set();
        self.tasks = project.tasks;
        self.next_id = project.next_id;
        self.tree.expanded = id_set(&project.expanded);
        self.sort_mode = project.sort_mode;
        self.tree.pending_delete_path = None;
        self.tree.focus_path = None;
        self.tree.selected_path = if self.tasks.len() == 0 {
            Vec::new()
        } else {
            single(0)
        };
        self.undo_stack = Vec::new();
        self.edit = None;
        self.mode = Mode::Normal;
        self.filter = FilterState::new();
        self.search_buf = String::new();
        self.command_buf = String::new();
        self.prune_expanded();
        let ghost m = *self;
        proof {
            if pv.len() == 0 {
                assert(m.sel() =~= Seq::<usize>::empty());
            }
        }
        self.rebuild_visible();
        proof {
            let d = choose|d: int| rebuild_rel(m, *self, d);
            assert(project_installed(a, m, pv, project.next_id, pe, project.sort_mode) && rebuild_rel(
                m,
                *self,
                d,
            ));
        }
    }

    /// The state for a freshly loaded project at `data_path` (the
    /// `MissingFilePolicy`, whether the file exists, and the load's message
    /// decide the first message; see `load_settled`).
    pub fn new_loaded(
        data_path: String,
        tasks: Vec<Task>,
        next_id: u64,
        expanded: HashSet<u64>,
        sort_mode: SortMode,
        load_msg: Option<String>,
        exists_on_disk: bool,
        on_missing: MissingFilePolicy,
    ) -> (r: App)
        requires
            ids_fit(forest_view(tasks@)),
        ensures
            r.persist.data_path@ == data_path@,
            project_started(
                r,
                data_path@,
                forest_view(tasks@),
                next_id,
                expanded@,
                sort_mode,
                match load_msg {
                    Some(m) => Some(m@),
                    None => None,
                },
                exists_on_disk,
                on_missing,
            ),
    {
        let ghost tv = forest_view(tasks@);
        let mut app = App {
            tasks: Vec::new(),
            tree: TreeViewState {
                selected_path: Vec::new(),
                visible: Vec::new(),
                visible_state: ListView::new(),
                expanded: HashSet::new(),
                pending_delete_path: None,
                focus_path: None,
                tree_rect: Rect::empty(),
                last_click: None,
            },
            persist: PersistState {
                data_path,
                dirty: false,
                last_change: None,
                last_saved: None,
                last_save_failed: None,
            },
            filter: FilterState::new(),
            sort_mode,
            total_tasks: 0,
            done_tasks: 0,
            mode: Mode::Normal,
            search_buf: String::new(),
            command_buf: String::new(),
            edit: None,
            message: "Welcome to Deep Todo \u{2014} Press ? for help".to_owned(),
            undo_stack: Vec::new(),
            next_id,
        };
        let ghost a = app;
        let opened = concat("Opened ", app.persist.data_path.as_str());
        let exp_list = super::access::ids_to_vec(&expanded);
        let project = LoadedProject { tasks, next_id, expanded: exp_list, sort_mode };
        app.apply_loaded_project(project);
        let ghost p = app;
        app.settle_after_load(
            load_msg,
            exists_on_disk,
            "Duplicate IDs detected and renumbered in loaded data.".to_owned(),
            false,
            opened,
            on_missing == MissingFilePolicy::EmptyProject,
        );
        app
    }

    /// Settles the message and the saved state after a load (see `load_settled`).
    fn settle_after_load(
        &mut self,
        load_msg: Option<String>,
        exists_on_disk: bool,
        dup_msg: String,
        dup_dirty: bool,
        open_msg: String,
        announce_new: bool,
    )
        requires
            ids_fit(old(self).forest()),
        ensures
            load_settled(
                *old(self),
                *final(self),
                match load_msg {
                    Some(m) => Some(m@),
                    None => None,
                },
                exists_on_disk,
                dup_msg@,
                dup_dirty,
                open_msg@,
                if announce_new {
                    Some("New project \u{2014} will save to "@ + old(self).persist.data_path@)
                } else {
                    None
                },
            ),
    {
        let ghost p = *self;
        let path = self.persist.data_path.clone();
        if self.sanitize_duplicate_ids() {
            let ghost q = *self;
            self.message = dup_msg;
            if dup_dirty {
                self.mark_dirty();
            }
            assert(sanitized(p, q));
            return;
        }
        let ghost q = *self;
        match load_msg {
            Some(msg) => {
                self.message = msg;
                self.mark_dirty();
            },
            None => {
                if exists_on_disk {
                    self.persist.dirty = false;
                    self.persist.last_saved = Some(instant_now());
                    self.message = open_msg;
                } else if announce_new {
                    self.message = concat("New project \u{2014} will save to ", path.as_str());
                    self.mark_dirty();
                }
            },
        }
        assert(sanitized(p, q));
    }

    /// Refuses to open another project over unsaved changes unless `force`;
    /// `true` when refused (the message then says how to insist).
    pub fn open_refused(&mut self, path: &str, force: bool) -> (r: bool)
        ensures
            r == (old(self).persist.dirty && !force),
            r ==> with_message(*old(self), *final(self), "Unsaved changes \u{2014} type :open "@ + path@ + " confirm"@),
            !r ==> unchanged(*old(self), *final(self)),
    {
        if self.persist.dirty && !force {
            self.message = concat3("Unsaved changes \u{2014} type :open ", path, " confirm");
            return true;
        }
        false
    }

    /// Switches to the project loaded from `path` (see `load_settled`).
    pub fn open_loaded(
        &mut self,
        path: String,
        project: LoadedProject,
        load_msg: Option<String>,
        exists_on_disk: bool,
    )
        requires
            ids_fit(forest_view(project.tasks@)),
        ensures
            project_opened(
                *old(self),
                *final(self),
                path@,
                forest_view(project.tasks@),
                project.next_id,
                project.expanded@.to_set(),
                project.sort_mode,
                match load_msg {
                    Some(m) => Some(m@),
                    None => None,
                },
                exists_on_disk,
            ),
    {
        let ghost a = *self;
        let ghost pv = forest_view(project.tasks@);
        let ghost pn = project.next_id;
        let ghost pe = project.expanded@.to_set();
        let ghost ps = project.sort_mode;
        let dup_msg = concat3("Opened ", path.as_str(), " \u{2014} duplicate IDs were renumbered.");
        self.persist.data_path = path;
        let ghost a1 = *self;
        self.apply_loaded_project(project);
        let ghost p = *self;
        let opened = concat("Opened ", self.persist.data_path.as_str());
        self.settle_after_load(load_msg, exists_on_disk, dup_msg, true, opened, true);
        assert(path_set(a, a1, a1.persist.data_path@) && project_applied(a1, p, pv, pn, pe, ps));
    }

    /// Replaces the project with the one reloaded from disk (see `load_settled`).
    pub fn reload_loaded(&mut self, project: LoadedProject, load_msg: Option<String>)
        requires
            ids_fit(forest_view(project.tasks@)),
        ensures
            project_reloaded(
                *old(self),
                *final(self),
                forest_view(project.tasks@),
                project.next_id,
                project.expanded@.to_set(),
                project.sort_mode,
                match load_msg {
                    Some(m) => Some(m@),
                    None => None,
                },
            ),
    {
        self.apply_loaded_project(project);
        self.settle_after_load(
            load_msg,
            true,
            "Reloaded from disk; duplicate IDs were renumbered.".to_owned(),
            false,
            "Reloaded from disk".to_owned(),
            false,
        );
    }
}

} // verus!
