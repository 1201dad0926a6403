use std::collections::HashSet;

use rust_tui::app::commands::Effect;

use rust_tui::app::session::{
    load_step, LoadAction, LoadStage, autosave_due, missing_file_project, restored_from_backup_message, unreadable_message,
};
use rust_tui::app::state::{
    App, FilterState, ListView, Mode, PersistState, Rect, TreeViewState,
};
use rust_tui::date::Date;
use rust_tui::keys::{press_key, KeyCode, KeyModifiers};
use rust_tui::model::{Priority, Status, Task};
use rust_tui::persist::{
    expand_with_home, project_from_tdl, sidecar_path, MissingFilePolicy, TDL_VERSION,
};
use rust_tui::sort::SortMode;
use rust_tui::ui_text::{truncate_chars, truncate_to_width};

fn app_with(tasks: Vec<Task>) -> App {
    App {
        tasks,
        tree: TreeViewState {
            selected_path: vec![0],
            visible: vec![],
            visible_state: ListView::new(),
            expanded: HashSet::new(),
            pending_delete_path: None,
            focus_path: None,
            tree_rect: Rect::empty(),
            last_click: None,
        },
        persist: PersistState {
            data_path: "/tmp/law_test.tdl".to_string(),
            dirty: false,
            last_change: None,
            last_saved: None,
            last_save_failed: None,
        },
        filter: FilterState::new(),
        sort_mode: SortMode::Manual,
        total_tasks: 0,
        done_tasks: 0,
        mode: Mode::Normal,
        search_buf: String::new(),
        command_buf: String::new(),
        edit: None,
        message: String::new(),
        undo_stack: vec![],
        next_id: 100,
    }
}

fn three_tasks() -> Vec<Task> {
    let mut parent = Task::new(1, "one");
    parent.children.push(Task::new(4, "child a"));
    parent.children.push(Task::new(5, "child b"));
    vec![parent, Task::new(2, "two"), Task::new(3, "three")]
}

fn titles(tasks: &[Task]) -> Vec<String> {
    tasks.iter().map(|t| t.title.clone()).collect()
}

fn pre_order_ids(tasks: &[Task], out: &mut Vec<u64>) {
    for t in tasks {
        out.push(t.id);
        pre_order_ids(&t.children, out);
    }
}

fn key(c: char) -> rust_tui::keys::KeyEvent {
    press_key(KeyCode::Char(c), KeyModifiers::none())
}

#[test]
fn undo_after_add_restores_tree() {
    let mut app = app_with(three_tasks());
    app.rebuild_visible();
    let before = titles(&app.tasks);
    app.add_task(false);
    assert_eq!(app.tasks.len(), 4);
    assert_eq!(app.next_id, 101);
    app.undo();
    assert_eq!(titles(&app.tasks), before);
    assert_eq!(app.next_id, 100);
    assert_eq!(app.message, "Undid last change");
    assert!(app.persist.dirty);
}

#[test]
fn undo_after_delete_restores_task() {
    let mut app = app_with(three_tasks());
    app.rebuild_visible();
    app.tree.selected_path = vec![1];
    app.delete_current();
    assert_eq!(titles(&app.tasks), vec!["one", "three"]);
    app.undo();
    assert_eq!(titles(&app.tasks), vec!["one", "two", "three"]);
}

#[test]
fn undo_after_priority_change_restores_it() {
    let mut app = app_with(three_tasks());
    app.rebuild_visible();
    app.cycle_priority();
    assert_eq!(app.tasks[0].priority, Priority::High);
    app.undo();
    assert_eq!(app.tasks[0].priority, Priority::Medium);
}

#[test]
fn undo_with_empty_stack_says_so() {
    let mut app = app_with(three_tasks());
    app.undo();
    assert_eq!(app.message, "Nothing to undo");
    assert_eq!(titles(&app.tasks), vec!["one", "two", "three"]);
}

#[test]
fn undo_stack_never_exceeds_twelve() {
    let mut app = app_with(three_tasks());
    app.rebuild_visible();
    for _ in 0..20 {
        app.cycle_priority();
    }
    assert_eq!(app.undo_stack.len(), 12);
}

#[test]
fn delete_needs_two_presses() {
    let mut app = app_with(three_tasks());
    app.rebuild_visible();
    app.tree.selected_path = vec![2];
    app.rebuild_visible();
    app.handle_key(key('d'));
    assert_eq!(app.tasks.len(), 3);
    assert_eq!(app.tree.pending_delete_path, Some(vec![2]));
    assert_eq!(app.message, "Press 'd' again to confirm delete #3: three");
    app.handle_key(key('d'));
    assert_eq!(titles(&app.tasks), vec!["one", "two"]);
    assert_eq!(app.tree.pending_delete_path, None);
    assert_eq!(app.message, "Deleted task");
}

#[test]
fn move_down_then_up_restores_order() {
    let mut app = app_with(three_tasks());
    app.rebuild_visible();
    app.move_task(1);
    assert_eq!(titles(&app.tasks), vec!["two", "one", "three"]);
    app.move_task(-1);
    assert_eq!(titles(&app.tasks), vec!["one", "two", "three"]);
}

#[test]
fn toggle_done_twice_restores_status() {
    let mut app = app_with(three_tasks());
    app.rebuild_visible();
    app.toggle_done();
    assert_eq!(app.tasks[0].status, Status::Done);
    app.toggle_done();
    assert_eq!(app.tasks[0].status, Status::Todo);
}

#[test]
fn priority_status_and_sort_cycles() {
    for p in [Priority::Low, Priority::Medium, Priority::High] {
        assert_eq!(p.cycle().cycle().cycle(), p);
        assert_eq!(p.cycle().cycle_back(), p);
    }
    assert_eq!(Priority::Low.cycle(), Priority::Medium);
    for s in [Status::Todo, Status::Doing, Status::Done, Status::Blocked] {
        assert_eq!(s.cycle().cycle().cycle().cycle(), s);
        assert_eq!(s.cycle().cycle_back(), s);
    }
    assert_eq!(Status::Done.cycle(), Status::Blocked);
    assert_eq!(Status::Blocked.cycle(), Status::Todo);
    assert_eq!(Status::Todo.cycle_back(), Status::Blocked);
    let m = SortMode::Manual;
    assert_eq!(m.next().next().next().next(), m);
    assert_eq!(m.next(), SortMode::Priority);
    assert_eq!(SortMode::DueDate.label(), "Due date");
}

#[test]
fn expand_toggle_twice_restores_expanded() {
    let mut app = app_with(three_tasks());
    app.rebuild_visible();
    app.toggle_expanded();
    assert!(app.tree.expanded.contains(&1));
    assert_eq!(app.message, "Toggled expand");
    app.toggle_expanded();
    assert!(app.tree.expanded.is_empty());
}

#[test]
fn sort_cycle_is_view_only() {
    let mut app = app_with(three_tasks());
    app.tasks[2].priority = Priority::High;
    app.rebuild_visible();
    app.handle_key(key('s'));
    assert_eq!(app.sort_mode, SortMode::Priority);
    assert_eq!(app.message, "Sort mode: Priority");
    assert_eq!(titles(&app.tasks), vec!["one", "two", "three"]);
    assert!(app.persist.dirty);
}

#[test]
fn sanitize_leaves_unique_ids() {
    let mut parent = Task::new(7, "a");
    parent.children.push(Task::new(7, "b"));
    parent.children.push(Task::new(3, "c"));
    let mut app = app_with(vec![parent, Task::new(3, "d"), Task::new(9, "e")]);
    assert!(app.sanitize_duplicate_ids());
    let mut ids = vec![];
    pre_order_ids(&app.tasks, &mut ids);
    assert_eq!(ids, vec![7, 10, 3, 11, 9]);
    let unique: HashSet<u64> = ids.iter().copied().collect();
    assert_eq!(unique.len(), ids.len());
    assert_eq!(app.next_id, 12);
    assert!(app.persist.dirty);
    assert!(!app.sanitize_duplicate_ids());
}

#[test]
fn duplicate_numbers_copy_from_next_id() {
    let mut app = app_with(three_tasks());
    app.rebuild_visible();
    app.duplicate_current();
    let mut ids = vec![];
    pre_order_ids(&app.tasks[1..2], &mut ids);
    assert_eq!(ids, vec![100, 101, 102]);
    assert_eq!(app.tasks[1].title, "one");
    assert_eq!(app.next_id, 103);
    assert_eq!(app.tree.selected_path, vec![1]);
    assert_eq!(app.message, "Duplicated task as #100");
}

#[test]
fn sidecar_paths_append_the_extension() {
    assert_eq!(sidecar_path("/data/default.tdl", "bak"), "/data/default.tdl.bak");
    assert_eq!(sidecar_path("/data/noext", "tmp"), "/data/noext.tmp");
    assert_eq!(sidecar_path("/data/a.b.tdl", "corrupt"), "/data/a.b.tdl.corrupt");
}

#[test]
fn home_expansion() {
    let home = Some("/home/u".to_string());
    assert_eq!(expand_with_home("~/x.tdl", home.clone()), "/home/u/x.tdl");
    assert_eq!(expand_with_home("  ~  ", home.clone()), "/home/u");
    assert_eq!(expand_with_home(" plain.tdl ", home), "plain.tdl");
    assert_eq!(expand_with_home("~/x.tdl", None), "~/x.tdl");
}

#[test]
fn dates_print_and_validate() {
    let d = Date::from_ymd(2026, 6, 20).expect("valid date");
    assert_eq!(d.text(), "2026-06-20");
    assert!(Date::from_ymd(2026, 2, 30).is_none());
    let e = Date::from_ymd(2026, 6, 21).expect("valid date");
    assert!(d.before(&e));
    assert!(!e.before(&d));
    assert_eq!(e.days() - d.days(), 1);
}

#[test]
fn load_messages() {
    assert_eq!(
        restored_from_backup_message("/p.tdl"),
        "Main save at /p.tdl was corrupt; restored from backup."
    );
    assert_eq!(
        unreadable_message("/p.tdl", "/p.corrupt"),
        "Could not load /p.tdl \u{2014} original preserved at /p.corrupt. Starting fresh."
    );
}

#[test]
fn save_outcomes() {
    let mut app = app_with(three_tasks());
    assert!(app.save_not_needed(true));
    assert_eq!(app.message, "Already saved");
    app.mark_dirty();
    assert!(!app.save_not_needed(true));
    app.save_failed("Save failed (rename error)");
    assert_eq!(app.message, "Save failed (rename error)");
    assert!(app.persist.last_save_failed.is_some());
    app.save_succeeded(true);
    assert_eq!(app.message, "Saved \u{2713}  (/tmp/law_test.tdl)");
    assert!(!app.persist.dirty);
    assert!(app.persist.last_save_failed.is_none());
}

#[test]
fn autosave_timing() {
    assert!(!autosave_due(false, None, Some(5000)));
    assert!(!autosave_due(true, None, Some(1999)));
    assert!(autosave_due(true, None, Some(2000)));
    assert!(!autosave_due(true, Some(29_999), Some(5000)));
    assert!(autosave_due(true, Some(30_000), Some(5000)));
    assert!(!autosave_due(true, None, None));
}

#[test]
fn messages_expire_except_welcome() {
    let mut app = app_with(three_tasks());
    app.message = "Saved".to_string();
    app.expire_message(7999);
    assert_eq!(app.message, "Saved");
    app.expire_message(8000);
    assert_eq!(app.message, "");
    app.message = "Welcome to Deep Todo \u{2014} Press ? for help".to_string();
    app.expire_message(100_000);
    assert!(app.message.starts_with("Welcome"));
}

#[test]
fn truncation_to_width() {
    assert_eq!(truncate_to_width("hello world", 5), "hell\u{2026}");
    assert_eq!(truncate_to_width("hello", 5), "hello");
    assert_eq!(truncate_to_width("hello", 0), "");
    assert_eq!(truncate_to_width("hello", 1), "\u{2026}");
    assert_eq!(truncate_chars("héllo wörld", 4), "hél\u{2026}");
}

#[test]
fn tdl_versions_and_next_id() {
    let tasks = || vec![Task::new(5, "a")];
    assert!(project_from_tdl(TDL_VERSION + 1, tasks(), vec![], None, None).is_none());
    let p = project_from_tdl(TDL_VERSION, tasks(), vec![5], Some(3), None).unwrap();
    assert_eq!(p.next_id, 6);
    assert_eq!(p.sort_mode, SortMode::Manual);
    let q = project_from_tdl(1, tasks(), vec![], Some(40), Some(SortMode::Title)).unwrap();
    assert_eq!(q.next_id, 40);
    assert_eq!(q.sort_mode, SortMode::Title);
}

#[test]
fn missing_file_policies() {
    let (tasks, next_id, expanded, mode) = missing_file_project(MissingFilePolicy::SampleData);
    assert_eq!(tasks.len(), 3);
    assert_eq!(next_id, 12);
    assert_eq!(expanded, [1u64, 4u64].into_iter().collect::<HashSet<u64>>());
    assert_eq!(mode, SortMode::Manual);
    let (tasks, next_id, expanded, _) = missing_file_project(MissingFilePolicy::EmptyProject);
    assert!(tasks.is_empty());
    assert_eq!(next_id, 1);
    assert!(expanded.is_empty());
}

#[test]
fn search_is_case_insensitive() {
    let mut app = app_with(three_tasks());
    app.rebuild_visible();
    app.start_search();
    for c in "TWO".chars() {
        app.handle_key(key(c));
    }
    assert_eq!(app.search_buf, "TWO");
    assert_eq!(app.tree.visible.len(), 1);
    assert_eq!(app.tree.visible[0].path, vec![1]);
    assert_eq!(app.tree.selected_path, vec![0]);
}

#[test]
fn rows_show_only_what_filters_let_through() {
    let mut tasks = three_tasks();
    tasks[1].status = Status::Done;
    tasks[0].children[0].status = Status::Done;
    let mut app = app_with(tasks);
    app.tree.expanded.insert(1);
    app.filter.hide_done = true;
    app.rebuild_visible();
    assert_eq!(app.tree.visible.len(), 3);
    for row in &app.tree.visible {
        let t = app.task_at(&row.path).expect("row leads to a task");
        assert_ne!(t.status, Status::Done);
    }
}

#[test]
fn loaded_next_id_is_fresh() {
    let mut parent = Task::new(40, "a");
    parent.children.push(Task::new(41, "b"));
    let p = rust_tui::persist::project_from_legacy(vec![parent], vec![]);
    assert_eq!(p.next_id, 42);
    let q = project_from_tdl(TDL_VERSION, vec![Task::new(3, "c")], vec![], Some(9), None).unwrap();
    assert_eq!(q.next_id, 9);
}

fn assert_unique_ids(app: &App) {
    let mut ids = vec![];
    pre_order_ids(&app.tasks, &mut ids);
    let unique: HashSet<u64> = ids.iter().copied().collect();
    assert_eq!(unique.len(), ids.len(), "ids {:?}", ids);
}

#[test]
fn tree_edits_keep_ids_unique() {
    let mut app = app_with(three_tasks());
    app.rebuild_visible();
    app.add_task(true);
    app.cancel_edit();
    assert_unique_ids(&app);
    app.tree.selected_path = vec![0];
    app.rebuild_visible();
    app.duplicate_current();
    assert_unique_ids(&app);
    app.tree.selected_path = vec![2];
    app.rebuild_visible();
    app.indent();
    assert_unique_ids(&app);
    app.outdent();
    assert_unique_ids(&app);
    app.move_task(1);
    assert_unique_ids(&app);
    app.delete_current();
    assert_unique_ids(&app);
    let mut count = 0;
    let mut ids = vec![];
    pre_order_ids(&app.tasks, &mut ids);
    for id in ids {
        assert!(id < app.next_id);
        count += 1;
    }
    assert!(count > 5);
}

fn run(app: &mut App, cmd: &str) -> Effect {
    app.command_buf = cmd.to_string();
    app.execute_command()
}

#[test]
fn file_commands_leave_file_work_with_exact_paths() {
    let mut app = app_with(three_tasks());
    app.rebuild_visible();
    match run(&mut app, "save-as /tmp/RustTUI_CaseTest.tdl") {
        Effect::SaveAs(p) => assert_eq!(p, "/tmp/RustTUI_CaseTest.tdl"),
        _ => panic!("expected a save-as"),
    }
    match run(&mut app, "open /tmp/Other Project.tdl") {
        Effect::Open(p, force) => {
            assert_eq!(p, "/tmp/Other Project.tdl");
            assert!(!force);
        }
        _ => panic!("expected an open"),
    }
    match run(&mut app, "OPEN /tmp/b.tdl CONFIRM") {
        Effect::Open(p, force) => {
            assert_eq!(p, "/tmp/b.tdl");
            assert!(force);
        }
        _ => panic!("expected an open"),
    }
    assert!(matches!(run(&mut app, "open"), Effect::Nothing));
    assert!(app.message.starts_with("Usage: :open"));
    assert!(matches!(run(&mut app, "reload"), Effect::Nothing));
    assert!(matches!(run(&mut app, "reload confirm"), Effect::Reload));
}

#[test]
fn open_over_unsaved_changes_is_refused() {
    let mut app = app_with(three_tasks());
    app.mark_dirty();
    assert!(app.open_refused("/tmp/a.tdl", false));
    assert_eq!(app.message, "Unsaved changes — type :open /tmp/a.tdl confirm");
    assert!(!app.open_refused("/tmp/a.tdl", true));
    app.save_succeeded(false);
    assert!(!app.open_refused("/tmp/a.tdl", false));
}

#[test]
fn failed_save_keeps_changes_unsaved() {
    let mut app = app_with(three_tasks());
    app.mark_dirty();
    let prev = app.begin_save_as("/tmp/elsewhere.tdl".to_string());
    assert_eq!(prev, "/tmp/law_test.tdl");
    assert_eq!(app.persist.data_path, "/tmp/elsewhere.tdl");
    app.save_failed("Save failed (could not create data directory)");
    app.revert_save_as(prev);
    assert_eq!(app.persist.data_path, "/tmp/law_test.tdl");
    assert!(app.persist.dirty);
    assert_eq!(app.message, "Save failed (could not create data directory)");
}

#[test]
fn undo_after_duplicate_removes_copy() {
    let mut app = app_with(three_tasks());
    app.rebuild_visible();
    app.duplicate_current();
    assert_eq!(app.tasks.len(), 4);
    app.undo();
    assert_eq!(titles(&app.tasks), vec!["one", "two", "three"]);
    assert_eq!(app.next_id, 100);
}

#[test]
fn undo_after_form_save_restores_task() {
    let mut app = app_with(three_tasks());
    app.rebuild_visible();
    app.start_edit();
    app.edit.as_mut().expect("edit form").title_buf = "renamed".to_string();
    app.apply_edit();
    assert_eq!(app.tasks[0].title, "renamed");
    assert_eq!(app.message, "Task updated");
    app.undo();
    assert_eq!(app.tasks[0].title, "one");
}

#[test]
fn edit_form_status_right_then_left_round_trips() {
    let mut app = app_with(three_tasks());
    app.rebuild_visible();
    app.tasks[0].status = Status::Done;
    app.start_edit();
    app.edit.as_mut().expect("edit form").current_field = 3;
    app.handle_key(press_key(KeyCode::Right, KeyModifiers::none()));
    assert_eq!(app.edit.as_ref().unwrap().working.status, Status::Blocked);
    app.handle_key(press_key(KeyCode::Left, KeyModifiers::none()));
    assert_eq!(app.edit.as_ref().unwrap().working.status, Status::Done);
}

#[test]
fn rebuild_recounts_and_keeps_filtered_selection() {
    let mut root = Task::new(1, "visible");
    let mut hidden = Task::new(2, "hidden done");
    hidden.status = Status::Done;
    root.children.push(hidden);
    let mut app = app_with(vec![root]);
    app.tree.selected_path = vec![0, 0];
    app.filter.hide_done = true;
    app.rebuild_visible();
    assert_eq!(app.total_tasks, 2);
    assert_eq!(app.done_tasks, 1);
    assert_eq!(app.tree.selected_path, vec![0, 0]);
    assert!(app.tree.visible_state.selected().is_none());
}

#[test]
fn description_cursor_counts_bytes() {
    let mut app = app_with(three_tasks());
    app.rebuild_visible();
    app.start_edit();
    {
        let ed = app.edit.as_mut().expect("edit form");
        ed.current_field = 1;
        ed.desc_lines = vec!["é".to_string()];
        ed.desc_row = 0;
        ed.desc_col = 0;
    }
    app.handle_key(press_key(KeyCode::End, KeyModifiers::none()));
    assert_eq!(app.edit.as_ref().unwrap().desc_col, 2);
    app.handle_key(press_key(KeyCode::Char('x'), KeyModifiers::none()));
    assert_eq!(app.edit.as_ref().unwrap().desc_lines[0], "éx");
    assert_eq!(app.edit.as_ref().unwrap().desc_col, 3);
    app.handle_key(press_key(KeyCode::Backspace, KeyModifiers::none()));
    assert_eq!(app.edit.as_ref().unwrap().desc_lines[0], "é");
    assert_eq!(app.edit.as_ref().unwrap().desc_col, 2);
    app.handle_key(press_key(KeyCode::Home, KeyModifiers::none()));
    app.handle_key(press_key(KeyCode::Delete, KeyModifiers::none()));
    assert_eq!(app.edit.as_ref().unwrap().desc_lines[0], "");
    assert_eq!(app.edit.as_ref().unwrap().desc_col, 0);
}

#[test]
fn outdent_undoes_indent() {
    let mut app = app_with(three_tasks());
    app.tree.expanded.insert(1);
    app.rebuild_visible();
    app.tree.selected_path = vec![1];
    app.indent();
    assert_eq!(titles(&app.tasks), vec!["one", "three"]);
    assert_eq!(app.tree.selected_path, vec![0, 2]);
    app.outdent();
    assert_eq!(titles(&app.tasks), vec!["one", "two", "three"]);
    assert_eq!(titles(&app.tasks[0].children), vec!["child a", "child b"]);
    assert_eq!(app.tree.selected_path, vec![1]);
}

#[test]
fn undo_after_push_restores_pushed_state() {
    let mut app = app_with(three_tasks());
    app.rebuild_visible();
    app.push_undo();
    assert_eq!(app.undo_stack.len(), 1);
    app.tasks.push(Task::new(9, "extra"));
    app.next_id = 200;
    app.mode = Mode::Editing;
    app.undo();
    assert_eq!(titles(&app.tasks), vec!["one", "two", "three"]);
    assert_eq!(app.next_id, 100);
    assert_eq!(app.undo_stack.len(), 0);
    assert_eq!(app.mode, Mode::Normal);
    assert!(app.edit.is_none());
    assert!(app.tree.pending_delete_path.is_none());
    assert!(app.persist.dirty);
    assert_eq!(app.message, "Undid last change");
}

#[test]
fn push_undo_twice_keeps_one_snapshot() {
    let mut app = app_with(three_tasks());
    app.rebuild_visible();
    app.push_undo();
    app.push_undo();
    assert_eq!(app.undo_stack.len(), 1);
    assert!(app.undo_stack[0].estimated_bytes > 0);
}

#[test]
fn relative_counts_agree() {
    let today = Date::from_ymd(2024, 3, 10).unwrap();
    let plus = rust_tui::date::parse_relative_date("+5", today).unwrap();
    let inn = rust_tui::date::parse_relative_date("in 5 days", today).unwrap();
    let minus = rust_tui::date::parse_relative_date("-5", today).unwrap();
    assert_eq!(plus, Date::from_ymd(2024, 3, 15).unwrap());
    assert_eq!(inn, plus);
    assert_eq!(minus, Date::from_ymd(2024, 3, 5).unwrap());
    assert!(rust_tui::date::parse_relative_date("+365001", today).is_none());
    assert!(rust_tui::date::parse_relative_date("in 365001 days", today).is_none());
    assert!(rust_tui::date::parse_relative_date("-365001", today).is_none());
    assert_eq!(rust_tui::date::parse_relative_date("  +5 \t", today), Some(plus));
    assert_eq!(rust_tui::date::parse_relative_date(" IN 5 DAYS ", today), Some(plus));
}

fn chain(levels: u64) -> Task {
    let mut t = Task::new(levels, "leaf");
    t.status = Status::Done;
    for id in (1..levels).rev() {
        let mut p = Task::new(id, "level");
        p.children.push(t);
        t = p;
    }
    t
}

#[test]
fn progress_counts_whole_subtree_up_to_depth_128() {
    let app = app_with(vec![]);
    assert_eq!(app.subtask_progress(&chain(129)), (1, 129));
    assert_eq!(app.subtask_progress(&chain(131)), (0, 130));
}

#[test]
fn rebuilt_rows_have_distinct_paths_and_depths() {
    let mut app = app_with(three_tasks());
    app.tree.expanded.insert(1);
    app.tree.selected_path = vec![0, 1];
    app.rebuild_visible();
    let rows = &app.tree.visible;
    assert_eq!(rows.len(), 5);
    for (i, a) in rows.iter().enumerate() {
        assert_eq!(a.depth + 1, a.path.len());
        for b in rows.iter().skip(i + 1) {
            assert_ne!(a.path, b.path);
        }
    }
    let k = app.tree.visible_state.selected().expect("a row is selected");
    assert_eq!(rows[k].path, vec![0, 1]);
}

#[test]
fn sanitize_near_the_largest_id() {
    let top = u64::MAX - 2;
    let mut app = app_with(vec![Task::new(top, "a"), Task::new(top, "b"), Task::new(5, "c")]);
    assert!(app.sanitize_duplicate_ids());
    let mut ids = vec![];
    pre_order_ids(&app.tasks, &mut ids);
    assert_eq!(ids, vec![top, top + 1, 5]);
    assert_eq!(app.next_id, u64::MAX);
    let mut clean = app_with(vec![Task::new(u64::MAX - 1, "a")]);
    assert!(!clean.sanitize_duplicate_ids());
    assert_eq!(clean.next_id, u64::MAX);
}

#[test]
fn load_steps_fall_back_to_backup_then_keep_corrupt() {
    let path = "/d/p.tdl";
    assert!(matches!(load_step(path, LoadStage::Start, true), LoadAction::ReadMain));
    assert!(matches!(load_step(path, LoadStage::Start, false), LoadAction::UseMissingPolicy));
    assert!(matches!(load_step(path, LoadStage::MainRead, true), LoadAction::UseMain));
    match load_step(path, LoadStage::MainRead, false) {
        LoadAction::ReadBackup(b) => assert_eq!(b, "/d/p.tdl.bak"),
        _ => panic!("expected the backup to be read"),
    }
    match load_step(path, LoadStage::BackupRead, true) {
        LoadAction::UseBackup(m) => {
            assert_eq!(m, "Main save at /d/p.tdl was corrupt; restored from backup.")
        }
        _ => panic!("expected the backup to be used"),
    }
    match load_step(path, LoadStage::BackupRead, false) {
        LoadAction::KeepCorrupt(c, m) => {
            assert_eq!(c, "/d/p.tdl.corrupt");
            assert_eq!(
                m,
                "Could not load /d/p.tdl \u{2014} original preserved at /d/p.tdl.corrupt. Starting fresh."
            );
        }
        _ => panic!("expected the file to be kept as corrupt"),
    }
}
