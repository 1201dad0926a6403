use std::collections::HashSet;

use rust_tui::app::commands::Effect;
use rust_tui::app::state::{
    App, FilterState, ListView, Mode, PersistState, Rect, TreeViewState,
};
use rust_tui::date::Date;
use rust_tui::forest::{count_all, count_done};
use rust_tui::keys::{press_key, KeyCode, KeyModifiers};
use rust_tui::model::{Priority, Status, Task};
use rust_tui::persist::{project_from_legacy, MissingFilePolicy};
use rust_tui::sort::SortMode;

fn make_test_app_at(tasks: Vec<Task>, data_path: &str) -> App {
    App {
        tasks,
        tree: TreeViewState {
            selected_path: vec![],
            visible: vec![],
            visible_state: ListView::new(),
            expanded: HashSet::new(),
            pending_delete_path: None,
            focus_path: None,
            tree_rect: Rect::empty(),
            last_click: None,
        },
        persist: PersistState {
            data_path: data_path.to_string(),
            dirty: false,
            last_change: None,
            last_saved: None,
            last_save_failed: None,
        },
        filter: FilterState::new(),
        sort_mode: SortMode::Manual,
        mode: Mode::Normal,
        search_buf: String::new(),
        command_buf: String::new(),
        edit: None,
        message: String::new(),
        undo_stack: vec![],
        next_id: 100,
        total_tasks: 0,
        done_tasks: 0,
    }
}

fn make_test_app(tasks: Vec<Task>) -> App {
    make_test_app_at(tasks, "/tmp/rust_tui_unit_test.tdl")
}

fn edit_desc_field(app: &mut App) {
    app.tree.selected_path = vec![0];
    app.start_edit();
    let ed = app.edit.as_mut().expect("expected edit state");
    ed.current_field = 1;
    ed.desc_lines = vec!["hello world".to_string()];
    ed.desc_row = 0;
    ed.desc_col = 6;
}

fn run_command(app: &mut App, cmd: &str) -> Effect {
    app.command_buf = cmd.to_string();
    app.execute_command()
}

#[test]
fn test_subtask_progress_simple() {
    let mut root = Task::new(1, "root");
    root.status = Status::Todo;
    let mut child1 = Task::new(2, "child1");
    child1.status = Status::Done;
    let mut child2 = Task::new(3, "child2");
    child2.status = Status::Todo;
    root.children.push(child1);
    root.children.push(child2);

    let app = make_test_app(vec![root]);
    let (done, total) = app.subtask_progress(&app.tasks[0]);
    assert_eq!(done, 1);
    assert_eq!(total, 3);
}

#[test]
fn test_find_path_by_id() {
    let mut root = Task::new(10, "root");
    let mut child = Task::new(20, "child");
    let grandchild = Task::new(30, "grand");
    child.children.push(grandchild);
    root.children.push(child);

    let app = make_test_app(vec![root]);

    assert_eq!(app.find_path_by_id(10), Some(vec![0]));
    assert_eq!(app.find_path_by_id(20), Some(vec![0, 0]));
    assert_eq!(app.find_path_by_id(30), Some(vec![0, 0, 0]));
    assert_eq!(app.find_path_by_id(999), None);
}

#[test]
fn test_jump_by_numeric_id() {
    let mut root = Task::new(100, "root");
    let child = Task::new(200, "child");
    root.children.push(child);
    let mut app = make_test_app(vec![root]);

    run_command(&mut app, "200");
    assert_eq!(app.tree.selected_path, vec![0, 0]);
}

#[test]
fn test_id_command_done_and_delete() {
    let mut root = Task::new(100, "root");
    let child = Task::new(200, "child");
    root.children.push(child);
    let mut app = make_test_app(vec![root]);

    run_command(&mut app, "done 200");
    assert_eq!(app.tasks[0].children[0].status, Status::Done);

    run_command(&mut app, "delete 200");
    assert!(app.tasks[0].children.is_empty());
    assert!(app.message.contains("Deleted"));
}

#[test]
fn test_id_command_toggle_and_priority() {
    let mut root = Task::new(300, "r2");
    let child = Task::new(400, "c2");
    root.children.push(child);
    let mut app = make_test_app(vec![root]);

    run_command(&mut app, "toggle 400");
    assert_eq!(app.tasks[0].children[0].status, Status::Doing);

    run_command(&mut app, "priority 400 high");
    assert_eq!(app.tasks[0].children[0].priority, Priority::High);
}

#[test]
fn test_help_and_stats_commands() {
    let mut app = make_test_app(vec![Task::new(400, "c2")]);

    run_command(&mut app, "help");
    assert!(app.message.contains("Cmds:") && app.message.contains("ID actions"));

    run_command(&mut app, "stats");
    assert!(app.message.contains("Stats:") && app.message.contains("total"));
}

#[test]
fn test_jump_select_aliases() {
    let mut root = Task::new(300, "r2");
    let child = Task::new(400, "c2");
    root.children.push(child);
    let mut app = make_test_app(vec![root]);

    run_command(&mut app, "jump 400");
    assert_eq!(app.tree.selected_path, vec![0, 0]);

    run_command(&mut app, "select 400");
    assert_eq!(app.tree.selected_path, vec![0, 0]);
}

#[test]
fn test_export_command() {
    let mut app = make_test_app(vec![Task::new(400, "c2")]);
    let effect = run_command(&mut app, "export");
    assert!(app.message.contains("Exported markdown") && app.message.contains("Preview"));
    assert!(matches!(effect, Effect::WriteExport(_)));
}

#[test]
fn test_parent_and_up_commands() {
    let mut root = Task::new(300, "r2");
    let child = Task::new(400, "c2");
    root.children.push(child);
    let mut app = make_test_app(vec![root]);
    app.tree.selected_path = vec![0, 0];

    run_command(&mut app, "parent");
    assert_eq!(app.tree.selected_path, vec![0]);

    run_command(&mut app, "up");
    assert_eq!(app.tree.selected_path, vec![0]);
}

#[test]
fn test_go_to_parent_key_equivalent() {
    let mut root = Task::new(300, "r2");
    let child = Task::new(400, "c2");
    root.children.push(child);
    let mut app = make_test_app(vec![root]);
    app.tree.selected_path = vec![0, 0];
    app.go_to_parent();
    assert_eq!(app.tree.selected_path, vec![0]);
}

#[test]
fn test_clear_command() {
    let mut app = make_test_app(vec![Task::new(1, "t")]);
    app.filter.hide_done = true;
    run_command(&mut app, "clear");
    assert!(!app.filter.hide_done);
}

#[test]
fn test_top_and_bottom_commands() {
    let mut root = Task::new(300, "r2");
    let child = Task::new(400, "c2");
    root.children.push(child);
    let mut app = make_test_app(vec![root]);
    app.tree.expanded.insert(300);
    app.rebuild_visible();

    run_command(&mut app, "top");
    assert_eq!(app.tree.selected_path, vec![0]);

    run_command(&mut app, "bottom");
    assert_eq!(app.tree.selected_path, vec![0, 0]);
}

#[test]
fn test_duplicate_command() {
    let mut app = make_test_app(vec![Task::new(500, "original")]);
    app.tree.selected_path = vec![0];
    run_command(&mut app, "duplicate 500");
    assert_eq!(app.tasks.len(), 2);
    assert_eq!(app.tasks[1].title, "original");
    assert!(app.message.contains("Duplicated"));
}

#[test]
fn test_mark_command_status_and_priority() {
    let mut app = make_test_app(vec![Task::new(600, "task")]);
    app.tree.selected_path = vec![0];

    run_command(&mut app, "mark 600 doing");
    assert_eq!(app.tasks[0].status, Status::Doing);

    run_command(&mut app, "mark 600 high");
    assert_eq!(app.tasks[0].priority, Priority::High);
}

#[test]
fn test_duplicate_current_key() {
    let mut app = make_test_app(vec![Task::new(700, "dupme")]);
    app.tree.selected_path = vec![0];
    app.duplicate_current();
    assert_eq!(app.tasks.len(), 2);
    assert_eq!(app.tasks[1].title, "dupme");
    assert!(app.message.contains("Duplicated"));
}

#[test]
fn test_desc_editor_ctrl_shortcuts() {
    let mut app = make_test_app(vec![Task::new(1, "test")]);
    edit_desc_field(&mut app);

    app.edit_handle_key(press_key(KeyCode::Char('k'), KeyModifiers::control()));
    assert_eq!(app.edit.as_ref().unwrap().desc_lines[0], "hello ");

    edit_desc_field(&mut app);
    app.edit_handle_key(press_key(KeyCode::Char('u'), KeyModifiers::control()));
    assert_eq!(app.edit.as_ref().unwrap().desc_lines[0], "world");
    assert_eq!(app.edit.as_ref().unwrap().desc_col, 0);

    edit_desc_field(&mut app);
    app.edit_handle_key(press_key(KeyCode::Char('a'), KeyModifiers::control()));
    assert_eq!(app.edit.as_ref().unwrap().desc_col, 0);

    edit_desc_field(&mut app);
    app.edit_handle_key(press_key(KeyCode::Char('e'), KeyModifiers::control()));
    assert_eq!(app.edit.as_ref().unwrap().desc_col, 11);
}

#[test]
fn test_reload_requires_confirm() {
    let mut app = make_test_app(vec![Task::new(1, "keep me")]);
    run_command(&mut app, "reload");
    assert_eq!(app.tasks[0].title, "keep me");
    assert!(app.message.contains("reload confirm"));
}

#[test]
fn test_edit_save_shortcuts() {
    let mut app = make_test_app(vec![Task::new(1, "before")]);
    app.tree.selected_path = vec![0];
    app.start_edit();
    app.edit.as_mut().unwrap().title_buf = "via ctrl-enter".to_string();
    app.edit_handle_key(press_key(KeyCode::Enter, KeyModifiers::control()));
    assert_eq!(app.mode, Mode::Normal);
    assert_eq!(app.tasks[0].title, "via ctrl-enter");

    app.start_edit();
    app.edit.as_mut().unwrap().title_buf = "via ctrl-m".to_string();
    app.edit_handle_key(press_key(KeyCode::Char('m'), KeyModifiers::control()));
    assert_eq!(app.tasks[0].title, "via ctrl-m");

    app.start_edit();
    app.edit.as_mut().unwrap().title_buf = "via ctrl-s".to_string();
    app.edit_handle_key(press_key(KeyCode::Char('s'), KeyModifiers::control()));
    assert_eq!(app.tasks[0].title, "via ctrl-s");

    app.start_edit();
    let ed = app.edit.as_mut().unwrap();
    ed.current_field = 1;
    ed.title_buf = "desc save".to_string();
    app.edit_handle_key(press_key(KeyCode::Char('s'), KeyModifiers::control()));
    assert_eq!(app.mode, Mode::Normal);
    assert_eq!(app.tasks[0].title, "desc save");
}

#[test]
fn test_apply_edit_empty_title_prevention() {
    let mut app = make_test_app(vec![Task::new(1, "test")]);
    app.tree.selected_path = vec![0];
    app.start_edit();
    if let Some(mut ed) = app.edit.take() {
        ed.title_buf = "".to_string();
        app.edit = Some(ed);
    }
    app.apply_edit();
    assert!(app.message.contains("empty title"));
    assert!(app.edit.is_some());
}

#[test]
fn test_mark_command_blocked() {
    let mut app = make_test_app(vec![Task::new(700, "task")]);
    app.tree.selected_path = vec![0];
    run_command(&mut app, "mark 700 blocked");
    assert_eq!(app.tasks[0].status, Status::Blocked);
    assert!(app.message.contains("Marked #700 blocked"));
}

#[test]
fn test_pending_delete_cleared_on_invalid_after_rebuild() {
    let mut root = Task::new(1, "root");
    let child = Task::new(2, "child");
    root.children.push(child);
    let mut app = make_test_app(vec![root]);

    app.tree.pending_delete_path = Some(vec![0, 0]);
    app.tasks[0].children.clear();
    app.rebuild_visible();
    assert!(app.tree.pending_delete_path.is_none());
}

#[test]
fn test_breadcrumb_and_parent_nav() {
    let mut root = Task::new(1, "root");
    let mut child = Task::new(2, "child");
    let grand = Task::new(3, "grand");
    child.children.push(grand);
    root.children.push(child);
    let mut app = make_test_app(vec![root]);

    app.tree.selected_path = vec![0, 0, 0];
    assert_eq!(app.get_breadcrumb(), "#1 > #2 > #3");

    app.go_to_parent();
    assert_eq!(app.tree.selected_path, vec![0, 0]);
    assert_eq!(app.get_breadcrumb(), "#1 > #2");

    app.go_to_parent();
    assert_eq!(app.tree.selected_path, vec![0]);
    assert_eq!(app.get_breadcrumb(), "#1");
}

#[test]
fn test_sanitize_duplicate_ids() {
    let mut root = Task::new(1, "root");
    let child1 = Task::new(2, "c1");
    let child2 = Task::new(2, "c2");
    root.children.push(child1);
    root.children.push(child2);

    let mut app = make_test_app(vec![root]);
    let had_dups = app.sanitize_duplicate_ids();

    assert!(had_dups);
    assert_eq!(app.tasks[0].children[0].id, 2);
    assert_eq!(app.tasks[0].children[1].id, 3);
    assert_eq!(app.next_id, 4);
    assert!(app.persist.dirty);
}

#[test]
fn test_export_markdown() {
    let today = Date::today();
    let mut root = Task::new(1, "Root task");
    root.status = Status::Todo;
    root.priority = Priority::High;
    root.due = Some(today);
    root.tags = vec!["work".to_string()];

    let mut child = Task::new(2, "Child done");
    child.status = Status::Done;
    root.children.push(child);

    let app = make_test_app(vec![root]);
    let md = app.export_markdown();

    assert!(md.contains("- [ ] Root task **HIGH** **TODAY** #work"));
    assert!(md.contains("  - [x] Child done"));
    assert!(md.contains("Root task"));
}

#[test]
fn test_duplicate_assigns_fresh_ids_to_subtree() {
    let mut root = Task::new(1, "root");
    root.children.push(Task::new(2, "child"));
    root.children.push(Task::new(3, "child2"));
    let mut app = make_test_app(vec![root]);
    app.tree.selected_path = vec![0];
    app.next_id = 4;

    app.duplicate_current();

    assert_eq!(app.tasks.len(), 2);
    let dup = &app.tasks[1];
    assert_eq!(dup.id, 4);
    assert_eq!(dup.children[0].id, 5);
    assert_eq!(dup.children[1].id, 6);
    assert_eq!(app.next_id, 7);
}

#[test]
fn test_move_task_at_root_level() {
    let mut app = make_test_app(vec![
        Task::new(1, "first"),
        Task::new(2, "second"),
        Task::new(3, "third"),
    ]);
    app.tree.selected_path = vec![0];
    app.rebuild_visible();

    app.move_task(1);
    assert_eq!(app.tasks[0].title, "second");
    assert_eq!(app.tasks[1].title, "first");
    assert_eq!(app.tree.selected_path, vec![1]);
}

#[test]
fn test_outdent_from_depth_one_promotes_to_root() {
    let mut root = Task::new(1, "parent");
    root.children.push(Task::new(2, "child"));
    let mut app = make_test_app(vec![root]);
    app.tree.selected_path = vec![0, 0];

    app.outdent();

    assert_eq!(app.tasks.len(), 2);
    assert_eq!(app.tasks[0].title, "parent");
    assert_eq!(app.tasks[1].title, "child");
    assert_eq!(app.tree.selected_path, vec![1]);
    assert!(app.tasks[0].children.is_empty());
}

#[test]
fn test_id_command_mark_is_undoable() {
    let mut app = make_test_app(vec![Task::new(100, "task")]);
    app.tree.selected_path = vec![0];
    run_command(&mut app, "mark 100 doing");
    assert_eq!(app.tasks[0].status, Status::Doing);
    assert_eq!(app.undo_stack.len(), 1);
    app.undo();
    assert_eq!(app.tasks[0].status, Status::Todo);
}

#[test]
fn test_undo_marks_dirty() {
    let mut app = make_test_app(vec![Task::new(100, "task")]);
    app.tree.selected_path = vec![0];
    app.push_undo();
    app.tasks[0].title = "changed".to_string();
    app.persist.dirty = false;

    app.undo();

    assert_eq!(app.tasks[0].title, "task");
    assert!(app.persist.dirty);
}

#[test]
fn test_stress_tree_operations_no_panic() {
    let mut root = Task::new(1, "root");
    for i in 2..=8u64 {
        root.children.push(Task::new(i, &format!("child {i}")));
    }
    let mut app = make_test_app(vec![root]);
    app.tree.selected_path = vec![0, 2];
    app.rebuild_visible();

    app.outdent();
    app.indent();
    app.move_task(-1);
    app.move_task(1);
    app.sort_mode = SortMode::Priority;
    app.rebuild_visible();
    app.sort_mode = SortMode::Manual;
    app.rebuild_visible();
    app.duplicate_current();
    app.undo();

    assert!(!app.tasks.is_empty());
}

#[test]
fn test_sort_by_priority_reorders_visible_not_data() {
    let mut low = Task::new(1, "low");
    low.priority = Priority::Low;
    let mut high = Task::new(2, "high");
    high.priority = Priority::High;
    let mut app = make_test_app(vec![low, high]);
    app.sort_mode = SortMode::Priority;
    app.rebuild_visible();

    assert_eq!(app.tasks[0].title, "low");
    assert_eq!(app.tasks[1].title, "high");
    assert_eq!(app.tree.visible.len(), 2);
    assert_eq!(app.task_at(&app.tree.visible[0].path).unwrap().title, "high");
    assert_eq!(app.task_at(&app.tree.visible[1].path).unwrap().title, "low");
}

#[test]
fn test_apply_edit_rejects_invalid_due_date() {
    let mut app = make_test_app(vec![Task::new(1, "test")]);
    app.tree.selected_path = vec![0];
    app.start_edit();
    if let Some(mut ed) = app.edit.take() {
        ed.due_buf = "not-a-date".to_string();
        app.edit = Some(ed);
    }
    app.apply_edit();
    assert!(app.message.contains("Invalid due date"));
    assert!(app.edit.is_some());
    assert_eq!(app.undo_stack.len(), 0);
}

#[test]
fn test_hide_done_filter_without_active_search() {
    let mut done = Task::new(1, "done task");
    done.status = Status::Done;
    let mut todo = Task::new(2, "open task");
    todo.status = Status::Todo;
    let mut app = make_test_app(vec![done, todo]);
    app.filter.hide_done = true;
    app.rebuild_visible();
    assert_eq!(app.tree.visible.len(), 1);
    assert_eq!(app.task_at(&app.tree.visible[0].path).unwrap().title, "open task");
}

#[test]
fn test_push_undo_does_not_mark_dirty() {
    let mut app = make_test_app(vec![Task::new(1, "t")]);
    app.push_undo();
    assert!(!app.persist.dirty);
}

#[test]
fn test_push_undo_skips_duplicate_snapshot() {
    let mut app = make_test_app(vec![Task::new(1, "t")]);
    app.push_undo();
    app.push_undo();
    assert_eq!(app.undo_stack.len(), 1);
}

#[test]
fn test_undo_stack_trims_to_entry_cap() {
    let mut app = make_test_app(vec![Task::new(1, "t")]);
    for i in 2..=20u64 {
        app.push_undo();
        app.tasks.push(Task::new(i, "x"));
    }
    assert!(app.undo_stack.len() <= 12);
}

#[test]
fn test_undo_clears_edit_mode() {
    let mut app = make_test_app(vec![Task::new(1, "test")]);
    app.tree.selected_path = vec![0];
    app.start_edit();
    app.push_undo();
    app.undo();
    assert!(app.edit.is_none());
    assert_eq!(app.mode, Mode::Normal);
}

#[test]
fn test_add_sibling_at_root_level() {
    let mut app = make_test_app(vec![Task::new(1, "first"), Task::new(2, "second")]);
    app.tree.selected_path = vec![0];
    app.rebuild_visible();

    app.add_task(false);
    app.cancel_edit();

    assert_eq!(app.tasks.len(), 3);
    assert_eq!(app.tasks[1].title, "New task");
    assert_eq!(app.tree.selected_path, vec![1]);
}

#[test]
fn test_selection_preserved_when_filtered_out() {
    let mut root = Task::new(1, "visible");
    let mut done_child = Task::new(2, "hidden done");
    done_child.status = Status::Done;
    root.children.push(done_child);
    let mut app = make_test_app(vec![root]);
    app.tree.selected_path = vec![0, 0];
    app.filter.hide_done = true;
    app.rebuild_visible();

    assert_eq!(app.tree.selected_path, vec![0, 0]);
    assert_eq!(app.current_task().unwrap().title, "hidden done");
    assert_eq!(app.find_exact_visible_index(&[0, 0]), None);
    assert!(app.tree.visible_state.selected().is_none());
    assert_eq!(app.find_visible_index_for_path(&[0, 0]), Some(0));
}

#[test]
fn test_legacy_json_still_loads() {
    let legacy = r#"{"tasks":[{"id":1,"title":"legacy","desc":"","priority":"medium","status":"todo","children":[]}],"expanded":[1]}"#;
    let value: serde_json::Value = serde_json::from_str(legacy).unwrap();
    let mut tasks = Vec::new();
    for t in value["tasks"].as_array().unwrap() {
        tasks.push(Task::new(t["id"].as_u64().unwrap(), t["title"].as_str().unwrap()));
    }
    let expanded: Vec<u64> = value["expanded"]
        .as_array()
        .unwrap()
        .iter()
        .map(|v| v.as_u64().unwrap())
        .collect();
    let parsed = project_from_legacy(tasks, expanded);
    assert_eq!(parsed.tasks[0].title, "legacy");
    assert_eq!(parsed.next_id, 2);
    assert_eq!(parsed.sort_mode, SortMode::Manual);
}

#[test]
fn test_portable_missing_file_starts_empty() {
    let (tasks, next_id, expanded, sort_mode) =
        rust_tui::app::session::missing_file_project(MissingFilePolicy::EmptyProject);
    let app = App::new_loaded(
        "/tmp/rust_tui_new_portable.tdl".to_string(),
        tasks,
        next_id,
        expanded,
        sort_mode,
        None,
        false,
        MissingFilePolicy::EmptyProject,
    );
    assert!(app.tasks.is_empty());
    assert_eq!(app.next_id, 1);
    assert!(app.persist.dirty);
}

#[test]
fn test_add_named_task_at_root() {
    let mut app = make_test_app(vec![Task::new(1, "existing")]);
    run_command(&mut app, "add Buy milk");
    assert_eq!(app.tasks.len(), 2);
    assert_eq!(app.tasks[1].title, "Buy milk");
    assert_eq!(app.tree.selected_path, vec![1]);
    assert!(app.edit.is_none());
}

#[test]
fn test_move_task_at_boundary_is_noop() {
    let mut app = make_test_app(vec![Task::new(1, "only")]);
    app.tree.selected_path = vec![0];
    app.rebuild_visible();
    app.persist.dirty = false;
    app.move_task(-1);
    assert!(!app.persist.dirty);
    assert_eq!(app.undo_stack.len(), 0);
}

#[test]
fn test_hide_done_shows_incomplete_child_of_done_parent() {
    let mut done_parent = Task::new(1, "done parent");
    done_parent.status = Status::Done;
    let mut open_child = Task::new(2, "still open");
    open_child.status = Status::Todo;
    done_parent.children.push(open_child);
    let mut app = make_test_app(vec![done_parent]);
    app.tree.expanded.insert(1);
    app.filter.hide_done = true;
    app.rebuild_visible();
    assert_eq!(app.tree.visible.len(), 1);
    assert_eq!(app.task_at(&app.tree.visible[0].path).unwrap().title, "still open");
}

#[test]
fn test_delete_with_stale_selection() {
    let mut app = make_test_app(vec![Task::new(1, "gone")]);
    app.tree.selected_path = vec![99];
    app.delete_current();
    assert!(app.message.contains("Nothing to delete"));
    assert_eq!(app.undo_stack.len(), 0);
}

#[test]
fn test_undo_restores_sort_mode() {
    let mut app = make_test_app(vec![Task::new(1, "t")]);
    app.tree.selected_path = vec![0];
    app.sort_mode = SortMode::Manual;
    app.push_undo();
    app.sort_mode = SortMode::Priority;
    app.rebuild_visible();
    app.undo();
    assert_eq!(app.sort_mode, SortMode::Manual);
}

#[test]
fn test_count_all_and_done() {
    let mut tasks = vec![Task::new(1, "t1")];
    tasks[0].status = Status::Done;
    let mut child = Task::new(2, "c1");
    child.status = Status::Todo;
    tasks[0].children.push(child);
    assert_eq!(count_all(&tasks), 2);
    assert_eq!(count_done(&tasks), 1);
}
