use std::collections::HashSet;

use rust_tui::app::labels::filter_summary;
use rust_tui::app::state::{
    App, FilterState, ListView, Mode, PersistState, Rect, TreeViewState,
};
use rust_tui::date::Date;
use rust_tui::model::Task;
use rust_tui::persist::project_name;
use rust_tui::sort::SortMode;
use rust_tui::ui_text::{
    due_detail, due_label, expand_marker, save_status, tags_label, tags_line, tree_prefix,
};

fn label_app(tasks: Vec<Task>) -> App {
    App {
        tasks,
        tree: TreeViewState {
            selected_path: vec![0],
            visible: vec![],
            visible_state: ListView::new(),
            expanded: HashSet::new(),
            pending_delete_path: None,
            focus_path: None,
            tree_rect: Rect::empty(),
            last_click: None,
        },
        persist: PersistState {
            data_path: "/tmp/projects/my-very-long-project-name.tdl".to_string(),
            dirty: false,
            last_change: None,
            last_saved: None,
            last_save_failed: None,
        },
        filter: FilterState::new(),
        sort_mode: SortMode::Manual,
        total_tasks: 0,
        done_tasks: 0,
        mode: Mode::Normal,
        search_buf: String::new(),
        command_buf: String::new(),
        edit: None,
        message: String::new(),
        undo_stack: vec![],
        next_id: 10,
    }
}

fn date(y: i32, m: u32, d: u32) -> Date {
    Date::from_ymd(y, m, d).expect("valid date")
}

#[test]
fn tree_connectors() {
    assert_eq!(tree_prefix(0, false), "");
    assert_eq!(tree_prefix(1, false), "│   ├── ");
    assert_eq!(tree_prefix(2, true), "│   │   └── ");
    assert_eq!(expand_marker(false, true), "  ");
    assert_eq!(expand_marker(true, true), "▼ ");
    assert_eq!(expand_marker(true, false), "▶ ");
}

#[test]
fn due_notes() {
    let today = date(2026, 6, 12);
    assert_eq!(due_label(today, Some(date(2026, 6, 9))), "OVERDUE(3) ");
    assert_eq!(due_label(today, Some(today)), "TODAY ");
    assert_eq!(due_label(today, Some(date(2026, 7, 4))), "due 07/04 ");
    assert_eq!(due_label(today, None), "");
    assert_eq!(due_detail(today, Some(date(2026, 6, 10))), "Due: OVERDUE by 2 day(s)\n");
    assert_eq!(due_detail(today, Some(today)), "Due: DUE TODAY\n");
    assert_eq!(
        due_detail(today, Some(date(2026, 6, 20))),
        "Due: Due in 8 day(s) — 2026-06-20\n"
    );
    assert_eq!(due_detail(today, None), "Due: (none)\n");
}

#[test]
fn tag_notes() {
    let tags = vec!["work".to_string(), "home".to_string()];
    assert_eq!(tags_label(&tags), " #work #home");
    assert_eq!(tags_label(&vec![]), "");
    assert_eq!(tags_line(&tags), "Tags: work, home");
    assert_eq!(tags_line(&vec![]), "Tags: (none)");
}

#[test]
fn save_notes() {
    assert_eq!(save_status(true, Some(5)), "● unsaved");
    assert_eq!(save_status(false, None), "not saved yet");
    assert_eq!(save_status(false, Some(9)), "saved");
    assert_eq!(save_status(false, Some(42)), "saved 42s ago");
    assert_eq!(save_status(false, Some(185)), "saved 3m ago");
}

#[test]
fn filter_notes() {
    let mut f = FilterState::new();
    assert_eq!(filter_summary(&f), "all");
    f.hide_done = true;
    f.only_high = true;
    assert_eq!(filter_summary(&f), "no-done high-only");
    f.search = "groceries".to_string();
    f.only_overdue_or_today = true;
    assert_eq!(filter_summary(&f), "search:\"groceries\" no-done …");
}

#[test]
fn header_notes() {
    let mut app = label_app(vec![Task::new(7, "A title that is clearly longer than 25 chars")]);
    assert_eq!(app.selection_note(), "#7 A title that is clearly l");
    app.tree.selected_path = vec![3];
    assert_eq!(app.selection_note(), "No selection");
    assert_eq!(project_name(&app.persist.data_path), "my-very-long-projec…");
    assert_eq!(project_name("/tmp/short.tdl"), "short.tdl");
}

#[test]
fn pane_titles_and_bottom_bar() {
    let mut app = label_app(vec![Task::new(7, "seven")]);
    assert_eq!(app.tree_title(), " 🌲 Tree ");
    app.tree.focus_path = Some(vec![0]);
    assert_eq!(app.tree_title(), " 🌲 Tree · focus #7 ");
    app.mode = Mode::Search;
    app.search_buf = "se".to_string();
    assert_eq!(app.tree_title(), " 🌲 Tree · search: se ");
    app.mode = Mode::Command;
    app.command_buf = "add milk".to_string();
    assert_eq!(app.bottom_text(), ":add milk");
    app.mode = Mode::Normal;
    assert!(app.bottom_text().ends_with("? help"));
    app.push_undo();
    assert!(app.bottom_text().ends_with("  •  Ctrl+Z undo"));
    assert_eq!(
        app.empty_tree_message(),
        "No tasks match current filters.\nYour selection is kept — press F to clear filters."
    );
    let empty = label_app(vec![]);
    assert_eq!(
        empty.empty_tree_message(),
        "No tasks yet.\nPress 'a' to add your first task."
    );
}
