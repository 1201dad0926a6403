use std::collections::HashSet;

use chrono::{Datelike, Days, NaiveDate};
use rust_tui::app::state::{
    App, FilterState, ListView, Mode, PersistState, Rect, TreeViewState,
};
use rust_tui::date::{parse_relative_date, Date};
use rust_tui::keys::{is_edit_save_key, is_quit_key, press_key, KeyCode, KeyModifiers};
use rust_tui::model::Task;
use rust_tui::sort::SortMode;

fn make_event_test_app() -> App {
    App {
        tasks: vec![Task::new(1, "one"), Task::new(2, "two")],
        tree: TreeViewState {
            selected_path: vec![0],
            visible: vec![],
            visible_state: ListView::new(),
            expanded: HashSet::new(),
            pending_delete_path: None,
            focus_path: None,
            tree_rect: Rect::empty(),
            last_click: None,
        },
        persist: PersistState {
            data_path: "/tmp/test.tdl".to_string(),
            dirty: false,
            last_change: None,
            last_saved: None,
            last_save_failed: None,
        },
        filter: FilterState::new(),
        sort_mode: SortMode::Manual,
        total_tasks: 2,
        done_tasks: 0,
        mode: Mode::Normal,
        search_buf: String::new(),
        command_buf: String::new(),
        edit: None,
        message: String::new(),
        undo_stack: vec![],
        next_id: 3,
    }
}

fn date_of(d: NaiveDate) -> Date {
    Date::from_days(d.num_days_from_ce()).unwrap()
}

#[test]
fn search_enter_does_not_start_edit() {
    let mut app = make_event_test_app();
    app.start_search();
    app.search_buf = "one".into();
    app.handle_key(press_key(KeyCode::Enter, KeyModifiers::none()));
    assert_eq!(app.mode, Mode::Normal);
    assert_eq!(app.filter.search, "one");
    assert!(app.edit.is_none());
}

#[test]
fn command_j_does_not_move_selection() {
    let mut app = make_event_test_app();
    app.mode = Mode::Command;
    app.handle_key(press_key(KeyCode::Char('j'), KeyModifiers::none()));
    assert_eq!(app.command_buf, "j");
    assert_eq!(app.tree.selected_path, vec![0]);
}

#[test]
fn help_j_does_not_move_selection() {
    let mut app = make_event_test_app();
    app.mode = Mode::Help;
    app.handle_key(press_key(KeyCode::Char('j'), KeyModifiers::none()));
    assert_eq!(app.mode, Mode::Help);
    assert_eq!(app.tree.selected_path, vec![0]);
}

#[test]
fn search_ctrl_c_cancels_without_quitting() {
    let mut app = make_event_test_app();
    app.start_search();
    app.search_buf = "x".into();
    let (quit, _) = app.handle_key(press_key(KeyCode::Char('c'), KeyModifiers::control()));
    assert!(!quit);
    assert_eq!(app.mode, Mode::Normal);
    assert!(app.search_buf.is_empty());
}

#[test]
fn command_ctrl_c_cancels_without_quitting() {
    let mut app = make_event_test_app();
    app.mode = Mode::Command;
    app.command_buf = ":add".into();
    let (quit, _) = app.handle_key(press_key(KeyCode::Char('c'), KeyModifiers::control()));
    assert!(!quit);
    assert_eq!(app.mode, Mode::Normal);
    assert!(app.command_buf.is_empty());
}

#[test]
fn normal_ctrl_z_undoes() {
    let mut app = make_event_test_app();
    app.push_undo();
    app.tasks[0].title = "changed".into();
    app.handle_key(press_key(KeyCode::Char('Z'), KeyModifiers::control()));
    assert_eq!(app.tasks[0].title, "one");
}

#[test]
fn quit_matches_ctrl_c_and_ctrl_q() {
    assert!(is_quit_key(&press_key(KeyCode::Char('c'), KeyModifiers::control())));
    assert!(is_quit_key(&press_key(KeyCode::Char('C'), KeyModifiers::control())));
    assert!(is_quit_key(&press_key(KeyCode::Char('q'), KeyModifiers::control())));
}

#[test]
fn edit_save_matches_ctrl_enter_aliases() {
    assert!(is_edit_save_key(&press_key(KeyCode::Enter, KeyModifiers::control())));
    assert!(is_edit_save_key(&press_key(KeyCode::Char('m'), KeyModifiers::control())));
    assert!(is_edit_save_key(&press_key(KeyCode::Char('s'), KeyModifiers::control())));
    assert!(!is_edit_save_key(&press_key(KeyCode::Enter, KeyModifiers::none())));
}

#[test]
fn test_parse_relative_date_basic() {
    let nd = NaiveDate::from_ymd_opt(2026, 6, 12).unwrap();
    let today = date_of(nd);
    assert_eq!(parse_relative_date("today", today), Some(today));
    assert_eq!(parse_relative_date("tomorrow", today), Some(date_of(nd + Days::new(1))));
    assert_eq!(parse_relative_date("yesterday", today), Some(date_of(nd - Days::new(1))));
    assert_eq!(parse_relative_date("+5", today), Some(date_of(nd + Days::new(5))));
    assert_eq!(parse_relative_date("in 3 days", today), Some(date_of(nd + Days::new(3))));
    assert_eq!(parse_relative_date("-2d", today), Some(date_of(nd - Days::new(2))));
    assert_eq!(
        parse_relative_date("2026-06-20", today),
        Some(date_of(NaiveDate::from_ymd_opt(2026, 6, 20).unwrap()))
    );
    assert_eq!(
        parse_relative_date("20/06/2026", today),
        Some(date_of(NaiveDate::from_ymd_opt(2026, 6, 20).unwrap()))
    );
}

#[test]
fn test_parse_relative_date_huge_number_no_crash() {
    let today = date_of(NaiveDate::from_ymd_opt(2026, 6, 12).unwrap());
    assert_eq!(parse_relative_date("+2222222222222", today), None);
    assert_eq!(parse_relative_date("in 999999 days", today), None);
    assert_eq!(parse_relative_date("-999999", today), None);
}

#[test]
fn test_parse_relative_date_edge_cases() {
    let today = date_of(NaiveDate::from_ymd_opt(2026, 6, 12).unwrap());
    assert_eq!(parse_relative_date("+0", today), Some(today));
    assert_eq!(parse_relative_date("in 0 days", today), Some(today));
    assert_eq!(parse_relative_date("", today), None);
    assert_eq!(parse_relative_date("   ", today), None);
}

#[test]
fn plain_q_quits_from_normal_and_help() {
    let mut app = make_event_test_app();
    let (quit, _) = app.handle_key(press_key(KeyCode::Char('q'), KeyModifiers::none()));
    assert!(quit);
    assert_eq!(app.tasks.len(), 2);
    app.mode = Mode::Help;
    let (quit, _) = app.handle_key(press_key(KeyCode::Char('Q'), KeyModifiers::shift()));
    assert!(quit);
    let (quit, _) = app.handle_key(press_key(KeyCode::Esc, KeyModifiers::none()));
    assert!(!quit);
    assert_eq!(app.mode, Mode::Normal);
}

#[test]
fn plain_q_is_typed_in_search_and_commands() {
    let mut app = make_event_test_app();
    app.mode = Mode::Command;
    let (quit, _) = app.handle_key(press_key(KeyCode::Char('q'), KeyModifiers::none()));
    assert!(!quit);
    assert_eq!(app.command_buf, "q");
}
