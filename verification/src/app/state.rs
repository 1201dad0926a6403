//! Application state: task data, tree view, persistence flags, filters, undo.
use std::collections::HashSet;
use vstd::prelude::*;
use crate::date::Date;
use crate::model::{Task, TaskView, forest_view};
use crate::sort::SortMode;

verus! {

#[verifier::external_type_specification]
#[verifier::external_body]
pub struct ExInstant(std::time::Instant);

/// The current instant (`std::time::Instant::now`); nothing is known of its value.
#[verifier::external_body]
pub(crate) fn instant_now() -> (t: std::time::Instant) {
    std::time::Instant::now()
}

/// A state of the tree captured before a change, so that `undo` can restore it.
pub struct UndoSnapshot {
    pub tasks: Vec<Task>,
    pub expanded: HashSet<u64>,
    pub next_id: u64,
    pub sort_mode: SortMode,
    pub selected_path: Vec<usize>,
    pub focus_path: Option<Vec<usize>>,
    pub estimated_bytes: usize,
}

#[derive(Clone, Copy, PartialEq, Eq, Debug, Structural)]
pub enum Mode {
    Normal,
    Search,
    Command,
    Editing,
    Help,
}

pub struct FilterState {
    pub search: String,
    pub hide_done: bool,
    pub only_high: bool,
    pub only_overdue_or_today: bool,
}

impl FilterState {
    /// No search and no quick filter.
    pub fn new() -> (f: FilterState)
        ensures
            f.search@ == Seq::<char>::empty(),
            !f.hide_done,
            !f.only_high,
            !f.only_overdue_or_today,
    {
        FilterState {
            search: String::new(),
            hide_done: false,
            only_high: false,
            only_overdue_or_today: false,
        }
    }

    /// Whether no search and no quick filter is set.
    pub open spec fn is_clear(&self) -> bool {
        self.search@.len() == 0 && !self.hide_done && !self.only_high
            && !self.only_overdue_or_today
    }
}

/// One row of the visible tree list.
pub struct VisibleItem {
    pub path: Vec<usize>,
    pub depth: usize,
    pub is_last: bool,
}

/// The value of a visible row.
pub struct VisibleItemView {
    pub path: Seq<usize>,
    pub depth: int,
    pub is_last: bool,
}

impl View for VisibleItem {
    type V = VisibleItemView;

    open spec fn view(&self) -> VisibleItemView {
        VisibleItemView { path: self.path@, depth: self.depth as int, is_last: self.is_last }
    }
}

/// The rows of a visible list.
pub open spec fn rows_view(v: Seq<VisibleItem>) -> Seq<VisibleItemView> {
    Seq::new(v.len(), |i: int| v[i]@)
}

/// The state of the edit form.
pub struct EditState {
    pub working: Task,
    pub current_field: usize,
    pub desc_lines: Vec<String>,
    pub desc_row: usize,
    pub desc_col: usize,
    pub title_buf: String,
    pub due_buf: String,
    pub tag_buf: String,
    pub parsed_due_preview: Option<Date>,
}

/// A screen rectangle (the area the tree list was last drawn in).
#[derive(Clone, Copy, PartialEq, Eq, Debug, Structural)]
pub struct Rect {
    pub x: u16,
    pub y: u16,
    pub width: u16,
    pub height: u16,
}

impl Rect {
    pub fn empty() -> (r: Rect)
        ensures
            r.x == 0 && r.y == 0 && r.width == 0 && r.height == 0,
    {
        Rect { x: 0, y: 0, width: 0, height: 0 }
    }
}

/// Scroll offset and selected row of the tree list.
#[derive(Clone, Copy, PartialEq, Eq, Debug, Structural)]
pub struct ListView {
    pub offset: usize,
    pub selected: Option<usize>,
}

impl ListView {
    /// Nothing selected, scrolled to the top.
    pub fn new() -> (l: ListView)
        ensures
            l.offset == 0,
            l.selected is None,
    {
        ListView { offset: 0, selected: None }
    }

    /// Selects a row; clearing the selection also scrolls back to the top.
    pub fn select(&mut self, index: Option<usize>)
        ensures
            final(self).selected == index,
            final(self).offset == (if index is None {
                0
            } else {
                old(self).offset
            }),
    {
        self.selected = index;
        if index.is_none() {
            self.offset = 0;
        }
    }

    pub fn selected(&self) -> (r: Option<usize>)
        ensures
            r == self.selected,
    {
        self.selected
    }

    pub fn offset(&self) -> (r: usize)
        ensures
            r == self.offset,
    {
        self.offset
    }
}

/// Autosave and on-disk location.
pub struct PersistState {
    pub data_path: String,
    pub dirty: bool,
    pub last_change: Option<std::time::Instant>,
    pub last_saved: Option<std::time::Instant>,
    /// When set, background autosave waits before retrying after a failed write.
    pub last_save_failed: Option<std::time::Instant>,
}

/// Tree selection, visibility, and expand/collapse UI state.
pub struct TreeViewState {
    pub selected_path: Vec<usize>,
    pub visible: Vec<VisibleItem>,
    pub visible_state: ListView,
    pub expanded: HashSet<u64>,
    pub pending_delete_path: Option<Vec<usize>>,
    pub focus_path: Option<Vec<usize>>,
    pub tree_rect: Rect,
    pub last_click: Option<(u16, u16, std::time::Instant)>,
}

pub struct App {
    pub tasks: Vec<Task>,
    pub tree: TreeViewState,
    pub persist: PersistState,
    pub filter: FilterState,
    pub sort_mode: SortMode,
    pub total_tasks: usize,
    pub done_tasks: usize,
    pub mode: Mode,
    pub search_buf: String,
    pub command_buf: String,
    pub edit: Option<EditState>,
    pub message: String,
    pub undo_stack: Vec<UndoSnapshot>,
    pub next_id: u64,
}

/// The value of an optional path.
pub open spec fn opt_path(p: Option<Vec<usize>>) -> Option<Seq<usize>> {
    match p {
        Some(v) => Some(v@),
        None => None,
    }
}

impl App {
    /// The task list's value.
    pub open spec fn forest(&self) -> Seq<TaskView> {
        forest_view(self.tasks@)
    }

    /// The selected path's value.
    pub open spec fn sel(&self) -> Seq<usize> {
        self.tree.selected_path@
    }

    /// The focus path's value.
    pub open spec fn focus(&self) -> Option<Seq<usize>> {
        opt_path(self.tree.focus_path)
    }

    /// The pending-delete path's value.
    pub open spec fn pending(&self) -> Option<Seq<usize>> {
        opt_path(self.tree.pending_delete_path)
    }

    /// The ids of expanded tasks.
    pub open spec fn expanded(&self) -> Set<u64> {
        self.tree.expanded@
    }

    /// The rows of the visible list.
    pub open spec fn rows(&self) -> Seq<VisibleItemView> {
        rows_view(self.tree.visible@)
    }
}

} // verus!
