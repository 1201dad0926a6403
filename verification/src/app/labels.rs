//! The texts the screen shows for the state: pane titles, the filter
//! summary, the selection note, and the bottom bar.
use vstd::prelude::*;
use crate::forest::forest_at;
use crate::text::{concat, concat3, decimal, join, join_spec, string_of_range, chars_of, u64_to_string};
use crate::ui_text::truncated;
use super::state::{App, FilterState, Mode};

verus! {

/// The active filters, each as a word: the search, then hide-done,
/// high-only, and due-soon.
pub open spec fn filter_parts(f: FilterState) -> Seq<Seq<char>> {
    let a: Seq<Seq<char>> = if f.search@.len() > 0 {
        seq!["search:\""@ + f.search@ + "\""@]
    } else {
        Seq::empty()
    };
    let b = if f.hide_done {
        a.push("no-done"@)
    } else {
        a
    };
    let c = if f.only_high {
        b.push("high-only"@)
    } else {
        b
    };
    if f.only_overdue_or_today {
        c.push("due-soon"@)
    } else {
        c
    }
}

/// The header's filter note: `all` without filters, else the active ones
/// separated by spaces and cut to 28 characters.
pub open spec fn filter_summary_spec(f: FilterState) -> Seq<char> {
    let p = filter_parts(f);
    if p.len() == 0 {
        "all"@
    } else {
        truncated(join_spec(p, " "@), 28)
    }
}

/// The header's filter note (see `filter_summary_spec`).
pub fn filter_summary(f: &FilterState) -> (r: String)
    ensures
        r@ == filter_summary_spec(*f),
{
    let mut parts: Vec<String> = Vec::new();
    if !f.search.as_str().is_empty() {
        parts.push(concat3("search:\"", f.search.as_str(), "\""));
    }
    if f.hide_done {
        parts.push("no-done".to_owned());
    }
    if f.only_high {
        parts.push("high-only".to_owned());
    }
    if f.only_overdue_or_today {
        parts.push("due-soon".to_owned());
    }
    assert(parts@.map_values(|x: String| x@) =~= filter_parts(*f));
    if parts.len() == 0 {
        return "all".to_owned();
    }
    let joined = join(&parts, " ");
    crate::ui_text::truncate_chars(joined.as_str(), 28)
}

/// The header's note on the selected task: its id and the first 25
/// characters of its title, or that nothing is selected.
pub open spec fn selection_note_spec(a: App) -> Seq<char> {
    match forest_at(a.forest(), a.sel()) {
        Some(t) => "#"@ + decimal(t.id as nat) + " "@ + (if t.title.len() <= 25 {
            t.title
        } else {
            t.title.take(25)
        }),
        None => "No selection"@,
    }
}

impl App {
    /// The header's note on the selected task (see `selection_note_spec`).
    pub fn selection_note(&self) -> (r: String)
        ensures
            r@ == selection_note_spec(*self),
    {
        match self.current_task() {
            Some(t) => {
                let cs = chars_of(t.title.as_str());
                let n = if cs.len() <= 25 {
                    cs.len()
                } else {
                    25
                };
                let short = string_of_range(&cs, 0, n);
                let id = u64_to_string(t.id);
                let head = concat3("#", id.as_str(), " ");
                proof {
                    if cs@.len() <= 25 {
                        assert(cs@.subrange(0, n as int) =~= t@.title);
                    } else {
                        assert(cs@.subrange(0, n as int) =~= t@.title.take(25));
                    }
                }
                concat(head.as_str(), short.as_str())
            },
            None => "No selection".to_owned(),
        }
    }

    /// The tree pane's title: the search being typed, the focused task, or plain.
    pub fn tree_title(&self) -> (r: String)
        ensures
            r@ == (if self.mode == Mode::Search {
                " \u{1f332} Tree \u{b7} search: "@ + self.search_buf@ + " "@
            } else {
                match self.focus() {
                    Some(fp) => match forest_at(self.forest(), fp) {
                        Some(t) => " \u{1f332} Tree \u{b7} focus #"@ + decimal(t.id as nat) + " "@,
                        None => " \u{1f332} Tree \u{b7} focus "@,
                    },
                    None => " \u{1f332} Tree "@,
                }
            }),
    {
        if self.mode == Mode::Search {
            return concat3(" \u{1f332} Tree \u{b7} search: ", self.search_buf.as_str(), " ");
        }
        match &self.tree.focus_path {
            Some(fp) => match self.task_at(fp.as_slice()) {
                Some(t) => {
                    let id = u64_to_string(t.id);
                    concat3(" \u{1f332} Tree \u{b7} focus #", id.as_str(), " ")
                },
                None => " \u{1f332} Tree \u{b7} focus ".to_owned(),
            },
            None => " \u{1f332} Tree ".to_owned(),
        }
    }

    /// What the tree pane says when no row is shown: how to add a first
    /// task, that the selection is kept though filtered out, or how to
    /// clear the filters.
    pub fn empty_tree_message(&self) -> (r: &'static str)
        ensures
            r@ == (if self.tasks@.len() == 0 {
                "No tasks yet.\nPress 'a' to add your first task."@
            } else if forest_at(self.forest(), self.sel()) is Some {
                "No tasks match current filters.\nYour selection is kept \u{2014} press F to clear filters."@
            } else {
                "No tasks match current filters.\nPress F to clear filters or / to search."@
            }),
    {
        if self.tasks.len() == 0 {
            "No tasks yet.\nPress 'a' to add your first task."
        } else if self.current_task().is_some() {
            "No tasks match current filters.\nYour selection is kept \u{2014} press F to clear filters."
        } else {
            "No tasks match current filters.\nPress F to clear filters or / to search."
        }
    }

    /// The bottom bar's text: the command being typed, or the key hints
    /// (with the undo hint while there is something to undo).
    pub fn bottom_text(&self) -> (r: String)
        ensures
            r@ == (if self.mode == Mode::Command {
                ":"@ + self.command_buf@
            } else {
                "j/k nav  \u{2022}  h/l/Spc expand  \u{2022}  a/A add  \u{2022}  e edit  \u{2022}  p/m cycle  \u{2022}  x toggle done  \u{2022}  / search  \u{2022}  : cmd  \u{2022}  ? help"@
                    + (if self.undo_stack@.len() > 0 {
                    "  \u{2022}  Ctrl+Z undo"@
                } else {
                    Seq::empty()
                })
            }),
    {
        if self.mode == Mode::Command {
            return concat(":", self.command_buf.as_str());
        }
        let hints = "j/k nav  \u{2022}  h/l/Spc expand  \u{2022}  a/A add  \u{2022}  e edit  \u{2022}  p/m cycle  \u{2022}  x toggle done  \u{2022}  / search  \u{2022}  : cmd  \u{2022}  ? help";
        if self.undo_stack.len() > 0 {
            concat(hints, "  \u{2022}  Ctrl+Z undo")
        } else {
            hints.to_owned()
        }
    }
}

} // verus!
