# rust_tui

Deep Todo: a hierarchical todo list for the terminal — nested tasks with
priorities, statuses, due dates and tags, live search and quick filters,
view-only sorting, undo, vim-style commands, and portable `.tdl` project
files (JSON).

## Layout

- `src/` — the library, verified with Verus. Every public function states
  in its contract what it does to the application state:
  - `model`, `forest`, `tree_walk`, `sort`, `date`, `text`, `byte_pos`, `keys` — the
    task tree, paths into it, ordering, date parsing, and text helpers;
  - `app/` — the application state machine: editing, navigation,
    filtering, undo, commands, key handling, loading and saving decisions;
  - `persist` — project file envelopes and path handling;
  - `theme`, `ui_text`, `app/labels` — colors and the texts the screen shows;
  - `laws`, `id_laws`, `row_laws`, `date_laws`, `indent_laws` — properties
    of the library as a whole (undo restores, the undo stack keeps its
    shape, filters show only what they let through, rows have distinct
    paths, ids stay distinct, outdent undoes indent, relative dates agree,
    and more), proved as proof functions.
- `app/` — the terminal program: argument handling, the event loop,
  drawing with ratatui, and the file reads and writes (serde records of
  the library's types).
- `tests/` — tests of the library on concrete values.

## Running

```bash
rust_tui                  # ~/.local/share/rust_tui/default.tdl
rust_tui ~/projects/my-stuff.tdl
```

Press `?` in the program for the key bindings.
