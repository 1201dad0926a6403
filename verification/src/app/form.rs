//! The edit form's fields and how a key changes them.
//!
//! The description is edited as a list of lines with a cursor (`row`, `col`);
//! the cursor column counts UTF-8 bytes.
use vstd::prelude::*;
use crate::date::{Date, opt_day, parse_relative_date, relative_date_spec};
use crate::keys::{KeyCode, KeyEvent, is_ctrl_char, is_ctrl_char_spec};
use crate::model::{
    Priority, Status, Task, TaskView, lemma_children_view, priority_next, priority_prev,
    status_next, status_prev, strings_view,
};
use crate::text::{
    ascii_lower, ascii_lower_char, byte_len, char_count, insert_char, push_str, remove_char,
    str_len, string_pop, string_push, substring, trim, trim_str,
};
use super::state::EditState;
use crate::byte_pos::{
    byte_index, char_index_at_byte, lemma_byte_index_of, lemma_prefix_all, lemma_prefix_grows,
    prefix_bytes, utf8_len,
};

verus! {

/// The value of an edit form.
pub struct FormView {
    pub working: TaskView,
    pub field: int,
    pub lines: Seq<Seq<char>>,
    pub row: int,
    pub col: int,
    pub title: Seq<char>,
    pub due: Seq<char>,
    pub tag: Seq<char>,
    pub preview: Option<int>,
}

impl View for EditState {
    type V = FormView;

    open spec fn view(&self) -> FormView {
        FormView {
            working: self.working@,
            field: self.current_field as int,
            lines: strings_view(self.desc_lines@),
            row: self.desc_row as int,
            col: self.desc_col as int,
            title: self.title_buf@,
            due: self.due_buf@,
            tag: self.tag_buf@,
            preview: opt_day(self.parsed_due_preview),
        }
    }
}

/// `s` without its last element, if any.
pub open spec fn pop_last<A>(s: Seq<A>) -> Seq<A> {
    if s.len() > 0 {
        s.drop_last()
    } else {
        s
    }
}

/// `l` extended with empty lines so that line `r` exists.
pub open spec fn padded(l: Seq<Seq<char>>, r: int) -> Seq<Seq<char>> {
    if r < l.len() {
        l
    } else {
        l + Seq::new((r + 1 - l.len()) as nat, |i: int| Seq::<char>::empty())
    }
}

/// The smaller of `a` and `b`.
pub open spec fn at_most(a: int, b: int) -> int {
    if a <= b {
        a
    } else {
        b
    }
}

/// The UTF-8 length of the line `x`, as a column.
pub open spec fn blen(x: Seq<char>) -> int {
    utf8_len(x) as int
}

/// The character index at the byte column `b` of the line `x` (meaningful
/// when `b` falls on a character boundary).
pub open spec fn at(x: Seq<char>, b: int) -> int {
    byte_index(x, b)->0
}

/// The description editor after `key`. The cursor column counts UTF-8
/// bytes; text is cut, split, and inserted at the character that starts at
/// that byte.
pub open spec fn desc_edit(f: FormView, key: KeyEvent) -> FormView {
    let l = f.lines;
    let r = f.row;
    let c = f.col;
    let n = l.len();
    let ctrl = key.modifiers.control;
    match key.code {
        KeyCode::Char(ch) => if is_ctrl_char_spec(key, 'a') {
            FormView { col: 0, ..f }
        } else if is_ctrl_char_spec(key, 'e') && r < n {
            FormView { col: blen(l[r]), ..f }
        } else if is_ctrl_char_spec(key, 'k') && r < n {
            if c < blen(l[r]) {
                FormView { lines: l.update(r, l[r].take(at(l[r], c))), ..f }
            } else {
                f
            }
        } else if is_ctrl_char_spec(key, 'u') && r < n {
            if c <= blen(l[r]) {
                FormView { lines: l.update(r, l[r].skip(at(l[r], c))), col: 0, ..f }
            } else {
                f
            }
        } else if !ctrl {
            let p = padded(l, r);
            let c1 = at_most(c, blen(p[r]));
            if blen(p[r]) < 10000 {
                FormView { lines: p.update(r, p[r].insert(at(p[r], c1), ch)), col: c1 + 1, ..f }
            } else {
                FormView { lines: p, col: c1, ..f }
            }
        } else {
            f
        },
        KeyCode::Backspace => {
            let r1 = if r >= n {
                if n == 0 {
                    0
                } else {
                    n - 1
                }
            } else {
                r
            };
            if c > 0 {
                FormView {
                    lines: l.update(r1, l[r1].remove(at(l[r1], c - 1))),
                    row: r1,
                    col: c - 1,
                    ..f
                }
            } else if r1 > 0 {
                FormView {
                    lines: l.update(r1 - 1, l[r1 - 1] + l[r1]).remove(r1),
                    row: r1 - 1,
                    col: blen(l[r1 - 1]),
                    ..f
                }
            } else {
                FormView { row: r1, ..f }
            }
        },
        KeyCode::Enter => {
            let p = padded(l, r);
            let k = at(p[r], c);
            FormView {
                lines: p.update(r, p[r].take(k)).insert(r + 1, p[r].skip(k)),
                row: r + 1,
                col: 0,
                ..f
            }
        },
        KeyCode::Up => if r > 0 {
            FormView { row: r - 1, col: at_most(c, blen(l[r - 1])), ..f }
        } else {
            f
        },
        KeyCode::Down => if r + 1 < n {
            FormView { row: r + 1, col: at_most(c, blen(l[r + 1])), ..f }
        } else {
            f
        },
        KeyCode::Left => if c > 0 {
            FormView { col: c - 1, ..f }
        } else if r > 0 {
            FormView { row: r - 1, col: blen(l[r - 1]), ..f }
        } else {
            f
        },
        KeyCode::Right => if r < n && c < blen(l[r]) {
            FormView { col: c + 1, ..f }
        } else if r + 1 < n {
            FormView { row: r + 1, col: 0, ..f }
        } else {
            f
        },
        KeyCode::Home => if ctrl {
            FormView { row: 0, col: 0, ..f }
        } else {
            FormView { col: 0, ..f }
        },
        KeyCode::End => if ctrl {
            if n > 0 {
                FormView { row: n - 1, col: blen(l[n - 1]), ..f }
            } else {
                f
            }
        } else if r < n {
            FormView { col: blen(l[r]), ..f }
        } else {
            f
        },
        KeyCode::Delete => if r < n {
            if c < blen(l[r]) {
                FormView { lines: l.update(r, l[r].remove(at(l[r], c))), ..f }
            } else if r + 1 < n {
                FormView { lines: l.update(r, l[r] + l[r + 1]).remove(r + 1), ..f }
            } else {
                f
            }
        } else {
            f
        },
        _ => f,
    }
}

/// Whether the description editor can take `key` without cutting a
/// character or indexing past its lines: each line's byte length fits a
/// `usize`, and where the key cuts, inserts, or removes text at the cursor,
/// the cursor column falls on a character boundary inside the line.
pub open spec fn desc_key_ok(f: FormView, key: KeyEvent) -> bool {
    let l = f.lines;
    let r = f.row;
    let c = f.col;
    let n = l.len();
    &&& forall|i: int| 0 <= i < n ==> #[trigger] utf8_len(l[i]) <= usize::MAX
    &&& match key.code {
        KeyCode::Char(_) => if is_ctrl_char_spec(key, 'a') || is_ctrl_char_spec(key, 'e') {
            true
        } else if is_ctrl_char_spec(key, 'k') {
            r < n && c < blen(l[r]) ==> byte_index(l[r], c) is Some
        } else if is_ctrl_char_spec(key, 'u') {
            r < n && c <= blen(l[r]) ==> byte_index(l[r], c) is Some
        } else if !key.modifiers.control {
            &&& r < usize::MAX
            &&& (c < blen(padded(l, r)[r]) && blen(padded(l, r)[r]) < 10000) ==> byte_index(
                padded(l, r)[r],
                c,
            ) is Some
        } else {
            true
        },
        KeyCode::Backspace => {
            let r1 = if r >= n {
                if n == 0 {
                    0
                } else {
                    n - 1
                }
            } else {
                r
            };
            c > 0 ==> n > 0 && c - 1 < blen(l[r1]) && byte_index(l[r1], c - 1) is Some
        },
        KeyCode::Enter => r + 1 < usize::MAX && byte_index(padded(l, r)[r], c) is Some,
        KeyCode::Up => r > 0 ==> r - 1 < n,
        KeyCode::Left => c == 0 && r > 0 ==> r - 1 < n,
        KeyCode::Delete => r < n && c < blen(l[r]) ==> byte_index(l[r], c) is Some,
        _ => true,
    }
}

/// The title, due, and tag fields and the working task's priority and
/// status after `key` (the field in focus decides which).
pub open spec fn field_edit(f: FormView, key: KeyEvent) -> FormView {
    let w = f.working;
    if f.field == 0 {
        match key.code {
            KeyCode::Char(ch) => if byte_len(f.title) < 500 {
                FormView { title: f.title.push(ch), ..f }
            } else {
                f
            },
            KeyCode::Backspace => FormView { title: pop_last(f.title), ..f },
            _ => f,
        }
    } else if f.field == 1 {
        desc_edit(f, key)
    } else if f.field == 2 {
        if key.code == KeyCode::Left || key.code == KeyCode::Char('h') {
            FormView { working: TaskView { priority: priority_prev(w.priority), ..w }, ..f }
        } else if key.code == KeyCode::Right || key.code == KeyCode::Char('l') {
            FormView { working: TaskView { priority: priority_next(w.priority), ..w }, ..f }
        } else {
            f
        }
    } else if f.field == 3 {
        if key.code == KeyCode::Left || key.code == KeyCode::Char('h') {
            FormView { working: TaskView { status: status_prev(w.status), ..w }, ..f }
        } else if key.code == KeyCode::Right || key.code == KeyCode::Char('l') {
            FormView { working: TaskView { status: status_next(w.status), ..w }, ..f }
        } else {
            f
        }
    } else if f.field == 4 {
        match key.code {
            KeyCode::Char(ch) => if byte_len(f.due) < 40 {
                FormView { due: f.due.push(ch), ..f }
            } else {
                f
            },
            KeyCode::Backspace => FormView { due: pop_last(f.due), ..f },
            _ => f,
        }
    } else if f.field == 5 {
        match key.code {
            KeyCode::Char(ch) => if key.modifiers.control && ascii_lower(ch) == 'd' {
                FormView { working: TaskView { tags: pop_last(w.tags), ..w }, ..f }
            } else if byte_len(f.tag) < 80 {
                FormView { tag: f.tag.push(ch), ..f }
            } else {
                f
            },
            KeyCode::Backspace => FormView { tag: pop_last(f.tag), ..f },
            KeyCode::Enter => {
                let t = trim(f.tag);
                if t.len() > 0 && !w.tags.contains(t) {
                    FormView {
                        working: TaskView { tags: w.tags.push(t), ..w },
                        tag: Seq::empty(),
                        ..f
                    }
                } else {
                    FormView { tag: Seq::empty(), ..f }
                }
            },
            _ => f,
        }
    } else {
        f
    }
}

/// The form after `key` on day `today`: Tab and BackTab move between the six
/// fields, any other key goes to the field in focus; when the due field is in
/// focus afterwards, its preview is the date the field's text parses to.
pub open spec fn form_key(f: FormView, key: KeyEvent, today: int) -> FormView {
    let g = match key.code {
        KeyCode::Tab => FormView { field: (f.field + 1) % 6, ..f },
        KeyCode::BackTab => FormView { field: (f.field + 5) % 6, ..f },
        _ => field_edit(f, key),
    };
    if g.field == 4 {
        FormView { preview: relative_date_spec(g.due, today), ..g }
    } else {
        g
    }
}

/// Whether the form can take `key` (see `desc_key_ok`; the field counter must
/// not overflow when Tab or BackTab move it).
pub open spec fn form_key_ok(f: FormView, key: KeyEvent) -> bool {
    match key.code {
        KeyCode::Tab => f.field + 1 <= usize::MAX,
        KeyCode::BackTab => f.field + 5 <= usize::MAX,
        _ => f.field == 1 ==> desc_key_ok(f, key),
    }
}

/// Whether the list `v` holds the text `s`.
pub fn has_string(v: &Vec<String>, s: &String) -> (r: bool)
    ensures
        r == strings_view(v@).contains(s@),
{
    let mut i: usize = 0;
    while i < v.len()
        invariant
            i <= v@.len(),
            forall|j: int| 0 <= j < i ==> v@[j]@ != s@,
        decreases v@.len() - i,
    {
        if v[i] == *s {
            assert(strings_view(v@)[i as int] == s@);
            return true;
        }
        i += 1;
    }
    proof {
        if strings_view(v@).contains(s@) {
            let j = choose|j: int| 0 <= j < strings_view(v@).len() && strings_view(v@)[j] == s@;
            assert(v@[j]@ == s@);
        }
    }
    false
}

/// Pads `lines` with empty lines until line `row` exists.
fn pad_lines(lines: &mut Vec<String>, row: usize)
    requires
        row < usize::MAX,
    ensures
        strings_view(final(lines)@) == padded(strings_view(old(lines)@), row as int),
{
    let ghost l0 = strings_view(lines@);
    if row < lines.len() {
        return;
    }
    while row >= lines.len()
        invariant
            row < usize::MAX,
            l0.len() <= lines@.len() <= row + 1,
            strings_view(lines@) == l0 + Seq::new(
                (lines@.len() - l0.len()) as nat,
                |i: int| Seq::<char>::empty(),
            ),
        decreases row + 1 - lines@.len(),
    {
        let ghost before = lines@;
        lines.push(String::new());
        assert(strings_view(lines@) =~= strings_view(before).push(Seq::<char>::empty()));
        assert(strings_view(lines@) =~= l0 + Seq::new(
            (lines@.len() - l0.len()) as nat,
            |i: int| Seq::<char>::empty(),
        ));
    }
}

/// Replaces line `r` of `lines` with `t`.
fn set_line(lines: &mut Vec<String>, r: usize, t: String)
    requires
        r < old(lines)@.len(),
    ensures
        strings_view(final(lines)@) == strings_view(old(lines)@).update(r as int, t@),
{
    lines[r] = t;
    assert(strings_view(lines@) =~= strings_view(old(lines)@).update(r as int, t@));
}

/// Removes line `r` of `lines`.
fn remove_line(lines: &mut Vec<String>, r: usize)
    requires
        r < old(lines)@.len(),
    ensures
        strings_view(final(lines)@) == strings_view(old(lines)@).remove(r as int),
{
    lines.remove(r);
    assert(strings_view(lines@) =~= strings_view(old(lines)@).remove(r as int));
}

/// Inserts the line `t` at position `r` of `lines`.
fn insert_line(lines: &mut Vec<String>, r: usize, t: String)
    requires
        r <= old(lines)@.len(),
    ensures
        strings_view(final(lines)@) == strings_view(old(lines)@).insert(r as int, t@),
{
    lines.insert(r, t);
    assert(strings_view(lines@) =~= strings_view(old(lines)@).insert(r as int, t@));
}

/// The byte length of the line `s`.
fn line_len(s: &str) -> (r: usize)
    requires
        utf8_len(s@) <= usize::MAX,
    ensures
        r == utf8_len(s@),
{
    str_len(s)
}

/// The character index at the byte column `b` of `s`, which falls on a
/// character boundary.
fn index_at(s: &str, b: usize) -> (k: usize)
    requires
        byte_index(s@, b as int) is Some,
    ensures
        k == at(s@, b as int),
        k <= s@.len(),
        prefix_bytes(s@, k as int) == b,
{
    match char_index_at_byte(s, b) {
        Some(k) => k,
        None => 0,
    }
}

/// The description editor's reaction to `key`.
fn desc_key(ed: &mut EditState, key: &KeyEvent)
    requires
        desc_key_ok(old(ed)@, *key),
    ensures
        final(ed)@ == desc_edit(old(ed)@, *key),
{
    let ghost f = ed@;
    let n = ed.desc_lines.len();
    let r = ed.desc_row;
    let c = ed.desc_col;
    let ctrl = key.modifiers.control;
    assert(forall|i: int| 0 <= i < n ==> #[trigger] utf8_len(f.lines[i]) <= usize::MAX);
    assert(vstd::utf8::encode_utf8(Seq::<char>::empty()) =~= Seq::<u8>::empty());
    match key.code {
        KeyCode::Char(ch) => {
            if is_ctrl_char(key, 'a') {
                ed.desc_col = 0;
            } else if is_ctrl_char(key, 'e') && r < n {
                assert(utf8_len(f.lines[r as int]) <= usize::MAX);
                ed.desc_col = line_len(ed.desc_lines[r].as_str());
            } else if is_ctrl_char(key, 'k') && r < n {
                assert(utf8_len(f.lines[r as int]) <= usize::MAX);
                if c < line_len(ed.desc_lines[r].as_str()) {
                    let k = index_at(ed.desc_lines[r].as_str(), c);
                    let t = substring(ed.desc_lines[r].as_str(), 0, k);
                    set_line(&mut ed.desc_lines, r, t);
                    assert(f.lines[r as int].take(k as int) == f.lines[r as int].subrange(0, k as int));
                }
            } else if is_ctrl_char(key, 'u') && r < n {
                assert(utf8_len(f.lines[r as int]) <= usize::MAX);
                let len = line_len(ed.desc_lines[r].as_str());
                if c <= len {
                    let k = index_at(ed.desc_lines[r].as_str(), c);
                    let cnt = char_count(ed.desc_lines[r].as_str());
                    let t = substring(ed.desc_lines[r].as_str(), k, cnt);
                    set_line(&mut ed.desc_lines, r, t);
                    ed.desc_col = 0;
                }
            } else if !ctrl {
                pad_lines(&mut ed.desc_lines, r);
                let ghost p = padded(f.lines, r as int);
                assert(utf8_len(p[r as int]) <= usize::MAX) by {
                    if r < n {
                        assert(p[r as int] == f.lines[r as int]);
                    } else {
                        assert(p[r as int] =~= Seq::<char>::empty());
                    }
                }
                let len = line_len(ed.desc_lines[r].as_str());
                if ed.desc_col > len {
                    ed.desc_col = len;
                }
                if len < 10000 {
                    let line = ed.desc_lines[r].as_str();
                    proof {
                        if ed.desc_col == len {
                            lemma_prefix_all(p[r as int]);
                            lemma_byte_index_of(p[r as int], p[r as int].len() as int);
                        }
                    }
                    let k = index_at(line, ed.desc_col);
                    let t = insert_char(line, k, ch);
                    set_line(&mut ed.desc_lines, r, t);
                    ed.desc_col = ed.desc_col + 1;
                }
            }
        },
        KeyCode::Backspace => {
            if r >= n {
                ed.desc_row = if n == 0 {
                    0
                } else {
                    n - 1
                };
            }
            let r1 = ed.desc_row;
            if c > 0 {
                let line = ed.desc_lines[r1].as_str();
                let k = index_at(line, c - 1);
                proof {
                    lemma_prefix_all(f.lines[r1 as int]);
                }
                let t = remove_char(line, k);
                set_line(&mut ed.desc_lines, r1, t);
                ed.desc_col = c - 1;
            } else if r1 > 0 {
                assert(utf8_len(f.lines[r1 - 1]) <= usize::MAX);
                let prev_len = line_len(ed.desc_lines[r1 - 1].as_str());
                let mut joined = ed.desc_lines[r1 - 1].clone();
                push_str(&mut joined, ed.desc_lines[r1].as_str());
                set_line(&mut ed.desc_lines, r1 - 1, joined);
                remove_line(&mut ed.desc_lines, r1);
                ed.desc_row = r1 - 1;
                ed.desc_col = prev_len;
            }
        },
        KeyCode::Enter => {
            pad_lines(&mut ed.desc_lines, r);
            let line = ed.desc_lines[r].as_str();
            let k = index_at(line, c);
            let cnt = char_count(line);
            let head = substring(line, 0, k);
            let rest = substring(line, k, cnt);
            set_line(&mut ed.desc_lines, r, head);
            insert_line(&mut ed.desc_lines, r + 1, rest);
            ed.desc_row = r + 1;
            ed.desc_col = 0;
        },
        KeyCode::Up => {
            if r > 0 {
                assert(utf8_len(f.lines[r - 1]) <= usize::MAX);
                let len = line_len(ed.desc_lines[r - 1].as_str());
                ed.desc_row = r - 1;
                ed.desc_col = if c <= len {
                    c
                } else {
                    len
                };
            }
        },
        KeyCode::Down => {
            if r < n && r + 1 < n {
                assert(utf8_len(f.lines[r + 1]) <= usize::MAX);
                let len = line_len(ed.desc_lines[r + 1].as_str());
                ed.desc_row = r + 1;
                ed.desc_col = if c <= len {
                    c
                } else {
                    len
                };
            }
        },
        KeyCode::Left => {
            if c > 0 {
                ed.desc_col = c - 1;
            } else if r > 0 {
                assert(utf8_len(f.lines[r - 1]) <= usize::MAX);
                ed.desc_row = r - 1;
                ed.desc_col = line_len(ed.desc_lines[r - 1].as_str());
            }
        },
        KeyCode::Right => {
            let at_end = if r < n {
                assert(utf8_len(f.lines[r as int]) <= usize::MAX);
                c >= line_len(ed.desc_lines[r].as_str())
            } else {
                true
            };
            if r < n && !at_end {
                ed.desc_col = c + 1;
            } else if r < n && r + 1 < n {
                ed.desc_row = r + 1;
                ed.desc_col = 0;
            }
        },
        KeyCode::Home => {
            if ctrl {
                ed.desc_row = 0;
            }
            ed.desc_col = 0;
        },
        KeyCode::End => {
            if ctrl {
                if n > 0 {
                    assert(utf8_len(f.lines[n - 1]) <= usize::MAX);
                    ed.desc_row = n - 1;
                    ed.desc_col = line_len(ed.desc_lines[n - 1].as_str());
                }
            } else if r < n {
                assert(utf8_len(f.lines[r as int]) <= usize::MAX);
                ed.desc_col = line_len(ed.desc_lines[r].as_str());
            }
        },
        KeyCode::Delete => {
            if r < n {
                assert(utf8_len(f.lines[r as int]) <= usize::MAX);
                if c < line_len(ed.desc_lines[r].as_str()) {
                    let line = ed.desc_lines[r].as_str();
                    let k = index_at(line, c);
                    proof {
                        lemma_prefix_all(f.lines[r as int]);
                    }
                    let t = remove_char(line, k);
                    set_line(&mut ed.desc_lines, r, t);
                } else if r + 1 < n {
                    let mut joined = ed.desc_lines[r].clone();
                    push_str(&mut joined, ed.desc_lines[r + 1].as_str());
                    set_line(&mut ed.desc_lines, r, joined);
                    remove_line(&mut ed.desc_lines, r + 1);
                }
            }
        },
        _ => {},
    }
    assert(ed@ == desc_edit(f, *key));
}

/// Sets the working task's tags to `tags`.
fn set_tags(w: &mut Task, tags: Vec<String>)
    ensures
        final(w)@ == (TaskView { tags: strings_view(tags@), ..old(w)@ }),
{
    let ghost w0 = *w;
    w.tags = tags;
    proof {
        lemma_children_view(w0);
        lemma_children_view(*w);
    }
}

/// The title, description, priority, status, due, and tag fields' reaction to `key`.
fn field_key(ed: &mut EditState, key: &KeyEvent)
    requires
        old(ed)@.field == 1 ==> desc_key_ok(old(ed)@, *key),
    ensures
        final(ed)@ == field_edit(old(ed)@, *key),
{
    let ghost f = ed@;
    let ghost w0 = ed.working;
    proof {
        lemma_children_view(w0);
    }
    if ed.current_field == 0 {
        match key.code {
            KeyCode::Char(ch) => {
                if str_len(ed.title_buf.as_str()) < 500 {
                    string_push(&mut ed.title_buf, ch);
                }
            },
            KeyCode::Backspace => {
                string_pop(&mut ed.title_buf);
            },
            _ => {},
        }
    } else if ed.current_field == 1 {
        desc_key(ed, key);
    } else if ed.current_field == 2 {
        if key.code == KeyCode::Left || key.code == KeyCode::Char('h') {
            ed.working.priority = ed.working.priority.cycle_back();
        } else if key.code == KeyCode::Right || key.code == KeyCode::Char('l') {
            ed.working.priority = ed.working.priority.cycle();
        }
        proof {
            lemma_children_view(ed.working);
            assert(ed.working@.tags =~= w0@.tags);
        }
    } else if ed.current_field == 3 {
        if key.code == KeyCode::Left || key.code == KeyCode::Char('h') {
            ed.working.status = ed.working.status.cycle_back();
        } else if key.code == KeyCode::Right || key.code == KeyCode::Char('l') {
            ed.working.status = ed.working.status.cycle();
        }
        proof {
            lemma_children_view(ed.working);
            assert(ed.working@.tags =~= w0@.tags);
        }
    } else if ed.current_field == 4 {
        match key.code {
            KeyCode::Char(ch) => {
                if str_len(ed.due_buf.as_str()) < 40 {
                    string_push(&mut ed.due_buf, ch);
                }
            },
            KeyCode::Backspace => {
                string_pop(&mut ed.due_buf);
            },
            _ => {},
        }
    } else if ed.current_field == 5 {
        match key.code {
            KeyCode::Char(ch) => {
                if key.modifiers.control && ascii_lower_char(ch) == 'd' {
                    let mut tags = ed.working.tags.clone();
                    assert(tags@ == ed.working.tags@);
                    let _ = tags.pop();
                    assert(strings_view(tags@) =~= pop_last(w0@.tags));
                    set_tags(&mut ed.working, tags);
                } else if str_len(ed.tag_buf.as_str()) < 80 {
                    string_push(&mut ed.tag_buf, ch);
                }
            },
            KeyCode::Backspace => {
                string_pop(&mut ed.tag_buf);
            },
            KeyCode::Enter => {
                let t = trim_str(ed.tag_buf.as_str());
                if !t.as_str().is_empty() && !has_string(&ed.working.tags, &t) {
                    let mut tags = ed.working.tags.clone();
                    assert(tags@ == ed.working.tags@);
                    tags.push(t);
                    assert(strings_view(tags@) =~= w0@.tags.push(t@));
                    set_tags(&mut ed.working, tags);
                }
                ed.tag_buf = String::new();
            },
            _ => {},
        }
    }
}

/// The form's reaction to `key` on day `today` (see `form_key`).
pub fn form_handle_key(ed: &mut EditState, key: &KeyEvent, today: Date)
    requires
        form_key_ok(old(ed)@, *key),
    ensures
        final(ed)@ == form_key(old(ed)@, *key, today.day()),
{
    match key.code {
        KeyCode::Tab => {
            ed.current_field = (ed.current_field + 1) % 6;
        },
        KeyCode::BackTab => {
            ed.current_field = (ed.current_field + 5) % 6;
        },
        _ => {
            field_key(ed, key);
        },
    }
    if ed.current_field == 4 {
        ed.parsed_due_preview = parse_relative_date(ed.due_buf.as_str(), today);
    }
}

} // verus!
