//! Text fitting for the header and the bottom bar.
use vstd::prelude::*;
use crate::date::{Date, formatted_date, iso_date};
use crate::model::strings_view;
use crate::text::{
    chars_of, concat, concat3, decimal, join, join_spec, push_str, string_of_range, string_push,
    u64_to_string,
};

verus! {

/// `s` cut to at most `max` characters, an ellipsis standing for what was cut.
pub open spec fn truncated(s: Seq<char>, max: int) -> Seq<char> {
    if max == 0 {
        Seq::empty()
    } else if s.len() <= max {
        s
    } else {
        s.take(max - 1).push('\u{2026}')
    }
}

/// `s` cut to at most `max` characters (see `truncated`).
pub fn truncate_chars(s: &str, max: usize) -> (r: String)
    ensures
        r@ == truncated(s@, max as int),
{
    if max == 0 {
        return String::new();
    }
    let v = chars_of(s);
    if v.len() <= max {
        return string_of_range(&v, 0, v.len());
    }
    let mut out = string_of_range(&v, 0, max - 1);
    string_push(&mut out, '\u{2026}');
    out
}

/// `text` cut to fit `max_cols` columns, counting one column per character
/// (see `truncated`).
pub fn truncate_to_width(text: &str, max_cols: u16) -> (r: String)
    ensures
        r@ == truncated(text@, max_cols as int),
{
    let max = max_cols as usize;
    if max == 0 {
        return String::new();
    }
    let v = chars_of(text);
    if v.len() <= max {
        return string_of_range(&v, 0, v.len());
    }
    if max <= 1 {
        let mut out = String::new();
        string_push(&mut out, '\u{2026}');
        return out;
    }
    let mut out = string_of_range(&v, 0, max - 1);
    string_push(&mut out, '\u{2026}');
    out
}

/// `s` repeated `n` times.
pub open spec fn repeat(s: Seq<char>, n: nat) -> Seq<char>
    decreases n,
{
    if n == 0 {
        Seq::empty()
    } else {
        repeat(s, (n - 1) as nat) + s
    }
}

/// The connector drawn before a tree row at `depth`: a bar per level above
/// it, then a branch (the last one of its siblings gets the corner).
pub open spec fn prefix_spec(depth: nat, is_last: bool) -> Seq<char> {
    repeat("\u{2502}   "@, depth) + if depth == 0 {
        Seq::empty()
    } else if is_last {
        "\u{2514}\u{2500}\u{2500} "@
    } else {
        "\u{251c}\u{2500}\u{2500} "@
    }
}

/// The connector drawn before a tree row (see `prefix_spec`).
pub fn tree_prefix(depth: usize, is_last: bool) -> (r: String)
    ensures
        r@ == prefix_spec(depth as nat, is_last),
{
    let mut s = String::new();
    let mut i: usize = 0;
    while i < depth
        invariant
            i <= depth,
            s@ == repeat("\u{2502}   "@, i as nat),
        decreases depth - i,
    {
        push_str(&mut s, "\u{2502}   ");
        i += 1;
    }
    if depth > 0 {
        if is_last {
            push_str(&mut s, "\u{2514}\u{2500}\u{2500} ");
        } else {
            push_str(&mut s, "\u{251c}\u{2500}\u{2500} ");
        }
    }
    s
}

/// The marker before a task's title: blank for a leaf, a down triangle
/// when its children are shown, a right triangle when they are hidden.
pub fn expand_marker(has_children: bool, expanded: bool) -> (r: &'static str)
    ensures
        r@ == (if !has_children {
            "  "@
        } else if expanded {
            "\u{25bc} "@
        } else {
            "\u{25b6} "@
        }),
{
    if !has_children {
        "  "
    } else if expanded {
        "\u{25bc} "
    } else {
        "\u{25b6} "
    }
}

/// A tree row's due note for the day numbers `today` and `due`: how many
/// days overdue, today, or the due month and day; nothing without a date.
pub open spec fn due_label_spec(today: int, due: Option<int>) -> Seq<char> {
    match due {
        Some(d) => if d < today {
            "OVERDUE("@ + decimal((today - d) as nat) + ") "@
        } else if d == today {
            "TODAY "@
        } else {
            "due "@ + formatted_date(d, "%m/%d"@) + " "@
        },
        None => Seq::empty(),
    }
}

/// A tree row's due note (see `due_label_spec`).
pub fn due_label(today: Date, due: Option<Date>) -> (r: String)
    ensures
        r@ == due_label_spec(today.day(), crate::date::opt_day(due)),
{
    match due {
        Some(d) => {
            if d.before(&today) {
                let n = (today.days() as i64 - d.days() as i64) as u64;
                let digits = u64_to_string(n);
                concat3("OVERDUE(", digits.as_str(), ") ")
            } else if d.days() == today.days() {
                "TODAY ".to_owned()
            } else {
                let md = crate::date::format_date(&d, "%m/%d");
                concat3("due ", md.as_str(), " ")
            }
        },
        None => String::new(),
    }
}

/// Each tag with a `#` in front.
pub open spec fn hashed(tags: Seq<Seq<char>>) -> Seq<Seq<char>> {
    tags.map_values(|t: Seq<char>| "#"@ + t)
}

/// A tree row's tag note: nothing without tags, else a space and the tags
/// as `#tag`, separated by spaces.
pub open spec fn tags_label_spec(tags: Seq<Seq<char>>) -> Seq<char> {
    if tags.len() == 0 {
        Seq::empty()
    } else {
        " "@ + join_spec(hashed(tags), " "@)
    }
}

/// A tree row's tag note (see `tags_label_spec`).
pub fn tags_label(tags: &Vec<String>) -> (r: String)
    ensures
        r@ == tags_label_spec(strings_view(tags@)),
{
    if tags.len() == 0 {
        return String::new();
    }
    let mut parts: Vec<String> = Vec::new();
    let mut i: usize = 0;
    while i < tags.len()
        invariant
            i <= tags@.len(),
            parts@.len() == i,
            forall|j: int| 0 <= j < i ==> #[trigger] parts@[j]@ == "#"@ + tags@[j]@,
        decreases tags@.len() - i,
    {
        parts.push(concat("#", tags[i].as_str()));
        i += 1;
    }
    let joined = join(&parts, " ");
    assert(parts@.map_values(|x: String| x@) =~= hashed(strings_view(tags@)));
    concat(" ", joined.as_str())
}

/// The details pane's tag line: `(none)` or the tags separated by commas.
pub open spec fn tags_line_spec(tags: Seq<Seq<char>>) -> Seq<char> {
    if tags.len() == 0 {
        "Tags: (none)"@
    } else {
        "Tags: "@ + join_spec(tags, ", "@)
    }
}

/// The details pane's tag line (see `tags_line_spec`).
pub fn tags_line(tags: &Vec<String>) -> (r: String)
    ensures
        r@ == tags_line_spec(strings_view(tags@)),
{
    if tags.len() == 0 {
        return "Tags: (none)".to_owned();
    }
    let joined = join(tags, ", ");
    assert(tags@.map_values(|x: String| x@) =~= strings_view(tags@));
    concat("Tags: ", joined.as_str())
}

/// The details pane's due line for the day numbers `today` and `due`.
pub open spec fn due_detail_spec(today: int, due: Option<int>) -> Seq<char> {
    match due {
        Some(d) => "Due: "@ + (if d < today {
            "OVERDUE by "@ + decimal((today - d) as nat) + " day(s)"@
        } else if d == today {
            "DUE TODAY"@
        } else {
            "Due in "@ + decimal((d - today) as nat) + " day(s) \u{2014} "@ + iso_date(d)
        }) + "\n"@,
        None => "Due: (none)\n"@,
    }
}

/// The details pane's due line (see `due_detail_spec`).
pub fn due_detail(today: Date, due: Option<Date>) -> (r: String)
    ensures
        r@ == due_detail_spec(today.day(), crate::date::opt_day(due)),
{
    match due {
        Some(d) => {
            let rel = if d.before(&today) {
                let n = (today.days() as i64 - d.days() as i64) as u64;
                let digits = u64_to_string(n);
                concat3("OVERDUE by ", digits.as_str(), " day(s)")
            } else if d.days() == today.days() {
                "DUE TODAY".to_owned()
            } else {
                let n = (d.days() as i64 - today.days() as i64) as u64;
                let digits = u64_to_string(n);
                let head = concat3("Due in ", digits.as_str(), " day(s) \u{2014} ");
                let iso = d.text();
                concat(head.as_str(), iso.as_str())
            };
            concat3("Due: ", rel.as_str(), "\n")
        },
        None => "Due: (none)\n".to_owned(),
    }
}

/// The header's save note: unsaved, never saved, or how long ago the last
/// save was (`secs` seconds): just now under 10 s, in seconds under a
/// minute, else in whole minutes.
pub open spec fn save_status_spec(dirty: bool, secs: Option<u64>) -> Seq<char> {
    if dirty {
        "\u{25cf} unsaved"@
    } else {
        match secs {
            Some(s) => if s < 10 {
                "saved"@
            } else if s < 60 {
                "saved "@ + decimal(s as nat) + "s ago"@
            } else {
                "saved "@ + decimal((s / 60) as nat) + "m ago"@
            },
            None => "not saved yet"@,
        }
    }
}

/// The header's save note (see `save_status_spec`).
pub fn save_status(dirty: bool, secs: Option<u64>) -> (r: String)
    ensures
        r@ == save_status_spec(dirty, secs),
{
    if dirty {
        return "\u{25cf} unsaved".to_owned();
    }
    match secs {
        Some(s) => {
            if s < 10 {
                "saved".to_owned()
            } else if s < 60 {
                let digits = u64_to_string(s);
                concat3("saved ", digits.as_str(), "s ago")
            } else {
                let digits = u64_to_string(s / 60);
                concat3("saved ", digits.as_str(), "m ago")
            }
        },
        None => "not saved yet".to_owned(),
    }
}

} // verus!
