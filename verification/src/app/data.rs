//! Task statistics and the markdown export.
use vstd::prelude::*;
use crate::date::{Date, date_text, iso_date, today};
use crate::forest::cap;
use crate::model::{Priority, Status, Task, TaskView, forest_view, lemma_children_view, strings_view};
use crate::text::{join, join_spec, push_str};
use super::state::App;

verus! {

/// 1 when `t` is due before `today` and not done, else 0.
pub open spec fn overdue_here(t: TaskView, today: int) -> nat {
    if (t.due matches Some(d) && d < today) && t.status != Status::Done {
        1
    } else {
        0
    }
}

/// The number of overdue open tasks in `t`'s subtree.
pub open spec fn tree_overdue(t: TaskView, today: int) -> nat
    decreases t,
{
    overdue_here(t, today) + forest_overdue(t.children, today)
}

/// The number of overdue open tasks in the list `s` and below.
pub open spec fn forest_overdue(s: Seq<TaskView>, today: int) -> nat
    decreases s,
{
    if s.len() == 0 {
        0
    } else {
        forest_overdue(s.drop_last(), today) + tree_overdue(s.last(), today)
    }
}

fn count_overdue_in(tasks: &Vec<Task>, today: &Date) -> (n: usize)
    ensures
        n == cap(forest_overdue(forest_view(tasks@), today.day())),
    decreases tasks@,
{
    let ghost s = forest_view(tasks@);
    let mut n: usize = 0;
    let mut i: usize = 0;
    while i < tasks.len()
        invariant
            i <= tasks@.len(),
            s == forest_view(tasks@),
            n == cap(forest_overdue(s.take(i as int), today.day())),
        decreases tasks@.len() - i,
    {
        assert(s.take(i + 1).drop_last() =~= s.take(i as int));
        assert(decreases_to!(tasks@ => tasks@[i as int]));
        assert(decreases_to!(tasks@[i as int] => tasks@[i as int].children));
        let t = &tasks[i];
        let here: usize = match t.due {
            Some(d) => if d.before(today) && t.status != Status::Done {
                1
            } else {
                0
            },
            None => 0,
        };
        let c = count_overdue_in(&t.children, today);
        proof {
            lemma_children_view(*t);
            assert(s.take(i + 1).last() == t@);
            assert(here == overdue_here(t@, today.day()));
            assert(tree_overdue(t@, today.day()) == overdue_here(t@, today.day()) + forest_overdue(
                t@.children,
                today.day(),
            ));
            assert(forest_overdue(s.take(i + 1), today.day()) == forest_overdue(
                s.take(i + 1).drop_last(),
                today.day(),
            ) + tree_overdue(s.take(i + 1).last(), today.day()));
            assert(forest_overdue(s.take(i + 1), today.day()) == forest_overdue(s.take(i as int), today.day())
                + here + forest_overdue(t@.children, today.day()));
        }
        n = n.saturating_add(here).saturating_add(c);
        i += 1;
    }
    assert(s.take(i as int) =~= s);
    n
}

/// (done, total) over `t`'s subtree; below depth 128 a subtree counts as one open task.
pub open spec fn progress(t: TaskView, depth: int) -> (nat, nat)
    decreases t, 0int,
{
    if depth > 128 {
        (0, 1)
    } else {
        let (d, n) = progress_list(t.children, depth + 1);
        ((if t.status == Status::Done {
            1nat
        } else {
            0nat
        }) + d, 1 + n)
    }
}

/// The sums of `progress` over the list `s`.
pub open spec fn progress_list(s: Seq<TaskView>, depth: int) -> (nat, nat)
    decreases s, 1int,
{
    if s.len() == 0 {
        (0, 0)
    } else {
        let (d1, n1) = progress_list(s.drop_last(), depth);
        let (d2, n2) = progress(s.last(), depth);
        (d1 + d2, n1 + n2)
    }
}

fn progress_of(t: &Task, depth: usize) -> (r: (usize, usize))
    requires
        depth <= 129,
    ensures
        r.0 == cap(progress(t@, depth as int).0),
        r.1 == cap(progress(t@, depth as int).1),
    decreases t@, 0int,
{
    if depth > 128 {
        return (0, 1);
    }
    let ghost s = t@.children;
    proof {
        lemma_children_view(*t);
    }
    let mut done: usize = if t.status == Status::Done {
        1
    } else {
        0
    };
    let mut total: usize = 1;
    let mut i: usize = 0;
    while i < t.children.len()
        invariant
            depth <= 128,
            i <= t.children@.len(),
            s == t@.children,
            s == forest_view(t.children@),
            done == cap((if t@.status == Status::Done {
                1nat
            } else {
                0nat
            }) + progress_list(s.take(i as int), depth + 1).0),
            total == cap(1 + progress_list(s.take(i as int), depth + 1).1),
        decreases t.children@.len() - i,
    {
        assert(s.take(i + 1).drop_last() =~= s.take(i as int));
        assert(s.take(i + 1).last() == t.children@[i as int]@);
        assert(decreases_to!(t@ => t@.children));
        let (d, n) = progress_of(&t.children[i], depth + 1);
        done = done.saturating_add(d);
        total = total.saturating_add(n);
        i += 1;
    }
    assert(s.take(i as int) =~= s);
    (done, total)
}

/// The markdown status box of `t`.
pub open spec fn md_status(t: TaskView) -> Seq<char> {
    if t.status == Status::Done {
        "[x]"@
    } else {
        "[ ]"@
    }
}

/// The markdown priority mark.
pub open spec fn md_prio(p: Priority) -> Seq<char> {
    match p {
        Priority::High => " **HIGH**"@,
        Priority::Medium => Seq::empty(),
        Priority::Low => " _low_"@,
    }
}

/// The markdown due mark, relative to `today`.
pub open spec fn md_due(due: Option<int>, today: int) -> Seq<char> {
    match due {
        Some(d) => if d < today {
            " **OVERDUE "@ + iso_date(d) + "**"@
        } else if d == today {
            " **TODAY**"@
        } else {
            " due:"@ + iso_date(d)
        },
        None => Seq::empty(),
    }
}

/// The markdown tags: ` #a #b` (nothing for no tags).
pub open spec fn md_tags(tags: Seq<Seq<char>>) -> Seq<char> {
    if tags.len() == 0 {
        Seq::empty()
    } else {
        " #"@ + join_spec(tags, " #"@)
    }
}

/// The markdown line of `t` under the indentation `indent`.
pub open spec fn md_line(t: TaskView, indent: Seq<char>, today: int) -> Seq<char> {
    indent + "- "@ + md_status(t) + " "@ + t.title + md_prio(t.priority) + md_due(t.due, today)
        + md_tags(t.tags) + "\n"@
}

/// The markdown of `t`'s subtree: its line, then its children two spaces deeper.
pub open spec fn md_tree(t: TaskView, indent: Seq<char>, today: int) -> Seq<char>
    decreases t,
{
    md_line(t, indent, today) + md_list(t.children, indent + "  "@, today)
}

/// The markdown of the list `s` under `indent`.
pub open spec fn md_list(s: Seq<TaskView>, indent: Seq<char>, today: int) -> Seq<char>
    decreases s,
{
    if s.len() == 0 {
        Seq::empty()
    } else {
        md_list(s.drop_last(), indent, today) + md_tree(s.last(), indent, today)
    }
}

fn md_prio_text(p: Priority) -> (r: String)
    ensures
        r@ == md_prio(p),
{
    match p {
        Priority::High => " **HIGH**".to_owned(),
        Priority::Medium => String::new(),
        Priority::Low => " _low_".to_owned(),
    }
}

fn md_due_text(due: Option<Date>, today: &Date) -> (r: String)
    ensures
        r@ == md_due(crate::date::opt_day(due), today.day()),
{
    match due {
        Some(d) => {
            if d.before(today) {
                let mut out = " **OVERDUE ".to_owned();
                push_str(&mut out, date_text(&d).as_str());
                push_str(&mut out, "**");
                out
            } else if d.days() == today.days() {
                " **TODAY**".to_owned()
            } else {
                let mut out = " due:".to_owned();
                push_str(&mut out, date_text(&d).as_str());
                out
            }
        },
        None => String::new(),
    }
}

fn md_tags_text(tags: &Vec<String>) -> (r: String)
    ensures
        r@ == md_tags(strings_view(tags@)),
{
    if tags.len() > 0 {
        let mut out = " #".to_owned();
        let joined = join(tags, " #");
        assert(tags@.map_values(|x: String| x@) =~= strings_view(tags@));
        push_str(&mut out, joined.as_str());
        out
    } else {
        String::new()
    }
}

fn md_line_of(t: &Task, indent: &str, today: &Date) -> (r: String)
    ensures
        r@ == md_line(t@, indent@, today.day()),
{
    let status = if t.status == Status::Done {
        "[x]"
    } else {
        "[ ]"
    };
    let prio = md_prio_text(t.priority);
    let due = md_due_text(t.due, today);
    let tags = md_tags_text(&t.tags);
    let mut out = indent.to_owned();
    push_str(&mut out, "- ");
    push_str(&mut out, status);
    push_str(&mut out, " ");
    push_str(&mut out, t.title.as_str());
    push_str(&mut out, prio.as_str());
    push_str(&mut out, due.as_str());
    push_str(&mut out, tags.as_str());
    push_str(&mut out, "\n");
    proof {
        lemma_children_view(*t);
    }
    assert(status@ == md_status(t@));
    assert(out@ =~= md_line(t@, indent@, today.day()));
    out
}

fn md_render(tasks: &Vec<Task>, indent: &str, today: &Date) -> (r: String)
    ensures
        r@ == md_list(forest_view(tasks@), indent@, today.day()),
    decreases tasks@,
{
    let ghost s = forest_view(tasks@);
    let mut out = String::new();
    let mut deeper = indent.to_owned();
    push_str(&mut deeper, "  ");
    let mut i: usize = 0;
    while i < tasks.len()
        invariant
            i <= tasks@.len(),
            s == forest_view(tasks@),
            deeper@ == indent@ + "  "@,
            out@ == md_list(s.take(i as int), indent@, today.day()),
        decreases tasks@.len() - i,
    {
        assert(s.take(i + 1).drop_last() =~= s.take(i as int));
        assert(decreases_to!(tasks@ => tasks@[i as int]));
        assert(decreases_to!(tasks@[i as int] => tasks@[i as int].children));
        let t = &tasks[i];
        let line = md_line_of(t, indent, today);
        push_str(&mut out, line.as_str());
        let sub = md_render(&t.children, deeper.as_str(), today);
        push_str(&mut out, sub.as_str());
        proof {
            lemma_children_view(*t);
            assert(s.take(i + 1).last() == t@);
            assert(md_list(s.take(i + 1), indent@, today.day()) == md_list(s.take(i as int), indent@, today.day())
                + md_tree(t@, indent@, today.day()));
        }
        i += 1;
        assert(out@ =~= md_list(s.take(i as int), indent@, today.day()));
    }
    assert(s.take(i as int) =~= s);
    out
}

impl App {
    /// The number of open tasks due before today.
    pub fn count_overdue(&self) -> (n: usize)
        ensures
            exists|d: int| n == cap(forest_overdue(self.forest(), d)),
    {
        let d = today();
        self.count_overdue_on(&d)
    }

    /// The number of open tasks due before `today` (saturating at `usize::MAX`).
    pub fn count_overdue_on(&self, today: &Date) -> (n: usize)
        ensures
            n == cap(forest_overdue(self.forest(), today.day())),
    {
        count_overdue_in(&self.tasks, today)
    }

    /// (done, total) over `task`'s subtree (see `progress`).
    pub fn subtask_progress(&self, task: &Task) -> (r: (usize, usize))
        ensures
            r.0 == cap(progress(task@, 0).0),
            r.1 == cap(progress(task@, 0).1),
    {
        progress_of(task, 0)
    }

    /// The task tree as a markdown checklist, dated against today.
    pub fn export_markdown(&self) -> (r: String)
        ensures
            exists|d: int| r@ == md_list(self.forest(), Seq::empty(), d),
    {
        let d = today();
        self.export_markdown_on(&d)
    }

    /// The task tree as a markdown checklist, dated against `today` (see `md_list`).
    pub fn export_markdown_on(&self, today: &Date) -> (r: String)
        ensures
            r@ == md_list(self.forest(), Seq::empty(), today.day()),
    {
        proof {
            reveal_strlit("");
            assert(""@ =~= Seq::<char>::empty());
        }
        md_render(&self.tasks, "", today)
    }
}

} // verus!
