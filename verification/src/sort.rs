//! View-only sort orders for the task tree.
use vstd::prelude::*;
use crate::model::{Priority, Task, TaskView, forest_view};
use crate::text::{chars_of, lowercase, to_lowercase};

verus! {

#[derive(Clone, Copy, PartialEq, Eq, Debug, Hash, Structural)]
pub enum SortMode {
    Manual,
    Priority,
    DueDate,
    Title,
}

impl SortMode {
    /// The mode's name as shown to the user ("Manual", "Priority", "Due date", "Title").
    pub fn label(&self) -> (r: &'static str)
        ensures
            r@ == sort_label(*self),
    {
        match self {
            SortMode::Manual => "Manual",
            SortMode::Priority => "Priority",
            SortMode::DueDate => "Due date",
            SortMode::Title => "Title",
        }
    }

    /// The mode that follows this one when the user cycles sort modes.
    pub fn next(&self) -> (r: SortMode)
        ensures
            r == sort_next(*self),
    {
        match self {
            SortMode::Manual => SortMode::Priority,
            SortMode::Priority => SortMode::DueDate,
            SortMode::DueDate => SortMode::Title,
            SortMode::Title => SortMode::Manual,
        }
    }

    /// The default mode (`Manual`).
    pub fn default_mode() -> (r: SortMode)
        ensures
            r == SortMode::Manual,
    {
        SortMode::Manual
    }
}

pub open spec fn sort_label(m: SortMode) -> Seq<char> {
    match m {
        SortMode::Manual => "Manual"@,
        SortMode::Priority => "Priority"@,
        SortMode::DueDate => "Due date"@,
        SortMode::Title => "Title"@,
    }
}

pub open spec fn sort_next(m: SortMode) -> SortMode {
    match m {
        SortMode::Manual => SortMode::Priority,
        SortMode::Priority => SortMode::DueDate,
        SortMode::DueDate => SortMode::Title,
        SortMode::Title => SortMode::Manual,
    }
}

/// High sorts first, then Medium, then Low.
pub open spec fn rank(p: Priority) -> int {
    match p {
        Priority::High => 0,
        Priority::Medium => 1,
        Priority::Low => 2,
    }
}

pub fn priority_rank(p: &Priority) -> (r: u8)
    ensures
        r == rank(*p),
{
    match p {
        Priority::High => 0,
        Priority::Medium => 1,
        Priority::Low => 2,
    }
}

/// -1, 0 or 1 as `a` is below, equal to or above `b`.
pub open spec fn int_order(a: int, b: int) -> int {
    if a < b {
        -1
    } else if a > b {
        1
    } else {
        0
    }
}

/// Lexicographic comparison of character sequences by code point
/// (the order of `String`'s `Ord`).
pub open spec fn seq_order(a: Seq<char>, b: Seq<char>) -> int
    decreases a.len(),
{
    if a.len() == 0 && b.len() == 0 {
        0
    } else if a.len() == 0 {
        -1
    } else if b.len() == 0 {
        1
    } else if a[0] != b[0] {
        int_order(a[0] as int, b[0] as int)
    } else {
        seq_order(a.drop_first(), b.drop_first())
    }
}

/// Titles compared case-insensitively.
pub open spec fn title_order(a: TaskView, b: TaskView) -> int {
    seq_order(lowercase(a.title), lowercase(b.title))
}

/// How two tasks compare under a sort mode (-1, 0 or 1).
pub open spec fn task_order(a: TaskView, b: TaskView, mode: SortMode) -> int {
    match mode {
        SortMode::Manual => 0,
        SortMode::Priority => int_order(rank(a.priority), rank(b.priority)),
        SortMode::DueDate => match (a.due, b.due) {
            (Some(da), Some(db)) => int_order(da, db),
            (Some(_), None) => -1,
            (None, Some(_)) => 1,
            (None, None) => title_order(a, b),
        },
        SortMode::Title => title_order(a, b),
    }
}

proof fn lemma_seq_order_props(a: Seq<char>, b: Seq<char>)
    ensures
        seq_order(a, b) == -seq_order(b, a),
        -1 <= seq_order(a, b) <= 1,
    decreases a.len(),
{
    if a.len() > 0 && b.len() > 0 && a[0] == b[0] {
        lemma_seq_order_props(a.drop_first(), b.drop_first());
    }
}

proof fn lemma_seq_order_trans(a: Seq<char>, b: Seq<char>, c: Seq<char>)
    requires
        seq_order(a, b) < 0,
        seq_order(b, c) <= 0,
    ensures
        seq_order(a, c) < 0,
    decreases a.len(),
{
    if a.len() > 0 && b.len() > 0 && c.len() > 0 && a[0] == b[0] && b[0] == c[0] {
        lemma_seq_order_trans(a.drop_first(), b.drop_first(), c.drop_first());
    } else if b.len() == 0 && c.len() == 0 {
    }
}

proof fn lemma_seq_order_zero(a: Seq<char>, b: Seq<char>)
    requires
        seq_order(a, b) == 0,
    ensures
        a == b,
    decreases a.len(),
{
    if a.len() > 0 && b.len() > 0 {
        lemma_seq_order_zero(a.drop_first(), b.drop_first());
        assert(a =~= seq![a[0]] + a.drop_first());
        assert(b =~= seq![b[0]] + b.drop_first());
    }
}

/// Reversing the arguments reverses the comparison.
pub proof fn lemma_task_order_antisym(a: TaskView, b: TaskView, mode: SortMode)
    ensures
        task_order(a, b, mode) == -task_order(b, a, mode),
        -1 <= task_order(a, b, mode) <= 1,
{
    lemma_seq_order_props(lowercase(a.title), lowercase(b.title));
}

/// Below-then-not-above is below.
pub proof fn lemma_task_order_trans(a: TaskView, b: TaskView, c: TaskView, mode: SortMode)
    requires
        task_order(a, b, mode) < 0,
        task_order(b, c, mode) <= 0,
    ensures
        task_order(a, c, mode) < 0,
{
    match mode {
        SortMode::Title => {
            lemma_seq_order_trans(lowercase(a.title), lowercase(b.title), lowercase(c.title));
        },
        SortMode::DueDate => {
            if a.due is None && b.due is None && c.due is None {
                lemma_seq_order_trans(lowercase(a.title), lowercase(b.title), lowercase(c.title));
            }
        },
        _ => {},
    }
}

/// Lexicographic comparison of two character vectors.
fn compare_chars(a: &Vec<char>, b: &Vec<char>) -> (r: i8)
    ensures
        r == seq_order(a@, b@),
{
    let mut i: usize = 0;
    assert(a@.skip(0) =~= a@);
    assert(b@.skip(0) =~= b@);
    while i < a.len() && i < b.len() && a[i] == b[i]
        invariant
            i <= a@.len(),
            i <= b@.len(),
            seq_order(a@, b@) == seq_order(a@.skip(i as int), b@.skip(i as int)),
        decreases a@.len() - i,
    {
        assert(a@.skip(i as int).drop_first() =~= a@.skip(i + 1));
        assert(b@.skip(i as int).drop_first() =~= b@.skip(i + 1));
        i += 1;
    }
    if i == a.len() && i == b.len() {
        0
    } else if i == a.len() {
        -1
    } else if i == b.len() {
        1
    } else if a[i] < b[i] {
        -1
    } else {
        1
    }
}

/// How two tasks compare under `mode`: -1 when `a` sorts first, 1 when `b`
/// does, 0 when neither does.
pub fn compare_tasks_for_sort(a: &Task, b: &Task, mode: SortMode) -> (r: i8)
    ensures
        r == task_order(a@, b@, mode),
{
    match mode {
        SortMode::Manual => 0,
        SortMode::Priority => {
            let ra = priority_rank(&a.priority);
            let rb = priority_rank(&b.priority);
            if ra < rb {
                -1
            } else if ra > rb {
                1
            } else {
                0
            }
        },
        SortMode::DueDate => match (a.due, b.due) {
            (Some(da), Some(db)) => {
                let x = da.days();
                let y = db.days();
                if x < y {
                    -1
                } else if x > y {
                    1
                } else {
                    0
                }
            },
            (Some(_), None) => -1,
            (None, Some(_)) => 1,
            (None, None) => compare_titles(a, b),
        },
        SortMode::Title => compare_titles(a, b),
    }
}

fn compare_titles(a: &Task, b: &Task) -> (r: i8)
    ensures
        r == title_order(a@, b@),
{
    let la = to_lowercase(a.title.as_str());
    let lb = to_lowercase(b.title.as_str());
    let ca = chars_of(la.as_str());
    let cb = chars_of(lb.as_str());
    compare_chars(&ca, &cb)
}

/// Whether `r` orders the tasks `s` under `mode`: a permutation of the indices
/// `0..s.len()`, in non-decreasing order, with ties kept in index order.
pub open spec fn is_sorted_order(s: Seq<TaskView>, mode: SortMode, r: Seq<usize>) -> bool {
    &&& r.len() == s.len()
    &&& r.no_duplicates()
    &&& forall|k: int| 0 <= k < r.len() ==> #[trigger] r[k] < s.len()
    &&& forall|k: int, l: int|
        0 <= k < l < r.len() ==> task_order(s[#[trigger] r[k] as int], s[#[trigger] r[l] as int], mode)
            <= 0
    &&& forall|k: int, l: int|
        0 <= k < l < r.len() && task_order(s[#[trigger] r[k] as int], s[#[trigger] r[l] as int], mode)
            == 0 ==> r[k] < r[l]
}

/// Where insertion sort puts index `x` into the partial order `r`: before the
/// first entry at or after `from` that sorts strictly after `x`.
pub open spec fn insert_pos(s: Seq<TaskView>, r: Seq<usize>, x: int, mode: SortMode, from: int) -> int
    decreases r.len() - from,
{
    if from >= r.len() || from < 0 {
        r.len() as int
    } else if task_order(s[r[from] as int], s[x], mode) > 0 {
        from
    } else {
        insert_pos(s, r, x, mode, from + 1)
    }
}

/// The first `i` indices in stable sorted order.
pub open spec fn sorted_prefix(s: Seq<TaskView>, mode: SortMode, i: nat) -> Seq<usize>
    decreases i,
{
    if i == 0 {
        Seq::empty()
    } else {
        let r = sorted_prefix(s, mode, (i - 1) as nat);
        r.insert(insert_pos(s, r, i - 1, mode, 0), (i - 1) as usize)
    }
}

/// The order in which the tasks `s` are shown under `mode`.
pub open spec fn sort_order(s: Seq<TaskView>, mode: SortMode) -> Seq<usize> {
    if mode == SortMode::Manual {
        Seq::new(s.len(), |i: int| i as usize)
    } else {
        sorted_prefix(s, mode, s.len())
    }
}

/// The order in which the tasks are shown: their indices sorted by `mode`
/// (stable; `Manual` keeps the stored order). The tree itself is not touched.
pub fn sorted_indices(tasks: &Vec<Task>, mode: SortMode) -> (r: Vec<usize>)
    ensures
        is_sorted_order(forest_view(tasks@), mode, r@),
        r@ == sort_order(forest_view(tasks@), mode),
{
    let ghost s = forest_view(tasks@);
    let n = tasks.len();
    if mode == SortMode::Manual {
        let mut r: Vec<usize> = Vec::new();
        let mut i: usize = 0;
        while i < n
            invariant
                i <= n == tasks@.len(),
                r@ == Seq::new(i as nat, |k: int| k as usize),
            decreases n - i,
        {
            r.push(i);
            i += 1;
            assert(r@ =~= Seq::new(i as nat, |k: int| k as usize));
        }
        assert forall|k: int, l: int| 0 <= k < l < r@.len() implies r@[k] != r@[l] by {}
        return r;
    }
    let mut r: Vec<usize> = Vec::new();
    let mut i: usize = 0;
    while i < n
        invariant
            i <= n == tasks@.len(),
            s == forest_view(tasks@),
            r@ == sorted_prefix(s, mode, i as nat),
            r@.len() == i,
            r@.no_duplicates(),
            forall|k: int| 0 <= k < r@.len() ==> #[trigger] r@[k] < i,
            forall|k: int, l: int|
                0 <= k < l < r@.len() ==> task_order(s[#[trigger] r@[k] as int], s[#[trigger] r@[l] as int], mode)
                    <= 0,
            forall|k: int, l: int|
                0 <= k < l < r@.len() && task_order(s[#[trigger] r@[k] as int], s[#[trigger] r@[l] as int], mode)
                    == 0 ==> r@[k] < r@[l],
        decreases n - i,
    {
        let mut p: usize = 0;
        while p < r.len() && compare_tasks_for_sort(&tasks[r[p]], &tasks[i], mode) <= 0
            invariant
                p <= r@.len(),
                i < n == tasks@.len(),
                s == forest_view(tasks@),
                forall|k: int| 0 <= k < r@.len() ==> #[trigger] r@[k] < i,
                forall|k: int| 0 <= k < p ==> task_order(s[#[trigger] r@[k] as int], s[i as int], mode) <= 0,
                insert_pos(s, r@, i as int, mode, 0) == insert_pos(s, r@, i as int, mode, p as int),
            decreases r@.len() - p,
        {
            p += 1;
        }
        let ghost old_r = r@;
        assert(insert_pos(s, r@, i as int, mode, p as int) == p);
        proof {
            if p < old_r.len() {
                assert(task_order(s[old_r[p as int] as int], s[i as int], mode) > 0);
                lemma_task_order_antisym(s[old_r[p as int] as int], s[i as int], mode);
                assert forall|l: int| p <= l < old_r.len() implies task_order(
                    s[i as int],
                    s[#[trigger] old_r[l] as int],
                    mode,
                ) < 0 by {
                    if l > p {
                        lemma_task_order_trans(
                            s[i as int],
                            s[old_r[p as int] as int],
                            s[old_r[l] as int],
                            mode,
                        );
                    }
                }
            }
        }
        r.insert(p, i);
        proof {
            assert(r@ =~= old_r.subrange(0, p as int).push(i).add(old_r.subrange(p as int, old_r.len() as int)));
            assert forall|k: int, l: int|
                0 <= k < l < r@.len() implies task_order(s[#[trigger] r@[k] as int], s[#[trigger] r@[l] as int], mode)
                    <= 0 by {
                if k < p && l == p {
                } else if k == p && l > p {
                    assert(r@[l] == old_r[l - 1]);
                } else if k < p && l > p {
                    assert(r@[l] == old_r[l - 1]);
                } else if k > p {
                    assert(r@[k] == old_r[k - 1]);
                    assert(r@[l] == old_r[l - 1]);
                }
            }
            assert forall|k: int, l: int|
                0 <= k < l < r@.len() && task_order(s[#[trigger] r@[k] as int], s[#[trigger] r@[l] as int], mode)
                    == 0 implies r@[k] < r@[l] by {
                if k < p && l == p {
                } else if k == p && l > p {
                    assert(r@[l] == old_r[l - 1]);
                } else if k < p && l > p {
                    assert(r@[l] == old_r[l - 1]);
                } else if k > p {
                    assert(r@[k] == old_r[k - 1]);
                    assert(r@[l] == old_r[l - 1]);
                }
            }
            assert forall|k: int, l: int| 0 <= k < l < r@.len() implies r@[k] != r@[l] by {
                if k < p && l == p {
                } else if k == p && l > p {
                    assert(r@[l] == old_r[l - 1]);
                } else if k < p && l > p {
                    assert(r@[l] == old_r[l - 1]);
                } else if k > p {
                    assert(r@[k] == old_r[k - 1]);
                    assert(r@[l] == old_r[l - 1]);
                }
            }
            assert forall|k: int| 0 <= k < r@.len() implies #[trigger] r@[k] < i + 1 by {
                if k > p {
                    assert(r@[k] == old_r[k - 1]);
                }
            }
        }
        i += 1;
    }
    assert(s.len() == n);
    r
}

} // verus!
