//! What the tree view lists: the quick filters, the live search and the
//! sort modes, stated over all tasks and all trees.
use vstd::prelude::*;
use crate::model::{Priority, TaskView, task_matches};
use crate::text::has_substring;
use crate::forest::forest_at;
use crate::sort::{SortMode, insert_pos, is_sorted_order, sort_order, sorted_prefix, task_order};
use crate::app::state::{App, VisibleItemView};
use crate::app::visibility::{
    VisCtx, ctx_of, included, refocus, rows_of, shown, vis_item, vis_list, vis_prefix,
};
use crate::laws::{lists_fit, lemma_vec_lists_fit};

verus! {

/// The overdue-or-today filter lets through exactly the tasks due today or
/// earlier: with it on and the other quick filters off, a task passes when
/// it has a due date on or before `today`, and not otherwise.
pub proof fn law_overdue_or_today_filter(t: TaskView, c: VisCtx)
    requires
        c.only_due,
        !c.hide_done,
        !c.only_high,
    ensures
        included(t, c) <==> (t.due matches Some(d) && d <= c.today),
        t.due == Some(c.today) ==> included(t, c),
{
}

/// The quick filters drop a task only for the reason they name: hiding done
/// tasks drops exactly the done ones, high-only drops exactly the tasks not
/// of high priority, and with no quick filter every task passes.
pub proof fn law_quick_filters_drop_only_their_tasks(t: TaskView, c: VisCtx)
    ensures
        !c.hide_done && !c.only_high && !c.only_due ==> included(t, c),
        c.hide_done && !c.only_high && !c.only_due ==> (included(t, c) <==> t.status
            != crate::model::Status::Done),
        !c.hide_done && c.only_high && !c.only_due ==> (included(t, c) <==> t.priority
            == crate::model::Priority::High),
{
}

/// A task matches a non-empty (lower-case) search when its lower-cased
/// title, description or one of its lower-cased tags holds the search text,
/// and only then; the empty search matches every task.
pub proof fn law_search_matches_title_desc_or_tag(t: TaskView, q: Seq<char>)
    ensures
        q.len() == 0 ==> task_matches(t, q),
        has_substring(crate::text::lowercase(t.title), q) ==> task_matches(t, q),
        has_substring(crate::text::lowercase(t.desc), q) ==> task_matches(t, q),
        forall|i: int|
            0 <= i < t.tags.len() && has_substring(crate::text::lowercase(#[trigger] t.tags[i]), q)
                ==> task_matches(t, q),
        task_matches(t, q) ==> (q.len() == 0 || has_substring(crate::text::lowercase(t.title), q)
            || has_substring(crate::text::lowercase(t.desc), q) || exists|i: int|
            0 <= i < t.tags.len() && has_substring(crate::text::lowercase(#[trigger] t.tags[i]), q)),
{
    assert forall|i: int|
        0 <= i < t.tags.len() && has_substring(crate::text::lowercase(#[trigger] t.tags[i]), q)
            implies task_matches(t, q) by {
        assert(crate::model::contains_insensitive_spec(t.tags[i], q));
    }
}

/// Under the due-date sort, two dated tasks compare as their due days do,
/// and a dated task comes before an undated one.
pub proof fn law_due_sort_compares_days(a: TaskView, b: TaskView)
    ensures
        a.due is Some && b.due is Some ==> (task_order(a, b, SortMode::DueDate) < 0 <==> a.due->0
            < b.due->0),
        a.due is Some && b.due is Some ==> (task_order(a, b, SortMode::DueDate) > 0 <==> a.due->0
            > b.due->0),
        a.due is Some && b.due is None ==> task_order(a, b, SortMode::DueDate) < 0,
{
}

/// In any order sorted by due date (as `sorted_indices` returns), a task
/// due earlier comes before a task due later, and dated tasks come before
/// undated ones.
pub proof fn law_due_sort_puts_earlier_first(s: Seq<TaskView>, r: Seq<usize>, k: int, l: int)
    requires
        is_sorted_order(s, SortMode::DueDate, r),
        0 <= k < r.len(),
        0 <= l < r.len(),
    ensures
        (s[r[k] as int].due matches Some(x) && s[r[l] as int].due matches Some(y) && x < y) ==> k
            < l,
        (s[r[k] as int].due is Some && s[r[l] as int].due is None) ==> k < l,
{
    if l < k {
        assert(task_order(s[r[l] as int], s[r[k] as int], SortMode::DueDate) <= 0);
    }
    if k == l {
        assert(r[k] == r[l]);
    }
}

/// The first `i` sorted indices hold every number below `i`.
proof fn lemma_sorted_prefix_covers(s: Seq<TaskView>, mode: SortMode, i: nat, j: int)
    requires
        i <= s.len() <= usize::MAX,
        0 <= j < i,
    ensures
        exists|k: int| 0 <= k < sorted_prefix(s, mode, i).len() && sorted_prefix(s, mode, i)[k] == j,
    decreases i,
{
    let r = sorted_prefix(s, mode, (i - 1) as nat);
    crate::row_laws::lemma_sorted_prefix_perm(s, mode, (i - 1) as nat);
    let p = insert_pos(s, r, i - 1, mode, 0);
    crate::row_laws::lemma_insert_pos_range(s, r, i - 1, mode, 0);
    let x = (i - 1) as usize;
    let q = r.insert(p, x);
    r.insert_ensures(p, x);
    assert(q == sorted_prefix(s, mode, i));
    if j == i - 1 {
        assert(q[p] == j);
    } else {
        lemma_sorted_prefix_covers(s, mode, (i - 1) as nat, j);
        let k = choose|k: int| 0 <= k < r.len() && r[k] == j;
        if k < p {
            assert(q[k] == j);
        } else {
            assert(q[k + 1] == j);
        }
    }
}

/// The display order of a list holds each of its indices.
proof fn lemma_sort_order_covers(s: Seq<TaskView>, mode: SortMode, j: int)
    requires
        s.len() <= usize::MAX,
        0 <= j < s.len(),
    ensures
        exists|k: int| 0 <= k < sort_order(s, mode).len() && sort_order(s, mode)[k] == j,
{
    if mode == SortMode::Manual {
        assert(sort_order(s, mode).len() == s.len());
        assert(sort_order(s, mode)[j] == j);
    } else {
        lemma_sorted_prefix_covers(s, mode, s.len(), j);
        let r = sorted_prefix(s, mode, s.len());
        let k = choose|k: int| 0 <= k < r.len() && r[k] == j;
        assert(sort_order(s, mode)[k] == j);
    }
}

/// Each row of an entry of the order shows up among the rows of every longer prefix.
proof fn lemma_prefix_has_item(
    s: Seq<TaskView>,
    order: Seq<usize>,
    k: int,
    p: int,
    base: Seq<usize>,
    depth: int,
    c: VisCtx,
    j: int,
)
    requires
        0 <= p < k,
        0 <= j < vis_item(s, order, p, base, depth, c).len(),
    ensures
        exists|m: int|
            0 <= m < vis_prefix(s, order, k, base, depth, c).len() && vis_prefix(
                s,
                order,
                k,
                base,
                depth,
                c,
            )[m] == vis_item(s, order, p, base, depth, c)[j],
    decreases k,
{
    let x = vis_prefix(s, order, k - 1, base, depth, c);
    let y = vis_item(s, order, k - 1, base, depth, c);
    let rows = vis_prefix(s, order, k, base, depth, c);
    assert(rows == x + y);
    if p == k - 1 {
        assert(rows[x.len() + j] == y[j]);
    } else {
        lemma_prefix_has_item(s, order, k - 1, p, base, depth, c, j);
        let m = choose|m: int| 0 <= m < x.len() && x[m] == vis_item(s, order, p, base, depth, c)[j];
        assert(rows[m] == x[m]);
    }
}

/// Without focus, every root task that the filters (or the search) let
/// through gets a row of its own.
pub proof fn law_shown_root_task_gets_row(a: App, today: int, i: int)
    requires
        refocus(a.forest(), a.focus()) is None,
        0 <= i < a.forest().len(),
        shown(a.forest()[i], ctx_of(a, today)),
    ensures
        exists|k: int|
            0 <= k < rows_of(a, today).len() && (#[trigger] rows_of(a, today)[k]).path == seq![
                i as usize,
            ] && rows_of(a, today)[k].depth == 0,
{
    let s = a.forest();
    let c = ctx_of(a, today);
    assert(a.tasks@.len() <= usize::MAX) by {
        broadcast use vstd::std_specs::vec::group_vec_axioms;

        assert(a.tasks.len() == a.tasks@.len());
    }
    let order = sort_order(s, c.mode);
    crate::row_laws::lemma_sort_order_perm(s, c.mode);
    lemma_sort_order_covers(s, c.mode, i);
    let p = choose|p: int| 0 <= p < order.len() && order[p] == i;
    let item = vis_item(s, order, p, Seq::empty(), 0, c);
    assert(item[0] == VisibleItemView {
        path: Seq::<usize>::empty().push(i as usize),
        depth: 0,
        is_last: p == order.len() - 1,
    });
    lemma_prefix_has_item(s, order, order.len() as int, p, Seq::empty(), 0, c, 0);
    assert(Seq::<usize>::empty().push(i as usize) =~= seq![i as usize]);
    let rows = rows_of(a, today);
    assert(rows == vis_list(s, Seq::empty(), 0, c));
    let m = choose|m: int| 0 <= m < rows.len() && rows[m] == item[0];
    assert(rows[m].path == seq![i as usize]);
}

/// With the overdue-or-today filter on (and no search, no focus, no other
/// quick filter), a root task due today or earlier is listed.
pub proof fn law_due_root_task_listed(a: App, today: int, i: int)
    requires
        refocus(a.forest(), a.focus()) is None,
        ctx_of(a, today).search.len() == 0,
        a.filter.only_overdue_or_today,
        !a.filter.hide_done,
        !a.filter.only_high,
        0 <= i < a.forest().len(),
        a.forest()[i].due matches Some(d) && d <= today,
    ensures
        exists|k: int|
            0 <= k < rows_of(a, today).len() && (#[trigger] rows_of(a, today)[k]).path == seq![
                i as usize,
            ],
{
    law_shown_root_task_gets_row(a, today, i);
}

/// With a search active (and no focus), a root task whose lower-cased
/// description holds the search text is listed.
pub proof fn law_desc_match_listed(a: App, today: int, i: int)
    requires
        refocus(a.forest(), a.focus()) is None,
        0 <= i < a.forest().len(),
        ctx_of(a, today).search.len() > 0,
        has_substring(crate::text::lowercase(a.forest()[i].desc), ctx_of(a, today).search),
    ensures
        exists|k: int|
            0 <= k < rows_of(a, today).len() && (#[trigger] rows_of(a, today)[k]).path == seq![
                i as usize,
            ],
{
    law_search_matches_title_desc_or_tag(a.forest()[i], ctx_of(a, today).search);
    law_shown_root_task_gets_row(a, today, i);
}


/// Under the priority sort, High comes before Medium before Low, and tasks of
/// equal priority compare equal (they keep their stored order).
pub proof fn law_priority_sort_order(a: TaskView, b: TaskView)
    ensures
        a.priority == Priority::High && b.priority != Priority::High ==> task_order(
            a,
            b,
            SortMode::Priority,
        ) < 0,
        a.priority == Priority::Medium && b.priority == Priority::Low ==> task_order(
            a,
            b,
            SortMode::Priority,
        ) < 0,
        a.priority == b.priority ==> task_order(a, b, SortMode::Priority) == 0,
        task_order(a, b, SortMode::Priority) < 0 <==> task_order(b, a, SortMode::Priority) > 0,
{
}

/// Under the title sort, titles compare case-insensitively: equal lower-cased
/// titles compare equal, a lower-cased title that is a proper prefix of the
/// other comes first, and otherwise the first differing character decides.
pub proof fn law_title_sort_order(a: TaskView, b: TaskView, n: int)
    requires
        0 <= n <= crate::text::lowercase(a.title).len(),
        n <= crate::text::lowercase(b.title).len(),
        crate::text::lowercase(a.title).take(n) == crate::text::lowercase(b.title).take(n),
    ensures
        crate::text::lowercase(a.title) == crate::text::lowercase(b.title) ==> task_order(
            a,
            b,
            SortMode::Title,
        ) == 0,
        n == crate::text::lowercase(a.title).len() && n < crate::text::lowercase(b.title).len()
            ==> task_order(a, b, SortMode::Title) < 0,
        n < crate::text::lowercase(a.title).len() && n < crate::text::lowercase(b.title).len()
            && (crate::text::lowercase(a.title)[n] as int) < (crate::text::lowercase(b.title)[n] as int)
            ==> task_order(a, b, SortMode::Title) < 0,
{
    let x = crate::text::lowercase(a.title);
    let y = crate::text::lowercase(b.title);
    if x == y {
        lemma_seq_order_equal(x);
    }
    lemma_seq_order_common_prefix(x, y, n);
}

/// A text compares equal to itself.
proof fn lemma_seq_order_equal(x: Seq<char>)
    ensures
        crate::sort::seq_order(x, x) == 0,
    decreases x.len(),
{
    if x.len() > 0 {
        lemma_seq_order_equal(x.drop_first());
    }
}

/// Texts with a common prefix of length `n` compare as what follows it.
proof fn lemma_seq_order_common_prefix(x: Seq<char>, y: Seq<char>, n: int)
    requires
        0 <= n <= x.len(),
        n <= y.len(),
        x.take(n) == y.take(n),
    ensures
        crate::sort::seq_order(x, y) == crate::sort::seq_order(x.skip(n), y.skip(n)),
    decreases n,
{
    if n > 0 {
        assert(x[0] == x.take(n)[0] && y[0] == y.take(n)[0]);
        assert(x.drop_first().take(n - 1) =~= x.take(n).drop_first());
        assert(y.drop_first().take(n - 1) =~= y.take(n).drop_first());
        lemma_seq_order_common_prefix(x.drop_first(), y.drop_first(), n - 1);
        assert(x.drop_first().skip(n - 1) =~= x.skip(n));
        assert(y.drop_first().skip(n - 1) =~= y.skip(n));
    } else {
        assert(x.skip(0) =~= x);
        assert(y.skip(0) =~= y);
    }
}

/// The manual order shows the tasks as stored.
pub proof fn law_manual_order_is_stored_order(s: Seq<TaskView>)
    requires
        s.len() <= usize::MAX,
    ensures
        sort_order(s, SortMode::Manual).len() == s.len(),
        forall|k: int| 0 <= k < s.len() ==> sort_order(s, SortMode::Manual)[k] == k,
{
}


/// While a search is active the quick filters do not apply: a task is shown
/// when it matches the search or some task below it does (so the path down
/// to every match stays visible), and not when nothing in its subtree matches.
pub proof fn law_search_shows_matches_and_their_ancestors(t: TaskView, c: VisCtx, i: int)
    requires
        c.search.len() > 0,
    ensures
        task_matches(t, c.search) ==> shown(t, c),
        0 <= i < t.children.len() && crate::model::tree_has_match(t.children[i], c.search) ==> shown(
            t,
            c,
        ),
        !task_matches(t, c.search) && !crate::model::forest_has_match(t.children, c.search) ==> !shown(
            t,
            c,
        ),
{
    if 0 <= i < t.children.len() && crate::model::tree_has_match(t.children[i], c.search) {
        crate::model::lemma_forest_match_elem(t.children, i, c.search);
    }
}

} // verus!
