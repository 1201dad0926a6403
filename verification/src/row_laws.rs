//! The shape of the rows the tree view lists: one row per path, nested rows
//! one level deeper than their parent row, and a list selection that points
//! at the selected task's row.
use vstd::prelude::*;
use crate::model::TaskView;
use crate::forest::forest_at;
use crate::laws::{lists_fit, lemma_vec_lists_fit};
use crate::sort::{SortMode, insert_pos, sort_order, sorted_prefix};
use crate::app::state::{App, VisibleItemView};
use crate::app::visibility::{
    VisCtx, first_row, focus_rows, rebuild_rel, lemma_rebuild_keeps, rows_of, vis_item, vis_list,
    vis_prefix, shown,
};

verus! {

/// Insertion sort inserts within the partial order.
pub proof fn lemma_insert_pos_range(s: Seq<TaskView>, r: Seq<usize>, x: int, mode: SortMode, from: int)
    ensures
        0 <= insert_pos(s, r, x, mode, from) <= r.len(),
    decreases r.len() - from,
{
    if !(from >= r.len() || from < 0) {
        lemma_insert_pos_range(s, r, x, mode, from + 1);
    }
}

/// The first `i` sorted indices are the numbers below `i`, each once.
pub proof fn lemma_sorted_prefix_perm(s: Seq<TaskView>, mode: SortMode, i: nat)
    requires
        i <= s.len() <= usize::MAX,
    ensures
        sorted_prefix(s, mode, i).len() == i,
        sorted_prefix(s, mode, i).no_duplicates(),
        forall|k: int| 0 <= k < i ==> #[trigger] sorted_prefix(s, mode, i)[k] < i,
    decreases i,
{
    if i > 0 {
        let r = sorted_prefix(s, mode, (i - 1) as nat);
        lemma_sorted_prefix_perm(s, mode, (i - 1) as nat);
        let p = insert_pos(s, r, i - 1, mode, 0);
        lemma_insert_pos_range(s, r, i - 1, mode, 0);
        let x = (i - 1) as usize;
        let q = r.insert(p, x);
        r.insert_ensures(p, x);
        assert(q == sorted_prefix(s, mode, i));
        assert(x == i - 1);
        assert forall|k: int| 0 <= k < i implies #[trigger] q[k] < i && (q[k] == x <==> k == p) by {
            if k < p {
                assert(q[k] == r[k]);
                assert(r[k] < i - 1);
            } else if k > p {
                assert(q[(k - 1) + 1] == r[k - 1]);
                assert(r[k - 1] < i - 1);
            }
        }
        assert forall|k: int, l: int| 0 <= k < q.len() && 0 <= l < q.len() && k != l implies q[k]
            != q[l] by {
            if k != p && l != p {
                let k1 = if k < p {
                    k
                } else {
                    k - 1
                };
                let l1 = if l < p {
                    l
                } else {
                    l - 1
                };
                if k < p {
                    assert(q[k] == r[k]);
                } else {
                    assert(q[(k - 1) + 1] == r[k - 1]);
                }
                if l < p {
                    assert(q[l] == r[l]);
                } else {
                    assert(q[(l - 1) + 1] == r[l - 1]);
                }
                assert(k1 != l1);
            }
        }
    }
}

/// The display order of a list holds each index of the list once.
pub proof fn lemma_sort_order_perm(s: Seq<TaskView>, mode: SortMode)
    requires
        s.len() <= usize::MAX,
    ensures
        sort_order(s, mode).len() == s.len(),
        sort_order(s, mode).no_duplicates(),
        forall|k: int| 0 <= k < s.len() ==> #[trigger] sort_order(s, mode)[k] < s.len(),
{
    if mode != SortMode::Manual {
        lemma_sorted_prefix_perm(s, mode, s.len());
    } else {
        let o = sort_order(s, mode);
        assert forall|k: int, l: int| 0 <= k < o.len() && 0 <= l < o.len() && k != l implies o[k]
            != o[l] by {}
    }
}

/// The children of each entry of a list that fits fit too.
pub proof fn lemma_lists_fit_elem(s: Seq<TaskView>, i: int)
    requires
        lists_fit(s),
        0 <= i < s.len(),
    ensures
        lists_fit(s[i].children),
    decreases s.len(),
{
    if i < s.len() - 1 {
        assert(s.drop_last()[i] == s[i]);
        lemma_lists_fit_elem(s.drop_last(), i);
    }
}

/// The children of the task a path leads to in a list that fits fit too.
pub proof fn lemma_lists_fit_at(s: Seq<TaskView>, p: Seq<usize>)
    requires
        lists_fit(s),
        forest_at(s, p) is Some,
    ensures
        lists_fit(forest_at(s, p)->0.children),
    decreases p.len(),
{
    lemma_lists_fit_elem(s, p[0] as int);
    if p.len() > 1 {
        lemma_lists_fit_at(s[p[0] as int].children, p.drop_first());
    }
}

/// Each row lies below `base`, and its depth is `depth` plus its distance below `base`, less one.
spec fn shaped(rows: Seq<VisibleItemView>, base: Seq<usize>, depth: int) -> bool {
    forall|j: int|
        0 <= j < rows.len() ==> {
            &&& (#[trigger] rows[j]).path.len() > base.len()
            &&& rows[j].path.take(base.len() as int) == base
            &&& rows[j].depth + base.len() + 1 == depth + rows[j].path.len()
        }
}

/// No two rows share a path.
pub open spec fn distinct_paths(rows: Seq<VisibleItemView>) -> bool {
    forall|i: int, j: int| 0 <= i < j < rows.len() ==> (#[trigger] rows[i]).path != (#[trigger] rows[j]).path
}

/// The rows of a list are shaped and distinct.
proof fn lemma_vis_list_shape(s: Seq<TaskView>, base: Seq<usize>, depth: int, c: VisCtx)
    requires
        lists_fit(s),
    ensures
        shaped(vis_list(s, base, depth, c), base, depth),
        distinct_paths(vis_list(s, base, depth, c)),
    decreases s, 2int, 0int,
{
    let order = sort_order(s, c.mode);
    lemma_sort_order_perm(s, c.mode);
    lemma_vis_prefix_shape(s, order, order.len() as int, base, depth, c);
}

/// The rows of the first `k` entries of an order without repeats are shaped
/// and distinct, and each starts below `base` with one of those entries.
proof fn lemma_vis_prefix_shape(
    s: Seq<TaskView>,
    order: Seq<usize>,
    k: int,
    base: Seq<usize>,
    depth: int,
    c: VisCtx,
)
    requires
        lists_fit(s),
        order.no_duplicates(),
        k <= order.len(),
    ensures
        shaped(vis_prefix(s, order, k, base, depth, c), base, depth),
        distinct_paths(vis_prefix(s, order, k, base, depth, c)),
        forall|j: int|
            0 <= j < vis_prefix(s, order, k, base, depth, c).len() ==> exists|q: int|
                0 <= q < k && #[trigger] (#[trigger] vis_prefix(s, order, k, base, depth, c)[j]).path[base.len() as int]
                    == order[q],
    decreases s, 1int, k,
{
    if k > 0 {
        lemma_vis_prefix_shape(s, order, k - 1, base, depth, c);
        lemma_vis_item_shape(s, order, k - 1, base, depth, c);
        let x = vis_prefix(s, order, k - 1, base, depth, c);
        let y = vis_item(s, order, k - 1, base, depth, c);
        let rows = vis_prefix(s, order, k, base, depth, c);
        let bl = base.len() as int;
        assert(rows == x + y);
        assert forall|j: int| 0 <= j < rows.len() implies ({
            &&& (#[trigger] rows[j]).path.len() > base.len()
            &&& rows[j].path.take(bl) == base
            &&& rows[j].depth + base.len() + 1 == depth + rows[j].path.len()
        }) && exists|q: int| 0 <= q < k && rows[j].path[bl] == order[q] by {
            if j < x.len() {
                assert(rows[j] == x[j]);
                let q = choose|q: int| 0 <= q < k - 1 && x[j].path[bl] == order[q];
                assert(0 <= q < k && rows[j].path[bl] == order[q]);
            } else {
                assert(rows[j] == y[j - x.len()]);
                assert(rows[j].path[bl] == order[k - 1]);
            }
        }
        assert forall|i: int, j: int| 0 <= i < j < rows.len() implies (#[trigger] rows[i]).path
            != (#[trigger] rows[j]).path by {
            if j < x.len() {
                assert(rows[i] == x[i] && rows[j] == x[j]);
            } else if i >= x.len() {
                assert(rows[i] == y[i - x.len()] && rows[j] == y[j - x.len()]);
            } else {
                assert(rows[i] == x[i] && rows[j] == y[j - x.len()]);
                let q = choose|q: int| 0 <= q < k - 1 && x[i].path[bl] == order[q];
                assert(rows[j].path[bl] == order[k - 1]);
                assert(order[q] != order[k - 1]);
            }
        }
    }
}

/// The rows of one entry of the order are shaped and distinct, and each
/// starts below `base` with that entry.
proof fn lemma_vis_item_shape(
    s: Seq<TaskView>,
    order: Seq<usize>,
    p: int,
    base: Seq<usize>,
    depth: int,
    c: VisCtx,
)
    requires
        lists_fit(s),
    ensures
        shaped(vis_item(s, order, p, base, depth, c), base, depth),
        distinct_paths(vis_item(s, order, p, base, depth, c)),
        forall|j: int|
            0 <= j < vis_item(s, order, p, base, depth, c).len() ==> (#[trigger] vis_item(
                s,
                order,
                p,
                base,
                depth,
                c,
            )[j]).path[base.len() as int] == order[p],
    decreases s, 0int, 0int,
{
    if 0 <= p < order.len() && order[p] < s.len() {
        let i = order[p];
        let t = s[i as int];
        let path = base.push(i);
        let bl = base.len() as int;
        let own: Seq<VisibleItemView> = if shown(t, c) {
            seq![VisibleItemView { path, depth, is_last: p == order.len() - 1 }]
        } else {
            Seq::empty()
        };
        let opened = depth < 128 && c.expanded.contains(t.id) && t.children.len() > 0;
        let below = if opened {
            vis_list(t.children, path, depth + 1, c)
        } else {
            Seq::empty()
        };
        let rows = vis_item(s, order, p, base, depth, c);
        assert(rows == own + below);
        assert(path.take(bl) =~= base);
        if opened {
            assert(decreases_to!(s => s[i as int]));
            assert(decreases_to!(s[i as int] => s[i as int].children));
            lemma_lists_fit_elem(s, i as int);
            lemma_vis_list_shape(t.children, path, depth + 1, c);
        }
        assert forall|j: int| 0 <= j < rows.len() implies ({
            &&& (#[trigger] rows[j]).path.len() > base.len()
            &&& rows[j].path.take(bl) == base
            &&& rows[j].depth + base.len() + 1 == depth + rows[j].path.len()
        }) && rows[j].path[bl] == i && (j >= own.len() ==> rows[j].path.len() > path.len()) by {
            if j < own.len() {
                assert(rows[j] == own[j]);
            } else {
                let r = below[j - own.len()];
                assert(rows[j] == r);
                assert(r.path.take(path.len() as int) == path);
                assert(r.path.take(bl) =~= r.path.take(path.len() as int).take(bl));
                assert(r.path[bl] == r.path.take(path.len() as int)[bl]);
            }
        }
        assert forall|a: int, b: int| 0 <= a < b < rows.len() implies (#[trigger] rows[a]).path
            != (#[trigger] rows[b]).path by {
            if a >= own.len() {
                assert(rows[a] == below[a - own.len()] && rows[b] == below[b - own.len()]);
            } else {
                assert(rows[a] == own[a]);
                assert(rows[b].path.len() > path.len());
            }
        }
    }
}

/// The first row with a given path has that path.
proof fn lemma_first_row(rows: Seq<VisibleItemView>, path: Seq<usize>)
    ensures
        first_row(rows, path) matches Some(i) ==> 0 <= i < rows.len() && rows[i].path == path,
    decreases rows.len(),
{
    if rows.len() > 0 {
        lemma_first_row(rows.drop_last(), path);
    }
}

/// The rows listed for `a`: no two share a path; without focus each row's
/// depth is its path length less one, and with focus on `fp` each row's
/// depth is its path length less that of `fp`.
pub proof fn law_rows_shape(a: App, today: int)
    ensures
        distinct_paths(rows_of(a, today)),
        forall|k: int|
            0 <= k < rows_of(a, today).len() ==> match crate::app::visibility::refocus(
                a.forest(),
                a.focus(),
            ) {
                None => (#[trigger] rows_of(a, today)[k]).depth + 1 == rows_of(a, today)[k].path.len(),
                Some(fp) => rows_of(a, today)[k].depth + fp.len() == rows_of(a, today)[k].path.len(),
            },
{
    let s = a.forest();
    let c = crate::app::visibility::ctx_of(a, today);
    let rows = rows_of(a, today);
    assert(a.tasks@.len() <= usize::MAX) by {
        broadcast use vstd::std_specs::vec::group_vec_axioms;

        assert(a.tasks.len() == a.tasks@.len());
    }
    lemma_vec_lists_fit(a.tasks@);
    match crate::app::visibility::refocus(s, a.focus()) {
        None => {
            lemma_vis_list_shape(s, Seq::empty(), 0, c);
        },
        Some(fp) => {
            match forest_at(s, fp) {
                Some(t) => {
                    let expanded = c.expanded.contains(t.id);
                    let below = if expanded && t.children.len() > 0 {
                        vis_list(t.children, fp, 1, c)
                    } else {
                        Seq::empty()
                    };
                    if expanded && t.children.len() > 0 {
                        lemma_lists_fit_at(s, fp);
                        lemma_vis_list_shape(t.children, fp, 1, c);
                    }
                    assert forall|k: int| 0 <= k < rows.len() implies #[trigger] rows[k].depth
                        + fp.len() == rows[k].path.len() && (k > 0 ==> rows[k].path.len()
                        > fp.len()) by {
                        if k > 0 {
                            assert(rows[k] == below[k - 1]);
                        }
                    }
                    assert forall|i: int, j: int| 0 <= i < j < rows.len() implies (
                    #[trigger] rows[i]).path != (#[trigger] rows[j]).path by {
                        if i > 0 {
                            assert(rows[i] == below[i - 1] && rows[j] == below[j - 1]);
                        }
                    }
                },
                None => {},
            }
        },
    }
}

/// What `rebuild_visible` leaves of the tree view: no two rows share a path;
/// without focus each row's depth is its path length less one (with focus on
/// `fp`, its path length less that of `fp`); when a row is selected and the
/// selection is not empty, that row shows the selected task; with no rows
/// nothing is selected; every row and a pending delete lead to a task.
pub proof fn law_rebuilt_rows_shape(pre: App, post: App, today: int)
    requires
        rebuild_rel(pre, post, today),
    ensures
        distinct_paths(post.rows()),
        forall|k: int|
            0 <= k < post.rows().len() ==> match post.focus() {
                None => (#[trigger] post.rows()[k]).depth + 1 == post.rows()[k].path.len(),
                Some(fp) => post.rows()[k].depth + fp.len() == post.rows()[k].path.len(),
            },
        forall|k: usize|
            post.tree.visible_state.selected == Some(k) && post.sel().len() > 0 ==> k
                < post.rows().len() && post.rows()[k as int].path == post.sel(),
        post.rows().len() == 0 ==> post.tree.visible_state.selected is None,
        post.pending() matches Some(p) ==> forest_at(post.forest(), p) is Some,
        forall|k: int|
            0 <= k < post.rows().len() ==> forest_at(post.forest(), (#[trigger] post.rows()[k]).path)
                is Some,
{
    lemma_rebuild_keeps(pre, post, today);
    crate::laws::law_rebuilt_rows_are_let_through(pre, post, today);
    assert forall|k: int| 0 <= k < post.rows().len() implies forest_at(
        post.forest(),
        (#[trigger] post.rows()[k]).path,
    ) is Some by {
        if post.focus() is Some && k == 0 {
            let fp = post.focus()->0;
            assert(post.rows() == focus_rows(pre.forest(), fp, crate::app::visibility::ctx_of(pre, today)));
        }
    }
    law_rows_shape(pre, today);
    let s = pre.forest();
    let sel1 = crate::app::visibility::reselect(s, pre.sel());
    let rows = post.rows();
    lemma_first_row(rows, sel1);
    assert(rows.len() <= usize::MAX) by {
        broadcast use vstd::std_specs::vec::group_vec_axioms;

        assert(post.tree.visible.len() == post.tree.visible@.len());
    }
    assert forall|k: usize|
        post.tree.visible_state.selected == Some(k) && post.sel().len() > 0 implies k < rows.len()
            && rows[k as int].path == post.sel() by {
        let exact = first_row(rows, sel1);
        if rows.len() > 0 {
            if exact is Some {
                let i = exact->0;
                assert(k == i as usize);
                assert(k == i);
            }
        }
    }
}

} // verus!
