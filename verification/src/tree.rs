//! The tree of draw lists: which lists lie below a list, when the lists
//! below a root form a tree, and what the draw order of a tree holds.

use vstd::prelude::*;
use vstd::seq_lib::{lemma_no_dup_in_concat, lemma_seq_concat_contains_all_elements};
use crate::drawlist::DrawListModel;
use crate::traversal::{draw_order, order_upto, slot_order, DrawRef};

verus! {

/// Whether slot `k` of list `a` is live and refers to a child list.
pub open spec fn is_ref(lists: Seq<DrawListModel>, a: usize, k: int) -> bool {
    a < lists.len() && 0 <= k < lists[a as int].draws_len && lists[a as int].draws[k].sub_list_id
        != 0
}

/// The list that slot `k` of list `a` refers to.
pub open spec fn child(lists: Seq<DrawListModel>, a: usize, k: int) -> usize {
    lists[a as int].draws[k].sub_list_id
}

/// Whether `at` is a live leaf batch.
pub open spec fn is_live_leaf(lists: Seq<DrawListModel>, at: DrawRef) -> bool {
    &&& at.draw_list_id < lists.len()
    &&& at.draw_id < lists[at.draw_list_id as int].draws_len
    &&& lists[at.draw_list_id as int].draws[at.draw_id as int].sub_list_id == 0
}

/// Whether list `x` lies below list `a`: it is `a`, or it is reached from
/// `a` through at most `depth` references of live slots.
pub open spec fn below(lists: Seq<DrawListModel>, a: usize, x: usize, depth: nat) -> bool
    decreases depth,
{
    a == x || (depth > 0 && exists|k: int| #[trigger]
        is_ref(lists, a, k) && below(lists, child(lists, a, k), x, (depth - 1) as nat))
}

/// Whether everything below list `a` is there and is reached within
/// `depth` references: `a` exists and is well formed, and each child that a
/// live slot refers to exists and is closed within one reference less. No
/// list below a closed list refers back to a list above it.
pub open spec fn closed(lists: Seq<DrawListModel>, a: usize, depth: nat) -> bool
    decreases depth,
{
    &&& a < lists.len()
    &&& lists[a as int].wf()
    &&& lists[a as int].draws.len() <= usize::MAX
    &&& forall|k: int| #[trigger]
        is_ref(lists, a, k) ==> {
            &&& depth > 0
            &&& child(lists, a, k) < lists.len()
            &&& closed(lists, child(lists, a, k), (depth - 1) as nat)
        }
}

/// Whether the lists below `root` form a tree: they are closed within
/// `depth` references, and no list is referred to by two live slots of lists
/// below `root`.
pub open spec fn is_tree(lists: Seq<DrawListModel>, root: usize, depth: nat) -> bool {
    &&& closed(lists, root, depth)
    &&& forall|p: usize, i: int, q: usize, j: int|
        #![trigger is_ref(lists, p, i), is_ref(lists, q, j)]
        below(lists, root, p, depth) && below(lists, root, q, depth) && is_ref(lists, p, i)
            && is_ref(lists, q, j) && child(lists, p, i) == child(lists, q, j) ==> p == q && i
            == j
}

proof fn lemma_closed_deeper(lists: Seq<DrawListModel>, a: usize, depth: nat)
    requires
        closed(lists, a, depth),
    ensures
        closed(lists, a, depth + 1),
    decreases depth,
{
    assert forall|k: int| #[trigger] is_ref(lists, a, k) implies closed(
        lists,
        child(lists, a, k),
        depth,
    ) by {
        lemma_closed_deeper(lists, child(lists, a, k), (depth - 1) as nat);
    }
}

proof fn lemma_closed_below(lists: Seq<DrawListModel>, a: usize, x: usize, depth: nat, e: nat)
    requires
        closed(lists, a, depth),
        below(lists, a, x, e),
    ensures
        closed(lists, x, depth),
        below(lists, a, x, depth),
        a != x ==> depth > 0 && closed(lists, x, (depth - 1) as nat),
    decreases e,
{
    if a != x {
        let k = choose|k: int| #[trigger]
            is_ref(lists, a, k) && below(lists, child(lists, a, k), x, (e - 1) as nat);
        let c = child(lists, a, k);
        lemma_closed_below(lists, c, x, (depth - 1) as nat, (e - 1) as nat);
        lemma_closed_deeper(lists, x, (depth - 1) as nat);
    }
}

proof fn lemma_below_chain(
    lists: Seq<DrawListModel>,
    a: usize,
    b: usize,
    x: usize,
    depth: nat,
    d1: nat,
    d2: nat,
)
    requires
        closed(lists, a, depth),
        below(lists, a, b, d1),
        below(lists, b, x, d2),
    ensures
        below(lists, a, x, depth),
    decreases d1,
{
    if a == b {
        lemma_closed_below(lists, a, x, depth, d2);
    } else {
        let k = choose|k: int| #[trigger]
            is_ref(lists, a, k) && below(lists, child(lists, a, k), b, (d1 - 1) as nat);
        lemma_below_chain(
            lists,
            child(lists, a, k),
            b,
            x,
            (depth - 1) as nat,
            (d1 - 1) as nat,
            d2,
        );
    }
}

/// A closed list is not below any of its children.
proof fn lemma_no_way_back(lists: Seq<DrawListModel>, a: usize, k: int, depth: nat, e: nat)
    requires
        closed(lists, a, depth),
        is_ref(lists, a, k),
    ensures
        !below(lists, child(lists, a, k), a, e),
    decreases depth,
{
    let c = child(lists, a, k);
    if below(lists, c, a, e) {
        lemma_closed_below(lists, c, a, (depth - 1) as nat, e);
        lemma_no_way_back(lists, a, k, (depth - 1) as nat, e);
    }
}

/// A list below `a` other than `a` is referred to by a live slot of a list
/// below `a`.
proof fn lemma_last_reference(lists: Seq<DrawListModel>, a: usize, x: usize, e: nat) -> (r: (
    usize,
    int,
))
    requires
        below(lists, a, x, e),
        a != x,
    ensures
        e > 0,
        below(lists, a, r.0, (e - 1) as nat),
        is_ref(lists, r.0, r.1),
        child(lists, r.0, r.1) == x,
    decreases e,
{
    let k = choose|k: int| #[trigger]
        is_ref(lists, a, k) && below(lists, child(lists, a, k), x, (e - 1) as nat);
    let c = child(lists, a, k);
    if c == x {
        (a, k)
    } else {
        let r = lemma_last_reference(lists, c, x, (e - 1) as nat);
        assert(is_ref(lists, a, k) && below(lists, child(lists, a, k), r.0, (e - 2) as nat));
        r
    }
}

/// In a tree, two lists that have a list below them in common lie one
/// below the other.
proof fn lemma_common_descendant(
    lists: Seq<DrawListModel>,
    root: usize,
    depth: nat,
    a: usize,
    b: usize,
    x: usize,
    e1: nat,
    e2: nat,
)
    requires
        is_tree(lists, root, depth),
        below(lists, root, a, depth),
        below(lists, root, b, depth),
        below(lists, a, x, e1),
        below(lists, b, x, e2),
    ensures
        below(lists, a, b, depth) || below(lists, b, a, depth),
    decreases e1,
{
    if x == a {
        lemma_closed_below(lists, root, b, depth, depth);
        lemma_closed_below(lists, b, a, depth, e2);
    } else if x == b {
        lemma_closed_below(lists, root, a, depth, depth);
        lemma_closed_below(lists, a, b, depth, e1);
    } else {
        let p = lemma_last_reference(lists, a, x, e1);
        let q = lemma_last_reference(lists, b, x, e2);
        lemma_below_chain(lists, root, a, p.0, depth, depth, (e1 - 1) as nat);
        lemma_below_chain(lists, root, b, q.0, depth, depth, (e2 - 1) as nat);
        assert(is_ref(lists, p.0, p.1) && is_ref(lists, q.0, q.1));
        assert(p.0 == q.0);
        lemma_common_descendant(
            lists,
            root,
            depth,
            a,
            b,
            p.0,
            (e1 - 1) as nat,
            (e2 - 1) as nat,
        );
    }
}

/// In a tree, the lists below two children of one list have nothing in
/// common.
proof fn lemma_children_apart(
    lists: Seq<DrawListModel>,
    root: usize,
    depth: nat,
    a: usize,
    j: int,
    k: int,
    x: usize,
    e1: nat,
    e2: nat,
)
    requires
        is_tree(lists, root, depth),
        below(lists, root, a, depth),
        is_ref(lists, a, j),
        is_ref(lists, a, k),
        j != k,
    ensures
        !(below(lists, child(lists, a, j), x, e1) && below(lists, child(lists, a, k), x, e2)),
{
    let cj = child(lists, a, j);
    let ck = child(lists, a, k);
    if below(lists, cj, x, e1) && below(lists, ck, x, e2) {
        lemma_closed_below(lists, root, a, depth, depth);
        assert(below(lists, a, cj, 1)) by {
            assert(is_ref(lists, a, j) && below(lists, child(lists, a, j), cj, 0));
        }
        assert(below(lists, a, ck, 1)) by {
            assert(is_ref(lists, a, k) && below(lists, child(lists, a, k), ck, 0));
        }
        lemma_below_chain(lists, root, a, cj, depth, depth, 1);
        lemma_below_chain(lists, root, a, ck, depth, depth, 1);
        lemma_common_descendant(lists, root, depth, cj, ck, x, e1, e2);
        assert(is_ref(lists, a, j) && is_ref(lists, a, k));
        assert(cj != ck);
        if below(lists, cj, ck, depth) {
            let p = lemma_last_reference(lists, cj, ck, depth);
            lemma_below_chain(lists, root, cj, p.0, depth, depth, (depth - 1) as nat);
            assert(is_ref(lists, p.0, p.1) && is_ref(lists, a, k));
            assert(p.0 == a);
            lemma_no_way_back(lists, a, j, depth, (depth - 1) as nat);
        } else {
            let p = lemma_last_reference(lists, ck, cj, depth);
            lemma_below_chain(lists, root, ck, p.0, depth, depth, (depth - 1) as nat);
            assert(is_ref(lists, p.0, p.1) && is_ref(lists, a, j));
            assert(p.0 == a);
            lemma_no_way_back(lists, a, k, depth, (depth - 1) as nat);
        }
    }
}

/// Whether `at` is a live leaf batch in one of the first `m` slots of
/// list `a`, or below a child that one of them refers to.
spec fn in_upto(lists: Seq<DrawListModel>, a: usize, m: int, depth: nat, at: DrawRef) -> bool {
    is_live_leaf(lists, at) && ((at.draw_list_id == a && at.draw_id < m) || (depth > 0
        && exists|k: int|
        0 <= k < m && #[trigger] is_ref(lists, a, k) && below(
            lists,
            child(lists, a, k),
            at.draw_list_id,
            (depth - 1) as nat,
        )))
}

proof fn lemma_in_upto_whole(lists: Seq<DrawListModel>, a: usize, depth: nat, at: DrawRef)
    requires
        a < lists.len(),
    ensures
        in_upto(lists, a, lists[a as int].draws_len as int, depth, at) <==> is_live_leaf(lists, at)
            && below(lists, a, at.draw_list_id, depth),
{
    let m = lists[a as int].draws_len as int;
    let x = at.draw_list_id;
    if is_live_leaf(lists, at) && below(lists, a, x, depth) && a != x {
        let k = choose|k: int| #[trigger]
            is_ref(lists, a, k) && below(lists, child(lists, a, k), x, (depth - 1) as nat);
        assert(0 <= k < m && is_ref(lists, a, k));
    }
}

proof fn lemma_order_upto(
    lists: Seq<DrawListModel>,
    root: usize,
    n: nat,
    a: usize,
    m: int,
    depth: nat,
)
    requires
        is_tree(lists, root, n),
        below(lists, root, a, n),
        closed(lists, a, depth),
        0 <= m <= lists[a as int].draws_len,
    ensures
        order_upto(lists, a, m, depth).no_duplicates(),
        forall|at: DrawRef| #[trigger]
            order_upto(lists, a, m, depth).contains(at) <==> in_upto(lists, a, m, depth, at),
    decreases depth, m,
{
    let order = order_upto(lists, a, m, depth);
    if m > 0 {
        let k = m - 1;
        let prev = order_upto(lists, a, k, depth);
        let slot = slot_order(lists, a, k, depth);
        lemma_order_upto(lists, root, n, a, k, depth);
        if lists[a as int].draws[k].sub_list_id == 0 {
            let leaf = DrawRef { draw_list_id: a, draw_id: k as usize };
            assert(slot =~= seq![leaf]);
            assert forall|i: int, j: int| 0 <= i < prev.len() && 0 <= j < slot.len() implies prev[i]
                != slot[j] by {
                if prev[i] == leaf {
                    assert(prev.contains(leaf));
                    assert(in_upto(lists, a, k, depth, leaf));
                    let r = choose|r: int|
                        0 <= r < k && #[trigger] is_ref(lists, a, r) && below(
                            lists,
                            child(lists, a, r),
                            a,
                            (depth - 1) as nat,
                        );
                    lemma_no_way_back(lists, a, r, depth, (depth - 1) as nat);
                }
            }
            lemma_no_dup_in_concat(prev, slot);
            assert forall|at: DrawRef| #[trigger] order.contains(at) <==> in_upto(
                lists,
                a,
                m,
                depth,
                at,
            ) by {
                lemma_seq_concat_contains_all_elements(prev, slot, at);
                assert(slot.contains(at) <==> at == leaf) by {
                    if at == leaf {
                        assert(slot[0] == at);
                    }
                }
                if in_upto(lists, a, m, depth, at) && !(at.draw_list_id == a && at.draw_id < m) {
                    let r = choose|r: int|
                        0 <= r < m && #[trigger] is_ref(lists, a, r) && below(
                            lists,
                            child(lists, a, r),
                            at.draw_list_id,
                            (depth - 1) as nat,
                        );
                    assert(0 <= r < k && is_ref(lists, a, r));
                }
                if in_upto(lists, a, k, depth, at) && !(at.draw_list_id == a && at.draw_id < k) {
                    let r = choose|r: int|
                        0 <= r < k && #[trigger] is_ref(lists, a, r) && below(
                            lists,
                            child(lists, a, r),
                            at.draw_list_id,
                            (depth - 1) as nat,
                        );
                    assert(0 <= r < m && is_ref(lists, a, r));
                }
            }
        } else {
            let c = child(lists, a, k);
            assert(is_ref(lists, a, k));
            let below_c = (depth - 1) as nat;
            let whole = lists[c as int].draws_len as int;
            assert(slot == order_upto(lists, c, whole, below_c));
            lemma_closed_below(lists, root, a, n, n);
            assert(below(lists, a, c, 1)) by {
                assert(is_ref(lists, a, k) && below(lists, child(lists, a, k), c, 0));
            }
            lemma_below_chain(lists, root, a, c, n, n, 1);
            lemma_order_upto(lists, root, n, c, whole, below_c);
            assert forall|at: DrawRef| #[trigger] slot.contains(at) <==> is_live_leaf(lists, at)
                && below(lists, c, at.draw_list_id, below_c) by {
                lemma_in_upto_whole(lists, c, below_c, at);
            }
            assert forall|i: int, j: int| 0 <= i < prev.len() && 0 <= j < slot.len() implies prev[i]
                != slot[j] by {
                let at = prev[i];
                if at == slot[j] {
                    assert(prev.contains(at));
                    assert(slot.contains(at));
                    assert(in_upto(lists, a, k, depth, at));
                    if at.draw_list_id == a {
                        lemma_no_way_back(lists, a, k, depth, below_c);
                    } else {
                        let r = choose|r: int|
                            0 <= r < k && #[trigger] is_ref(lists, a, r) && below(
                                lists,
                                child(lists, a, r),
                                at.draw_list_id,
                                below_c,
                            );
                        lemma_children_apart(
                            lists,
                            root,
                            n,
                            a,
                            r,
                            k,
                            at.draw_list_id,
                            below_c,
                            below_c,
                        );
                    }
                }
            }
            lemma_no_dup_in_concat(prev, slot);
            assert forall|at: DrawRef| #[trigger] order.contains(at) <==> in_upto(
                lists,
                a,
                m,
                depth,
                at,
            ) by {
                lemma_seq_concat_contains_all_elements(prev, slot, at);
                if in_upto(lists, a, m, depth, at) && !(at.draw_list_id == a && at.draw_id < m) {
                    let r = choose|r: int|
                        0 <= r < m && #[trigger] is_ref(lists, a, r) && below(
                            lists,
                            child(lists, a, r),
                            at.draw_list_id,
                            below_c,
                        );
                    if r < k {
                        assert(0 <= r < k && is_ref(lists, a, r));
                    }
                }
                if in_upto(lists, a, k, depth, at) && !(at.draw_list_id == a && at.draw_id < k) {
                    let r = choose|r: int|
                        0 <= r < k && #[trigger] is_ref(lists, a, r) && below(
                            lists,
                            child(lists, a, r),
                            at.draw_list_id,
                            below_c,
                        );
                    assert(0 <= r < m && is_ref(lists, a, r));
                }
                if slot.contains(at) {
                    assert(0 <= k < m && is_ref(lists, a, k));
                }
            }
        }
    }
}

/// The draw order of a tree holds every live leaf batch of every list below
/// the root, each exactly once, and nothing else. Its order is the
/// depth-first pre-order that `draw_order` defines.
pub proof fn lemma_draw_order_of_tree(lists: Seq<DrawListModel>, root: usize, depth: nat)
    requires
        is_tree(lists, root, depth),
    ensures
        draw_order(lists, root, depth).no_duplicates(),
        forall|at: DrawRef| #[trigger]
            draw_order(lists, root, depth).contains(at) <==> is_live_leaf(lists, at) && below(
                lists,
                root,
                at.draw_list_id,
                depth,
            ),
{
    let whole = lists[root as int].draws_len as int;
    lemma_order_upto(lists, root, depth, root, whole, depth);
    assert forall|at: DrawRef| #[trigger]
        draw_order(lists, root, depth).contains(at) <==> is_live_leaf(lists, at) && below(
            lists,
            root,
            at.draw_list_id,
            depth,
        ) by {
        lemma_in_upto_whole(lists, root, depth, at);
    }
}

proof fn lemma_order_one_deeper(lists: Seq<DrawListModel>, a: usize, m: int, depth: nat)
    requires
        closed(lists, a, depth),
        0 <= m <= lists[a as int].draws_len,
    ensures
        order_upto(lists, a, m, depth + 1) == order_upto(lists, a, m, depth),
    decreases depth, m,
{
    if m > 0 {
        let k = m - 1;
        lemma_order_one_deeper(lists, a, k, depth);
        if lists[a as int].draws[k].sub_list_id != 0 {
            let c = child(lists, a, k);
            let whole = lists[c as int].draws_len as int;
            assert(is_ref(lists, a, k));
            lemma_order_one_deeper(lists, c, whole, (depth - 1) as nat);
            assert(slot_order(lists, a, k, depth + 1) == order_upto(lists, c, whole, depth));
            assert(slot_order(lists, a, k, depth) == order_upto(
                lists,
                c,
                whole,
                (depth - 1) as nat,
            ));
        }
        assert(slot_order(lists, a, k, depth + 1) == slot_order(lists, a, k, depth));
    }
}

/// For a tree, the depth that the draw order may descend to plays no part
/// once it reaches the leaves: a tree within `depth` references is a tree
/// within any greater number, and its draw order is the same.
pub proof fn lemma_tree_at_greater_depth(
    lists: Seq<DrawListModel>,
    root: usize,
    depth: nat,
    deeper: nat,
)
    requires
        is_tree(lists, root, depth),
        depth <= deeper,
    ensures
        is_tree(lists, root, deeper),
        draw_order(lists, root, deeper) == draw_order(lists, root, depth),
    decreases deeper - depth,
{
    if depth < deeper {
        lemma_closed_deeper(lists, root, depth);
        assert forall|p: usize| below(lists, root, p, depth + 1) implies below(
            lists,
            root,
            p,
            depth,
        ) by {
            lemma_closed_below(lists, root, p, depth, depth + 1);
        }
        lemma_order_one_deeper(lists, root, lists[root as int].draws_len as int, depth);
        assert(is_tree(lists, root, depth + 1));
        lemma_tree_at_greater_depth(lists, root, depth + 1, deeper);
    }
}

/// Whether two arenas have the same tree: the same lists, with the same
/// slots live, and each slot a leaf in both or a reference to the same child.
pub open spec fn same_tree(a: Seq<DrawListModel>, b: Seq<DrawListModel>) -> bool {
    &&& a.len() == b.len()
    &&& forall|l: int|
        0 <= l < a.len() ==> {
            &&& (#[trigger] a[l]).draws_len == b[l].draws_len
            &&& a[l].draws.len() == b[l].draws.len()
            &&& forall|k: int|
                0 <= k < a[l].draws.len() ==> (#[trigger] a[l].draws[k]).sub_list_id
                    == b[l].draws[k].sub_list_id
        }
}

proof fn lemma_same_tree_same_order_upto(
    a: Seq<DrawListModel>,
    b: Seq<DrawListModel>,
    id: usize,
    m: int,
    depth: nat,
)
    requires
        same_tree(a, b),
        forall|l: int| 0 <= l < a.len() ==> (#[trigger] a[l]).wf(),
        id < a.len(),
        0 <= m <= a[id as int].draws_len,
    ensures
        order_upto(a, id, m, depth) == order_upto(b, id, m, depth),
    decreases depth, m,
{
    if m > 0 {
        let k = m - 1;
        lemma_same_tree_same_order_upto(a, b, id, k, depth);
        let sub = a[id as int].draws[k].sub_list_id;
        assert(a[id as int].wf());
        assert(b[id as int].draws[k].sub_list_id == sub);
        if sub != 0 && depth > 0 && sub < a.len() {
            assert(a[sub as int].wf());
            lemma_same_tree_same_order_upto(
                a,
                b,
                sub,
                a[sub as int].draws_len as int,
                (depth - 1) as nat,
            );
        }
        assert(slot_order(a, id, k, depth) == slot_order(b, id, k, depth));
    }
}

/// The draw order goes by the tree alone: well-formed arenas with the same
/// tree have the same draw order, whatever their batches hold. Submitting a
/// batch leaves the tree as it is, so the order in which a repaint draws is
/// the order that was there when it began.
pub proof fn lemma_draw_order_goes_by_the_tree(
    a: Seq<DrawListModel>,
    b: Seq<DrawListModel>,
    root: usize,
    depth: nat,
)
    requires
        same_tree(a, b),
        forall|l: int| 0 <= l < a.len() ==> (#[trigger] a[l]).wf(),
    ensures
        draw_order(a, root, depth) == draw_order(b, root, depth),
{
    if root < a.len() {
        lemma_same_tree_same_order_upto(a, b, root, a[root as int].draws_len as int, depth);
    }
}

} // verus!
