//! Sorting primitives along an axis by the `min` corner of their boxes.
use vstd::prelude::*;
use vstd::relations::sorted_by;
use vstd::relations::total_ordering;
use vstd::seq_lib::group_to_multiset_ensures;
use vstd::seq_lib::lemma_multiset_commutative;
use vstd::seq_lib::lemma_sorted_unique;
use crate::aabb::AABB;

verus! {

/// The key by which primitive `p` is sorted along `axis`: the key of the
/// `min` corner of its box on that axis.
pub open spec fn axis_key(boxes: Seq<AABB>, axis: usize, p: usize) -> int {
    boxes[p as int].min.spec_index(axis).spec_key()
}

/// Whether primitive `a` comes no later than primitive `b` along `axis`: its
/// key is smaller, or the keys agree and its index is not larger.
pub open spec fn ranks_before(boxes: Seq<AABB>, axis: usize, a: usize, b: usize) -> bool {
    let ka = axis_key(boxes, axis, a);
    let kb = axis_key(boxes, axis, b);
    ka < kb || (ka == kb && a <= b)
}

/// The order along `axis` as a relation.
pub open spec fn axis_order(boxes: Seq<AABB>, axis: usize) -> spec_fn(usize, usize) -> bool {
    |a: usize, b: usize| ranks_before(boxes, axis, a, b)
}

/// Whether every index in `items` names a box.
pub open spec fn all_within(items: Seq<usize>, n: nat) -> bool {
    forall|i: int| 0 <= i < items.len() ==> (#[trigger] items[i]) < n
}

/// The order along an axis is total: any two primitives are comparable, and
/// two that each come no later than the other are the same primitive.
pub proof fn lemma_axis_order_is_total(boxes: Seq<AABB>, axis: usize)
    ensures
        total_ordering(axis_order(boxes, axis)),
{
    let r = axis_order(boxes, axis);
    assert forall|x: usize, y: usize| #[trigger] r(x, y) || #[trigger] r(y, x) by {}
    assert forall|x: usize, y: usize, z: usize| #[trigger] r(x, y) && #[trigger] r(y, z) implies r(
        x,
        z,
    ) by {}
    assert forall|x: usize, y: usize| #[trigger] r(x, y) && #[trigger] r(y, x) implies x == y by {}
    assert forall|x: usize| #[trigger] r(x, x) by {}
}

fn comes_first(boxes: &Vec<AABB>, axis: usize, a: usize, b: usize) -> (r: bool)
    requires
        axis < 3,
        a < boxes@.len(),
        b < boxes@.len(),
    ensures
        r == ranks_before(boxes@, axis, a, b),
{
    let ka = boxes[a].min.index(axis).key();
    let kb = boxes[b].min.index(axis).key();
    ka < kb || (ka == kb && a <= b)
}

fn merge(boxes: &Vec<AABB>, axis: usize, left: &Vec<usize>, right: &Vec<usize>) -> (out: Vec<usize>)
    requires
        axis < 3,
        all_within(left@, boxes@.len()),
        all_within(right@, boxes@.len()),
        sorted_by(left@, axis_order(boxes@, axis)),
        sorted_by(right@, axis_order(boxes@, axis)),
    ensures
        sorted_by(out@, axis_order(boxes@, axis)),
        out@.to_multiset() =~= left@.to_multiset().add(right@.to_multiset()),
        all_within(out@, boxes@.len()),
{
    let ghost leq = axis_order(boxes@, axis);
    let mut out: Vec<usize> = Vec::new();
    let mut i: usize = 0;
    let mut j: usize = 0;
    proof {
        lemma_axis_order_is_total(boxes@, axis);
        assert(left@.subrange(0, 0) =~= Seq::<usize>::empty());
        assert(right@.subrange(0, 0) =~= Seq::<usize>::empty());
        assert(out@.to_multiset() =~= left@.subrange(0, 0).to_multiset().add(
            right@.subrange(0, 0).to_multiset(),
        )) by {
            broadcast use group_to_multiset_ensures;

        }
    }
    while i < left.len() || j < right.len()
        invariant
            axis < 3,
            leq == axis_order(boxes@, axis),
            total_ordering(leq),
            i <= left@.len(),
            j <= right@.len(),
            all_within(left@, boxes@.len()),
            all_within(right@, boxes@.len()),
            all_within(out@, boxes@.len()),
            sorted_by(left@, leq),
            sorted_by(right@, leq),
            sorted_by(out@, leq),
            forall|k: int| 0 <= k < out@.len() && i < left@.len() ==> leq(#[trigger] out@[k], left@[i as int]),
            forall|k: int|
                0 <= k < out@.len() && j < right@.len() ==> leq(#[trigger] out@[k], right@[j as int]),
            out@.to_multiset() =~= left@.subrange(0, i as int).to_multiset().add(
                right@.subrange(0, j as int).to_multiset(),
            ),
        decreases left@.len() - i + right@.len() - j,
    {
        let take_left = if i < left.len() && j < right.len() {
            comes_first(boxes, axis, left[i], right[j])
        } else {
            i < left.len()
        };
        if take_left {
            let x = left[i];
            proof {
                assert(left@.subrange(0, i + 1) =~= left@.subrange(0, i as int).push(x));
                broadcast use group_to_multiset_ensures;

            }
            out.push(x);
            i += 1;
            proof {
                assert forall|k: int| 0 <= k < out@.len() && i < left@.len() implies leq(
                    #[trigger] out@[k],
                    left@[i as int],
                ) by {
                    assert(leq(x, left@[i as int]));
                    if k < out@.len() - 1 {
                        assert(leq(out@[k], x));
                    }
                }
                assert forall|k: int| 0 <= k < out@.len() && j < right@.len() implies leq(
                    #[trigger] out@[k],
                    right@[j as int],
                ) by {
                    assert(leq(x, right@[j as int]));
                }
                assert forall|a: int, b: int| 0 <= a < b < out@.len() implies leq(
                    #[trigger] out@[a],
                    #[trigger] out@[b],
                ) by {
                    if b == out@.len() - 1 {
                        assert(leq(out@[a], x));
                    }
                }
            }
        } else {
            let x = right[j];
            proof {
                assert(right@.subrange(0, j + 1) =~= right@.subrange(0, j as int).push(x));
                broadcast use group_to_multiset_ensures;

            }
            out.push(x);
            j += 1;
            proof {
                assert forall|k: int| 0 <= k < out@.len() && j < right@.len() implies leq(
                    #[trigger] out@[k],
                    right@[j as int],
                ) by {
                    assert(leq(x, right@[j as int]));
                    if k < out@.len() - 1 {
                        assert(leq(out@[k], x));
                    }
                }
                assert forall|k: int| 0 <= k < out@.len() && i < left@.len() implies leq(
                    #[trigger] out@[k],
                    left@[i as int],
                ) by {
                    assert(leq(x, left@[i as int]));
                }
                assert forall|a: int, b: int| 0 <= a < b < out@.len() implies leq(
                    #[trigger] out@[a],
                    #[trigger] out@[b],
                ) by {
                    if b == out@.len() - 1 {
                        assert(leq(out@[a], x));
                    }
                }
            }
        }
    }
    proof {
        assert(left@.subrange(0, i as int) =~= left@);
        assert(right@.subrange(0, j as int) =~= right@);
    }
    out
}

/// Sorts primitives along an axis, by merging sorted halves.
pub fn sort_along(boxes: &Vec<AABB>, axis: usize, items: Vec<usize>) -> (out: Vec<usize>)
    requires
        axis < 3,
        all_within(items@, boxes@.len()),
    ensures
        out@ == items@.sort_by(axis_order(boxes@, axis)),
        out@.len() == items@.len(),
        all_within(out@, boxes@.len()),
    decreases items@.len(),
{
    let ghost leq = axis_order(boxes@, axis);
    let ghost whole = items@;
    proof {
        lemma_axis_order_is_total(boxes@, axis);
        whole.lemma_sort_by_ensures(leq);
    }
    if items.len() <= 1 {
        proof {
            lemma_sorted_unique(items@, whole.sort_by(leq), leq);
        }
        return items;
    }
    let mut left = items;
    let mid = left.len() / 2;
    let right = left.split_off(mid);
    proof {
        assert(whole =~= left@ + right@);
        lemma_multiset_commutative(left@, right@);
        left@.lemma_sort_by_ensures(leq);
        right@.lemma_sort_by_ensures(leq);
    }
    let left_sorted = sort_along(boxes, axis, left);
    let right_sorted = sort_along(boxes, axis, right);
    let out = merge(boxes, axis, &left_sorted, &right_sorted);
    proof {
        lemma_sorted_unique(out@, whole.sort_by(leq), leq);
        broadcast use group_to_multiset_ensures;

        assert(out@.len() == out@.to_multiset().len());
        assert(whole.len() == whole.to_multiset().len());
    }
    out
}

} // verus!
