//! What a build makes: a tree that holds every primitive once, whose boxes
//! are the unions of the boxes below them, and that is as shallow as a binary
//! tree can be.
use vstd::arithmetic::power2::lemma2_to64;
use vstd::arithmetic::power2::lemma_pow2_unfold;
use vstd::arithmetic::power2::pow2;
use vstd::prelude::*;
use vstd::seq_lib::group_to_multiset_ensures;
use vstd::seq_lib::lemma_multiset_commutative;
use crate::aabb::AABB;
use crate::bvh::BVH;
use crate::bvh::drawn_axis;
use crate::bvh::lower_half;
use crate::bvh::upper_half;
use crate::rng::xorshift;
use crate::sorting::axis_order;
use crate::sorting::lemma_axis_order_is_total;

verus! {

impl BVH {
    /// Whether the tree is put together as a build puts it: every leaf holds
    /// the box of its primitive, that box has its corners in order, and every
    /// node holds two subtrees that are not empty and the union of their
    /// boxes.
    pub open spec fn is_well_formed(self, boxes: Seq<AABB>) -> bool
        decreases self,
    {
        match self {
            BVH::Empty => true,
            BVH::Leaf { prim, bounds } => prim < boxes.len() && bounds == boxes[prim as int]
                && bounds.is_ordered(),
            BVH::Node(node) => {
                &&& !(*node.left is Empty)
                &&& !(*node.right is Empty)
                &&& node.bounds == AABB::spec_union(node.left.cover(), node.right.cover())
                &&& node.left.is_well_formed(boxes)
                &&& node.right.is_well_formed(boxes)
            },
        }
    }

    /// The number of boxes on the longest way from the root to a leaf.
    pub open spec fn height(self) -> nat
        decreases self,
    {
        match self {
            BVH::Empty => 0,
            BVH::Leaf { prim, bounds } => 0,
            BVH::Node(node) => 1 + if node.left.height() >= node.right.height() {
                node.left.height()
            } else {
                node.right.height()
            },
        }
    }
}

/// A build keeps every primitive it was given, once each: the leaves of the
/// tree are a rearrangement of the items.
pub proof fn lemma_build_keeps_primitives(boxes: Seq<AABB>, items: Seq<usize>, state: u32)
    ensures
        BVH::spec_build(boxes, items, state).0.leaves().to_multiset() == items.to_multiset(),
        BVH::spec_build(boxes, items, state).0.leaves().len() == items.len(),
        BVH::spec_build(boxes, items, state).0 is Empty <==> items.len() == 0,
    decreases items.len(),
{
    broadcast use group_to_multiset_ensures;

    let tree = BVH::spec_build(boxes, items, state).0;
    if items.len() == 0 {
        assert(items =~= Seq::<usize>::empty());
    } else if items.len() == 1 {
        assert(tree.leaves() =~= items);
    } else {
        let drawn = xorshift(state);
        let order = axis_order(boxes, drawn_axis(drawn));
        let sorted = items.sort_by(order);
        lemma_axis_order_is_total(boxes, drawn_axis(drawn));
        items.lemma_sort_by_ensures(order);
        assert(sorted.len() == items.len()) by {
            assert(sorted.to_multiset().len() == items.to_multiset().len());
        }
        let lower = lower_half(sorted, items.len());
        let upper = upper_half(sorted, items.len());
        assert(lower + upper =~= sorted);
        lemma_multiset_commutative(lower, upper);
        let (left, after_left) = BVH::spec_build(boxes, lower, drawn);
        let (right, after_right) = BVH::spec_build(boxes, upper, after_left);
        lemma_build_keeps_primitives(boxes, lower, drawn);
        lemma_build_keeps_primitives(boxes, upper, after_left);
        lemma_multiset_commutative(left.leaves(), right.leaves());
        assert(tree.leaves() == left.leaves() + right.leaves());
    }
}

/// A build over ordered boxes is well formed, and halves what it is given:
/// of `n` items, `n / 2` go to the left of the root.
pub proof fn lemma_build_is_well_formed(boxes: Seq<AABB>, items: Seq<usize>, state: u32)
    requires
        forall|i: int| 0 <= i < items.len() ==> (#[trigger] items[i]) < boxes.len(),
        forall|i: int| 0 <= i < boxes.len() ==> (#[trigger] boxes[i]).is_ordered(),
    ensures
        BVH::spec_build(boxes, items, state).0.is_well_formed(boxes),
        BVH::spec_build(boxes, items, state).0 matches BVH::Node(node) ==> node.left.leaves().len()
            == items.len() / 2,
    decreases items.len(),
{
    if items.len() >= 2 {
        let drawn = xorshift(state);
        let order = axis_order(boxes, drawn_axis(drawn));
        let sorted = items.sort_by(order);
        lemma_axis_order_is_total(boxes, drawn_axis(drawn));
        items.lemma_sort_by_ensures(order);
        assert(sorted.len() == items.len()) by {
            broadcast use group_to_multiset_ensures;

            assert(sorted.to_multiset().len() == items.to_multiset().len());
        }
        assert forall|i: int| 0 <= i < sorted.len() implies (#[trigger] sorted[i]) < boxes.len() by {
            if !items.contains(sorted[i]) {
                assert(sorted.contains(sorted[i]));
            }
            let k = choose|k: int| 0 <= k < items.len() && items[k] == sorted[i];
            assert(items[k] < boxes.len());
        }
        let lower = lower_half(sorted, items.len());
        let upper = upper_half(sorted, items.len());
        let (left, after_left) = BVH::spec_build(boxes, lower, drawn);
        lemma_build_is_well_formed(boxes, lower, drawn);
        lemma_build_is_well_formed(boxes, upper, after_left);
        lemma_build_keeps_primitives(boxes, lower, drawn);
        lemma_build_keeps_primitives(boxes, upper, after_left);
    }
}

/// A build halves what it is given at every node, so the tree over `n`
/// primitives is as shallow as a binary tree with `n` leaves can be: its
/// height `h` is the least with `n <= 2^h`.
pub proof fn lemma_build_is_balanced(boxes: Seq<AABB>, items: Seq<usize>, state: u32)
    requires
        items.len() > 0,
    ensures
        items.len() <= pow2(BVH::spec_build(boxes, items, state).0.height()),
        pow2(BVH::spec_build(boxes, items, state).0.height()) < 2 * items.len(),
    decreases items.len(),
{
    lemma2_to64();
    let n = items.len();
    if n >= 2 {
        let drawn = xorshift(state);
        let sorted = items.sort_by(axis_order(boxes, drawn_axis(drawn)));
        let lower = lower_half(sorted, n);
        let upper = upper_half(sorted, n);
        let (left, after_left) = BVH::spec_build(boxes, lower, drawn);
        let (right, after_right) = BVH::spec_build(boxes, upper, after_left);
        lemma_build_is_balanced(boxes, lower, drawn);
        lemma_build_is_balanced(boxes, upper, after_left);
        let hl = left.height();
        let hr = right.height();
        // The right half is the larger one, by one at most, so it is the
        // deeper one.
        if hl > hr {
            lemma_pow2_grows(hr, hl);
        }
        assert(hl <= hr);
        lemma_pow2_unfold(hr + 1);
        if n % 2 == 1 && hr > 0 {
            lemma_pow2_unfold(hr);
        }
    }
}

/// Powers of two grow with their exponent.
pub proof fn lemma_pow2_grows(a: nat, b: nat)
    requires
        a < b,
    ensures
        2 * pow2(a) <= pow2(b),
    decreases b,
{
    lemma_pow2_unfold(b);
    if a + 1 < b {
        lemma_pow2_grows(a, (b - 1) as nat);
    }
}

} // verus!
