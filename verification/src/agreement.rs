//! The hierarchy changes the cost of a query, never its answer: under boxes
//! that are conservative for the ray, a descent through the tree returns what
//! a scan of the flat list returns.
use vstd::prelude::*;
use vstd::seq_lib::group_to_multiset_ensures;
use crate::aabb::AABB;
use crate::aabb::lemma_union_encloses;
use crate::aabb::Slab;
use crate::built::lemma_build_is_well_formed;
use crate::built::lemma_build_keeps_primitives;
use crate::bvh::all_prims;
use crate::bvh::BVH;
use crate::hittable::Hit;
use crate::hittable::reach;
use crate::hittable::scan;
use crate::hittable::scan_from;
use crate::hittable::visit;
use crate::nearest::lemma_order_does_not_matter;
use crate::nearest::lemma_scan_concat;
use crate::nearest::lemma_scan_without_crossings;
use crate::scalar::Scalar;
use crate::sphere::Roots;
use crate::sphere::Sphere;

verus! {

impl BVH {
    /// Whether the boxes of the tree are conservative for a ray: wherever the
    /// ray crosses a primitive below some parameter, it passes through the
    /// box of every node above that primitive below that parameter.
    pub open spec fn is_sound(
        self,
        slabs: spec_fn(AABB) -> [Slab; 3],
        roots: spec_fn(usize) -> Roots,
        t_min: Scalar,
    ) -> bool
        decreases self,
    {
        match self {
            BVH::Empty => true,
            BVH::Leaf { prim, bounds } => true,
            BVH::Node(node) => {
                &&& forall|i: int, hi: Scalar|
                    0 <= i < self.leaves().len() && (#[trigger] Sphere::spec_hit(
                        roots(self.leaves()[i]),
                        t_min,
                        hi,
                    )) is Some ==> AABB::spec_hit(slabs(node.bounds), t_min, hi)
                &&& node.left.is_sound(slabs, roots, t_min)
                &&& node.right.is_sound(slabs, roots, t_min)
            },
        }
    }
}

/// Under conservative boxes, a descent through the tree is a scan of its
/// leaves from left to right.
pub proof fn lemma_descent_is_scan(
    tree: BVH,
    found: Option<Hit>,
    slabs: spec_fn(AABB) -> [Slab; 3],
    roots: spec_fn(usize) -> Roots,
    t_min: Scalar,
    t_max: Scalar,
)
    requires
        tree.is_sound(slabs, roots, t_min),
    ensures
        tree.descend(found, slabs, roots, t_min, t_max) == scan_from(
            found,
            tree.leaves(),
            roots,
            t_min,
            t_max,
        ),
    decreases tree,
{
    match tree {
        BVH::Empty => {},
        BVH::Leaf { prim, bounds } => {
            let tried = visit(found, prim, roots, t_min, t_max);
            assert(tree.leaves()[0] == prim);
            assert(tree.leaves().drop_first().len() == 0);
            assert(scan_from(tried, tree.leaves().drop_first(), roots, t_min, t_max) == tried);
        },
        BVH::Node(node) => {
            let hi = reach(found, t_max);
            if AABB::spec_hit(slabs(node.bounds), t_min, hi) {
                let after_left = node.left.descend(found, slabs, roots, t_min, t_max);
                lemma_descent_is_scan(*node.left, found, slabs, roots, t_min, t_max);
                lemma_descent_is_scan(*node.right, after_left, slabs, roots, t_min, t_max);
                lemma_scan_concat(found, node.left.leaves(), node.right.leaves(), roots, t_min, t_max);
            } else {
                assert forall|i: int| 0 <= i < tree.leaves().len() implies Sphere::spec_hit(
                    #[trigger] roots(tree.leaves()[i]),
                    t_min,
                    hi,
                ) is None by {
                    if Sphere::spec_hit(roots(tree.leaves()[i]), t_min, hi) is Some {
                        assert(AABB::spec_hit(slabs(node.bounds), t_min, hi));
                    }
                }
                lemma_scan_without_crossings(found, tree.leaves(), roots, t_min, t_max);
            }
        },
    }
}

/// A tree over the primitives `0..n` with conservative boxes answers as the
/// flat list of those primitives does: both miss, or both return a crossing
/// at the same parameter. Where one primitive is crossed strictly before
/// every other, both return that primitive.
pub proof fn lemma_tree_agrees_with_list(
    tree: BVH,
    n: usize,
    slabs: spec_fn(AABB) -> [Slab; 3],
    roots: spec_fn(usize) -> Roots,
    t_min: Scalar,
    t_max: Scalar,
)
    requires
        forall|p: usize| tree.leaves().contains(p) <==> p < n,
        tree.is_sound(slabs, roots, t_min),
        forall|p: usize| p < n ==> (#[trigger] roots(p)).in_order(),
    ensures
        ({
            let list = scan(all_prims(n as nat), roots, t_min, t_max);
            let fast = tree.spec_hit(slabs, roots, t_min, t_max);
            &&& list is None <==> fast is None
            &&& list matches Some(hl) ==> fast matches Some(hf) && hl.t.spec_same(hf.t)
            &&& list matches Some(hl) ==> (forall|p: usize|
                p < n && p != hl.prim ==> (Sphere::spec_hit(#[trigger] roots(p), t_min, t_max)
                    matches Some(t) ==> hl.t.spec_lt(t))) ==> fast == Some(hl)
        }),
{
    let order = all_prims(n as nat);
    assert forall|p: usize| order.contains(p) <==> p < n by {
        if p < n {
            assert(order[p as int] == p);
        }
    }
    lemma_descent_is_scan(tree, None, slabs, roots, t_min, t_max);
    lemma_order_does_not_matter(order, tree.leaves(), roots, t_min, t_max);
}

/// In a well-formed tree that is not empty, the box of the tree has its
/// corners in order and encloses the box of every primitive in it.
pub proof fn lemma_cover_encloses_leaves(tree: BVH, boxes: Seq<AABB>, i: int)
    requires
        tree.is_well_formed(boxes),
        0 <= i < tree.leaves().len(),
    ensures
        tree.cover().is_ordered(),
        tree.leaves()[i] < boxes.len(),
        tree.cover().encloses(boxes[tree.leaves()[i] as int]),
    decreases tree,
{
    match tree {
        BVH::Empty => {},
        BVH::Leaf { prim, bounds } => {},
        BVH::Node(node) => {
            lemma_leaves_of_nonempty(*node.left, boxes);
            lemma_leaves_of_nonempty(*node.right, boxes);
            lemma_cover_encloses_leaves(*node.left, boxes, 0);
            lemma_cover_encloses_leaves(*node.right, boxes, 0);
            lemma_union_encloses(node.left.cover(), node.right.cover());
            if i < node.left.leaves().len() {
                lemma_cover_encloses_leaves(*node.left, boxes, i);
            } else {
                lemma_cover_encloses_leaves(*node.right, boxes, i - node.left.leaves().len());
            }
        },
    }
}

/// A well-formed tree that is not empty has a leaf.
pub proof fn lemma_leaves_of_nonempty(tree: BVH, boxes: Seq<AABB>)
    requires
        tree.is_well_formed(boxes),
        !(tree is Empty),
    ensures
        tree.leaves().len() > 0,
    decreases tree,
{
    match tree {
        BVH::Empty => {},
        BVH::Leaf { prim, bounds } => {},
        BVH::Node(node) => {
            lemma_leaves_of_nonempty(*node.left, boxes);
        },
    }
}

/// The boxes of a well-formed tree are conservative for a ray as soon as the
/// ray's slab numbers are: the ray passes through the box of each primitive
/// that it crosses, and through every box that encloses a box it passes
/// through.
pub proof fn lemma_enclosing_boxes_are_sound(
    tree: BVH,
    boxes: Seq<AABB>,
    slabs: spec_fn(AABB) -> [Slab; 3],
    roots: spec_fn(usize) -> Roots,
    t_min: Scalar,
)
    requires
        tree.is_well_formed(boxes),
        forall|p: usize, hi: Scalar|
            p < boxes.len() && (#[trigger] Sphere::spec_hit(roots(p), t_min, hi)) is Some
                ==> AABB::spec_hit(slabs(boxes[p as int]), t_min, hi),
        forall|outer: AABB, inner: AABB, hi: Scalar|
            outer.encloses(inner) && #[trigger] AABB::spec_hit(slabs(inner), t_min, hi)
                ==> #[trigger] AABB::spec_hit(slabs(outer), t_min, hi),
    ensures
        tree.is_sound(slabs, roots, t_min),
    decreases tree,
{
    match tree {
        BVH::Empty => {},
        BVH::Leaf { prim, bounds } => {},
        BVH::Node(node) => {
            lemma_enclosing_boxes_are_sound(*node.left, boxes, slabs, roots, t_min);
            lemma_enclosing_boxes_are_sound(*node.right, boxes, slabs, roots, t_min);
            assert forall|i: int, hi: Scalar|
                0 <= i < tree.leaves().len() && (#[trigger] Sphere::spec_hit(
                    roots(tree.leaves()[i]),
                    t_min,
                    hi,
                )) is Some implies AABB::spec_hit(slabs(node.bounds), t_min, hi) by {
                lemma_cover_encloses_leaves(tree, boxes, i);
                let p = tree.leaves()[i];
                assert(AABB::spec_hit(slabs(boxes[p as int]), t_min, hi));
                assert(node.bounds.encloses(boxes[p as int]));
            }
        },
    }
}

/// The tree that a build makes of a scene answers as the flat list of the
/// scene does, for every ray whose slab numbers are conservative: the ray
/// passes through the box of each primitive that it crosses, and through
/// every box that encloses a box it passes through.
pub proof fn lemma_built_tree_agrees_with_list(
    boxes: Seq<AABB>,
    state: u32,
    slabs: spec_fn(AABB) -> [Slab; 3],
    roots: spec_fn(usize) -> Roots,
    t_min: Scalar,
    t_max: Scalar,
)
    requires
        boxes.len() <= usize::MAX,
        forall|i: int| 0 <= i < boxes.len() ==> (#[trigger] boxes[i]).is_ordered(),
        forall|p: usize| p < boxes.len() ==> (#[trigger] roots(p)).in_order(),
        forall|p: usize, hi: Scalar|
            p < boxes.len() && (#[trigger] Sphere::spec_hit(roots(p), t_min, hi)) is Some
                ==> AABB::spec_hit(slabs(boxes[p as int]), t_min, hi),
        forall|outer: AABB, inner: AABB, hi: Scalar|
            outer.encloses(inner) && #[trigger] AABB::spec_hit(slabs(inner), t_min, hi)
                ==> #[trigger] AABB::spec_hit(slabs(outer), t_min, hi),
    ensures
        ({
            let tree = BVH::spec_build(boxes, all_prims(boxes.len()), state).0;
            let list = scan(all_prims(boxes.len()), roots, t_min, t_max);
            let fast = tree.spec_hit(slabs, roots, t_min, t_max);
            &&& list is None <==> fast is None
            &&& list matches Some(hl) ==> fast matches Some(hf) && hl.t.spec_same(hf.t)
            &&& list matches Some(hl) ==> (forall|p: usize|
                p < boxes.len() && p != hl.prim ==> (Sphere::spec_hit(
                    #[trigger] roots(p),
                    t_min,
                    t_max,
                ) matches Some(t) ==> hl.t.spec_lt(t))) ==> fast == Some(hl)
        }),
{
    let n = boxes.len() as usize;
    let items = all_prims(boxes.len());
    let tree = BVH::spec_build(boxes, items, state).0;
    lemma_build_keeps_primitives(boxes, items, state);
    lemma_build_is_well_formed(boxes, items, state);
    lemma_enclosing_boxes_are_sound(tree, boxes, slabs, roots, t_min);
    assert forall|p: usize| tree.leaves().contains(p) <==> p < n by {
        broadcast use group_to_multiset_ensures;

        if p < n {
            assert(items[p as int] == p);
            assert(items.contains(p));
        }
        if items.contains(p) {
            let k = choose|k: int| 0 <= k < items.len() && items[k] == p;
        }
        assert(tree.leaves().contains(p) <==> tree.leaves().to_multiset().count(p) > 0);
        assert(items.contains(p) <==> items.to_multiset().count(p) > 0);
    }
    lemma_tree_agrees_with_list(tree, n, slabs, roots, t_min, t_max);
}

} // verus!
