//! The bounding-volume hierarchy: a binary tree of boxes over the primitives
//! of a scene, built by sorting along a drawn axis and halving.
use vstd::prelude::*;
use crate::aabb::AABB;
use crate::aabb::Slab;
use crate::hittable::advances;
use crate::hittable::Hit;
use crate::hittable::reach;
use crate::hittable::try_primitive;
use crate::hittable::visit;
use crate::oracle::accepts_all;
use crate::oracle::answers;
use crate::rng::fraction;
use crate::rng::Rng;
use crate::rng::scaled;
use crate::rng::xorshift;
use crate::scalar::Scalar;
use crate::sorting::all_within;
use crate::sorting::axis_order;
use crate::sorting::sort_along;
use crate::sphere::Roots;
use crate::vec3::Vec3;

verus! {

/// An inner node of the hierarchy: two subtrees and the box around both.
#[derive(Debug)]
pub struct BVHNode {
    pub bounds: AABB,
    pub left: Box<BVH>,
    pub right: Box<BVH>,
}

/// A bounding-volume hierarchy over primitives that are named by their index.
///
/// A leaf is one primitive with its box. A node holds the union of the boxes
/// of its two subtrees. The empty tree stands for a scene without primitives.
#[derive(Debug)]
pub enum BVH {
    Empty,
    Leaf { prim: usize, bounds: AABB },
    Node(BVHNode),
}

/// The axis that a generator state selects: the state's fraction scaled to
/// `0..=2`.
pub open spec fn drawn_axis(state: u32) -> usize {
    scaled(fraction(state), 0, 2) as usize
}

/// The boxes of a scene in which every primitive has one.
pub open spec fn known(boxes: Seq<Option<AABB>>) -> Seq<AABB> {
    Seq::new(boxes.len(), |i: int| boxes[i].unwrap())
}

/// The primitives `0, 1, .., n - 1` in their own order.
pub open spec fn all_prims(n: nat) -> Seq<usize> {
    Seq::new(n, |i: int| i as usize)
}

/// The first `n / 2` of `n` sorted items.
pub open spec fn lower_half(sorted: Seq<usize>, n: nat) -> Seq<usize> {
    Seq::new(n / 2, |i: int| sorted[i])
}

/// The last `n - n / 2` of `n` sorted items.
pub open spec fn upper_half(sorted: Seq<usize>, n: nat) -> Seq<usize> {
    Seq::new((n - n / 2) as nat, |i: int| sorted[n / 2 + i])
}

impl BVH {
    /// The box around the whole tree; the empty tree has none.
    pub open spec fn spec_aabb(self) -> Option<AABB> {
        match self {
            BVH::Empty => None,
            BVH::Leaf { prim, bounds } => Some(bounds),
            BVH::Node(node) => Some(node.bounds),
        }
    }

    /// The box around the tree, with the box at the origin for the empty tree.
    pub open spec fn cover(self) -> AABB {
        match self.spec_aabb() {
            Some(b) => b,
            None => AABB {
                min: Vec3 { x: Scalar { bits: 0 }, y: Scalar { bits: 0 }, z: Scalar { bits: 0 } },
                max: Vec3 { x: Scalar { bits: 0 }, y: Scalar { bits: 0 }, z: Scalar { bits: 0 } },
            },
        }
    }

    /// The primitives of the tree from left to right.
    pub open spec fn leaves(self) -> Seq<usize>
        decreases self,
    {
        match self {
            BVH::Empty => Seq::empty(),
            BVH::Leaf { prim, bounds } => seq![prim],
            BVH::Node(node) => node.left.leaves() + node.right.leaves(),
        }
    }

    /// The tree over `items`, and the generator state after building it.
    ///
    /// No item gives the empty tree and one item a leaf; neither draws. More
    /// items draw an axis, are sorted along it, and are halved: the first half
    /// (the smaller one, where the count is odd) becomes the left subtree and
    /// the rest the right subtree, built in that order.
    pub open spec fn spec_build(boxes: Seq<AABB>, items: Seq<usize>, state: u32) -> (BVH, u32)
        decreases items.len(),
    {
        if items.len() == 0 {
            (BVH::Empty, state)
        } else if items.len() == 1 {
            (BVH::Leaf { prim: items[0], bounds: boxes[items[0] as int] }, state)
        } else {
            let drawn = xorshift(state);
            let sorted = items.sort_by(axis_order(boxes, drawn_axis(drawn)));
            let (left, after_left) = Self::spec_build(boxes, lower_half(sorted, items.len()), drawn);
            let (right, after_right) = Self::spec_build(
                boxes,
                upper_half(sorted, items.len()),
                after_left,
            );
            (
                BVH::Node(
                    BVHNode {
                        bounds: AABB::spec_union(left.cover(), right.cover()),
                        left: Box::new(left),
                        right: Box::new(right),
                    },
                ),
                after_right,
            )
        }
    }

    /// The search after it has gone through the tree, from what was found
    /// before.
    ///
    /// The empty tree changes nothing and a leaf is tried as any primitive is.
    /// A node whose box the ray misses, within the span that ends at the
    /// nearest crossing found so far, is passed over. Else the search goes
    /// through the left subtree and then, with what that found, through the
    /// right one.
    pub open spec fn descend(
        self,
        found: Option<Hit>,
        slabs: spec_fn(AABB) -> [Slab; 3],
        roots: spec_fn(usize) -> Roots,
        t_min: Scalar,
        t_max: Scalar,
    ) -> Option<Hit>
        decreases self,
    {
        match self {
            BVH::Empty => found,
            BVH::Leaf { prim, bounds } => visit(found, prim, roots, t_min, t_max),
            BVH::Node(node) => {
                if AABB::spec_hit(slabs(node.bounds), t_min, reach(found, t_max)) {
                    node.right.descend(
                        node.left.descend(found, slabs, roots, t_min, t_max),
                        slabs,
                        roots,
                        t_min,
                        t_max,
                    )
                } else {
                    found
                }
            },
        }
    }

    /// The nearest crossing of a ray with the tree within the span from
    /// `t_min` to `t_max`.
    pub open spec fn spec_hit(
        self,
        slabs: spec_fn(AABB) -> [Slab; 3],
        roots: spec_fn(usize) -> Roots,
        t_min: Scalar,
        t_max: Scalar,
    ) -> Option<Hit> {
        self.descend(None, slabs, roots, t_min, t_max)
    }

    /// Goes through the tree from what was found before.
    pub fn hit_from<F: Fn(AABB) -> [Slab; 3], G: Fn(usize) -> Roots>(
        &self,
        found: Option<Hit>,
        slabs_of: &F,
        roots_of: &G,
        t_min: Scalar,
        t_max: Scalar,
    ) -> (r: Option<Hit>)
        requires
            accepts_all(*slabs_of),
            accepts_all(*roots_of),
        ensures
            forall|slabs: spec_fn(AABB) -> [Slab; 3], roots: spec_fn(usize) -> Roots|
                answers(*slabs_of, slabs) && answers(*roots_of, roots) ==> r == #[trigger] self.descend(
                    found,
                    slabs,
                    roots,
                    t_min,
                    t_max,
                ),
            advances(found, r, self.leaves(), t_min, t_max),
        decreases self,
    {
        match self {
            BVH::Empty => found,
            BVH::Leaf { prim, bounds } => {
                let r = roots_of(*prim);
                let out = try_primitive(found, *prim, &r, t_min, t_max);
                proof {
                    assert(self.leaves() =~= seq![*prim]);
                    assert forall|slabs: spec_fn(AABB) -> [Slab; 3], roots: spec_fn(usize) -> Roots|
                        answers(*slabs_of, slabs) && answers(*roots_of, roots) implies out
                        == #[trigger] self.descend(found, slabs, roots, t_min, t_max) by {
                        assert(call_ensures(*roots_of, (*prim,), r));
                    }
                }
                out
            },
            BVH::Node(node) => {
                let closest = match found {
                    Some(h) => h.t,
                    None => t_max,
                };
                let s = slabs_of(node.bounds);
                if !AABB::hit(&s, t_min, closest) {
                    proof {
                        assert forall|
                            slabs: spec_fn(AABB) -> [Slab; 3],
                            roots: spec_fn(usize) -> Roots,
                        |
                            answers(*slabs_of, slabs) && answers(*roots_of, roots) implies found
                            == #[trigger] self.descend(found, slabs, roots, t_min, t_max) by {
                            assert(call_ensures(*slabs_of, (node.bounds,), s));
                        }
                    }
                    return found;
                }
                let after_left = node.left.hit_from(found, slabs_of, roots_of, t_min, t_max);
                let out = node.right.hit_from(after_left, slabs_of, roots_of, t_min, t_max);
                proof {
                    let (below, beside) = (node.left.leaves(), node.right.leaves());
                    if after_left is Some && after_left != found {
                        let p = after_left.unwrap().prim;
                        let k = choose|k: int| 0 <= k < below.len() && below[k] == p;
                        assert(self.leaves()[k] == p);
                    }
                    if out is Some && out != after_left {
                        let p = out.unwrap().prim;
                        let k = choose|k: int| 0 <= k < beside.len() && beside[k] == p;
                        assert(self.leaves()[below.len() + k] == p);
                    }
                    assert forall|slabs: spec_fn(AABB) -> [Slab; 3], roots: spec_fn(usize) -> Roots|
                        answers(*slabs_of, slabs) && answers(*roots_of, roots) implies out
                        == #[trigger] self.descend(found, slabs, roots, t_min, t_max) by {
                        assert(call_ensures(*slabs_of, (node.bounds,), s));
                        assert(after_left == node.left.descend(found, slabs, roots, t_min, t_max));
                        assert(out == node.right.descend(after_left, slabs, roots, t_min, t_max));
                    }
                }
                out
            },
        }
    }

    /// The nearest crossing of a ray with the tree within the span from
    /// `t_min` to `t_max`, where `slabs_of(b)` computes what the ray and the
    /// box `b` give, and `roots_of(i)` what the ray and primitive `i` give.
    ///
    /// Neither function is called for a subtree whose box the ray misses.
    pub fn hit<F: Fn(AABB) -> [Slab; 3], G: Fn(usize) -> Roots>(
        &self,
        slabs_of: &F,
        roots_of: &G,
        t_min: Scalar,
        t_max: Scalar,
    ) -> (r: Option<Hit>)
        requires
            accepts_all(*slabs_of),
            accepts_all(*roots_of),
        ensures
            forall|slabs: spec_fn(AABB) -> [Slab; 3], roots: spec_fn(usize) -> Roots|
                answers(*slabs_of, slabs) && answers(*roots_of, roots) ==> r == #[trigger] self.spec_hit(
                    slabs,
                    roots,
                    t_min,
                    t_max,
                ),
            r matches Some(h) ==> self.leaves().contains(h.prim) && t_min.spec_lt(h.t) && h.t.spec_lt(
                t_max,
            ),
    {
        self.hit_from(None, slabs_of, roots_of, t_min, t_max)
    }

    /// The box around the whole tree; the empty tree has none.
    pub fn aabb(&self) -> (r: Option<AABB>)
        ensures
            r == self.spec_aabb(),
    {
        match self {
            BVH::Empty => None,
            BVH::Leaf { prim, bounds } => Some(*bounds),
            BVH::Node(node) => Some(node.bounds),
        }
    }

    /// Builds the tree over at least one item, and returns it with its box.
    fn build_over(boxes: &Vec<AABB>, items: Vec<usize>, rng: &mut Rng) -> (out: (BVH, AABB))
        requires
            items@.len() > 0,
            all_within(items@, boxes@.len()),
        ensures
            (out.0, final(rng).state()) == Self::spec_build(boxes@, items@, old(rng).state()),
            out.0.spec_aabb() == Some(out.1),
        decreases items@.len(),
    {
        let n = items.len();
        if n == 1 {
            let prim = items[0];
            return (BVH::Leaf { prim, bounds: boxes[prim] }, boxes[prim]);
        }
        let axis = rng.int_between(0, 2) as usize;
        let mut sorted = sort_along(boxes, axis, items);
        let ghost whole = sorted@;
        let right_items = sorted.split_off(n / 2);
        proof {
            assert(sorted@ =~= lower_half(whole, n as nat));
            assert(right_items@ =~= upper_half(whole, n as nat));
        }
        let (left, left_box) = Self::build_over(boxes, sorted, rng);
        let (right, right_box) = Self::build_over(boxes, right_items, rng);
        let bounds = AABB::grow(left_box, right_box);
        (BVH::Node(BVHNode { bounds, left: Box::new(left), right: Box::new(right) }), bounds)
    }

    /// Builds the hierarchy over the primitives `0..boxes.len()`, where
    /// `boxes[i]` is the box of primitive `i`.
    ///
    /// A primitive without a box makes the build fail, and the generator is
    /// then left as it was.
    pub fn build(boxes: &Vec<Option<AABB>>, rng: &mut Rng) -> (r: Option<BVH>)
        ensures
            r is None <==> exists|i: int| 0 <= i < boxes@.len() && boxes@[i] is None,
            r is None ==> final(rng).state() == old(rng).state(),
            r matches Some(tree) ==> (tree, final(rng).state()) == Self::spec_build(
                known(boxes@),
                all_prims(boxes@.len()),
                old(rng).state(),
            ),
    {
        let mut plain: Vec<AABB> = Vec::new();
        let mut items: Vec<usize> = Vec::new();
        let mut i: usize = 0;
        while i < boxes.len()
            invariant
                i <= boxes@.len(),
                plain@.len() == i,
                items@.len() == i,
                forall|k: int| 0 <= k < i ==> boxes@[k] is Some,
                forall|k: int| 0 <= k < i ==> plain@[k] == boxes@[k].unwrap(),
                forall|k: int| 0 <= k < i ==> items@[k] == k,
            decreases boxes@.len() - i,
        {
            match boxes[i] {
                Some(b) => {
                    plain.push(b);
                    items.push(i);
                },
                None => {
                    return None;
                },
            }
            i += 1;
        }
        proof {
            assert(plain@ =~= known(boxes@));
            assert(items@ =~= all_prims(boxes@.len()));
        }
        if items.len() == 0 {
            return Some(BVH::Empty);
        }
        let (tree, _) = Self::build_over(&plain, items, rng);
        Some(tree)
    }
}

} // verus!
