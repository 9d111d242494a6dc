//! The nearest crossing among many primitives, and the flat list that finds
//! it by trying each primitive in turn.
use vstd::prelude::*;
use crate::aabb::AABB;
use crate::bvh::all_prims;
use crate::bvh::BVH;
use crate::bvh::known;
use crate::oracle::accepts_all;
use crate::oracle::answers;
use crate::rng::Rng;
use crate::scalar::Scalar;
use crate::sphere::Roots;
use crate::sphere::Sphere;

verus! {

/// The nearest crossing found: the primitive that was hit and the ray
/// parameter of the crossing.
#[derive(Clone, Copy, Debug, PartialEq, Eq, Structural)]
pub struct Hit {
    pub prim: usize,
    pub t: Scalar,
}

/// How far a search still reaches: to the crossing found so far, or to the
/// end of the span where none was found.
pub open spec fn reach(found: Option<Hit>, t_max: Scalar) -> Scalar {
    match found {
        Some(h) => h.t,
        None => t_max,
    }
}

/// The search after trying primitive `p`: its crossing where it has one
/// nearer than what was found so far, else what was found so far.
pub open spec fn visit(
    found: Option<Hit>,
    p: usize,
    roots: spec_fn(usize) -> Roots,
    t_min: Scalar,
    t_max: Scalar,
) -> Option<Hit> {
    match Sphere::spec_hit(roots(p), t_min, reach(found, t_max)) {
        Some(t) => Some(Hit { prim: p, t }),
        None => found,
    }
}

/// The search after trying the primitives of `order` one after another.
pub open spec fn scan_from(
    found: Option<Hit>,
    order: Seq<usize>,
    roots: spec_fn(usize) -> Roots,
    t_min: Scalar,
    t_max: Scalar,
) -> Option<Hit>
    decreases order.len(),
{
    if order.len() == 0 {
        found
    } else {
        scan_from(visit(found, order[0], roots, t_min, t_max), order.drop_first(), roots, t_min, t_max)
    }
}

/// The nearest crossing among the primitives of `order`, tried in that order.
pub open spec fn scan(
    order: Seq<usize>,
    roots: spec_fn(usize) -> Roots,
    t_min: Scalar,
    t_max: Scalar,
) -> Option<Hit> {
    scan_from(None, order, roots, t_min, t_max)
}

/// Whether a search that held `found` and now holds `now` has kept what it
/// had or has found something nearer: a crossing of one of `prims`, strictly
/// inside the span and strictly before what it had.
pub open spec fn advances(
    found: Option<Hit>,
    now: Option<Hit>,
    prims: Seq<usize>,
    t_min: Scalar,
    t_max: Scalar,
) -> bool {
    now == found || (now matches Some(h) && prims.contains(h.prim) && t_min.spec_lt(h.t)
        && h.t.spec_lt(reach(found, t_max)))
}

/// Tries one primitive against what has been found so far.
pub fn try_primitive(found: Option<Hit>, prim: usize, roots: &Roots, t_min: Scalar, t_max: Scalar) -> (r:
    Option<Hit>)
    ensures
        r == (match Sphere::spec_hit(*roots, t_min, reach(found, t_max)) {
            Some(t) => Some(Hit { prim, t }),
            None => found,
        }),
        advances(found, r, seq![prim], t_min, t_max),
{
    assert(seq![prim][0] == prim);
    let closest = match found {
        Some(h) => h.t,
        None => t_max,
    };
    match Sphere::hit(roots, t_min, closest) {
        Some(t) => Some(Hit { prim, t }),
        None => found,
    }
}

/// A flat list of spheres.
#[derive(Debug)]
pub struct HittableList {
    pub objects: Vec<Sphere>,
}

impl HittableList {
    pub fn new() -> (l: HittableList)
        ensures
            l.objects@ == Seq::<Sphere>::empty(),
    {
        HittableList { objects: Vec::new() }
    }

    pub fn push(&mut self, obj: Sphere)
        ensures
            final(self).objects@ == old(self).objects@.push(obj),
    {
        self.objects.push(obj);
    }

    pub fn clear(&mut self)
        ensures
            final(self).objects@ == Seq::<Sphere>::empty(),
    {
        self.objects.clear();
    }

    /// The nearest crossing of a ray with the list, where `roots_of(i)`
    /// computes what the ray and object `i` give.
    ///
    /// The objects are tried in their order, each against the span that ends
    /// at the nearest crossing found before it. So of two objects crossed at
    /// the same parameter the earlier one is returned.
    pub fn hit<G: Fn(usize) -> Roots>(&self, roots_of: &G, t_min: Scalar, t_max: Scalar) -> (r: Option<
        Hit,
    >)
        requires
            accepts_all(*roots_of),
        ensures
            forall|roots: spec_fn(usize) -> Roots|
                answers(*roots_of, roots) ==> r == #[trigger] scan(
                    all_prims(self.objects@.len()),
                    roots,
                    t_min,
                    t_max,
                ),
            r matches Some(h) ==> h.prim < self.objects@.len() && t_min.spec_lt(h.t) && h.t.spec_lt(
                t_max,
            ),
    {
        let n = self.objects.len();
        let ghost order = all_prims(n as nat);
        let mut found: Option<Hit> = None;
        let mut i: usize = 0;
        proof {
            assert(order.subrange(0, order.len() as int) =~= order);
        }
        while i < n
            invariant
                i <= n,
                n == self.objects@.len(),
                order == all_prims(n as nat),
                accepts_all(*roots_of),
                found matches Some(h) ==> h.prim < i && t_min.spec_lt(h.t) && h.t.spec_lt(t_max),
                forall|roots: spec_fn(usize) -> Roots|
                    answers(*roots_of, roots) ==> scan_from(
                        found,
                        order.subrange(i as int, order.len() as int),
                        roots,
                        t_min,
                        t_max,
                    ) == #[trigger] scan(order, roots, t_min, t_max),
            decreases n - i,
        {
            let ghost before = found;
            let r = roots_of(i);
            found = try_primitive(found, i, &r, t_min, t_max);
            proof {
                let rest = order.subrange(i as int, order.len() as int);
                assert(rest[0] == i);
                assert(rest.drop_first() =~= order.subrange(i + 1, order.len() as int));
                assert forall|roots: spec_fn(usize) -> Roots| answers(*roots_of, roots) implies scan_from(
                    found,
                    order.subrange(i + 1, order.len() as int),
                    roots,
                    t_min,
                    t_max,
                ) == #[trigger] scan(order, roots, t_min, t_max) by {
                    assert(call_ensures(*roots_of, (i,), r));
                    assert(r == roots(i));
                    assert(found == visit(before, i, roots, t_min, t_max));
                    assert(scan_from(before, rest, roots, t_min, t_max) == scan(
                        order,
                        roots,
                        t_min,
                        t_max,
                    ));
                }
            }
            i += 1;
        }
        found
    }

    /// The box around the whole list, where `boxes[i]` is the box of object
    /// `i`: the union of all of them, taken from the first on. An empty list
    /// has no box, nor has a list with an object that has none.
    pub fn aabb(&self, boxes: &Vec<Option<AABB>>) -> (r: Option<AABB>)
        requires
            boxes@.len() == self.objects@.len(),
        ensures
            r == Self::spec_aabb(boxes@),
    {
        let mut out: Option<AABB> = None;
        let mut i: usize = 0;
        while i < boxes.len()
            invariant
                i <= boxes@.len(),
                Self::spec_aabb(boxes@.subrange(0, i as int)) == out,
                out is None ==> i == 0,
            decreases boxes@.len() - i,
        {
            proof {
                let next = boxes@.subrange(0, i + 1);
                assert(next.drop_last() =~= boxes@.subrange(0, i as int));
            }
            match (boxes[i], out) {
                (Some(b), None) => {
                    out = Some(b);
                },
                (Some(b0), Some(b1)) => {
                    out = Some(AABB::grow(b0, b1));
                },
                (None, _) => {
                    proof {
                        Self::lemma_aabb_fails_after(boxes@, i as int);
                    }
                    return None;
                },
            }
            i += 1;
        }
        proof {
            assert(boxes@.subrange(0, i as int) =~= boxes@);
        }
        out
    }

    /// The box around objects with the given boxes.
    pub open spec fn spec_aabb(boxes: Seq<Option<AABB>>) -> Option<AABB>
        decreases boxes.len(),
    {
        if boxes.len() == 0 {
            None
        } else if boxes.len() == 1 {
            boxes[0]
        } else {
            match (boxes.last(), Self::spec_aabb(boxes.drop_last())) {
                (Some(b0), Some(b1)) => Some(AABB::spec_union(b0, b1)),
                _ => None,
            }
        }
    }

    /// One object without a box leaves every longer list without one.
    pub proof fn lemma_aabb_fails_after(boxes: Seq<Option<AABB>>, i: int)
        requires
            0 <= i < boxes.len(),
            boxes[i] is None,
        ensures
            Self::spec_aabb(boxes) is None,
        decreases boxes.len(),
    {
        if boxes.len() > 1 && i < boxes.len() - 1 {
            Self::lemma_aabb_fails_after(boxes.drop_last(), i);
        }
    }

    /// Builds the hierarchy over the objects of the list, where `boxes[i]`
    /// is the box of object `i`.
    pub fn into_bvh(&self, boxes: &Vec<Option<AABB>>, rng: &mut Rng) -> (r: Option<BVH>)
        requires
            boxes@.len() == self.objects@.len(),
        ensures
            r is None <==> exists|i: int| 0 <= i < boxes@.len() && boxes@[i] is None,
            r is None ==> final(rng).state() == old(rng).state(),
            r matches Some(tree) ==> (tree, final(rng).state()) == BVH::spec_build(
                known(boxes@),
                all_prims(boxes@.len()),
                old(rng).state(),
            ),
    {
        BVH::build(boxes, rng)
    }
}

} // verus!
