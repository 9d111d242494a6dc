//! Axis-aligned bounding boxes: union, ordering along an axis, and the slab test.
use vstd::prelude::*;
use crate::scalar::Scalar;
use crate::vec3::Vec3;
use std::cmp::Ordering;

verus! {

/// A closed axis-aligned box, given by its least and greatest corner.
///
/// Nothing is demanded of the corners: a box may be flat along an axis, and a
/// box whose `min` lies above its `max` is kept as it is.
#[derive(Clone, Copy, Debug, PartialEq, Eq, Structural)]
pub struct AABB {
    pub min: Vec3,
    pub max: Vec3,
}

/// What a ray and the two planes of a box on one axis give: the ray parameter
/// at the `min` plane, the ray parameter at the `max` plane, and the inverse
/// of the ray direction's component on that axis.
#[derive(Clone, Copy, Debug, PartialEq, Eq, Structural)]
pub struct Slab {
    pub at_min: Scalar,
    pub at_max: Scalar,
    pub inv_d: Scalar,
}

/// A parametric interval of a ray, open at both ends.
#[derive(Clone, Copy, Debug, PartialEq, Eq, Structural)]
pub struct Span {
    pub lo: Scalar,
    pub hi: Scalar,
}

impl Slab {
    /// The parameter at which the ray enters the slab: the one at the `max`
    /// plane where the ray runs against the axis.
    pub open spec fn entry(self) -> Scalar {
        if self.inv_d.spec_lt(Scalar { bits: 0 }) {
            self.at_max
        } else {
            self.at_min
        }
    }

    /// The parameter at which the ray leaves the slab.
    pub open spec fn exit(self) -> Scalar {
        if self.inv_d.spec_lt(Scalar { bits: 0 }) {
            self.at_min
        } else {
            self.at_max
        }
    }
}

impl Span {
    /// Whether the span holds no parameter: its upper end is not above its
    /// lower end.
    pub open spec fn is_empty(self) -> bool {
        self.hi.spec_le(self.lo)
    }

    /// The span cut down to a slab: the lower end rises to the slab's entry
    /// where that lies above it, the upper end falls to the slab's exit where
    /// that lies below it. An entry or exit that is a NaN changes nothing.
    pub open spec fn narrow(self, slab: Slab) -> Span {
        Span {
            lo: if self.lo.spec_lt(slab.entry()) {
                slab.entry()
            } else {
                self.lo
            },
            hi: if slab.exit().spec_lt(self.hi) {
                slab.exit()
            } else {
                self.hi
            },
        }
    }
}

impl AABB {
    /// The tightest box around two boxes: the lesser of the `min` corners and
    /// the greater of the `max` corners, axis by axis.
    pub open spec fn spec_union(a: AABB, b: AABB) -> AABB {
        AABB {
            min: Vec3 {
                x: a.min.x.spec_min(b.min.x),
                y: a.min.y.spec_min(b.min.y),
                z: a.min.z.spec_min(b.min.z),
            },
            max: Vec3 {
                x: a.max.x.spec_max(b.max.x),
                y: a.max.y.spec_max(b.max.y),
                z: a.max.z.spec_max(b.max.z),
            },
        }
    }

    /// Whether no coordinate is a NaN and `min` lies at or below `max` on
    /// every axis.
    pub open spec fn is_ordered(self) -> bool {
        &&& self.min.x.spec_le(self.max.x)
        &&& self.min.y.spec_le(self.max.y)
        &&& self.min.z.spec_le(self.max.z)
    }

    /// Whether no coordinate of the box is a NaN.
    pub open spec fn is_numeric(self) -> bool {
        self.min.is_numeric() && self.max.is_numeric()
    }

    /// Whether two boxes are the same set of points: their corners agree in
    /// every coordinate, as numbers.
    pub open spec fn same(self, other: AABB) -> bool {
        &&& self.min.x.spec_same(other.min.x) && self.max.x.spec_same(other.max.x)
        &&& self.min.y.spec_same(other.min.y) && self.max.y.spec_same(other.max.y)
        &&& self.min.z.spec_same(other.min.z) && self.max.z.spec_same(other.max.z)
    }

    /// Whether the point lies in the box, faces included.
    pub open spec fn contains(self, p: Vec3) -> bool {
        &&& self.min.x.spec_le(p.x) && p.x.spec_le(self.max.x)
        &&& self.min.y.spec_le(p.y) && p.y.spec_le(self.max.y)
        &&& self.min.z.spec_le(p.z) && p.z.spec_le(self.max.z)
    }

    /// Whether `inner` lies in the box: both of its corners do.
    pub open spec fn encloses(self, inner: AABB) -> bool {
        self.contains(inner.min) && self.contains(inner.max)
    }

    /// Whether the ray passes through the box within the span from `t_min` to
    /// `t_max`: cutting the span down to the three slabs in turn never leaves
    /// it empty.
    pub open spec fn spec_hit(slabs: [Slab; 3], t_min: Scalar, t_max: Scalar) -> bool {
        let s0 = (Span { lo: t_min, hi: t_max }).narrow(slabs[0]);
        let s1 = s0.narrow(slabs[1]);
        let s2 = s1.narrow(slabs[2]);
        !s0.is_empty() && !s1.is_empty() && !s2.is_empty()
    }

    /// The slab test. The caller computes, for each axis, where the ray meets
    /// the two planes of the box; this decides from those numbers.
    pub fn hit(slabs: &[Slab; 3], t_min: Scalar, t_max: Scalar) -> (r: bool)
        ensures
            r == Self::spec_hit(*slabs, t_min, t_max),
    {
        let mut lo = t_min;
        let mut hi = t_max;
        let zero = Scalar::zero();
        for a in 0..3
            invariant
                zero.bits == 0,
                a == 0 ==> (Span { lo, hi }) == (Span { lo: t_min, hi: t_max }),
                a >= 1 ==> {
                    let s0 = (Span { lo: t_min, hi: t_max }).narrow(slabs[0]);
                    !s0.is_empty() && (a == 1 ==> (Span { lo, hi }) == s0)
                },
                a >= 2 ==> {
                    let s1 = (Span { lo: t_min, hi: t_max }).narrow(slabs[0]).narrow(slabs[1]);
                    !s1.is_empty() && (a == 2 ==> (Span { lo, hi }) == s1)
                },
                a >= 3 ==> {
                    let s2 = (Span { lo: t_min, hi: t_max }).narrow(slabs[0]).narrow(
                        slabs[1],
                    ).narrow(slabs[2]);
                    !s2.is_empty()
                },
        {
            let slab = slabs[a];
            let mut t0 = slab.at_min;
            let mut t1 = slab.at_max;
            if slab.inv_d.lt(zero) {
                t0 = slab.at_max;
                t1 = slab.at_min;
            }
            if t0.gt(lo) {
                lo = t0;
            }
            if t1.lt(hi) {
                hi = t1;
            }
            if hi.le(lo) {
                return false;
            }
        }
        true
    }

    #[verifier::when_used_as_spec(spec_union)]
    pub fn union(a: AABB, b: AABB) -> (r: AABB)
        ensures
            r == Self::spec_union(a, b),
    {
        let small = Vec3 { x: a.min.x.min(b.min.x), y: a.min.y.min(b.min.y), z: a.min.z.min(b.min.z) };
        let big = Vec3 { x: a.max.x.max(b.max.x), y: a.max.y.max(b.max.y), z: a.max.z.max(b.max.z) };
        AABB { min: small, max: big }
    }

    /// The box grown to take in another: the same as their union.
    pub fn grow(a: AABB, b: AABB) -> (r: AABB)
        ensures
            r == Self::spec_union(a, b),
    {
        Self::union(a, b)
    }

    /// Orders two boxes by their `min` corner on an axis: `Less` where the
    /// first lies strictly below the second, `Greater` in every other case.
    pub fn compare(a: AABB, b: AABB, axis: usize) -> (r: Ordering)
        requires
            axis < 3,
        ensures
            a.min.spec_index(axis).spec_lt(b.min.spec_index(axis)) ==> r == Ordering::Less,
            !a.min.spec_index(axis).spec_lt(b.min.spec_index(axis)) ==> r == Ordering::Greater,
    {
        if a.min.index(axis).lt(b.min.index(axis)) {
            Ordering::Less
        } else {
            Ordering::Greater
        }
    }
}

/// Widening the span cannot turn a hit into a miss: a ray that passes through
/// the box within a span passes through it within every span around that one.
pub proof fn lemma_hit_is_monotone(
    slabs: [Slab; 3],
    t_min: Scalar,
    t_max: Scalar,
    wide_min: Scalar,
    wide_max: Scalar,
)
    requires
        wide_min.spec_le(t_min),
        t_max.spec_le(wide_max),
        AABB::spec_hit(slabs, t_min, t_max),
    ensures
        AABB::spec_hit(slabs, wide_min, wide_max),
{
}

/// The union of two ordered boxes encloses both, and is itself ordered.
pub proof fn lemma_union_encloses(a: AABB, b: AABB)
    requires
        a.is_ordered(),
        b.is_ordered(),
    ensures
        AABB::spec_union(a, b).encloses(a),
        AABB::spec_union(a, b).encloses(b),
        AABB::spec_union(a, b).is_ordered(),
{
}

/// The union does not depend on the order of its operands.
pub proof fn lemma_union_commutes(a: AABB, b: AABB)
    requires
        a.is_numeric(),
        b.is_numeric(),
    ensures
        AABB::spec_union(a, b).same(AABB::spec_union(b, a)),
{
}

/// The union of three boxes does not depend on which two are united first.
pub proof fn lemma_union_associates(a: AABB, b: AABB, c: AABB)
    requires
        a.is_numeric(),
        b.is_numeric(),
        c.is_numeric(),
    ensures
        AABB::spec_union(AABB::spec_union(a, b), c).same(
            AABB::spec_union(a, AABB::spec_union(b, c)),
        ),
{
}

/// The union is the tightest such box: any box that encloses both operands
/// encloses their union.
pub proof fn lemma_union_is_tightest(a: AABB, b: AABB, outer: AABB)
    requires
        a.is_ordered(),
        b.is_ordered(),
        outer.encloses(a),
        outer.encloses(b),
    ensures
        outer.encloses(AABB::spec_union(a, b)),
{
}

} // verus!
