//! Spheres, and the choice among the two places where a ray crosses one.
use vstd::prelude::*;
use crate::scalar::Scalar;
use crate::vec3::Vec3;

verus! {

/// A sphere by centre and radius, with the index of its material if it has
/// one.
///
/// A negative radius is kept as it is: it turns the surface inside out.
#[derive(Clone, Copy, Debug, PartialEq, Eq, Structural)]
pub struct Sphere {
    pub c: Vec3,
    pub r: Scalar,
    pub mat: Option<usize>,
}

/// What the quadratic of a ray and a sphere gives: its discriminant and its
/// two roots, the ray parameters of the nearer and of the farther crossing.
#[derive(Clone, Copy, Debug, PartialEq, Eq, Structural)]
pub struct Roots {
    pub disc: Scalar,
    pub near: Scalar,
    pub far: Scalar,
}

impl Roots {
    /// Whether the roots come in their order: the farther is not below the
    /// nearer.
    pub open spec fn in_order(self) -> bool {
        !self.far.spec_lt(self.near)
    }
}

impl Sphere {
    /// The crossing that counts within the open span from `t_min` to `t_max`:
    /// none where the discriminant is negative; else the nearer root where it
    /// lies strictly inside the span; else the farther root where that does;
    /// else none.
    pub open spec fn spec_hit(roots: Roots, t_min: Scalar, t_max: Scalar) -> Option<Scalar> {
        if roots.disc.spec_lt(Scalar { bits: 0 }) {
            None
        } else if t_min.spec_lt(roots.near) && roots.near.spec_lt(t_max) {
            Some(roots.near)
        } else if t_min.spec_lt(roots.far) && roots.far.spec_lt(t_max) {
            Some(roots.far)
        } else {
            None
        }
    }

    pub fn new(c: Vec3, r: Scalar, mat: Option<usize>) -> (s: Sphere)
        ensures
            s == (Sphere { c, r, mat }),
    {
        Sphere { c, r, mat }
    }

    /// Chooses the crossing of a ray with a sphere from the roots of their
    /// quadratic.
    pub fn hit(roots: &Roots, t_min: Scalar, t_max: Scalar) -> (r: Option<Scalar>)
        ensures
            r == Self::spec_hit(*roots, t_min, t_max),
    {
        if roots.disc.lt(Scalar::zero()) {
            return None;
        }
        let mut root = roots.near;
        if !(t_min.lt(root) && root.lt(t_max)) {
            root = roots.far;
            if !(t_min.lt(root) && root.lt(t_max)) {
                return None;
            }
        }
        Some(root)
    }
}

/// A crossing lies strictly inside the span it was chosen for.
pub proof fn lemma_hit_within(roots: Roots, t_min: Scalar, t_max: Scalar)
    ensures
        Sphere::spec_hit(roots, t_min, t_max) matches Some(t) ==> t_min.spec_lt(t) && t.spec_lt(
            t_max,
        ),
{
}

/// A crossing does not depend on where the span ends, as long as it ends
/// beyond the crossing: with roots in their order, the crossing chosen for
/// one upper end is chosen for every upper end above it.
pub proof fn lemma_hit_is_stable(roots: Roots, t_min: Scalar, t_max: Scalar, other_max: Scalar)
    requires
        roots.in_order(),
        Sphere::spec_hit(roots, t_min, t_max) matches Some(t) && t.spec_lt(other_max),
    ensures
        Sphere::spec_hit(roots, t_min, other_max) == Sphere::spec_hit(roots, t_min, t_max),
{
}

/// Shortening the span cannot produce a crossing: where a span holds none,
/// no span with a lower upper end does.
pub proof fn lemma_miss_is_stable(roots: Roots, t_min: Scalar, t_max: Scalar, shorter_max: Scalar)
    requires
        Sphere::spec_hit(roots, t_min, t_max) is None,
        shorter_max.spec_le(t_max),
    ensures
        Sphere::spec_hit(roots, t_min, shorter_max) is None,
{
}

} // verus!
