//! The record of an intersection, with its normal turned against the ray.
use vstd::prelude::*;
use crate::scalar::Scalar;
use crate::vec3::Vec3;

verus! {

/// Where and how a ray met a surface: the point `p`, the surface normal `n`
/// turned against the ray, the ray parameter `t`, the surface coordinates `u`
/// and `v`, and whether the ray came from outside.
#[derive(Clone, Copy, Debug, PartialEq, Eq, Structural)]
pub struct Rec {
    pub p: Vec3,
    pub n: Vec3,
    pub t: Scalar,
    pub u: Scalar,
    pub v: Scalar,
    pub front_face: bool,
}

/// The outcome of a query: a record with the index of the material that was
/// hit, if the surface has one, or a miss.
#[derive(Clone, Copy, Debug, PartialEq, Eq, Structural)]
pub enum HitRec {
    Hit(Rec, Option<usize>),
    Miss,
}

/// Whether a ray meets a surface from outside: the dot product of its
/// direction with the outward normal is below zero.
pub open spec fn faces_front(facing: Scalar) -> bool {
    facing.spec_lt(Scalar { bits: 0 })
}

/// The outward normal turned against the ray: itself where the ray comes
/// from outside, else its negation.
pub open spec fn oriented(facing: Scalar, outward_normal: Vec3) -> Vec3 {
    if faces_front(facing) {
        outward_normal
    } else {
        outward_normal.spec_neg()
    }
}

impl Rec {
    /// Sets the side and the normal of the record from the dot product
    /// `facing` of the ray direction with the outward normal.
    pub fn set_face_normal(&mut self, facing: Scalar, outward_normal: Vec3)
        ensures
            *final(self) == (Rec {
                n: oriented(facing, outward_normal),
                front_face: faces_front(facing),
                ..*old(self)
            }),
    {
        self.front_face = facing.lt(Scalar::zero());
        self.n = if self.front_face {
            outward_normal
        } else {
            outward_normal.neg()
        };
    }
}

impl HitRec {
    /// The record of a hit at `p` with parameter `t`, where `facing` is the
    /// dot product of the ray direction with the outward normal.
    pub fn hit(
        p: Vec3,
        t: Scalar,
        u: Scalar,
        v: Scalar,
        facing: Scalar,
        outward_normal: Vec3,
        mat: Option<usize>,
    ) -> (r: HitRec)
        ensures
            r == HitRec::Hit(
                Rec {
                    p,
                    n: oriented(facing, outward_normal),
                    t,
                    u,
                    v,
                    front_face: faces_front(facing),
                },
                mat,
            ),
    {
        let front_face = facing.lt(Scalar::zero());
        let n = if front_face {
            outward_normal
        } else {
            outward_normal.neg()
        };
        HitRec::Hit(Rec { p, n, t, u, v, front_face }, mat)
    }
}

} // verus!
