//! Triples of scalars: points, directions and colours.
use vstd::prelude::*;
use crate::rng::fraction;
use crate::rng::is_fraction;
use crate::rng::Rng;
use crate::rng::xorshift;
use crate::scalar::EPSILON_BITS;
use crate::scalar::Scalar;

verus! {

/// Three scalars, read as a point, a direction or an RGB colour.
#[derive(Clone, Copy, Debug, PartialEq, Eq, Structural)]
pub struct Vec3 {
    pub x: Scalar,
    pub y: Scalar,
    pub z: Scalar,
}

impl Vec3 {
    /// The component on an axis: 0 is `x`, 1 is `y`, anything else is `z`.
    pub open spec fn spec_index(self, axis: usize) -> Scalar {
        if axis == 0 {
            self.x
        } else if axis == 1 {
            self.y
        } else {
            self.z
        }
    }

    /// Whether no component is a NaN.
    pub open spec fn is_numeric(self) -> bool {
        !self.x.spec_is_nan() && !self.y.spec_is_nan() && !self.z.spec_is_nan()
    }

    /// Whether each component is smaller than `1e-8` in magnitude.
    pub open spec fn spec_near_zero(self) -> bool {
        let eta = Scalar { bits: EPSILON_BITS };
        self.x.spec_abs().spec_lt(eta) && self.y.spec_abs().spec_lt(eta) && self.z.spec_abs().spec_lt(
            eta,
        )
    }

    /// The triple with each sign flipped.
    pub open spec fn spec_neg(self) -> Vec3 {
        Vec3 { x: self.x.spec_neg(), y: self.y.spec_neg(), z: self.z.spec_neg() }
    }

    /// The origin, also the colour black.
    pub fn zero() -> (v: Vec3)
        ensures
            v == (Vec3 { x: Scalar { bits: 0 }, y: Scalar { bits: 0 }, z: Scalar { bits: 0 } }),
    {
        Vec3 { x: Scalar::zero(), y: Scalar::zero(), z: Scalar::zero() }
    }

    /// The triple with `v` in every component.
    pub fn splat(v: Scalar) -> (r: Vec3)
        ensures
            r == (Vec3 { x: v, y: v, z: v }),
    {
        Vec3 { x: v, y: v, z: v }
    }

    /// Three draws from `[0, 1)`, for `x`, `y` and `z` in that order.
    pub fn random(rng: &mut Rng) -> (r: Vec3)
        ensures
            final(rng).state() == xorshift(xorshift(xorshift(old(rng).state()))),
            is_fraction(r.x, fraction(xorshift(old(rng).state()))),
            is_fraction(r.y, fraction(xorshift(xorshift(old(rng).state())))),
            is_fraction(r.z, fraction(final(rng).state())),
    {
        let x = rng.gen();
        let y = rng.gen();
        let z = rng.gen();
        Vec3 { x, y, z }
    }

    #[verifier::when_used_as_spec(spec_index)]
    pub fn index(self, axis: usize) -> (r: Scalar)
        requires
            axis < 3,
        ensures
            r == self.spec_index(axis),
    {
        if axis == 0 {
            self.x
        } else if axis == 1 {
            self.y
        } else {
            self.z
        }
    }

    #[verifier::when_used_as_spec(spec_neg)]
    pub fn neg(self) -> (r: Vec3)
        ensures
            r == self.spec_neg(),
    {
        Vec3 { x: self.x.neg(), y: self.y.neg(), z: self.z.neg() }
    }

    #[verifier::when_used_as_spec(spec_near_zero)]
    pub fn near_zero(self) -> (r: bool)
        ensures
            r == self.spec_near_zero(),
    {
        let eta = Scalar::from_bits(EPSILON_BITS);
        self.x.abs().lt(eta) && self.y.abs().lt(eta) && self.z.abs().lt(eta)
    }
}

} // verus!
