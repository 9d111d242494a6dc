//! Rays.
use vstd::prelude::*;
use crate::vec3::Vec3;

verus! {

/// A ray: the points `o + t * d` for the parameters `t`.
#[derive(Clone, Copy, Debug, PartialEq, Eq, Structural)]
pub struct Ray {
    pub o: Vec3,
    pub d: Vec3,
}

} // verus!
