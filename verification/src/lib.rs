//! The verified core of a path tracer for scenes of spheres: the hierarchy
//! of bounding boxes that finds the nearest surface along a ray, the record
//! of a hit, the materials that send a ray on, and the integrator that
//! follows a ray from surface to surface.
//!
//! Every real quantity is carried as a [`scalar::Scalar`], the bit pattern of
//! an IEEE-754 double. The library compares, negates, selects and sorts such
//! values exactly. Sums, products and roots are the caller's: where an
//! algorithm needs one, it takes the number or a function that computes it
//! (see [`oracle`]).
pub mod oracle;
pub mod scalar;
pub mod value;
pub mod vec3;
pub mod ray;
pub mod aabb;
pub mod rng;
pub mod rand;
pub mod sorting;
pub mod sphere;
pub mod hitrec;
pub mod hittable;
pub mod nearest;
pub mod bvh;
pub mod built;
pub mod agreement;
pub mod texture;
pub mod material;
pub mod tracer;
pub mod perlin;
