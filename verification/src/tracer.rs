//! The path integrator: follows a ray from surface to surface until it
//! leaves the scene, is absorbed, or has used up its depth.
use vstd::prelude::*;
use crate::hitrec::HitRec;
use crate::hitrec::Rec;
use crate::material::black;
use crate::oracle::accepts_all;
use crate::oracle::answers;
use crate::ray::Ray;
use crate::rng::Rng;
use crate::scalar::INFINITY_BITS;
use crate::scalar::Scalar;
use crate::vec3::Vec3;

verus! {

/// The bit pattern of `0.001`, the parameter below which a crossing is taken
/// for the surface the ray has just left.
pub const NEAR_BITS: u64 = 0x3F50_624D_D2F1_A9FC;

/// A question to the scene: the nearest crossing of `ray` within the span
/// from `t_min` to `t_max`.
#[derive(Clone, Copy, Debug, PartialEq, Eq, Structural)]
pub struct Query {
    pub ray: Ray,
    pub t_min: Scalar,
    pub t_max: Scalar,
}

/// A ray at a surface with a material, and the generator to draw from.
#[derive(Clone, Copy, Debug)]
pub struct Meeting {
    pub ray: Ray,
    pub rec: Rec,
    pub mat: usize,
    pub rng: Rng,
}

/// The question that the integrator asks for a ray: everything from `0.001`
/// on.
pub open spec fn query_for(ray: Ray) -> Query {
    Query { ray, t_min: Scalar { bits: NEAR_BITS }, t_max: Scalar { bits: INFINITY_BITS } }
}

/// What the functions of a scene return, as mathematical functions.
pub struct Oracles {
    /// The nearest hit that answers a query.
    pub world: spec_fn(Query) -> HitRec,
    /// The scattered ray with its attenuation, or nothing for an absorbed
    /// ray, and the generator after the draws of the material.
    pub scatter: spec_fn(Meeting) -> (Option<(Ray, Vec3)>, Rng),
    /// The light of a material at a hit.
    pub emitted: spec_fn((Rec, usize)) -> Vec3,
    /// The colour behind the scene in the direction of a ray.
    pub background: spec_fn(Ray) -> Vec3,
    /// The product of two colours.
    pub tint: spec_fn((Vec3, Vec3)) -> Vec3,
}

impl Oracles {
    /// Whether the oracles say what the five functions of a scene return.
    pub open spec fn answer<W, S, E, B, M>(
        self,
        world: W,
        scatter: S,
        emitted: E,
        background: B,
        tint: M,
    ) -> bool where
        W: Fn(Query) -> HitRec,
        S: Fn(Meeting) -> (Option<(Ray, Vec3)>, Rng),
        E: Fn((Rec, usize)) -> Vec3,
        B: Fn(Ray) -> Vec3,
        M: Fn((Vec3, Vec3)) -> Vec3,
     {
        &&& answers(world, self.world)
        &&& answers(scatter, self.scatter)
        &&& answers(emitted, self.emitted)
        &&& answers(background, self.background)
        &&& answers(tint, self.tint)
    }
}

/// The colour that a ray brings back, and the generator after the ray has
/// been followed.
///
/// With no depth left the colour is black. A ray that misses the scene brings
/// back the background. A surface without material shows its normal. A
/// surface that scatters the ray tints what the scattered ray brings back
/// with one depth less; a surface that absorbs it shows what it emits.
pub open spec fn spec_ray_color(ray: Ray, scene: Oracles, rng: Rng, depth: nat) -> (Vec3, Rng)
    decreases depth,
{
    if depth == 0 {
        (black(), rng)
    } else {
        match (scene.world)(query_for(ray)) {
            HitRec::Miss => ((scene.background)(ray), rng),
            HitRec::Hit(rec, None) => (rec.n, rng),
            HitRec::Hit(rec, Some(mat)) => {
                let (scattered, after) = (scene.scatter)(Meeting { ray, rec, mat, rng });
                match scattered {
                    None => ((scene.emitted)((rec, mat)), after),
                    Some((next, attenuation)) => {
                        let (inner, last) = spec_ray_color(next, scene, after, (depth - 1) as nat);
                        ((scene.tint)((attenuation, inner)), last)
                    },
                }
            },
        }
    }
}

/// Follows a ray through the scene for at most `depth` surfaces.
///
/// `world` answers a query with the nearest hit; `scatter` lets the material
/// of a hit deal with the ray, drawing from the generator it is given and
/// handing it back; `emitted` is the light of a material at a hit;
/// `background` is the colour behind the scene in the direction of a ray;
/// `tint` is the product of two colours.
///
/// With `depth == 0` nothing is called.
pub fn ray_color<W, S, E, B, M>(
    ray: Ray,
    world: &W,
    scatter: &S,
    emitted: &E,
    background: &B,
    tint: &M,
    rng: Rng,
    depth: usize,
) -> (out: (Vec3, Rng)) where
    W: Fn(Query) -> HitRec,
    S: Fn(Meeting) -> (Option<(Ray, Vec3)>, Rng),
    E: Fn((Rec, usize)) -> Vec3,
    B: Fn(Ray) -> Vec3,
    M: Fn((Vec3, Vec3)) -> Vec3,

    requires
        accepts_all(*world),
        accepts_all(*scatter),
        accepts_all(*emitted),
        accepts_all(*background),
        accepts_all(*tint),
    ensures
        depth == 0 ==> out == (black(), rng),
        forall|scene: Oracles|
            scene.answer(*world, *scatter, *emitted, *background, *tint) ==> out
                == #[trigger] spec_ray_color(ray, scene, rng, depth as nat),
    decreases depth,
{
    if depth == 0 {
        return (Vec3::zero(), rng);
    }
    let query = Query { ray, t_min: Scalar::from_bits(NEAR_BITS), t_max: Scalar::infinity() };
    let seen = world(query);
    let out = match seen {
        HitRec::Miss => (background(ray), rng),
        HitRec::Hit(rec, None) => (rec.n, rng),
        HitRec::Hit(rec, Some(mat)) => {
            let (scattered, after) = scatter(Meeting { ray, rec, mat, rng });
            match scattered {
                None => (emitted((rec, mat)), after),
                Some((next, attenuation)) => {
                    let (inner, last) = ray_color(
                        next,
                        world,
                        scatter,
                        emitted,
                        background,
                        tint,
                        after,
                        depth - 1,
                    );
                    (tint((attenuation, inner)), last)
                },
            }
        },
    };
    proof {
        assert forall|scene: Oracles|
            scene.answer(*world, *scatter, *emitted, *background, *tint) implies out
            == #[trigger] spec_ray_color(ray, scene, rng, depth as nat) by {
            assert(query == query_for(ray));
            assert(seen == (scene.world)(query));
            match seen {
                HitRec::Miss => {},
                HitRec::Hit(rec, None) => {},
                HitRec::Hit(rec, Some(mat)) => {
                    let (scattered, after) = (scene.scatter)(Meeting { ray, rec, mat, rng });
                    match scattered {
                        None => {},
                        Some((next, attenuation)) => {
                            let inner = spec_ray_color(next, scene, after, (depth - 1) as nat);
                            assert(out.0 == (scene.tint)((attenuation, inner.0)));
                        },
                    }
                },
            }
        }
    }
    out
}

/// With no depth the colour is black, whatever the scene holds.
pub proof fn lemma_no_depth_is_black(ray: Ray, scene: Oracles, rng: Rng)
    ensures
        spec_ray_color(ray, scene, rng, 0) == (black(), rng),
{
}

/// A ray that misses the scene brings back the background of its direction,
/// untinted, and draws nothing.
pub proof fn lemma_miss_is_background(ray: Ray, scene: Oracles, rng: Rng, depth: nat)
    requires
        depth > 0,
        (scene.world)(query_for(ray)) is Miss,
    ensures
        spec_ray_color(ray, scene, rng, depth) == ((scene.background)(ray), rng),
{
}

} // verus!
