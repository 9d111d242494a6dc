//! Materials: what becomes of a ray that meets a surface.
//!
//! Each material decides from the numbers that its formula needs; the caller
//! computes those numbers from the ray, the hit and its random draws.
use vstd::prelude::*;
use crate::hitrec::Rec;
use crate::oracle::accepts_all;
use crate::oracle::answers;
use crate::ray::Ray;
use crate::scalar::clamp;
use crate::scalar::ONE_BITS;
use crate::scalar::Scalar;
use crate::texture::SolidColor;
use crate::texture::Texture;
use crate::vec3::Vec3;

verus! {

/// A diffuse surface with a textured albedo.
#[derive(Debug)]
pub struct Lambertian {
    pub albedo: Texture,
}

/// A mirror with a tint, blurred by `fuzz`.
#[derive(Debug)]
pub struct Metal {
    pub albedo: Vec3,
    pub fuzz: Scalar,
}

/// Clear glass with an index of refraction.
#[derive(Debug)]
pub struct Dielectric {
    pub ir: Scalar,
}

/// A light: it emits and scatters nothing.
#[derive(Debug)]
pub struct DiffuseLight {
    pub emit: Texture,
}

/// The materials a surface can have.
#[derive(Debug)]
pub enum Material {
    Lambertian(Lambertian),
    Metal(Metal),
    Dielectric(Dielectric),
    DiffuseLight(DiffuseLight),
}

/// What Snell's law and the Schlick approximation give for a ray at a glass
/// surface, with both directions the ray can take.
#[derive(Clone, Copy, Debug, PartialEq, Eq, Structural)]
pub struct Bend {
    /// The refraction ratio times the sine of the angle of incidence.
    pub sine: Scalar,
    /// The share of light that is reflected at this angle.
    pub reflectance: Scalar,
    /// A uniform draw from `[0, 1)`.
    pub draw: Scalar,
    /// The direction of the mirrored ray.
    pub reflected: Vec3,
    /// The direction of the refracted ray.
    pub refracted: Vec3,
}

/// White, the colour that takes nothing away.
pub open spec fn white() -> Vec3 {
    Vec3 { x: Scalar { bits: ONE_BITS }, y: Scalar { bits: ONE_BITS }, z: Scalar { bits: ONE_BITS } }
}

/// Black.
pub open spec fn black() -> Vec3 {
    Vec3 { x: Scalar { bits: 0 }, y: Scalar { bits: 0 }, z: Scalar { bits: 0 } }
}

impl Bend {
    /// Whether the ray is mirrored: no refracted ray exists, the sine of its
    /// angle would exceed one; or the draw falls below the reflectance.
    pub open spec fn reflects(self) -> bool {
        (Scalar { bits: ONE_BITS }).spec_lt(self.sine) || self.draw.spec_lt(self.reflectance)
    }
}

impl Lambertian {
    /// The direction in which a diffuse surface sends a ray on: `candidate`,
    /// the sum of the normal and a random unit vector, unless that sum has all
    /// but vanished; then the normal itself.
    pub open spec fn direction(normal: Vec3, candidate: Vec3) -> Vec3 {
        if candidate.spec_near_zero() {
            normal
        } else {
            candidate
        }
    }

    /// A diffuse surface of one colour.
    pub fn from(color: Vec3) -> (l: Lambertian)
        ensures
            l.albedo == Texture::Solid(SolidColor { color_value: color }),
    {
        Lambertian { albedo: Texture::Solid(SolidColor { color_value: color }) }
    }

    /// Scatters a ray at the hit `rec`. `candidate` is the sum of the normal
    /// and a random unit vector; `sines` and `noise_of` are what the albedo's
    /// texture needs at the point. A diffuse surface never absorbs.
    pub fn scatter<N: Fn(Scalar) -> Scalar>(
        &self,
        rec: &Rec,
        candidate: Vec3,
        sines: Scalar,
        noise_of: &N,
    ) -> (r: Option<(Ray, Vec3)>)
        requires
            accepts_all(*noise_of),
        ensures
            forall|noise: spec_fn(Scalar) -> Scalar|
                answers(*noise_of, noise) ==> r == Some(
                    (
                        Ray { o: rec.p, d: Self::direction(rec.n, candidate) },
                        #[trigger] self.albedo.spec_value(sines, noise),
                    ),
                ),
            r matches Some(out) && out.0 == (Ray { o: rec.p, d: Self::direction(rec.n, candidate) }),
    {
        let mut scatter_dir = candidate;
        if scatter_dir.near_zero() {
            scatter_dir = rec.n;
        }
        Some((Ray { o: rec.p, d: scatter_dir }, self.albedo.value(sines, noise_of)))
    }
}

impl Metal {
    /// A metal with its fuzz held to the range from 0 to 1.
    pub fn new(albedo: Vec3, fuzz: Scalar) -> (m: Metal)
        ensures
            m.albedo == albedo,
            m.fuzz == clamp(fuzz, Scalar { bits: 0 }, Scalar { bits: ONE_BITS }),
    {
        Metal { albedo, fuzz: clamp(fuzz, Scalar::zero(), Scalar::one()) }
    }

    /// Scatters a ray at the hit `rec`. `direction` is the mirrored direction
    /// with its blur, `facing` its dot product with the normal. A direction
    /// that does not leave the surface is absorbed.
    pub fn scatter(&self, rec: &Rec, direction: Vec3, facing: Scalar) -> (r: Option<(Ray, Vec3)>)
        ensures
            (Scalar { bits: 0 }).spec_lt(facing) ==> r == Some(
                (Ray { o: rec.p, d: direction }, self.albedo),
            ),
            !(Scalar { bits: 0 }).spec_lt(facing) ==> r is None,
    {
        if facing.gt(Scalar::zero()) {
            Some((Ray { o: rec.p, d: direction }, self.albedo))
        } else {
            None
        }
    }
}

impl Dielectric {
    /// The ratio of the indices of refraction on the way in and on the way
    /// out, where `inverse` is one over the index of the glass.
    pub fn refraction_ratio(&self, inverse: Scalar, front_face: bool) -> (r: Scalar)
        ensures
            r == if front_face {
                inverse
            } else {
                self.ir
            },
    {
        if front_face {
            inverse
        } else {
            self.ir
        }
    }

    /// Scatters a ray at the hit `rec`: mirrored where `bend` says so, else
    /// refracted. Glass takes no colour away and never absorbs.
    pub fn scatter(&self, rec: &Rec, bend: &Bend) -> (r: Option<(Ray, Vec3)>)
        ensures
            r == Some(
                (
                    Ray {
                        o: rec.p,
                        d: if bend.reflects() {
                            bend.reflected
                        } else {
                            bend.refracted
                        },
                    },
                    white(),
                ),
            ),
    {
        let cannot_refract = bend.sine.gt(Scalar::one());
        let angle_criteria = bend.reflectance.gt(bend.draw);
        let dir = if cannot_refract || angle_criteria {
            bend.reflected
        } else {
            bend.refracted
        };
        Some((Ray { o: rec.p, d: dir }, Vec3::splat(Scalar::one())))
    }
}

impl DiffuseLight {
    /// A light scatters nothing.
    pub fn scatter(&self) -> (r: Option<(Ray, Vec3)>)
        ensures
            r is None,
    {
        None
    }

    /// The light given off at a point, where `sines` and `noise_of` are
    /// what the texture needs there.
    pub fn emitted<N: Fn(Scalar) -> Scalar>(&self, sines: Scalar, noise_of: &N) -> (c: Vec3)
        requires
            accepts_all(*noise_of),
        ensures
            forall|noise: spec_fn(Scalar) -> Scalar|
                answers(*noise_of, noise) ==> c == #[trigger] self.emit.spec_value(sines, noise),
    {
        self.emit.value(sines, noise_of)
    }
}

impl Material {
    /// The light that the material gives off at a point: that of a light,
    /// and black for every other material.
    pub open spec fn spec_emitted(self, sines: Scalar, noise: spec_fn(Scalar) -> Scalar) -> Vec3 {
        match self {
            Material::DiffuseLight(light) => light.emit.spec_value(sines, noise),
            _ => black(),
        }
    }

    /// The light that the material gives off at a point, where `sines` and
    /// `noise_of` are what a texture needs there.
    pub fn emitted<N: Fn(Scalar) -> Scalar>(&self, sines: Scalar, noise_of: &N) -> (c: Vec3)
        requires
            accepts_all(*noise_of),
        ensures
            forall|noise: spec_fn(Scalar) -> Scalar|
                answers(*noise_of, noise) ==> c == #[trigger] self.spec_emitted(sines, noise),
            !(self is DiffuseLight) ==> c == black(),
    {
        match self {
            Material::DiffuseLight(light) => light.emitted(sines, noise_of),
            _ => Vec3::zero(),
        }
    }
}

} // verus!
