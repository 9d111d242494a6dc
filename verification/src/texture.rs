//! Surface colours: constant, chequered or noisy.
use vstd::prelude::*;
use crate::oracle::accepts_all;
use crate::oracle::answers;
use crate::scalar::Scalar;
use crate::vec3::Vec3;

verus! {

/// One colour everywhere.
#[derive(Debug)]
pub struct SolidColor {
    pub color_value: Vec3,
}

/// Two textures that alternate in a chequered pattern in space.
#[derive(Debug)]
pub struct CheckerTexture {
    pub odd: Box<Texture>,
    pub even: Box<Texture>,
}

/// Grey noise, sampled at `scale` times the point.
#[derive(Debug)]
pub struct NoiseTexture {
    pub scale: Scalar,
}

/// The textures a surface can have.
#[derive(Debug)]
pub enum Texture {
    Solid(SolidColor),
    Checker(CheckerTexture),
    Noise(NoiseTexture),
}

impl Texture {
    /// The colour of the texture at a point, where `sines` is the product of
    /// the sines of the point's tenfold coordinates and `noise(k)` the noise
    /// at `k` times the point.
    ///
    /// A chequered texture shows its odd part where `sines` is below zero and
    /// its even part elsewhere. A noisy one shows the grey of that brightness.
    pub open spec fn spec_value(self, sines: Scalar, noise: spec_fn(Scalar) -> Scalar) -> Vec3
        decreases self,
    {
        match self {
            Texture::Solid(solid) => solid.color_value,
            Texture::Checker(checker) => if sines.spec_lt(Scalar { bits: 0 }) {
                checker.odd.spec_value(sines, noise)
            } else {
                checker.even.spec_value(sines, noise)
            },
            Texture::Noise(grey) => Vec3 {
                x: noise(grey.scale),
                y: noise(grey.scale),
                z: noise(grey.scale),
            },
        }
    }

    /// The colour of the texture at a point, where `sines` is the product of
    /// the sines of the point's tenfold coordinates and `noise_of(k)`
    /// computes the noise at `k` times the point.
    ///
    /// `noise_of` is called once where the point shows noise, and not at all
    /// elsewhere.
    pub fn value<N: Fn(Scalar) -> Scalar>(&self, sines: Scalar, noise_of: &N) -> (c: Vec3)
        requires
            accepts_all(*noise_of),
        ensures
            forall|noise: spec_fn(Scalar) -> Scalar|
                answers(*noise_of, noise) ==> c == #[trigger] self.spec_value(sines, noise),
        decreases self,
    {
        match self {
            Texture::Solid(solid) => solid.color_value,
            Texture::Checker(checker) => {
                let c = if sines.lt(Scalar::zero()) {
                    checker.odd.value(sines, noise_of)
                } else {
                    checker.even.value(sines, noise_of)
                };
                proof {
                    assert forall|noise: spec_fn(Scalar) -> Scalar|
                        answers(*noise_of, noise) implies c == #[trigger] self.spec_value(
                        sines,
                        noise,
                    ) by {
                        assert(c == checker.odd.spec_value(sines, noise) || c
                            == checker.even.spec_value(sines, noise));
                    }
                }
                c
            },
            Texture::Noise(grey) => {
                let n = noise_of(grey.scale);
                proof {
                    assert forall|noise: spec_fn(Scalar) -> Scalar|
                        answers(*noise_of, noise) implies Vec3 { x: n, y: n, z: n }
                        == #[trigger] self.spec_value(sines, noise) by {
                        assert(call_ensures(*noise_of, (grey.scale,), n));
                    }
                }
                Vec3::splat(n)
            },
        }
    }
}

} // verus!
