//! The 128-bit xorshift generator.
use vstd::prelude::*;

verus! {

pub const KX: u32 = 123456789;

pub const KY: u32 = 362436069;

pub const KZ: u32 = 521288629;

pub const KW: u32 = 88675123;

/// The four words of a 128-bit xorshift generator.
#[derive(Clone, Copy, Debug, PartialEq, Eq, Structural)]
pub struct Rand {
    pub x: u32,
    pub y: u32,
    pub z: u32,
    pub w: u32,
}

impl Rand {
    /// The state that a seed stands for: the seed is mixed into the first two
    /// words, the other two are fixed.
    pub open spec fn seeded(seed: u32) -> Rand {
        Rand { x: KX ^ seed, y: KY ^ seed, z: KZ, w: KW }
    }

    /// The state after one draw: the words move up by one place, and the new
    /// last word mixes the old last word with the old first.
    pub open spec fn step(self) -> Rand {
        let t = self.x ^ (self.x << 11);
        Rand { x: self.y, y: self.z, z: self.w, w: self.w ^ ((self.w >> 19) ^ t ^ (t >> 8)) }
    }

    pub fn new(seed: u32) -> (r: Rand)
        ensures
            r == Self::seeded(seed),
    {
        Rand { x: KX ^ seed, y: KY ^ seed, z: KZ, w: KW }
    }

    /// Reseeds the first two words and leaves the other two as they are.
    pub fn set_seed(&mut self, seed: u32)
        ensures
            *final(self) == (Rand { x: KX ^ seed, y: KY ^ seed, z: old(self).z, w: old(self).w }),
    {
        self.x = KX ^ seed;
        self.y = KY ^ seed;
    }

    /// Advances the generator and returns its new last word.
    pub fn rand(&mut self) -> (r: u32)
        ensures
            *final(self) == old(self).step(),
            r == final(self).w,
    {
        let t = self.x ^ (self.x << 11);
        self.x = self.y;
        self.y = self.z;
        self.z = self.w;
        self.w = self.w ^ ((self.w >> 19) ^ t ^ (t >> 8));
        self.w
    }

    /// Draws from `a..=b`: `a` plus the next word reduced modulo the number of
    /// values in the range.
    pub fn rand_range(&mut self, a: i32, b: i32) -> (r: i32)
        requires
            a <= b,
            b - a < i32::MAX,
        ensures
            *final(self) == old(self).step(),
            r == a + final(self).w as int % (b - a + 1),
            a <= r <= b,
    {
        let m: u32 = (b - a + 1) as u32;
        let d: u32 = self.rand() % m;
        a + (d as i32)
    }
}

} // verus!
