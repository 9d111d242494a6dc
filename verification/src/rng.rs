//! The 32-bit xorshift generator that drives every random choice.
use vstd::arithmetic::power2::lemma2_to64;
use vstd::arithmetic::power2::lemma2_to64_rest;
use vstd::arithmetic::power2::lemma_pow2_adds;
use vstd::arithmetic::power2::lemma_pow2_strictly_increases;
use vstd::arithmetic::power2::lemma_pow2_unfold;
use vstd::arithmetic::power2::pow2;
use vstd::prelude::*;
use crate::scalar::ONE_BITS;
use crate::scalar::Scalar;
use crate::value::EXPONENT_UNIT;
use crate::value::magnitude_value;

verus! {

/// The number of equally likely fractions a draw can take: `2^23`.
pub const FRACTION_STEPS: u32 = 0x80_0000;

/// The bound on the arguments of [`Rng::int_between`]: `2^29`.
pub const INT_LIMIT: i64 = 0x2000_0000;

/// One round of xorshift with the shifts 13, 17 and 5.
pub open spec fn xorshift(x: u32) -> u32 {
    let a = x ^ (x >> 13);
    let b = a ^ (a << 17);
    b ^ (b >> 5)
}

/// The fraction that a state stands for, as a numerator over `2^23`: its low
/// 23 bits.
pub open spec fn fraction(x: u32) -> u32 {
    x & 0x007F_FFFF
}

/// Whether `s` is the double `f / 2^23`: a number that is not negative and
/// that, taken `2^23` times, is `f`.
pub open spec fn is_fraction(s: Scalar, f: u32) -> bool {
    &&& !s.spec_is_nan()
    &&& !s.spec_is_sign_negative()
    &&& s.scaled_value() * pow2(23) == f * pow2(1074)
}

/// The point `min + (max + 1 - min) * f / 2^23`, cut off towards zero.
pub open spec fn scaled(f: u32, min: i64, max: i64) -> int {
    let n = min * FRACTION_STEPS + (max + 1 - min) * f;
    if n >= 0 {
        n / (FRACTION_STEPS as int)
    } else {
        -((-n) / (FRACTION_STEPS as int))
    }
}

/// From the state zero the generator never moves.
pub proof fn lemma_zero_is_stuck()
    ensures
        xorshift(0) == 0,
        fraction(0) == 0,
{
    assert(0u32 ^ (0u32 >> 13) == 0) by (bit_vector);
    assert(0u32 ^ (0u32 << 17) == 0) by (bit_vector);
    assert(0u32 ^ (0u32 >> 5) == 0) by (bit_vector);
    assert(0u32 & 0x007F_FFFF == 0) by (bit_vector);
}

/// The offset between the number of an image row and the seed of its
/// generator.
pub const ROW_SEED_BASE: u32 = 123;

/// The seed of the generator that renders an image row. Each row has a
/// generator of its own, so that an image is the same in whatever order, and
/// on however many threads, its rows are rendered.
pub fn row_seed(row: u32) -> (seed: u32)
    requires
        row <= u32::MAX - ROW_SEED_BASE,
    ensures
        seed == ROW_SEED_BASE + row,
{
    ROW_SEED_BASE + row
}

/// A xorshift generator with 32 bits of state.
///
/// A state of zero stays zero, and every draw from it is zero.
#[derive(Clone, Copy, Debug)]
pub struct Rng {
    seed: u32,
}

impl Rng {
    /// The state from which the next draw is made.
    pub closed spec fn state(&self) -> u32 {
        self.seed
    }

    /// The generator in the state `seed`.
    pub closed spec fn seeded(seed: u32) -> Rng {
        Rng { seed }
    }

    pub fn new(seed: u32) -> (r: Rng)
        ensures
            r == Self::seeded(seed),
            r.state() == seed,
    {
        Rng { seed }
    }

    /// Advances the generator and returns the numerator of a fraction in
    /// `[0, 1)` over `2^23`.
    pub fn next_fraction(&mut self) -> (f: u32)
        ensures
            final(self).state() == xorshift(old(self).state()),
            f == fraction(final(self).state()),
            f < FRACTION_STEPS,
    {
        let mut x = self.seed;
        x ^= x >> 13;
        x ^= x << 17;
        x ^= x >> 5;
        self.seed = x;
        let f = x & 0x007F_FFFF;
        assert(x & 0x007F_FFFF < 0x80_0000) by (bit_vector);
        f
    }

    /// Advances the generator and returns a double in `[0, 1)`: the next
    /// fraction over `2^23`, which a double holds exactly.
    pub fn gen(&mut self) -> (r: Scalar)
        ensures
            final(self).state() == xorshift(old(self).state()),
            is_fraction(r, fraction(final(self).state())),
            r.bits < ONE_BITS,
    {
        let f = self.next_fraction();
        if f == 0 {
            proof {
                let zero = Scalar { bits: 0 };
                assert(magnitude_value(0) == 0);
                assert(zero.scaled_value() == 0);
                assert(0 * pow2(23) == 0 * pow2(1074)) by (nonlinear_arith);
            }
            return Scalar::zero();
        }
        // The fraction is doubled until its leading bit stands where a
        // double keeps the implicit one; the exponent counts the doublings.
        let mut m: u64 = f as u64;
        let mut e: u64 = 1023;
        let ghost mut shift: nat = 0;
        proof {
            lemma2_to64();
            lemma2_to64_rest();
        }
        while m < 0x80_0000
            invariant
                0 < f < 0x80_0000,
                shift <= 23,
                e + shift == 1023,
                m == f * pow2(shift),
                0 < m,
                pow2(shift) <= m < 0x100_0000,
                pow2(23) == 0x80_0000,
            decreases e,
        {
            proof {
                if shift >= 23 {
                    if shift > 23 {
                        lemma_pow2_strictly_increases(23, shift);
                    }
                    assert(false);
                }
                lemma_pow2_unfold(shift + 1);
                assert(f * (2 * pow2(shift)) == 2 * (f * pow2(shift))) by (nonlinear_arith);
            }
            m = m * 2;
            e = e - 1;
            proof {
                shift = shift + 1;
            }
        }
        let low: u64 = (m - 0x80_0000) * 0x2000_0000;
        let bits: u64 = e * EXPONENT_UNIT + low;
        proof {
            let unit = EXPONENT_UNIT as int;
            assert(bits / EXPONENT_UNIT == e && bits % EXPONENT_UNIT == low) by (nonlinear_arith)
                requires
                    bits == e * EXPONENT_UNIT + low,
                    0 <= low < EXPONENT_UNIT,
                    EXPONENT_UNIT == 0x10_0000_0000_0000,
            ;
            let r = Scalar { bits };
            assert(r.magnitude() == bits);
            assert(r.scaled_value() == (unit + low) * pow2((e - 1) as nat));
            lemma_pow2_adds(shift, 29);
            lemma_pow2_adds(shift + 29, (e - 1) as nat);
            lemma_pow2_adds(1051, 23);
            let (p, q, t) = (pow2(shift), pow2((e - 1) as nat), pow2(23));
            assert(unit + low == f * p * 0x2000_0000);
            assert((f * p * 0x2000_0000) * q * t == f * (((p * 0x2000_0000) * q) * t))
                by (nonlinear_arith);
        }
        Scalar::from_bits(bits)
    }

    /// Draws an integer from `min` to `max`: the next fraction, scaled to the
    /// width `max + 1 - min`, added to `min` and cut off towards zero.
    ///
    /// With `min >= 0` the result lies in `min..=max`. A range that ends below
    /// zero is cut off upwards, so the result can be `max + 1`.
    ///
    /// The arguments stay within `2^29` in magnitude, where the same formula
    /// over doubles is exact.
    pub fn int_between(&mut self, min: i64, max: i64) -> (r: i64)
        requires
            -INT_LIMIT <= min <= max < INT_LIMIT,
        ensures
            final(self).state() == xorshift(old(self).state()),
            r == scaled(fraction(final(self).state()), min, max),
            min <= r <= max + 1,
            min >= 0 ==> r <= max,
    {
        let f = self.next_fraction();
        let width: i64 = max + 1 - min;
        assert(0 <= width * f <= 0x4000_0000 * 0x80_0000) by (nonlinear_arith)
            requires
                0 < width <= 0x4000_0000,
                0 <= f < 0x80_0000,
        ;
        assert(width * f <= width * 0x80_0000 - width) by (nonlinear_arith)
            requires
                0 < width,
                0 <= f < 0x80_0000,
        ;
        let n: i64 = min * 0x80_0000 + width * (f as i64);
        if n >= 0 {
            n / 0x80_0000
        } else {
            let m: i64 = -n;
            -(m / 0x80_0000)
        }
    }
}

} // verus!
