//! The numbers behind the bit patterns, and why comparing keys compares
//! numbers.
use vstd::arithmetic::power2::lemma_pow2_pos;
use vstd::arithmetic::power2::lemma_pow2_strictly_increases;
use vstd::arithmetic::power2::lemma_pow2_unfold;
use vstd::arithmetic::power2::pow2;
use vstd::prelude::*;
use crate::scalar::INFINITY_BITS;
use crate::scalar::Scalar;

verus! {

/// The weight of the exponent field in the bit pattern of a double: `2^52`.
pub const EXPONENT_UNIT: u64 = 0x10_0000_0000_0000;

/// The number that a magnitude encodes, as a multiple of `2^-1074`.
///
/// With the exponent field `e` and the fraction field `m`, a subnormal
/// pattern (`e == 0`) encodes `m * 2^-1074`, and a normal one
/// `(2^52 + m) * 2^(e - 1075)`. The pattern of infinity is counted as the
/// power of two after the greatest double.
pub open spec fn magnitude_value(n: int) -> int {
    let e = n / (EXPONENT_UNIT as int);
    let m = n % (EXPONENT_UNIT as int);
    if e == 0 {
        m
    } else {
        (EXPONENT_UNIT + m) * pow2((e - 1) as nat)
    }
}

impl Scalar {
    /// The number that the pattern encodes, as a multiple of `2^-1074`; for
    /// a pattern that is no NaN.
    pub open spec fn scaled_value(self) -> int {
        if self.spec_is_sign_negative() {
            -magnitude_value(self.magnitude())
        } else {
            magnitude_value(self.magnitude())
        }
    }
}

/// Greater magnitudes encode greater numbers.
pub proof fn lemma_magnitude_value_grows(a: int, b: int)
    requires
        0 <= a < b <= INFINITY_BITS,
    ensures
        0 <= magnitude_value(a) < magnitude_value(b),
{
    let unit = EXPONENT_UNIT as int;
    let (ea, ma) = (a / unit, a % unit);
    let (eb, mb) = (b / unit, b % unit);
    assert(ea <= eb) by (nonlinear_arith)
        requires
            ea == a / unit,
            eb == b / unit,
            a < b,
            unit > 0,
    ;
    assert(a == ea * unit + ma && b == eb * unit + mb && 0 <= ma < unit && 0 <= mb < unit
        && 0 <= ea) by (nonlinear_arith)
        requires
            ea == a / unit,
            ma == a % unit,
            eb == b / unit,
            mb == b % unit,
            0 <= a,
            0 <= b,
            unit > 0,
    ;
    if ea == eb {
        assert(ma < mb);
        if ea > 0 {
            let p = pow2((ea - 1) as nat);
            lemma_pow2_pos((ea - 1) as nat);
            assert(0 <= (unit + ma) * p < (unit + mb) * p) by (nonlinear_arith)
                requires
                    0 <= ma < mb,
                    unit > 0,
                    p > 0,
            ;
        }
    } else {
        let q = pow2((eb - 1) as nat);
        lemma_pow2_pos((eb - 1) as nat);
        assert(unit * q <= (unit + mb) * q) by (nonlinear_arith)
            requires
                0 <= mb,
                unit > 0,
                q > 0,
        ;
        if ea == 0 {
            assert(unit * 1 <= unit * q) by (nonlinear_arith)
                requires
                    unit > 0,
                    q >= 1,
            ;
        } else {
            let p = pow2((ea - 1) as nat);
            lemma_pow2_pos((ea - 1) as nat);
            lemma_pow2_unfold(ea as nat);
            if ea < eb - 1 {
                lemma_pow2_strictly_increases(ea as nat, (eb - 1) as nat);
            }
            assert(2 * p <= q);
            assert(0 <= (unit + ma) * p < unit * (2 * p)) by (nonlinear_arith)
                requires
                    0 <= ma < unit,
                    p > 0,
            ;
            assert(unit * (2 * p) <= unit * q) by (nonlinear_arith)
                requires
                    2 * p <= q,
                    unit > 0,
            ;
        }
    }
}

/// Comparing keys compares the numbers: of two patterns that are no NaN,
/// one has the smaller key where it encodes the smaller number, and both
/// have the same key where they encode the same number.
pub proof fn lemma_key_orders_as_value(a: Scalar, b: Scalar)
    requires
        !a.spec_is_nan(),
        !b.spec_is_nan(),
    ensures
        a.spec_lt(b) <==> a.scaled_value() < b.scaled_value(),
        a.spec_le(b) <==> a.scaled_value() <= b.scaled_value(),
        a.spec_same(b) <==> a.scaled_value() == b.scaled_value(),
{
    let (na, nb) = (a.magnitude(), b.magnitude());
    assert(magnitude_value(0) == 0);
    if na < nb {
        lemma_magnitude_value_grows(na, nb);
    }
    if nb < na {
        lemma_magnitude_value_grows(nb, na);
    }
    if 0 < na {
        lemma_magnitude_value_grows(0, na);
    }
    if 0 < nb {
        lemma_magnitude_value_grows(0, nb);
    }
}

/// Negation negates the number, and the absolute value takes its amount.
pub proof fn lemma_neg_and_abs_of_value(a: Scalar)
    ensures
        a.spec_neg().scaled_value() == -a.scaled_value(),
        a.spec_abs().scaled_value() == if a.scaled_value() < 0 {
            -a.scaled_value()
        } else {
            a.scaled_value()
        },
{
    let n = a.magnitude();
    assert(magnitude_value(0) == 0);
    if 0 < n {
        lemma_magnitude_value_is_positive(n);
    }
}

/// Every magnitude but zero encodes a positive number.
pub proof fn lemma_magnitude_value_is_positive(n: int)
    requires
        0 < n,
    ensures
        0 < magnitude_value(n),
{
    let unit = EXPONENT_UNIT as int;
    let (e, m) = (n / unit, n % unit);
    assert(n == e * unit + m && 0 <= m < unit && 0 <= e) by (nonlinear_arith)
        requires
            e == n / unit,
            m == n % unit,
            0 < n,
            unit > 0,
    ;
    if e > 0 {
        let p = pow2((e - 1) as nat);
        lemma_pow2_pos((e - 1) as nat);
        assert(0 < (unit + m) * p) by (nonlinear_arith)
            requires
                0 <= m,
                unit > 0,
                p > 0,
        ;
    }
}

} // verus!
