//! Double-precision numbers as the verified code sees them.
//!
//! The verified part of the renderer never rounds: it stores numbers, compares
//! them, and cuts them down to integers. All three are exact operations on the
//! IEEE 754 binary64 encoding, so a number is held here as its 64-bit pattern
//! and given an exact integer model. Arithmetic that rounds is the caller's.

use vstd::arithmetic::power2::{
    lemma2_to64, lemma2_to64_rest, lemma_pow2_adds, lemma_pow2_pos, lemma_pow2_strictly_increases,
    lemma_pow2_unfold, pow2,
};
use vstd::bits::lemma_u64_shr_is_div;
use vstd::prelude::*;

verus! {

/// The bit that holds the sign.
pub const SIGN_BIT: u64 = 0x8000_0000_0000_0000;

/// The pattern of positive infinity: every larger magnitude is a NaN.
pub const INFINITY_BITS: u64 = 0x7ff0_0000_0000_0000;

/// Two to the power 52: the weight of the implicit leading bit of a normal number.
pub const HIDDEN_BIT: u64 = 0x0010_0000_0000_0000;

/// The pattern of `1.0`.
pub const ONE_BITS: u64 = 0x3ff0_0000_0000_0000;

/// The exponent field of `1.0`.
pub const EXPONENT_BIAS: u64 = 1023;

/// A double-precision number, held as its IEEE 754 binary64 bit pattern.
///
/// `==` on this type compares patterns: it tells `0.0` from `-0.0` and takes a
/// NaN to be equal to itself. The numeric order is [`Double::lt`].
#[derive(Clone, Copy, Debug, PartialEq, Eq, Structural)]
pub struct Double {
    pub bits: u64,
}

/// The magnitude `m` of a pattern stands for the number `scaled_magnitude(m) / 2^1074`.
///
/// Subnormal numbers (exponent field 0) are their fraction field; normal ones
/// add the implicit leading bit and are shifted by the exponent field. The
/// pattern of infinity is given the value one binade above the largest finite
/// number, which orders it as IEEE 754 does.
#[verifier::opaque]
pub open spec fn scaled_magnitude(m: int) -> int {
    let exponent = m / (HIDDEN_BIT as int);
    let fraction = m % (HIDDEN_BIT as int);
    if exponent == 0 {
        fraction
    } else {
        (HIDDEN_BIT + fraction) * pow2((exponent - 1) as nat)
    }
}

/// The integer part of the number that the magnitude `m` stands for.
pub open spec fn whole_part(m: int) -> int {
    scaled_magnitude(m) / (pow2(1074) as int)
}

impl Double {
    /// The pattern without its sign bit.
    pub open spec fn magnitude(self) -> int {
        if self.bits >= SIGN_BIT {
            self.bits - SIGN_BIT
        } else {
            self.bits as int
        }
    }

    /// Whether the sign bit is set (true of `-0.0` too).
    pub open spec fn is_negative(self) -> bool {
        self.bits >= SIGN_BIT
    }

    /// Whether the pattern is one of the NaNs.
    pub open spec fn is_nan_spec(self) -> bool {
        self.magnitude() > INFINITY_BITS
    }

    /// The number times `2^1074`, an integer for every pattern that is not a NaN.
    pub open spec fn scaled(self) -> int {
        if self.is_negative() {
            -scaled_magnitude(self.magnitude())
        } else {
            scaled_magnitude(self.magnitude())
        }
    }

    /// The numeric order `<` of IEEE 754: false whenever a NaN is involved,
    /// and blind to the sign of zero.
    pub open spec fn lt_spec(self, other: Double) -> bool {
        &&& !self.is_nan_spec()
        &&& !other.is_nan_spec()
        &&& self.scaled() < other.scaled()
    }

    /// The numeric order `>`: `other < self`.
    pub open spec fn gt_spec(self, other: Double) -> bool {
        other.lt_spec(self)
    }

    /// The number with its sign turned, which is what multiplying by -1
    /// gives: the same magnitude under the other sign.
    pub open spec fn negated(self) -> Double {
        if self.bits >= SIGN_BIT {
            Double { bits: (self.bits - SIGN_BIT) as u64 }
        } else {
            Double { bits: (self.bits + SIGN_BIT) as u64 }
        }
    }

    /// What a saturating cast to `u32` gives: the number cut towards zero,
    /// held to the range of `u32`, and 0 for a NaN.
    pub open spec fn truncated(self) -> int {
        if self.is_nan_spec() || self.is_negative() {
            0
        } else if whole_part(self.magnitude()) > u32::MAX {
            u32::MAX as int
        } else {
            whole_part(self.magnitude())
        }
    }

    /// The number with the given bit pattern.
    pub fn from_bits(bits: u64) -> (r: Double)
        ensures
            r.bits == bits,
    {
        Double { bits }
    }

    /// The bit pattern of the number.
    pub fn to_bits(self) -> (bits: u64)
        ensures
            bits == self.bits,
    {
        self.bits
    }

    /// `0.0`.
    pub fn zero() -> (r: Double)
        ensures
            r.bits == 0,
            !r.is_nan_spec(),
            r.scaled() == 0,
    {
        proof {
            lemma_scaled_magnitude_sign(0);
        }
        Double { bits: 0 }
    }

    /// `1.0`.
    pub fn one() -> (r: Double)
        ensures
            r.bits == ONE_BITS,
            !r.is_nan_spec(),
            r.scaled() == pow2(1074),
            (Double { bits: 0 }).lt_spec(r),
    {
        proof {
            lemma_one_scaled();
            lemma_pow2_pos(1074);
            lemma_scaled_magnitude_sign(0);
        }
        Double { bits: ONE_BITS }
    }

    /// Positive infinity.
    pub fn infinity() -> (r: Double)
        ensures
            r.bits == INFINITY_BITS,
            !r.is_nan_spec(),
            forall|x: Double| !x.is_nan_spec() && x.magnitude() != INFINITY_BITS ==> x.lt_spec(r),
    {
        let r = Double { bits: INFINITY_BITS };
        proof {
            assert forall|x: Double|
                !x.is_nan_spec() && x.magnitude() != INFINITY_BITS implies x.lt_spec(r) by {
                lemma_scaled_magnitude_increases(x.magnitude(), INFINITY_BITS as int);
                lemma_scaled_magnitude_sign(x.magnitude());
            }
        }
        r
    }

    fn magnitude_bits(self) -> (m: u64)
        ensures
            m == self.magnitude(),
            m < SIGN_BIT,
    {
        if self.bits >= SIGN_BIT {
            self.bits - SIGN_BIT
        } else {
            self.bits
        }
    }

    /// Whether the number is a NaN.
    pub fn is_nan(self) -> (r: bool)
        ensures
            r == self.is_nan_spec(),
    {
        self.magnitude_bits() > INFINITY_BITS
    }

    /// Whether `self < other` as numbers.
    pub fn lt(self, other: Double) -> (r: bool)
        ensures
            r == self.lt_spec(other),
    {
        let a: u64 = self.magnitude_bits();
        let b: u64 = other.magnitude_bits();
        if a > INFINITY_BITS || b > INFINITY_BITS {
            return false;
        }
        proof {
            lemma_scaled_magnitude_order(a as int, b as int);
            lemma_scaled_magnitude_order(b as int, a as int);
            lemma_scaled_magnitude_sign(a as int);
            lemma_scaled_magnitude_sign(b as int);
        }
        if self.bits >= SIGN_BIT {
            if other.bits >= SIGN_BIT {
                b < a
            } else {
                a != 0 || b != 0
            }
        } else {
            if other.bits >= SIGN_BIT {
                false
            } else {
                a < b
            }
        }
    }

    /// Whether `self > other` as numbers.
    pub fn gt(self, other: Double) -> (r: bool)
        ensures
            r == self.gt_spec(other),
    {
        other.lt(self)
    }

    /// The number times -1. A NaN stays a NaN.
    pub fn neg(self) -> (r: Double)
        ensures
            r == self.negated(),
            r.is_nan_spec() == self.is_nan_spec(),
            r.scaled() == -self.scaled(),
    {
        if self.bits >= SIGN_BIT {
            Double { bits: self.bits - SIGN_BIT }
        } else {
            Double { bits: self.bits + SIGN_BIT }
        }
    }

    /// The number cut towards zero and held to the range of `u32`; 0 for a NaN.
    pub fn truncate(self) -> (n: u32)
        ensures
            n == self.truncated(),
    {
        let m: u64 = self.magnitude_bits();
        if m > INFINITY_BITS || self.bits >= SIGN_BIT {
            return 0;
        }
        let exponent: u64 = m / HIDDEN_BIT;
        let fraction: u64 = m % HIDDEN_BIT;
        if exponent < EXPONENT_BIAS {
            proof {
                lemma_whole_part_small(m as int);
            }
            0
        } else if exponent >= EXPONENT_BIAS + 32 {
            proof {
                lemma_whole_part_large(m as int);
            }
            u32::MAX
        } else {
            let shift: u64 = EXPONENT_BIAS + 52 - exponent;
            let significand: u64 = HIDDEN_BIT + fraction;
            let whole: u64 = significand >> shift;
            proof {
                lemma_u64_shr_is_div(significand, shift);
                lemma_whole_part_shift(m as int);
                lemma_quotient_bounded(significand as int, shift as nat);
            }
            whole as u32
        }
    }
}

/// `1.0` is `2^1074` on the scale of the model.
pub proof fn lemma_one_scaled()
    ensures
        scaled_magnitude(ONE_BITS as int) == pow2(1074),
{
    reveal(scaled_magnitude);
    assert((ONE_BITS as int) / (HIDDEN_BIT as int) == 1023) by (nonlinear_arith);
    assert((ONE_BITS as int) % (HIDDEN_BIT as int) == 0) by (nonlinear_arith);
    lemma2_to64_rest();
    assert(pow2(52) == HIDDEN_BIT);
    lemma_pow2_adds(52, 1022);
}

/// A magnitude stands for zero exactly when it is zero, and never for a
/// negative number.
pub proof fn lemma_scaled_magnitude_sign(m: int)
    requires
        0 <= m,
    ensures
        scaled_magnitude(m) >= 0,
        scaled_magnitude(m) == 0 <==> m == 0,
{
    reveal(scaled_magnitude);
    let p = HIDDEN_BIT as int;
    let exponent = m / p;
    let fraction = m % p;
    assert(0 <= fraction < p && m == p * exponent + fraction && exponent >= 0) by (nonlinear_arith)
        requires
            0 <= m,
            p > 0,
            exponent == m / p,
            fraction == m % p,
    ;
    if exponent != 0 {
        let k = pow2((exponent - 1) as nat) as int;
        lemma_pow2_pos((exponent - 1) as nat);
        assert((p + fraction) * k > 0) by (nonlinear_arith)
            requires
                p + fraction > 0,
                k > 0,
        ;
    }
}

/// Larger magnitudes stand for larger numbers: the encoding is monotone.
pub proof fn lemma_scaled_magnitude_increases(a: int, b: int)
    requires
        0 <= a < b,
    ensures
        scaled_magnitude(a) < scaled_magnitude(b),
{
    reveal(scaled_magnitude);
    let p = HIDDEN_BIT as int;
    let ea = a / p;
    let fa = a % p;
    let eb = b / p;
    let fb = b % p;
    assert(0 <= fa < p && a == p * ea + fa && ea >= 0) by (nonlinear_arith)
        requires
            0 <= a,
            p > 0,
            ea == a / p,
            fa == a % p,
    ;
    assert(0 <= fb < p && b == p * eb + fb && eb >= 0) by (nonlinear_arith)
        requires
            0 <= b,
            p > 0,
            eb == b / p,
            fb == b % p,
    ;
    assert(ea <= eb && (ea == eb ==> fa < fb)) by (nonlinear_arith)
        requires
            a < b,
            a == p * ea + fa,
            b == p * eb + fb,
            0 <= fa < p,
            0 <= fb < p,
    ;
    if ea == eb {
        if ea != 0 {
            let k = pow2((ea - 1) as nat) as int;
            lemma_pow2_pos((ea - 1) as nat);
            assert((p + fa) * k < (p + fb) * k) by (nonlinear_arith)
                requires
                    fa < fb,
                    k > 0,
            ;
        }
    } else {
        let kb = pow2((eb - 1) as nat) as int;
        lemma_pow2_pos((eb - 1) as nat);
        if ea == 0 {
            assert(fa < (p + fb) * kb) by (nonlinear_arith)
                requires
                    fa < p,
                    0 <= fb,
                    kb >= 1,
                    p > 0,
            ;
        } else {
            let ka = pow2((ea - 1) as nat) as int;
            lemma_pow2_pos((ea - 1) as nat);
            lemma_pow2_unfold(ea as nat);
            if ea < eb - 1 {
                lemma_pow2_strictly_increases(ea as nat, (eb - 1) as nat);
            }
            assert(2 * ka <= kb);
            assert((p + fa) * ka < (p + fb) * kb) by (nonlinear_arith)
                requires
                    0 <= fa < p,
                    0 <= fb,
                    ka > 0,
                    2 * ka <= kb,
            ;
        }
    }
}

/// Two magnitudes are ordered as the numbers they stand for.
pub proof fn lemma_scaled_magnitude_order(a: int, b: int)
    requires
        0 <= a,
        0 <= b,
    ensures
        a < b <==> scaled_magnitude(a) < scaled_magnitude(b),
{
    if a < b {
        lemma_scaled_magnitude_increases(a, b);
    } else if b < a {
        lemma_scaled_magnitude_increases(b, a);
    }
}

/// A number is never cut to a negative one.
pub proof fn lemma_truncated_nonnegative(x: Double)
    ensures
        0 <= x.truncated() <= u32::MAX,
{
    if !x.is_nan_spec() && !x.is_negative() {
        lemma_scaled_magnitude_sign(x.magnitude());
        lemma_pow2_pos(1074);
        let s = scaled_magnitude(x.magnitude());
        let d = pow2(1074) as int;
        assert(s / d >= 0) by (nonlinear_arith)
            requires
                s >= 0,
                d > 0,
        ;
    }
}

/// The integer part grows with the number: a number below `2^k`, for `k` up
/// to 32, has an integer part below `2^k`.
pub proof fn lemma_truncated_below_power(x: Double, k: nat)
    requires
        k <= 32,
        x.lt_spec(Double { bits: ((EXPONENT_BIAS + k) * HIDDEN_BIT) as u64 }),
    ensures
        x.truncated() < pow2(k),
{
    reveal(scaled_magnitude);
    lemma_pow2_pos(k);
    lemma_pow2_pos(1074);
    if !x.is_negative() {
        let bound = (EXPONENT_BIAS + k) * HIDDEN_BIT;
        let p = HIDDEN_BIT as int;
        assert(bound / p == EXPONENT_BIAS + k && bound % p == 0) by (nonlinear_arith)
            requires
                bound == (EXPONENT_BIAS + k) * p,
                p > 0,
        ;
        lemma2_to64_rest();
        lemma_pow2_adds(52, 1022);
        lemma_pow2_adds(1074, k);
        lemma_pow2_adds(52, (1022 + k) as nat);
        assert(scaled_magnitude(bound) == pow2(1074) * pow2(k));
        let s = scaled_magnitude(x.magnitude());
        let d = pow2(1074) as int;
        let top = pow2(k) as int;
        lemma_scaled_magnitude_sign(x.magnitude());
        assert(s / d < top) by (nonlinear_arith)
            requires
                0 <= s < d * top,
                d > 0,
        ;
        lemma2_to64();
        if k < 32 {
            lemma_pow2_strictly_increases(k, 32);
        }
    }
}

/// A number below `1.0` has integer part 0.
proof fn lemma_whole_part_small(m: int)
    requires
        0 <= m,
        m / (HIDDEN_BIT as int) < EXPONENT_BIAS,
    ensures
        whole_part(m) == 0,
{
    lemma_scaled_magnitude_sign(m);
    lemma_scaled_magnitude_increases(m, ONE_BITS as int);
    lemma_one_scaled();
    let s = scaled_magnitude(m);
    let d = pow2(1074) as int;
    assert(s / d == 0) by (nonlinear_arith)
        requires
            0 <= s < d,
    ;
}

/// A number of at least `2^32` has an integer part beyond the range of `u32`.
proof fn lemma_whole_part_large(m: int)
    requires
        0 <= m,
        m / (HIDDEN_BIT as int) >= EXPONENT_BIAS + 32,
    ensures
        whole_part(m) > u32::MAX,
{
    reveal(scaled_magnitude);
    let p = HIDDEN_BIT as int;
    let exponent = m / p;
    let fraction = m % p;
    assert(0 <= fraction) by (nonlinear_arith)
        requires
            0 <= m,
            p > 0,
            fraction == m % p,
    ;
    let k = pow2((exponent - 1) as nat) as int;
    let d = pow2(1074) as int;
    lemma2_to64();
    lemma2_to64_rest();
    lemma_pow2_pos(1074);
    lemma_pow2_adds(52, 1022);
    lemma_pow2_adds(1054, (exponent - 1 - 1054) as nat);
    lemma_pow2_adds(32, 1022);
    lemma_pow2_pos((exponent - 1 - 1054) as nat);
    let extra = pow2((exponent - 1 - 1054) as nat) as int;
    let q = pow2(1022) as int;
    assert(k == pow2(32) * q * extra) by (nonlinear_arith)
        requires
            k == pow2(1054) * extra,
            pow2(1054) == pow2(32) * q,
    ;
    assert(d == p * q);
    assert(((p + fraction) * k) / d >= 0x1_0000_0000) by (nonlinear_arith)
        requires
            k == 0x1_0000_0000 * q * extra,
            d == p * q,
            extra >= 1,
            q > 0,
            p > 0,
            fraction >= 0,
    ;
}

/// Between `1.0` and `2^32` the integer part is the significand shifted
/// right by 1075 minus the exponent field.
proof fn lemma_whole_part_shift(m: int)
    requires
        0 <= m,
        EXPONENT_BIAS <= m / (HIDDEN_BIT as int) < EXPONENT_BIAS + 32,
    ensures
        whole_part(m) == (HIDDEN_BIT + m % (HIDDEN_BIT as int)) / (pow2(
            (EXPONENT_BIAS + 52 - m / (HIDDEN_BIT as int)) as nat,
        ) as int),
{
    reveal(scaled_magnitude);
    let p = HIDDEN_BIT as int;
    let exponent = m / p;
    let fraction = m % p;
    let shift = (EXPONENT_BIAS + 52 - exponent) as nat;
    let k = pow2((exponent - 1) as nat) as int;
    let c = pow2(shift) as int;
    let d = pow2(1074) as int;
    lemma_pow2_adds((exponent - 1) as nat, shift);
    lemma_pow2_pos((exponent - 1) as nat);
    lemma_pow2_pos(shift);
    assert(d == k * c);
    let x = p + fraction;
    assert(0 <= fraction) by (nonlinear_arith)
        requires
            0 <= m,
            p > 0,
            fraction == m % p,
    ;
    vstd::arithmetic::div_mod::lemma_div_multiples_vanish_quotient(k, x, c);
    assert(x * k == k * x) by (nonlinear_arith);
    assert(k * c == c * k) by (nonlinear_arith);
}

/// A significand shifted right by at least 21 bits fits in 32 bits.
proof fn lemma_quotient_bounded(x: int, shift: nat)
    requires
        0 <= x < 2 * HIDDEN_BIT,
        21 <= shift,
    ensures
        0 <= x / (pow2(shift) as int) <= u32::MAX,
{
    lemma2_to64();
    if shift > 21 {
        lemma_pow2_strictly_increases(21, shift);
    }
    let c = pow2(shift) as int;
    assert(0 <= x / c <= 0xffff_ffff) by (nonlinear_arith)
        requires
            0 <= x < 0x20_0000_0000_0000,
            c >= 0x20_0000,
    ;
}

} // verus!
