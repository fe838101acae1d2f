//! Deterministic fixed-point scalar arithmetic.
//!
//! Every quantity in the engine (lengths, velocities, times, rotation
//! components) is an [`Fx`]: a count of millionths of a unit stored in an
//! `i64`. Addition and subtraction are exact up to saturation; products and
//! quotients truncate toward zero. Each executable operation is specified
//! exactly by a matching spec function over `int`.

use vstd::prelude::*;
use vstd::math::abs;

verus! {

/// Fractional units per whole unit: values carry six decimal places.
pub const FX_ONE: i64 = 1_000_000;

/// The fixed-point scalar holding the integer `v`, which callers keep within
/// the `i64` range.
pub open spec fn fxs(v: int) -> Fx {
    Fx { raw: v as i64 }
}

/// A fixed-point scalar counting millionths of a unit. Arithmetic saturates
/// at the `i64` range instead of wrapping.
#[derive(Clone, Copy, PartialEq, Eq, Structural, Debug)]
pub struct Fx {
    pub raw: i64,
}

impl View for Fx {
    type V = int;

    open spec fn view(&self) -> int {
        self.raw as int
    }
}

/// Clamps a mathematical integer into the `i64` range.
pub open spec fn sat64(x: int) -> int {
    if x > i64::MAX as int {
        i64::MAX as int
    } else if x < i64::MIN as int {
        i64::MIN as int
    } else {
        x
    }
}

/// Division truncating toward zero, as the executable operations perform it.
/// Unspecified second argument zero is mapped to zero.
pub open spec fn tdiv(a: int, b: int) -> int {
    if b == 0 {
        0
    } else if (a >= 0) == (b >= 0) {
        abs(a) as int / abs(b) as int
    } else {
        -(abs(a) as int / abs(b) as int)
    }
}

/// Saturating fixed-point addition.
pub open spec fn fx_add(a: int, b: int) -> int {
    sat64(a + b)
}

/// Saturating fixed-point subtraction.
pub open spec fn fx_sub(a: int, b: int) -> int {
    sat64(a - b)
}

/// Saturating fixed-point negation.
pub open spec fn fx_neg(a: int) -> int {
    sat64(-a)
}

/// Fixed-point product: the exact product rescaled by truncation.
pub open spec fn fx_mul(a: int, b: int) -> int {
    sat64(tdiv(a * b, FX_ONE as int))
}

/// Fixed-point quotient: the rescaled truncating quotient; a zero divisor
/// yields zero.
pub open spec fn fx_div(a: int, b: int) -> int {
    if b == 0 {
        0
    } else {
        sat64(tdiv(a * (FX_ONE as int), b))
    }
}

/// The sign of a value as a whole fixed-point unit, positive for zero, as the
/// engine uses it to orient contact normals.
pub open spec fn fx_signum(a: int) -> int {
    if a >= 0 {
        FX_ONE as int
    } else {
        -(FX_ONE as int)
    }
}

/// `r` is the integer square root of `n` rounded down.
pub open spec fn is_sqrt_floor(n: int, r: int) -> bool {
    0 <= r && r * r <= n && n < (r + 1) * (r + 1)
}

/// The integer square root of `n` rounded down (of interest for `n >= 0`).
pub open spec fn sqrt_floor(n: int) -> int {
    choose|r: int| is_sqrt_floor(n, r)
}

/// Every nonnegative integer has a rounded-down square root.
pub proof fn lemma_sqrt_floor_exists(n: int)
    requires
        n >= 0,
    ensures
        is_sqrt_floor(n, sqrt_floor(n)),
    decreases n,
{
    if n == 0 {
        assert(is_sqrt_floor(0, 0));
    } else {
        lemma_sqrt_floor_exists(n - 1);
        let r = sqrt_floor(n - 1);
        if (r + 1) * (r + 1) <= n {
            assert(n <= (r + 1) * (r + 1)) by {
                assert(n - 1 < (r + 1) * (r + 1));
            }
            assert(is_sqrt_floor(n, r + 1)) by (nonlinear_arith)
                requires
                    r >= 0,
                    (r + 1) * (r + 1) == n,
            ;
        } else {
            assert(is_sqrt_floor(n, r));
        }
    }
}

/// The rounded-down square root is unique.
pub proof fn lemma_sqrt_floor_unique(n: int, r: int)
    requires
        is_sqrt_floor(n, r),
    ensures
        r == sqrt_floor(n),
{
    lemma_sqrt_floor_exists(n);
    let s = sqrt_floor(n);
    if r < s {
        assert((r + 1) * (r + 1) <= s * s) by (nonlinear_arith)
            requires
                0 <= r,
                r + 1 <= s,
        ;
    }
    if s < r {
        assert((s + 1) * (s + 1) <= r * r) by (nonlinear_arith)
            requires
                0 <= s,
                s + 1 <= r,
        ;
    }
}

/// Truncating division leaves a remainder smaller than the divisor, and the
/// quotient's magnitude is the quotient of the magnitudes.
pub proof fn lemma_tdiv_props(a: int, b: int)
    requires
        b > 0,
    ensures
        abs(tdiv(a, b)) == abs(a) as int / b,
        abs(tdiv(a, b) * b - a) < b,
        a >= 0 ==> tdiv(a, b) >= 0 && tdiv(a, b) * b <= a,
        a <= 0 ==> tdiv(a, b) <= 0 && tdiv(a, b) * b >= a,
{
    if a >= 0 {
        let q = abs(a) as int / b;
        vstd::arithmetic::div_mod::lemma_fundamental_div_mod(a, b);
        vstd::arithmetic::div_mod::lemma_remainder_upper(a, b);
        vstd::arithmetic::div_mod::lemma_remainder_lower(a, b);
        assert(tdiv(a, b) == q);
        assert(q * b == b * q) by (nonlinear_arith);
    } else {
        let q = abs(a) as int / b;
        vstd::arithmetic::div_mod::lemma_fundamental_div_mod(-a, b);
        vstd::arithmetic::div_mod::lemma_remainder_upper(-a, b);
        vstd::arithmetic::div_mod::lemma_remainder_lower(-a, b);
        assert(tdiv(a, b) == -q);
        assert((-q) * b == -(b * q)) by (nonlinear_arith);
    }
}

/// Negating the dividend negates the truncating quotient.
pub proof fn lemma_tdiv_neg_left(a: int, b: int)
    ensures
        tdiv(-a, b) == -tdiv(a, b),
{
}

/// Multiplying by a whole fixed-point unit is the identity.
pub proof fn lemma_fx_mul_one(a: int)
    requires
        i64::MIN as int <= a <= i64::MAX as int,
    ensures
        fx_mul(a, FX_ONE as int) == a,
        fx_mul(FX_ONE as int, a) == a,
{
    let s = FX_ONE as int;
    assert(abs(a * s) == abs(a) * s && abs(s * a) == abs(a) * s) by (nonlinear_arith)
        requires
            s == FX_ONE as int,
    ;
    vstd::arithmetic::div_mod::lemma_div_multiples_vanish(abs(a) as int, s);
    assert(s * (abs(a) as int) == abs(a) * s) by (nonlinear_arith);
    if a >= 0 {
        assert(tdiv(a * s, s) == a);
        assert(tdiv(s * a, s) == a);
    } else {
        assert(tdiv(a * s, s) == -(abs(a) as int));
        assert(tdiv(s * a, s) == -(abs(a) as int));
    }
}

/// Multiplying by zero yields zero.
pub proof fn lemma_fx_mul_zero(a: int)
    ensures
        fx_mul(a, 0) == 0,
        fx_mul(0, a) == 0,
{
    assert(a * 0 == 0) by (nonlinear_arith);
    assert(0 * a == 0) by (nonlinear_arith);
}

/// The magnitude of an `i64`, widened so that `i64::MIN` is representable.
pub(crate) fn abs_u128(x: i64) -> (r: u128)
    ensures
        r as int == abs(x as int),
{
    if x >= 0 {
        x as u128
    } else {
        let w: i128 = x as i128;
        (-w) as u128
    }
}

/// Packs a magnitude and a sign back into the saturating `i64` range.
fn clamp_signed(q: u128, neg: bool) -> (r: Fx)
    ensures
        r@ == sat64(if neg { -(q as int) } else { q as int }),
{
    if neg {
        if q >= 9223372036854775808u128 {
            Fx { raw: i64::MIN }
        } else {
            Fx { raw: -(q as i64) }
        }
    } else {
        if q > i64::MAX as u128 {
            Fx { raw: i64::MAX }
        } else {
            Fx { raw: q as i64 }
        }
    }
}

/// The magnitude of a product is the product of the magnitudes.
pub proof fn lemma_abs_mul(a: int, b: int)
    ensures
        abs(a * b) == abs(a) * abs(b),
{
    if a >= 0 && b >= 0 {
        assert(a * b >= 0) by (nonlinear_arith)
            requires
                a >= 0,
                b >= 0,
        ;
    } else if a >= 0 && b < 0 {
        assert(a * b <= 0 && a * (-b) == -(a * b)) by (nonlinear_arith)
            requires
                a >= 0,
                b < 0,
        ;
    } else if a < 0 && b >= 0 {
        assert(a * b <= 0 && (-a) * b == -(a * b)) by (nonlinear_arith)
            requires
                a < 0,
                b >= 0,
        ;
    } else {
        assert(a * b >= 0 && (-a) * (-b) == a * b) by (nonlinear_arith)
            requires
                a < 0,
                b < 0,
        ;
    }
}

impl Fx {
    /// Wraps a raw count of millionths.
    pub fn from_raw(raw: i64) -> (r: Fx)
        ensures
            r@ == raw as int,
    {
        Fx { raw }
    }

    /// The raw count of millionths.
    pub fn raw(self) -> (r: i64)
        ensures
            r as int == self@,
    {
        self.raw
    }

    /// The scalar zero.
    pub fn zero() -> (r: Fx)
        ensures
            r@ == 0,
    {
        Fx { raw: 0 }
    }

    /// The scalar one.
    pub fn one() -> (r: Fx)
        ensures
            r@ == FX_ONE as int,
    {
        Fx { raw: FX_ONE }
    }

    /// A whole number of units, saturated into range.
    pub fn from_int(v: i64) -> (r: Fx)
        ensures
            r@ == sat64(v * (FX_ONE as int)),
    {
        let neg: bool = v < 0;
        let m: u128 = abs_u128(v);
        let p: u128 = m * (FX_ONE as u128);
        proof {
            lemma_abs_mul(v as int, FX_ONE as int);
        }
        clamp_signed(p, neg)
    }

    /// Saturating addition.
    pub fn add(self, rhs: Fx) -> (r: Fx)
        ensures
            r@ == fx_add(self@, rhs@),
    {
        let s: i128 = self.raw as i128 + rhs.raw as i128;
        if s > i64::MAX as i128 {
            Fx { raw: i64::MAX }
        } else if s < i64::MIN as i128 {
            Fx { raw: i64::MIN }
        } else {
            Fx { raw: s as i64 }
        }
    }

    /// Saturating subtraction.
    pub fn sub(self, rhs: Fx) -> (r: Fx)
        ensures
            r@ == fx_sub(self@, rhs@),
    {
        let s: i128 = self.raw as i128 - rhs.raw as i128;
        if s > i64::MAX as i128 {
            Fx { raw: i64::MAX }
        } else if s < i64::MIN as i128 {
            Fx { raw: i64::MIN }
        } else {
            Fx { raw: s as i64 }
        }
    }

    /// Saturating negation.
    pub fn neg(self) -> (r: Fx)
        ensures
            r@ == fx_neg(self@),
    {
        if self.raw == i64::MIN {
            Fx { raw: i64::MAX }
        } else {
            Fx { raw: -self.raw }
        }
    }

    /// Truncating fixed-point product.
    pub fn mul(self, rhs: Fx) -> (r: Fx)
        ensures
            r@ == fx_mul(self@, rhs@),
    {
        let neg: bool = (self.raw < 0) != (rhs.raw < 0);
        let ma: u128 = abs_u128(self.raw);
        let mb: u128 = abs_u128(rhs.raw);
        proof {
            lemma_abs_mul(self@, rhs@);
            assert(ma * mb == abs(self@ * rhs@) && ma * mb <= 0x40000000000000000000000000000000)
                by (nonlinear_arith)
                requires
                    ma as int == abs(self@),
                    mb as int == abs(rhs@),
                    abs(self@ * rhs@) == abs(self@) * abs(rhs@),
                    ma as int <= 0x8000000000000000,
                    mb as int <= 0x8000000000000000,
            ;
            if neg {
                assert(self@ * rhs@ <= 0) by (nonlinear_arith)
                    requires
                        (self@ < 0) != (rhs@ < 0),
                ;
            } else {
                assert(self@ * rhs@ >= 0) by (nonlinear_arith)
                    requires
                        (self@ < 0) == (rhs@ < 0),
                ;
            }
        }
        let p: u128 = ma * mb;
        let q: u128 = p / (FX_ONE as u128);
        clamp_signed(q, neg)
    }

    /// Truncating fixed-point quotient; a zero divisor yields zero.
    pub fn div(self, rhs: Fx) -> (r: Fx)
        ensures
            r@ == fx_div(self@, rhs@),
    {
        if rhs.raw == 0 {
            return Fx { raw: 0 };
        }
        let neg: bool = (self.raw < 0) != (rhs.raw < 0);
        let ma: u128 = abs_u128(self.raw);
        let mb: u128 = abs_u128(rhs.raw);
        proof {
            lemma_abs_mul(self@, FX_ONE as int);
            assert(ma * (FX_ONE as u128) == abs(self@ * (FX_ONE as int))) by (nonlinear_arith)
                requires
                    ma as int == abs(self@),
                    abs(self@ * (FX_ONE as int)) == abs(self@) * (FX_ONE as int),
            ;
        }
        let p: u128 = ma * (FX_ONE as u128);
        let q: u128 = p / mb;
        clamp_signed(q, neg)
    }

    /// Saturating magnitude.
    pub fn abs(self) -> (r: Fx)
        ensures
            r@ == sat64(abs(self@) as int),
    {
        if self.raw == i64::MIN {
            Fx { raw: i64::MAX }
        } else if self.raw < 0 {
            Fx { raw: -self.raw }
        } else {
            self
        }
    }

    /// The sign as a whole unit, positive for zero.
    pub fn signum(self) -> (r: Fx)
        ensures
            r@ == fx_signum(self@),
    {
        if self.raw >= 0 {
            Fx { raw: FX_ONE }
        } else {
            Fx { raw: -FX_ONE }
        }
    }

    /// The smaller of two scalars.
    pub fn min(self, rhs: Fx) -> (r: Fx)
        ensures
            r@ == vstd::math::min(self@, rhs@),
    {
        if self.raw <= rhs.raw {
            self
        } else {
            rhs
        }
    }

    /// The larger of two scalars.
    pub fn max(self, rhs: Fx) -> (r: Fx)
        ensures
            r@ == vstd::math::max(self@, rhs@),
    {
        if self.raw >= rhs.raw {
            self
        } else {
            rhs
        }
    }

    /// Strict order on scalars.
    pub fn lt(self, rhs: Fx) -> (r: bool)
        ensures
            r == (self@ < rhs@),
    {
        self.raw < rhs.raw
    }

    /// Non-strict order on scalars.
    pub fn le(self, rhs: Fx) -> (r: bool)
        ensures
            r == (self@ <= rhs@),
    {
        self.raw <= rhs.raw
    }
}

/// The integer square root of a wide unsigned value, by bisection.
pub fn isqrt_u128(n: u128) -> (r: u128)
    ensures
        is_sqrt_floor(n as int, r as int),
        r as int == sqrt_floor(n as int),
{
    let mut lo: u128 = 0;
    let mut hi: u128 = u64::MAX as u128;
    proof {
        assert((n as int) < (hi as int + 1) * (hi as int + 1)) by (nonlinear_arith)
            requires
                hi as int == u64::MAX as int,
                n as int <= u128::MAX as int,
        ;
    }
    while lo < hi
        invariant
            lo <= hi,
            hi <= u64::MAX as u128,
            (lo as int) * (lo as int) <= n as int,
            (n as int) < (hi as int + 1) * (hi as int + 1),
        decreases hi - lo,
    {
        let mid: u128 = lo + (hi - lo + 1) / 2;
        proof {
            assert(mid as int * mid as int <= u128::MAX as int) by (nonlinear_arith)
                requires
                    mid as int <= u64::MAX as int,
            ;
        }
        let sq: u128 = mid * mid;
        if sq <= n {
            lo = mid;
        } else {
            hi = mid - 1;
        }
    }
    proof {
        lemma_sqrt_floor_unique(n as int, lo as int);
    }
    lo
}

} // verus!
