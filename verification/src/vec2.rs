//! Two-dimensional vectors of fixed-point scalars.
//!
//! Componentwise operations mirror the scalar algebra exactly; the dot
//! product and the Euclidean length are specified through the same spec
//! functions that describe the scalar product and the integer square root.

use vstd::prelude::*;
use vstd::math::abs;
use crate::fxp::{Fx, fx_add, fx_mul, fx_neg, fx_signum, fx_sub, is_sqrt_floor, sat64, sqrt_floor};
use crate::fxp::isqrt_u128;

verus! {

/// A planar vector with fixed-point components.
#[derive(Clone, Copy, PartialEq, Eq, Structural, Debug)]
pub struct Vec2 {
    pub x: Fx,
    pub y: Fx,
}

/// The dot product of two vectors as the scalar algebra computes it.
pub open spec fn dot_spec(ax: int, ay: int, bx: int, by: int) -> int {
    fx_add(fx_mul(ax, bx), fx_mul(ay, by))
}

/// The Euclidean length of a vector: the rounded-down square root of the
/// exact sum of squared components, saturated into range.
pub open spec fn len_spec(x: int, y: int) -> int {
    sat64(sqrt_floor(x * x + y * y))
}

impl Vec2 {
    /// Builds a vector from its components.
    pub fn new(x: Fx, y: Fx) -> (r: Vec2)
        ensures
            r.x == x,
            r.y == y,
    {
        Vec2 { x, y }
    }

    /// The zero vector.
    pub fn zero() -> (r: Vec2)
        ensures
            r.x@ == 0,
            r.y@ == 0,
    {
        Vec2 { x: Fx::zero(), y: Fx::zero() }
    }

    /// The vector with both components equal to `v`.
    pub fn splat(v: Fx) -> (r: Vec2)
        ensures
            r.x == v,
            r.y == v,
    {
        Vec2 { x: v, y: v }
    }

    /// Componentwise saturating sum.
    pub fn add(self, rhs: Vec2) -> (r: Vec2)
        ensures
            r.x@ == fx_add(self.x@, rhs.x@),
            r.y@ == fx_add(self.y@, rhs.y@),
    {
        Vec2 { x: self.x.add(rhs.x), y: self.y.add(rhs.y) }
    }

    /// Componentwise saturating difference.
    pub fn sub(self, rhs: Vec2) -> (r: Vec2)
        ensures
            r.x@ == fx_sub(self.x@, rhs.x@),
            r.y@ == fx_sub(self.y@, rhs.y@),
    {
        Vec2 { x: self.x.sub(rhs.x), y: self.y.sub(rhs.y) }
    }

    /// Componentwise saturating negation.
    pub fn neg(self) -> (r: Vec2)
        ensures
            r.x@ == fx_neg(self.x@),
            r.y@ == fx_neg(self.y@),
    {
        Vec2 { x: self.x.neg(), y: self.y.neg() }
    }

    /// Both components scaled by `s`.
    pub fn scale(self, s: Fx) -> (r: Vec2)
        ensures
            r.x@ == fx_mul(self.x@, s@),
            r.y@ == fx_mul(self.y@, s@),
    {
        Vec2 { x: self.x.mul(s), y: self.y.mul(s) }
    }

    /// The dot product.
    pub fn dot(self, rhs: Vec2) -> (r: Fx)
        ensures
            r@ == dot_spec(self.x@, self.y@, rhs.x@, rhs.y@),
    {
        self.x.mul(rhs.x).add(self.y.mul(rhs.y))
    }

    /// Componentwise magnitude.
    pub fn abs(self) -> (r: Vec2)
        ensures
            r.x@ == sat64(abs(self.x@) as int),
            r.y@ == sat64(abs(self.y@) as int),
    {
        Vec2 { x: self.x.abs(), y: self.y.abs() }
    }

    /// Componentwise sign, a whole unit per component, positive for zero.
    pub fn signum(self) -> (r: Vec2)
        ensures
            r.x@ == fx_signum(self.x@),
            r.y@ == fx_signum(self.y@),
    {
        Vec2 { x: self.x.signum(), y: self.y.signum() }
    }

    /// Componentwise minimum.
    pub fn min(self, rhs: Vec2) -> (r: Vec2)
        ensures
            r.x@ == vstd::math::min(self.x@, rhs.x@),
            r.y@ == vstd::math::min(self.y@, rhs.y@),
    {
        Vec2 { x: self.x.min(rhs.x), y: self.y.min(rhs.y) }
    }

    /// Componentwise maximum.
    pub fn max(self, rhs: Vec2) -> (r: Vec2)
        ensures
            r.x@ == vstd::math::max(self.x@, rhs.x@),
            r.y@ == vstd::math::max(self.y@, rhs.y@),
    {
        Vec2 { x: self.x.max(rhs.x), y: self.y.max(rhs.y) }
    }

    /// The Euclidean length, computed exactly on the widened sum of squares.
    pub fn length(self) -> (r: Fx)
        ensures
            r@ == len_spec(self.x@, self.y@),
    {
        let sq: u128 = sum_of_squares(self.x, self.y);
        let root: u128 = isqrt_u128(sq);
        if root > i64::MAX as u128 {
            proof {
                sqrt_big_stays_big(sq as int, root as int);
            }
            Fx { raw: i64::MAX }
        } else {
            Fx { raw: root as i64 }
        }
    }
}

/// The exact sum of squared components, free of overflow in 128 bits.
pub(crate) fn sum_of_squares(x: Fx, y: Fx) -> (r: u128)
    ensures
        r as int == x@ * x@ + y@ * y@,
{
    let mx: u128 = crate::fxp::abs_u128(x.raw);
    let my: u128 = crate::fxp::abs_u128(y.raw);
    proof {
        square_of_abs(x@, mx as int);
        square_of_abs(y@, my as int);
    }
    mx * mx + my * my
}

/// Squaring a magnitude recovers the square of the signed value, and two such
/// squares fit side by side in 128 bits.
pub(crate) proof fn square_of_abs(v: int, m: int)
    requires
        m == abs(v),
        -0x8000000000000000 <= v <= 0x7fffffffffffffff,
    ensures
        m * m == v * v,
        0 <= m * m <= 0x40000000000000000000000000000000,
{
    assert(m * m == v * v && 0 <= m * m <= 0x40000000000000000000000000000000)
        by (nonlinear_arith)
        requires
            m == abs(v),
            -0x8000000000000000 <= v <= 0x7fffffffffffffff,
    ;
}

/// A root above the `i64` range certifies that the radicand saturates.
proof fn sqrt_big_stays_big(n: int, r: int)
    requires
        is_sqrt_floor(n, r),
        r == sqrt_floor(n),
        r > i64::MAX as int,
    ensures
        sat64(sqrt_floor(n)) == i64::MAX as int,
{
}

} // verus!
