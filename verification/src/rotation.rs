//! Planar orientation as a unit complex number.
//!
//! An orientation is kept as the pair (cos, sin) of its angle, so composing,
//! inverting and rotating vectors need no trigonometric calls. Angles enter
//! and leave the engine only through the small-angle helpers used by the
//! integrator and by angular-velocity reconstruction; hosts that work in
//! radians convert outside the engine.

use vstd::prelude::*;
use vstd::math::abs;
use crate::fxp::{Fx, FX_ONE, fx_add, fx_div, fx_mul, fx_neg, fx_sub, is_sqrt_floor, sat64,
    sqrt_floor, tdiv};
use crate::fxp::{lemma_abs_mul, lemma_fx_mul_one, lemma_fx_mul_zero, lemma_tdiv_neg_left,
    lemma_tdiv_props};
use crate::vec2::Vec2;

verus! {

/// An orientation stored as the cosine and sine of its angle, in fixed point.
#[derive(Clone, Copy, PartialEq, Eq, Structural, Debug)]
pub struct Rot {
    pub cos: Fx,
    pub sin: Fx,
}

/// Cosine component of the composition of two rotations.
pub open spec fn rot_mul_cos(c1: int, s1: int, c2: int, s2: int) -> int {
    fx_sub(fx_mul(c1, c2), fx_mul(s1, s2))
}

/// Sine component of the composition of two rotations.
pub open spec fn rot_mul_sin(c1: int, s1: int, c2: int, s2: int) -> int {
    fx_add(fx_mul(s1, c2), fx_mul(c1, s2))
}

/// First component of a vector rotated by (c, s).
pub open spec fn rot_x(c: int, s: int, x: int, y: int) -> int {
    fx_sub(fx_mul(x, c), fx_mul(y, s))
}

/// Second component of a vector rotated by (c, s).
pub open spec fn rot_y(c: int, s: int, x: int, y: int) -> int {
    fx_add(fx_mul(x, s), fx_mul(y, c))
}

/// The pair (c, s) lies exactly on the fixed-point unit circle.
pub open spec fn unit_norm_exact(c: int, s: int) -> bool {
    c * c + s * s == (FX_ONE as int) * (FX_ONE as int)
}

/// First component after rotating (x, y) by (c, s) and back by the inverse.
pub open spec fn round_trip_x(c: int, s: int, x: int, y: int) -> int {
    rot_x(c, fx_neg(s), rot_x(c, s, x, y), rot_y(c, s, x, y))
}

/// Second component after rotating (x, y) by (c, s) and back by the inverse.
pub open spec fn round_trip_y(c: int, s: int, x: int, y: int) -> int {
    rot_y(c, fx_neg(s), rot_x(c, s, x, y), rot_y(c, s, x, y))
}

impl Rot {
    /// Builds an orientation directly from its cosine and sine.
    pub fn new(cos: Fx, sin: Fx) -> (r: Rot)
        ensures
            r.cos == cos,
            r.sin == sin,
    {
        Rot { cos, sin }
    }

    /// The identity orientation: angle zero.
    pub fn identity() -> (r: Rot)
        ensures
            r.cos@ == FX_ONE as int,
            r.sin@ == 0,
    {
        Rot { cos: Fx::one(), sin: Fx::zero() }
    }

    /// The cosine of the angle.
    pub fn cos(self) -> (r: Fx)
        ensures
            r == self.cos,
    {
        self.cos
    }

    /// The sine of the angle.
    pub fn sin(self) -> (r: Fx)
        ensures
            r == self.sin,
    {
        self.sin
    }

    /// Composes two rotations by complex multiplication.
    pub fn mul(self, rhs: Rot) -> (r: Rot)
        ensures
            r.cos@ == rot_mul_cos(self.cos@, self.sin@, rhs.cos@, rhs.sin@),
            r.sin@ == rot_mul_sin(self.cos@, self.sin@, rhs.cos@, rhs.sin@),
    {
        Rot {
            cos: self.cos.mul(rhs.cos).sub(self.sin.mul(rhs.sin)),
            sin: self.sin.mul(rhs.cos).add(self.cos.mul(rhs.sin)),
        }
    }

    /// Inverts a rotation by conjugation: the sine changes sign.
    pub fn inv(self) -> (r: Rot)
        ensures
            r.cos == self.cos,
            r.sin@ == fx_neg(self.sin@),
    {
        Rot { cos: self.cos, sin: self.sin.neg() }
    }

    /// Rotates a vector by complex multiplication.
    pub fn rotate(self, vec: Vec2) -> (r: Vec2)
        ensures
            r.x@ == rot_x(self.cos@, self.sin@, vec.x@, vec.y@),
            r.y@ == rot_y(self.cos@, self.sin@, vec.x@, vec.y@),
    {
        Vec2 {
            x: vec.x.mul(self.cos).sub(vec.y.mul(self.sin)),
            y: vec.x.mul(self.sin).add(vec.y.mul(self.cos)),
        }
    }
}

impl Default for Rot {
    /// The default orientation is the identity.
    fn default() -> (r: Rot)
        ensures
            r.cos@ == FX_ONE as int,
            r.sin@ == 0,
    {
        Rot::identity()
    }
}

/// Cosine of a small angle by its truncated series: 1 - a^2 / 2.
pub open spec fn small_rot_cos(a: int) -> int {
    fx_sub(FX_ONE as int, fx_div(fx_mul(a, a), 2 * FX_ONE as int))
}

/// Sine of a small angle by its truncated series: a - a^3 / 6.
pub open spec fn small_rot_sin(a: int) -> int {
    fx_sub(a, fx_div(fx_mul(fx_mul(a, a), a), 6 * FX_ONE as int))
}

/// The angle of a rotation close to the identity, read off its sine by the
/// truncated series of the inverse sine: s + s^3 / 6.
pub open spec fn small_angle_of(s: int) -> int {
    fx_add(s, fx_div(fx_mul(fx_mul(s, s), s), 6 * FX_ONE as int))
}

impl Rot {
    /// The rotation by a small angle given in radians, by the truncated
    /// series of its cosine and sine. The integrator advances orientations
    /// with per-substep angles, which are tiny, so no trigonometric call is
    /// needed on the hot path.
    pub fn from_small_angle(a: Fx) -> (r: Rot)
        ensures
            r.cos@ == small_rot_cos(a@),
            r.sin@ == small_rot_sin(a@),
    {
        let a2 = a.mul(a);
        let a3 = a2.mul(a);
        Rot {
            cos: Fx::one().sub(a2.div(Fx::from_raw(2 * FX_ONE))),
            sin: a.sub(a3.div(Fx::from_raw(6 * FX_ONE))),
        }
    }

    /// The angle of a rotation close to the identity, in radians; the
    /// scheduler reconstructs angular velocity from the per-substep
    /// orientation delta with it.
    pub fn small_angle(self) -> (r: Fx)
        ensures
            r@ == small_angle_of(self.sin@),
    {
        let s3 = self.sin.mul(self.sin).mul(self.sin);
        self.sin.add(s3.div(Fx::from_raw(6 * FX_ONE)))
    }
}


/// The Euclidean norm of a rotation's components, at the fixed-point scale.
pub open spec fn rot_norm(c: int, s: int) -> int {
    sat64(sqrt_floor(c * c + s * s))
}

/// Cosine after renormalization: rescaled by the norm, unless the norm
/// degenerates to zero.
pub open spec fn renorm_cos(c: int, s: int) -> int {
    if rot_norm(c, s) == 0 {
        c
    } else {
        fx_div(c, rot_norm(c, s))
    }
}

/// Sine after renormalization.
pub open spec fn renorm_sin(c: int, s: int) -> int {
    if rot_norm(c, s) == 0 {
        s
    } else {
        fx_div(s, rot_norm(c, s))
    }
}

impl Rot {
    /// Rescales the pair back toward the unit circle, countering the drift
    /// that long-running composition accumulates. The integrator applies it
    /// after every angular step. A degenerate zero-length pair is returned
    /// unchanged.
    pub fn renormalize(self) -> (r: Rot)
        ensures
            r.cos@ == renorm_cos(self.cos@, self.sin@),
            r.sin@ == renorm_sin(self.cos@, self.sin@),
    {
        let n2: u128 = crate::vec2::sum_of_squares(self.cos, self.sin);
        let root: u128 = crate::fxp::isqrt_u128(n2);
        let len: Fx = if root > i64::MAX as u128 {
            Fx { raw: i64::MAX }
        } else {
            Fx { raw: root as i64 }
        };
        if len.raw == 0 {
            self
        } else {
            Rot { cos: self.cos.div(len), sin: self.sin.div(len) }
        }
    }
}

/// Renormalizing a rotation that sits exactly on the unit circle changes
/// nothing: the correction only counters accumulated drift.
pub proof fn lemma_renormalize_unit(r: Rot)
    requires
        unit_norm_exact(r.cos@, r.sin@),
    ensures
        renorm_cos(r.cos@, r.sin@) == r.cos@,
        renorm_sin(r.cos@, r.sin@) == r.sin@,
{
    let one = FX_ONE as int;
    let c = r.cos@;
    let s = r.sin@;
    assert(is_sqrt_floor(c * c + s * s, one)) by (nonlinear_arith)
        requires
            c * c + s * s == one * one,
            one == FX_ONE as int,
    ;
    crate::fxp::lemma_sqrt_floor_unique(c * c + s * s, one);
    assert(rot_norm(c, s) == one);
    lemma_fx_mul_one(c);
    lemma_fx_mul_one(s);
    assert(fx_div(c, one) == fx_mul(c, one));
    assert(fx_div(s, one) == fx_mul(s, one));
}

/// Orientation snapshotted at the start of the current substep, used to
/// reconstruct the angular velocity after positional correction.
#[derive(Clone, Copy, PartialEq, Eq, Structural, Debug)]
pub struct PrevRot(pub Rot);

/// Angular velocity in radians per second, counterclockwise positive.
#[derive(Clone, Copy, PartialEq, Eq, Structural, Debug)]
pub struct AngVel(pub Fx);

/// Composing with the identity on either side changes a rotation in no way:
/// the identity (1, 0) is the neutral element of the composition, exactly,
/// with no rounding allowance.
pub proof fn lemma_compose_identity(r: Rot, i: Rot)
    requires
        i.cos@ == FX_ONE as int,
        i.sin@ == 0,
    ensures
        rot_mul_cos(r.cos@, r.sin@, i.cos@, i.sin@) == r.cos@,
        rot_mul_sin(r.cos@, r.sin@, i.cos@, i.sin@) == r.sin@,
        rot_mul_cos(i.cos@, i.sin@, r.cos@, r.sin@) == r.cos@,
        rot_mul_sin(i.cos@, i.sin@, r.cos@, r.sin@) == r.sin@,
{
    lemma_fx_mul_one(r.cos@);
    lemma_fx_mul_one(r.sin@);
    lemma_fx_mul_zero(r.cos@);
    lemma_fx_mul_zero(r.sin@);
}

/// Composing an exactly-unit rotation with its inverse yields the identity up
/// to one unit of truncation in the cosine: the sine vanishes exactly and the
/// cosine lands on one whole unit or one millionth below it.
pub proof fn lemma_compose_inverse(r: Rot)
    requires
        unit_norm_exact(r.cos@, r.sin@),
    ensures
        rot_mul_sin(r.cos@, r.sin@, r.cos@, fx_neg(r.sin@)) == 0,
        FX_ONE as int - 1 <= rot_mul_cos(r.cos@, r.sin@, r.cos@, fx_neg(r.sin@))
            <= FX_ONE as int,
{
    let one = FX_ONE as int;
    let c1 = r.cos@;
    let s1 = r.sin@;
    assert(abs(c1) <= one && abs(s1) <= one) by (nonlinear_arith)
        requires
            c1 * c1 + s1 * s1 == one * one,
            one == FX_ONE as int,
    ;
    assert(fx_neg(s1) == -s1);

    // The sine of the composition cancels exactly.
    lemma_fx_mul_bounded(s1, c1, one, one);
    lemma_fx_mul_bounded(c1, s1, one, one);
    assert(c1 * (-s1) == -(c1 * s1) && c1 * s1 == s1 * c1) by (nonlinear_arith);
    lemma_tdiv_neg_left(c1 * s1, one);
    assert(fx_mul(c1, -s1) == sat64(tdiv(-(c1 * s1), one)));
    assert(abs(tdiv(s1 * c1, one)) <= one * one / one);
    vstd::arithmetic::div_mod::lemma_div_multiples_vanish(one, one);
    assert(rot_mul_sin(c1, s1, c1, -s1) == 0);

    // The cosine gathers the two truncated squares of an exact unit.
    assert(c1 * c1 >= 0 && s1 * s1 >= 0 && s1 * (-s1) == -(s1 * s1)) by (nonlinear_arith);
    lemma_tdiv_props(c1 * c1, one);
    lemma_tdiv_props(s1 * s1, one);
    lemma_tdiv_neg_left(s1 * s1, one);
    let q1 = tdiv(c1 * c1, one);
    let q2 = tdiv(s1 * s1, one);
    assert(q1 * one + q2 * one > c1 * c1 - one + s1 * s1 - one);
    assert((q1 + q2) * one == q1 * one + q2 * one) by (nonlinear_arith);
    assert(q1 + q2 >= one - 1) by (nonlinear_arith)
        requires
            (q1 + q2) * one > one * one - 2 * one,
            one > 0,
    ;
    assert(q1 + q2 <= one) by (nonlinear_arith)
        requires
            (q1 + q2) * one <= one * one,
            one > 0,
    ;
    assert(fx_mul(c1, c1) == q1);
    assert(fx_mul(s1, -s1) == -q2);
    assert(rot_mul_cos(c1, s1, c1, -s1) == sat64(q1 + q2));
}

/// Rotating a vector by an exactly-unit rotation and rotating the result back
/// through the inverse returns the vector within tolerance: each component is
/// recovered to within five millionths of a unit, for vectors up to a million
/// units in magnitude.
#[verifier::rlimit(100)]
pub proof fn lemma_rotate_round_trip(r: Rot, v: Vec2)
    requires
        unit_norm_exact(r.cos@, r.sin@),
        abs(v.x@) <= 1_000_000_000_000,
        abs(v.y@) <= 1_000_000_000_000,
    ensures
        abs(round_trip_x(r.cos@, r.sin@, v.x@, v.y@) - v.x@) <= 5,
        abs(round_trip_y(r.cos@, r.sin@, v.x@, v.y@) - v.y@) <= 5,
{
    let one = FX_ONE as int;
    let b = 1_000_000_000_000int;
    let c = r.cos@;
    let s = r.sin@;
    let x = v.x@;
    let y = v.y@;
    assert(abs(c) <= one && abs(s) <= one) by (nonlinear_arith)
        requires
            c * c + s * s == one * one,
            one == FX_ONE as int,
    ;

    lemma_fx_mul_bounded(x, c, b, one);
    lemma_fx_mul_bounded(y, s, b, one);
    lemma_fx_mul_bounded(x, s, b, one);
    lemma_fx_mul_bounded(y, c, b, one);
    let q1 = tdiv(x * c, one);
    let q2 = tdiv(y * s, one);
    let q3 = tdiv(x * s, one);
    let q4 = tdiv(y * c, one);
    let wx = q1 - q2;
    let wy = q3 + q4;
    assert(rot_x(c, s, x, y) == wx);
    assert(rot_y(c, s, x, y) == wy);
    assert(abs(wx) <= 2 * b && abs(wy) <= 2 * b);

    lemma_fx_mul_bounded(wx, c, 2 * b, one);
    lemma_fx_mul_bounded(wy, s, 2 * b, one);
    lemma_fx_mul_bounded(wx, s, 2 * b, one);
    lemma_fx_mul_bounded(wy, c, 2 * b, one);
    let q5 = tdiv(wx * c, one);
    let q6 = tdiv(wy * s, one);
    let q7 = tdiv(wx * s, one);
    let q8 = tdiv(wy * c, one);
    assert(fx_neg(s) == -s);
    assert(wy * (-s) == -(wy * s) && wx * (-s) == -(wx * s)) by (nonlinear_arith);
    lemma_tdiv_neg_left(wy * s, one);
    lemma_tdiv_neg_left(wx * s, one);
    // Rotating back by the inverse (c, -s): the first component collects
    // q5 + q6, the second collects q8 - q7.
    assert(round_trip_x(c, s, x, y) == sat64(q5 + q6));
    assert(round_trip_y(c, s, x, y) == sat64(q8 - q7));
    assert(abs(q5 + q6) <= 4 * b && abs(q8 - q7) <= 4 * b);
    assert(round_trip_x(c, s, x, y) == q5 + q6);
    assert(round_trip_y(c, s, x, y) == q8 - q7);

    lemma_tdiv_props(x * c, one);
    lemma_tdiv_props(y * s, one);
    lemma_tdiv_props(x * s, one);
    lemma_tdiv_props(y * c, one);
    lemma_tdiv_props(wx * c, one);
    lemma_tdiv_props(wy * s, one);
    lemma_tdiv_props(wx * s, one);
    lemma_tdiv_props(wy * c, one);

    // Name the truncation error of each of the eight scaled products.
    let e1 = q1 * one - x * c;
    let e2 = q2 * one - y * s;
    let e3 = q3 * one - x * s;
    let e4 = q4 * one - y * c;
    let e5 = q5 * one - wx * c;
    let e6 = q6 * one - wy * s;
    let e7 = q7 * one - wx * s;
    let e8 = q8 * one - wy * c;
    assert(wx * one == x * c - y * s + e1 - e2) by (nonlinear_arith)
        requires
            wx == q1 - q2,
            e1 == q1 * one - x * c,
            e2 == q2 * one - y * s,
    ;
    assert(wy * one == x * s + y * c + e3 + e4) by (nonlinear_arith)
        requires
            wy == q3 + q4,
            e3 == q3 * one - x * s,
            e4 == q4 * one - y * c,
    ;

    // Push the intermediate errors through the second rotation.
    assert(wx * c * one == x * c * c - y * s * c + e1 * c - e2 * c) by (nonlinear_arith)
        requires
            wx * one == x * c - y * s + e1 - e2,
    ;
    assert(wy * s * one == x * s * s + y * c * s + e3 * s + e4 * s) by (nonlinear_arith)
        requires
            wy * one == x * s + y * c + e3 + e4,
    ;
    assert(wy * c * one == x * s * c + y * c * c + e3 * c + e4 * c) by (nonlinear_arith)
        requires
            wy * one == x * s + y * c + e3 + e4,
    ;
    assert(wx * s * one == x * c * s - y * s * s + e1 * s - e2 * s) by (nonlinear_arith)
        requires
            wx * one == x * c - y * s + e1 - e2,
    ;
    assert(x * c * c + x * s * s == x * (one * one)) by (nonlinear_arith)
        requires
            c * c + s * s == one * one,
    ;
    assert(y * c * c + y * s * s == y * (one * one)) by (nonlinear_arith)
        requires
            c * c + s * s == one * one,
    ;
    assert(y * s * c == y * c * s && x * s * c == x * c * s) by (nonlinear_arith);

    // Each error term is one truncation scaled by a bounded factor.
    assert(abs(e1 * c) <= (one - 1) * one && abs(e2 * c) <= (one - 1) * one
        && abs(e3 * c) <= (one - 1) * one && abs(e4 * c) <= (one - 1) * one) by (nonlinear_arith)
        requires
            abs(e1) < one,
            abs(e2) < one,
            abs(e3) < one,
            abs(e4) < one,
            abs(c) <= one,
            one > 0,
    ;
    assert(abs(e1 * s) <= (one - 1) * one && abs(e2 * s) <= (one - 1) * one
        && abs(e3 * s) <= (one - 1) * one && abs(e4 * s) <= (one - 1) * one) by (nonlinear_arith)
        requires
            abs(e1) < one,
            abs(e2) < one,
            abs(e3) < one,
            abs(e4) < one,
            abs(s) <= one,
            one > 0,
    ;

    // Gather: the recovered component differs from the original, at the
    // square scale, by at most six scaled truncations.
    assert((q5 + q6) * (one * one) == q5 * one * one + q6 * one * one);
    assert(q5 * one * one == wx * c * one + e5 * one) by (nonlinear_arith)
        requires
            q5 * one == wx * c + e5,
    ;
    assert(q6 * one * one == wy * s * one + e6 * one) by (nonlinear_arith)
        requires
            q6 * one == wy * s + e6,
    ;
    assert(q8 * one * one == wy * c * one + e8 * one) by (nonlinear_arith)
        requires
            q8 * one == wy * c + e8,
    ;
    assert(q7 * one * one == wx * s * one + e7 * one) by (nonlinear_arith)
        requires
            q7 * one == wx * s + e7,
    ;
    assert((q5 + q6) * (one * one)
        == x * (one * one) + e1 * c - e2 * c + e3 * s + e4 * s + e5 * one + e6 * one);
    assert((q8 - q7) * (one * one)
        == y * (one * one) + e3 * c + e4 * c - e1 * s + e2 * s + e8 * one - e7 * one);
    assert(abs(e5 * one) <= (one - 1) * one && abs(e6 * one) <= (one - 1) * one
        && abs(e7 * one) <= (one - 1) * one && abs(e8 * one) <= (one - 1) * one)
        by (nonlinear_arith)
        requires
            abs(e5) < one,
            abs(e6) < one,
            abs(e7) < one,
            abs(e8) < one,
            one > 0,
    ;
    assert(abs((q5 + q6) - x) <= 5) by (nonlinear_arith)
        requires
            abs((q5 + q6) * (one * one) - x * (one * one)) <= 6 * ((one - 1) * one),
            one == 1_000_000,
    ;
    assert(abs((q8 - q7) - y) <= 5) by (nonlinear_arith)
        requires
            abs((q8 - q7) * (one * one) - y * (one * one)) <= 6 * ((one - 1) * one),
            one == 1_000_000,
    ;
}

/// A fixed-point product of bounded factors neither saturates nor exceeds the
/// product of the bounds rescaled.
proof fn lemma_fx_mul_bounded(a: int, d: int, abound: int, dbound: int)
    requires
        abs(a) <= abound,
        abs(d) <= dbound,
        0 <= abound,
        0 <= dbound,
        abound * dbound <= i64::MAX as int,
    ensures
        fx_mul(a, d) == tdiv(a * d, FX_ONE as int),
        abs(tdiv(a * d, FX_ONE as int)) * (FX_ONE as int) <= abound * dbound,
        abs(tdiv(a * d, FX_ONE as int)) <= abound * dbound / (FX_ONE as int),
{
    let one = FX_ONE as int;
    lemma_abs_mul(a, d);
    vstd::arithmetic::mul::lemma_mul_upper_bound(abs(a) as int, abound, abs(d) as int, dbound);
    lemma_tdiv_props(a * d, one);
    let q = tdiv(a * d, one);
    assert(abs(q) == abs(a * d) as int / one);
    vstd::arithmetic::div_mod::lemma_div_is_ordered(abs(a * d) as int, abound * dbound, one);
    assert((abs(a * d) as int / one) * one <= abs(a * d) as int) by (nonlinear_arith)
        requires
            abs(a * d) >= 0,
            one > 0,
            abs(a * d) as int / one == abs(tdiv(a * d, one)),
            abs(tdiv(a * d, one) * one - a * d) < one,
    ;
    assert(abs(q) * one <= abound * dbound) by (nonlinear_arith)
        requires
            abs(q) * one <= abs(a * d),
            abs(a * d) <= abound * dbound,
    ;
    assert(abs(q) <= i64::MAX as int) by (nonlinear_arith)
        requires
            abs(q) * one <= abound * dbound,
            abound * dbound <= i64::MAX as int,
            one >= 1,
            abs(q) >= 0,
    ;
}

} // verus!
