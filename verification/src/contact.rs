//! Narrow-phase contact generation.
//!
//! Pure, stateless geometry: each routine takes current poses and shapes and
//! returns an optional contact whose normal points from the first body toward
//! the second. Every routine is specified exactly by a spec function that
//! mirrors its fixed-point computation, so the solvers' contracts can speak
//! of the very contact a pair produces.

use vstd::prelude::*;
use vstd::math::abs;
use crate::fxp::{Fx, FX_ONE, fxs, fx_add, fx_div, fx_mul, fx_neg, fx_signum, fx_sub, sat64,
    sqrt_floor};
use crate::fxp::isqrt_u128;
use crate::vec2::{Vec2, sum_of_squares, square_of_abs};
use crate::rotation::{Rot, rot_mul_cos, rot_mul_sin, rot_x, rot_y};

verus! {

/// A contact between two bodies: the unit normal pointing from the first
/// body toward the second, the penetration depth along it, and optional
/// contact-point offsets from each body's center. The current narrow phase
/// leaves the offsets empty; they are the extension point for torque-aware
/// resolution.
#[derive(Clone, Copy, Debug)]
pub struct Contact {
    pub penetration: Fx,
    pub normal: Vec2,
    pub r_a: Option<Vec2>,
    pub r_b: Option<Vec2>,
}

/// The spec-level vector with the given components, which callers keep
/// within the `i64` range.
pub open spec fn v2s(x: int, y: int) -> Vec2 {
    Vec2 { x: fxs(x), y: fxs(y) }
}

/// The contact of two circles, if they overlap.
///
/// Overlap holds exactly when the squared center distance lies below the
/// squared radius sum; coincident centers give no normal direction and
/// yield no contact. The normal is the center offset divided by its length,
/// the penetration the radius sum less that length.
pub open spec fn ball_ball_spec(pos_a: Vec2, radius_a: Fx, pos_b: Vec2, radius_b: Fx)
    -> Option<Contact> {
    let dx = fx_sub(pos_b.x@, pos_a.x@);
    let dy = fx_sub(pos_b.y@, pos_a.y@);
    let rsum = fx_add(radius_a@, radius_b@);
    let d2 = dx * dx + dy * dy;
    if d2 != 0 && d2 < rsum * rsum {
        let dist = sat64(sqrt_floor(d2));
        Some(Contact {
            penetration: fxs(fx_sub(rsum, dist)),
            normal: v2s(fx_div(dx, dist), fx_div(dy, dist)),
            r_a: None,
            r_b: None,
        })
    } else {
        None
    }
}

/// The contact of a circle and an axis-aligned rectangle, if they overlap.
///
/// In the rectangle's frame, the componentwise distance from the nearest
/// corner decides the case: beyond the radius on either axis there is no
/// contact; positive on both axes, the circle meets the corner and the test
/// is circle against that point; otherwise the larger component picks the
/// separating face, and the normal is that face's axis signed toward the
/// rectangle.
pub open spec fn ball_box_spec(pos_a: Vec2, radius_a: Fx, pos_b: Vec2, size_b: Vec2)
    -> Option<Contact> {
    let bx = fx_sub(pos_a.x@, pos_b.x@);
    let by = fx_sub(pos_a.y@, pos_b.y@);
    let hx = fx_mul(size_b.x@, FX_ONE as int / 2);
    let hy = fx_mul(size_b.y@, FX_ONE as int / 2);
    let cx = fx_sub(sat64(abs(bx) as int), hx);
    let cy = fx_sub(sat64(abs(by) as int), hy);
    let r = radius_a@;
    if cx > r || cy > r {
        None
    } else if cx > 0 && cy > 0 {
        let c2 = cx * cx + cy * cy;
        if c2 > r * r {
            None
        } else {
            let dist = sat64(sqrt_floor(c2));
            Some(Contact {
                penetration: fxs(fx_sub(r, dist)),
                normal: v2s(
                    fx_mul(fx_div(cx, dist), fx_neg(fx_signum(bx))),
                    fx_mul(fx_div(cy, dist), fx_neg(fx_signum(by))),
                ),
                r_a: None,
                r_b: None,
            })
        }
    } else if cx > cy {
        Some(Contact {
            penetration: fxs(fx_add(fx_neg(cx), r)),
            normal: v2s(fx_neg(fx_signum(bx)), 0),
            r_a: None,
            r_b: None,
        })
    } else {
        Some(Contact {
            penetration: fxs(fx_add(fx_neg(cy), r)),
            normal: v2s(0, fx_neg(fx_signum(by))),
            r_a: None,
            r_b: None,
        })
    }
}

/// One frame of the separating-axis test: the reference rectangle sits
/// axis-aligned at the origin with half-extents `half_a`; the other
/// rectangle's corners are placed by `rot_b` and `ab`. Each of the four face
/// axes either separates the shapes (no contact) or yields a penetration;
/// the axis of least penetration wins, earlier axes keeping ties.
pub open spec fn local_box_box_spec(half_a: Vec2, ab: Vec2, rot_b: Rot, half_b: Vec2)
    -> Option<Contact> {
    let c = rot_b.cos@;
    let s = rot_b.sin@;
    let v1x = fx_add(rot_x(c, s, half_b.x@, half_b.y@), ab.x@);
    let v1y = fx_add(rot_y(c, s, half_b.x@, half_b.y@), ab.y@);
    let v2x = fx_add(rot_x(c, s, half_b.x@, fx_neg(half_b.y@)), ab.x@);
    let v2y = fx_add(rot_y(c, s, half_b.x@, fx_neg(half_b.y@)), ab.y@);
    let v3x = fx_add(fx_neg(rot_x(c, s, half_b.x@, half_b.y@)), ab.x@);
    let v3y = fx_add(fx_neg(rot_y(c, s, half_b.x@, half_b.y@)), ab.y@);
    let v4x = fx_add(fx_neg(rot_x(c, s, half_b.x@, fx_neg(half_b.y@))), ab.x@);
    let v4y = fx_add(fx_neg(rot_y(c, s, half_b.x@, fx_neg(half_b.y@))), ab.y@);
    let max_x = vstd::math::max(vstd::math::max(v1x, v2x), vstd::math::max(v3x, v4x));
    let max_y = vstd::math::max(vstd::math::max(v1y, v2y), vstd::math::max(v3y, v4y));
    let min_x = vstd::math::min(vstd::math::min(v1x, v2x), vstd::math::min(v3x, v4x));
    let min_y = vstd::math::min(vstd::math::min(v1y, v2y), vstd::math::min(v3y, v4y));
    let p_right = fx_sub(half_a.x@, min_x);
    let p_left = fx_add(half_a.x@, max_x);
    let p_top = fx_sub(half_a.y@, min_y);
    let p_bottom = fx_add(half_a.y@, max_y);
    if p_right < 0 || p_left < 0 || p_top < 0 || p_bottom < 0 {
        None
    } else {
        let one = FX_ONE as int;
        let c1 = if p_right < i64::MAX as int { (p_right, one, 0int) } else {
            (i64::MAX as int, 0int, 0int)
        };
        let c2 = if p_left < c1.0 { (p_left, -one, 0int) } else { c1 };
        let c3 = if p_top < c2.0 { (p_top, 0int, one) } else { c2 };
        let c4 = if p_bottom < c3.0 { (p_bottom, 0int, -one) } else { c3 };
        Some(Contact {
            penetration: fxs(c4.0),
            normal: v2s(c4.1, c4.2),
            r_a: None,
            r_b: None,
        })
    }
}

/// The contact of two oriented rectangles by the separating-axis test run in
/// both frames: each rectangle in turn serves as the axis-aligned reference
/// for the other's corners. Contact exists only if neither frame finds a
/// separating axis; the frame reporting the smaller penetration supplies the
/// axis, rotated back to world space, negated when the second frame wins so
/// that the normal keeps pointing from the first body toward the second.
pub open spec fn box_box_spec(pos_a: Vec2, rot_a: Rot, size_a: Vec2, pos_b: Vec2, rot_b: Rot,
    size_b: Vec2) -> Option<Contact> {
    let half = FX_ONE as int / 2;
    let half_a = v2s(fx_mul(size_a.x@, half), fx_mul(size_a.y@, half));
    let half_b = v2s(fx_mul(size_b.x@, half), fx_mul(size_b.y@, half));
    let ca = rot_a.cos@;
    let sa = fx_neg(rot_a.sin@);
    let cb = rot_b.cos@;
    let sb = fx_neg(rot_b.sin@);
    let abx = fx_sub(pos_b.x@, pos_a.x@);
    let aby = fx_sub(pos_b.y@, pos_a.y@);
    let bax = fx_sub(pos_a.x@, pos_b.x@);
    let bay = fx_sub(pos_a.y@, pos_b.y@);
    let ab_a = v2s(rot_x(ca, sa, abx, aby), rot_y(ca, sa, abx, aby));
    let ba_b = v2s(rot_x(cb, sb, bax, bay), rot_y(cb, sb, bax, bay));
    let rot_ba = Rot {
        cos: fxs(rot_mul_cos(ca, sa, rot_b.cos@, rot_b.sin@)),
        sin: fxs(rot_mul_sin(ca, sa, rot_b.cos@, rot_b.sin@)),
    };
    let rot_ab = Rot {
        cos: fxs(rot_mul_cos(cb, sb, rot_a.cos@, rot_a.sin@)),
        sin: fxs(rot_mul_sin(cb, sb, rot_a.cos@, rot_a.sin@)),
    };
    let in_a = local_box_box_spec(half_a, ab_a, rot_ba, half_b);
    let in_b = local_box_box_spec(half_b, ba_b, rot_ab, half_a);
    if in_a is Some && in_b is Some {
        let k_a = in_a->Some_0;
        let k_b = in_b->Some_0;
        if k_a.penetration@ <= k_b.penetration@ {
            Some(Contact {
                penetration: k_a.penetration,
                normal: v2s(
                    rot_x(rot_a.cos@, rot_a.sin@, k_a.normal.x@, k_a.normal.y@),
                    rot_y(rot_a.cos@, rot_a.sin@, k_a.normal.x@, k_a.normal.y@),
                ),
                r_a: None,
                r_b: None,
            })
        } else {
            Some(Contact {
                penetration: k_b.penetration,
                normal: v2s(
                    rot_x(rot_b.cos@, rot_b.sin@, fx_neg(k_b.normal.x@), fx_neg(k_b.normal.y@)),
                    rot_y(rot_b.cos@, rot_b.sin@, fx_neg(k_b.normal.x@), fx_neg(k_b.normal.y@)),
                ),
                r_a: None,
                r_b: None,
            })
        }
    } else {
        None
    }
}

/// Circle against circle: overlap exactly when the squared center distance
/// is below the squared radius sum, coincident centers excepted.
pub fn ball_ball(pos_a: Vec2, radius_a: Fx, pos_b: Vec2, radius_b: Fx) -> (r: Option<Contact>)
    ensures
        r == ball_ball_spec(pos_a, radius_a, pos_b, radius_b),
{
    let ab = pos_b.sub(pos_a);
    let rsum = radius_a.add(radius_b);
    let d2: u128 = sum_of_squares(ab.x, ab.y);
    let mr: u128 = crate::fxp::abs_u128(rsum.raw);
    proof {
        square_of_abs(rsum@, mr as int);
    }
    if d2 != 0 && d2 < mr * mr {
        let root: u128 = isqrt_u128(d2);
        let dist: Fx = if root > i64::MAX as u128 {
            Fx { raw: i64::MAX }
        } else {
            Fx { raw: root as i64 }
        };
        Some(Contact {
            penetration: rsum.sub(dist),
            normal: Vec2 { x: ab.x.div(dist), y: ab.y.div(dist) },
            r_a: None,
            r_b: None,
        })
    } else {
        None
    }
}

/// Circle against axis-aligned rectangle, in the rectangle's own frame.
pub fn ball_box(pos_a: Vec2, radius_a: Fx, pos_b: Vec2, size_b: Vec2) -> (r: Option<Contact>)
    ensures
        r == ball_box_spec(pos_a, radius_a, pos_b, size_b),
{
    let box_to_circle = pos_a.sub(pos_b);
    let half = size_b.scale(Fx::from_raw(FX_ONE / 2));
    let corner = box_to_circle.abs().sub(half);
    if corner.x.raw > radius_a.raw || corner.y.raw > radius_a.raw {
        return None;
    }
    let s = box_to_circle.signum();
    if corner.x.raw > 0 && corner.y.raw > 0 {
        let c2: u128 = sum_of_squares(corner.x, corner.y);
        let mr: u128 = crate::fxp::abs_u128(radius_a.raw);
        proof {
            square_of_abs(radius_a@, mr as int);
        }
        if c2 > mr * mr {
            return None;
        }
        let root: u128 = isqrt_u128(c2);
        let dist: Fx = if root > i64::MAX as u128 {
            Fx { raw: i64::MAX }
        } else {
            Fx { raw: root as i64 }
        };
        Some(Contact {
            penetration: radius_a.sub(dist),
            normal: Vec2 {
                x: corner.x.div(dist).mul(s.x.neg()),
                y: corner.y.div(dist).mul(s.y.neg()),
            },
            r_a: None,
            r_b: None,
        })
    } else if corner.x.raw > corner.y.raw {
        Some(Contact {
            penetration: corner.x.neg().add(radius_a),
            normal: Vec2 { x: s.x.neg(), y: Fx::zero() },
            r_a: None,
            r_b: None,
        })
    } else {
        Some(Contact {
            penetration: corner.y.neg().add(radius_a),
            normal: Vec2 { x: Fx::zero(), y: s.y.neg() },
            r_a: None,
            r_b: None,
        })
    }
}

/// One frame of the separating-axis test for two rectangles.
fn local_box_box(half_a: Vec2, ab: Vec2, rot_b: Rot, half_b: Vec2) -> (r: Option<Contact>)
    ensures
        r == local_box_box_spec(half_a, ab, rot_b, half_b),
{
    let v1 = rot_b.rotate(half_b).add(ab);
    let v2 = rot_b.rotate(Vec2 { x: half_b.x, y: half_b.y.neg() }).add(ab);
    let v3 = rot_b.rotate(half_b).neg().add(ab);
    let v4 = rot_b.rotate(Vec2 { x: half_b.x, y: half_b.y.neg() }).neg().add(ab);
    let v_max = v1.max(v2).max(v3.max(v4));
    let v_min = v1.min(v2).min(v3.min(v4));

    let p_right = half_a.x.sub(v_min.x);
    let p_left = half_a.x.add(v_max.x);
    let p_top = half_a.y.sub(v_min.y);
    let p_bottom = half_a.y.add(v_max.y);
    if p_right.raw < 0 || p_left.raw < 0 || p_top.raw < 0 || p_bottom.raw < 0 {
        return None;
    }

    let mut min_penetration = Fx { raw: i64::MAX };
    let mut n = Vec2::zero();
    if p_right.lt(min_penetration) {
        min_penetration = p_right;
        n = Vec2 { x: Fx::one(), y: Fx::zero() };
    }
    if p_left.lt(min_penetration) {
        min_penetration = p_left;
        n = Vec2 { x: Fx::one().neg(), y: Fx::zero() };
    }
    if p_top.lt(min_penetration) {
        min_penetration = p_top;
        n = Vec2 { x: Fx::zero(), y: Fx::one() };
    }
    if p_bottom.lt(min_penetration) {
        min_penetration = p_bottom;
        n = Vec2 { x: Fx::zero(), y: Fx::one().neg() };
    }
    Some(Contact {
        penetration: min_penetration,
        normal: n,
        r_a: None,
        r_b: None,
    })
}

/// Oriented rectangle against oriented rectangle by the separating-axis test
/// in both frames.
pub fn box_box(pos_a: Vec2, rot_a: Rot, size_a: Vec2, pos_b: Vec2, rot_b: Rot, size_b: Vec2)
    -> (r: Option<Contact>)
    ensures
        r == box_box_spec(pos_a, rot_a, size_a, pos_b, rot_b, size_b),
{
    let half_unit = Fx::from_raw(FX_ONE / 2);
    let half_a = size_a.scale(half_unit);
    let half_b = size_b.scale(half_unit);
    let inv_a = rot_a.inv();
    let inv_b = rot_b.inv();
    let ab_a = inv_a.rotate(pos_b.sub(pos_a));
    let ba_b = inv_b.rotate(pos_a.sub(pos_b));
    let rot_ba = inv_a.mul(rot_b);
    let rot_ab = inv_b.mul(rot_a);
    let in_a = local_box_box(half_a, ab_a, rot_ba, half_b);
    let in_b = local_box_box(half_b, ba_b, rot_ab, half_a);
    match (in_a, in_b) {
        (Some(k_a), Some(k_b)) => {
            if k_a.penetration.le(k_b.penetration) {
                Some(Contact {
                    penetration: k_a.penetration,
                    normal: rot_a.rotate(k_a.normal),
                    r_a: None,
                    r_b: None,
                })
            } else {
                Some(Contact {
                    penetration: k_b.penetration,
                    normal: rot_b.rotate(k_b.normal.neg()),
                    r_a: None,
                    r_b: None,
                })
            }
        },
        _ => None,
    }
}

} // verus!
