//! The simulation world and its phase pipeline.
//!
//! The world owns a dense array of bodies and the engine-owned lists; every
//! phase of a substep is a function over that array with an exact contract,
//! and the fixed-step scheduler drives the phases in order. Static bodies
//! (inverse mass zero) pass through every phase unchanged.

use vstd::prelude::*;
use vstd::math::abs;
use crate::fxp::{Fx, FX_ONE, fxs, fx_add, fx_div, fx_mul, fx_neg, fx_sub, sat64, tdiv};
use crate::fxp::{lemma_tdiv_neg_left, lemma_tdiv_props};
use crate::vec2::{Vec2, dot_spec, len_spec};
use crate::contact::v2s;
use crate::rotation::{PrevRot, Rot, rot_mul_cos, rot_mul_sin, small_angle_of, small_rot_cos,
    small_rot_sin};
use crate::components::{aabb_overlap, Aabb, Body, Collider, Pos, PreSolveAngVel, PreSolveVel,
    PrevPos, Vel, is_static};
use crate::resources::{BodyContact, CollisionPairs, Contacts, Gravity, StaticContacts};
use crate::contact::{ball_ball, ball_box, box_box, ball_ball_spec, ball_box_spec, box_box_spec,
    Contact};
use crate::SUB_DT;

verus! {

/// The broad-phase safety margin per unit of speed: twice the distance a
/// body travels in one substep.
pub const COLLISION_PAIR_VEL_MARGIN_FACTOR: i64 = 2_000_000;

/// A renderable pose, written once per frame by the sync boundary.
#[derive(Clone, Copy, Debug)]
pub struct Transform {
    pub translation: Vec2,
    pub rotation: Rot,
}

/// One body after gravity integration over a substep: the previous position
/// is snapshotted, the velocity gains a substep of gravity, the position
/// advances by a substep of the new velocity, and that velocity is recorded
/// as the pre-solve velocity. Static bodies are untouched.
pub open spec fn integrate_body(b: Body, g: Gravity) -> Body {
    if is_static(b) {
        b
    } else {
        let vx = fx_add(b.vel.0.x@, fx_mul(g.0.x@, SUB_DT as int));
        let vy = fx_add(b.vel.0.y@, fx_mul(g.0.y@, SUB_DT as int));
        let px = fx_add(b.pos.0.x@, fx_mul(vx, SUB_DT as int));
        let py = fx_add(b.pos.0.y@, fx_mul(vy, SUB_DT as int));
        Body {
            prev_pos: PrevPos(b.pos.0),
            pos: Pos(v2s(px, py)),
            vel: Vel(v2s(vx, vy)),
            pre_solve_vel: PreSolveVel(v2s(vx, vy)),
            ..b
        }
    }
}

/// One body after angular integration over a substep: the previous
/// orientation is snapshotted, the orientation composes with the small
/// rotation swept by the angular velocity, and that angular velocity is
/// recorded as the pre-solve angular velocity. Static bodies are untouched.
pub open spec fn integrate_rot_body(b: Body) -> Body {
    if is_static(b) {
        b
    } else {
        let ang = fx_mul(b.ang_vel.0@, SUB_DT as int);
        let dc = small_rot_cos(ang);
        let ds = small_rot_sin(ang);
        let tc = rot_mul_cos(b.rot.cos@, b.rot.sin@, dc, ds);
        let ts = rot_mul_sin(b.rot.cos@, b.rot.sin@, dc, ds);
        Body {
            prev_rot: PrevRot(b.rot),
            rot: Rot {
                cos: fxs(crate::rotation::renorm_cos(tc, ts)),
                sin: fxs(crate::rotation::renorm_sin(tc, ts)),
            },
            pre_solve_ang_vel: PreSolveAngVel(b.ang_vel.0),
            ..b
        }
    }
}

/// One body after velocity reconstruction: the velocity is the position
/// delta of this substep divided by the substep duration. Static bodies are
/// untouched.
pub open spec fn update_vel_body(b: Body) -> Body {
    if is_static(b) {
        b
    } else {
        Body {
            vel: Vel(v2s(
                fx_div(fx_sub(b.pos.0.x@, b.prev_pos.0.x@), SUB_DT as int),
                fx_div(fx_sub(b.pos.0.y@, b.prev_pos.0.y@), SUB_DT as int),
            )),
            ..b
        }
    }
}

/// One body after angular-velocity reconstruction: the angular velocity is
/// the small angle of the orientation delta of this substep divided by the
/// substep duration. Static bodies are untouched.
pub open spec fn update_ang_vel_body(b: Body) -> Body {
    if is_static(b) {
        b
    } else {
        let delta_sin = rot_mul_sin(
            b.prev_rot.0.cos@,
            fx_neg(b.prev_rot.0.sin@),
            b.rot.cos@,
            b.rot.sin@,
        );
        Body {
            ang_vel: crate::rotation::AngVel(
                fxs(fx_div(small_angle_of(delta_sin), SUB_DT as int)),
            ),
            ..b
        }
    }
}

/// One dynamic circle after its bounding-box refresh: center plus and minus
/// the radius on both axes. Other bodies are untouched.
pub open spec fn update_aabb_circle_body(b: Body) -> Body {
    if !is_static(b) && b.collider is Circle {
        let r = b.collider->Circle_0.radius@;
        Body {
            aabb: Aabb {
                min: v2s(fx_sub(b.pos.0.x@, r), fx_sub(b.pos.0.y@, r)),
                max: v2s(fx_add(b.pos.0.x@, r), fx_add(b.pos.0.y@, r)),
            },
            ..b
        }
    } else {
        b
    }
}

/// One dynamic box after its bounding-box refresh: the world-space bounding
/// rectangle of the rotated half-extents, inflated on both axes by the
/// velocity margin (the margin factor times the substep duration times the
/// speed). Other bodies are untouched.
pub open spec fn update_aabb_box_body(b: Body) -> Body {
    if !is_static(b) && b.collider is Rect {
        let size = b.collider->Rect_0.size;
        let sin_abs = sat64(abs(b.rot.sin@) as int);
        let cos_abs = sat64(abs(b.rot.cos@) as int);
        let w = fx_add(fx_mul(size.y@, sin_abs), fx_mul(size.x@, cos_abs));
        let h = fx_add(fx_mul(size.x@, sin_abs), fx_mul(size.y@, cos_abs));
        let speed = len_spec(b.vel.0.x@, b.vel.0.y@);
        let margin = fx_mul(fx_mul(COLLISION_PAIR_VEL_MARGIN_FACTOR as int, SUB_DT as int),
            speed);
        let hx = fx_add(fx_mul(w, FX_ONE as int / 2), margin);
        let hy = fx_add(fx_mul(h, FX_ONE as int / 2), margin);
        Body {
            aabb: Aabb {
                min: v2s(fx_sub(b.pos.0.x@, hx), fx_sub(b.pos.0.y@, hy)),
                max: v2s(fx_add(b.pos.0.x@, hx), fx_add(b.pos.0.y@, hy)),
            },
            ..b
        }
    } else {
        b
    }
}


/// A contact with its normal reversed, for dispatching a pair in the
/// opposite order.
pub open spec fn flip_contact(c: Option<Contact>) -> Option<Contact> {
    match c {
        Some(k) => Some(
            Contact { normal: v2s(fx_neg(k.normal.x@), fx_neg(k.normal.y@)), ..k },
        ),
        None => None,
    }
}

/// The narrow phase for a pair of bodies, dispatched on the two collider
/// kinds; the normal always points from the first body toward the second.
#[verifier::opaque]
pub open spec fn narrow_phase_spec(a: Body, b: Body) -> Option<Contact> {
    match (a.collider, b.collider) {
        (Collider::Circle(ca), Collider::Circle(cb)) => ball_ball_spec(
            a.pos.0, ca.radius, b.pos.0, cb.radius),
        (Collider::Circle(ca), Collider::Rect(rb)) => ball_box_spec(
            a.pos.0, ca.radius, b.pos.0, rb.size),
        (Collider::Rect(ra), Collider::Circle(cb)) => flip_contact(ball_box_spec(
            b.pos.0, cb.radius, a.pos.0, ra.size)),
        (Collider::Rect(ra), Collider::Rect(rb)) => box_box_spec(
            a.pos.0, a.rot, ra.size, b.pos.0, b.rot, rb.size),
    }
}

/// Runs the narrow phase for a pair of bodies at their current poses.
pub fn narrow_phase(a: &Body, b: &Body) -> (r: Option<Contact>)
    ensures
        r == narrow_phase_spec(*a, *b),
{
    proof {
        reveal(narrow_phase_spec);
    }
    match (a.collider, b.collider) {
        (Collider::Circle(ca), Collider::Circle(cb)) => ball_ball(
            a.pos.0, ca.radius, b.pos.0, cb.radius),
        (Collider::Circle(ca), Collider::Rect(rb)) => ball_box(
            a.pos.0, ca.radius, b.pos.0, rb.size),
        (Collider::Rect(ra), Collider::Circle(cb)) => {
            match ball_box(b.pos.0, cb.radius, a.pos.0, ra.size) {
                Some(k) => Some(Contact { normal: k.normal.neg(), ..k }),
                None => None,
            }
        },
        (Collider::Rect(ra), Collider::Rect(rb)) => box_box(
            a.pos.0, a.rot, ra.size, b.pos.0, b.rot, rb.size),
    }
}

/// Two dynamic bodies after a positional correction split by inverse-mass
/// weight: the measured penetration is fully projected out along the normal,
/// the heavier body moving less.
pub open spec fn constrain_pair(ba: Body, bb: Body, n: Vec2, pen: Fx) -> (Body, Body) {
    let w_a = ba.inv_mass@;
    let w_b = bb.inv_mass@;
    let w_sum = fx_add(w_a, w_b);
    let f = fx_div(fx_neg(pen@), w_sum);
    let ix = fx_mul(n.x@, f);
    let iy = fx_mul(n.y@, f);
    (
        Body {
            pos: Pos(v2s(fx_add(ba.pos.0.x@, fx_mul(ix, w_a)),
                fx_add(ba.pos.0.y@, fx_mul(iy, w_a)))),
            ..ba
        },
        Body {
            pos: Pos(v2s(fx_sub(bb.pos.0.x@, fx_mul(ix, w_b)),
                fx_sub(bb.pos.0.y@, fx_mul(iy, w_b)))),
            ..bb
        },
    )
}

/// A dynamic body after receiving the full positional correction against a
/// static partner.
pub open spec fn constrain_single(b: Body, n: Vec2, pen: Fx) -> Body {
    Body {
        pos: Pos(v2s(fx_sub(b.pos.0.x@, fx_mul(n.x@, pen@)),
            fx_sub(b.pos.0.y@, fx_mul(n.y@, pen@)))),
        ..b
    }
}

/// Splits a positional correction between two dynamic bodies by their
/// inverse masses.
pub fn constrain_body_positions(ba: Body, bb: Body, n: Vec2, pen: Fx) -> (r: (Body, Body))
    ensures
        r == constrain_pair(ba, bb, n, pen),
{
    let w_sum = ba.inv_mass.add(bb.inv_mass);
    let pos_impulse = n.scale(pen.neg().div(w_sum));
    (
        Body { pos: Pos(ba.pos.0.add(pos_impulse.scale(ba.inv_mass))), ..ba },
        Body { pos: Pos(bb.pos.0.sub(pos_impulse.scale(bb.inv_mass))), ..bb },
    )
}

/// Applies the full positional correction to a dynamic body against a
/// static partner.
pub fn constrain_body_position(b: Body, n: Vec2, pen: Fx) -> (r: Body)
    ensures
        r == constrain_single(b, n, pen),
{
    Body { pos: Pos(b.pos.0.sub(n.scale(pen))), ..b }
}

/// Advances every dynamic body by gravity and its velocity over one substep.
#[verifier::loop_isolation(false)]
pub fn integrate(bodies: &mut Vec<Body>, gravity: &Gravity)
    ensures
        final(bodies)@.len() == old(bodies)@.len(),
        forall|i: int|
            0 <= i < old(bodies)@.len() ==> final(bodies)@[i] == integrate_body(
                old(bodies)@[i],
                *gravity,
            ),
{
    let dt = Fx::from_raw(SUB_DT);
    let n = bodies.len();
    for i in 0..n
        invariant
            bodies@.len() == n,
            forall|j: int| 0 <= j < i ==> bodies@[j] == integrate_body(old(bodies)@[j], *gravity),
            forall|j: int| i <= j < n ==> bodies@[j] == old(bodies)@[j],
    {
        let b = bodies[i];
        if b.inv_mass.raw != 0 {
            let vel = b.vel.0.add(gravity.0.scale(dt));
            let pos = b.pos.0.add(vel.scale(dt));
            bodies[i] = Body {
                prev_pos: PrevPos(b.pos.0),
                pos: Pos(pos),
                vel: Vel(vel),
                pre_solve_vel: PreSolveVel(vel),
                ..b
            };
        }
    }
}

/// Advances every dynamic body's orientation by its angular velocity over
/// one substep.
#[verifier::loop_isolation(false)]
pub fn integrate_rot(bodies: &mut Vec<Body>)
    ensures
        final(bodies)@.len() == old(bodies)@.len(),
        forall|i: int|
            0 <= i < old(bodies)@.len() ==> final(bodies)@[i] == integrate_rot_body(
                old(bodies)@[i],
            ),
{
    let dt = Fx::from_raw(SUB_DT);
    let n = bodies.len();
    for i in 0..n
        invariant
            bodies@.len() == n,
            forall|j: int| 0 <= j < i ==> bodies@[j] == integrate_rot_body(old(bodies)@[j]),
            forall|j: int| i <= j < n ==> bodies@[j] == old(bodies)@[j],
    {
        let b = bodies[i];
        if b.inv_mass.raw != 0 {
            let delta = Rot::from_small_angle(b.ang_vel.0.mul(dt));
            bodies[i] = Body {
                prev_rot: PrevRot(b.rot),
                rot: b.rot.mul(delta).renormalize(),
                pre_solve_ang_vel: PreSolveAngVel(b.ang_vel.0),
                ..b
            };
        }
    }
}

/// Reconstructs every dynamic body's velocity from its position delta.
#[verifier::loop_isolation(false)]
pub fn update_vel(bodies: &mut Vec<Body>)
    ensures
        final(bodies)@.len() == old(bodies)@.len(),
        forall|i: int|
            0 <= i < old(bodies)@.len() ==> final(bodies)@[i] == update_vel_body(
                old(bodies)@[i],
            ),
{
    let dt = Fx::from_raw(SUB_DT);
    let n = bodies.len();
    for i in 0..n
        invariant
            bodies@.len() == n,
            forall|j: int| 0 <= j < i ==> bodies@[j] == update_vel_body(old(bodies)@[j]),
            forall|j: int| i <= j < n ==> bodies@[j] == old(bodies)@[j],
    {
        let b = bodies[i];
        if b.inv_mass.raw != 0 {
            let d = b.pos.0.sub(b.prev_pos.0);
            bodies[i] = Body {
                vel: Vel(Vec2 { x: d.x.div(dt), y: d.y.div(dt) }),
                ..b
            };
        }
    }
}

/// Reconstructs every dynamic body's angular velocity from its orientation
/// delta.
#[verifier::loop_isolation(false)]
pub fn update_ang_vel(bodies: &mut Vec<Body>)
    ensures
        final(bodies)@.len() == old(bodies)@.len(),
        forall|i: int|
            0 <= i < old(bodies)@.len() ==> final(bodies)@[i] == update_ang_vel_body(
                old(bodies)@[i],
            ),
{
    let dt = Fx::from_raw(SUB_DT);
    let n = bodies.len();
    for i in 0..n
        invariant
            bodies@.len() == n,
            forall|j: int| 0 <= j < i ==> bodies@[j] == update_ang_vel_body(old(bodies)@[j]),
            forall|j: int| i <= j < n ==> bodies@[j] == old(bodies)@[j],
    {
        let b = bodies[i];
        if b.inv_mass.raw != 0 {
            let delta = b.prev_rot.0.inv().mul(b.rot);
            bodies[i] = Body {
                ang_vel: crate::rotation::AngVel(delta.small_angle().div(dt)),
                ..b
            };
        }
    }
}

/// Refreshes the bounding box of every dynamic circle.
#[verifier::loop_isolation(false)]
pub fn update_aabb_circle(bodies: &mut Vec<Body>)
    ensures
        final(bodies)@.len() == old(bodies)@.len(),
        forall|i: int|
            0 <= i < old(bodies)@.len() ==> final(bodies)@[i] == update_aabb_circle_body(
                old(bodies)@[i],
            ),
{
    let n = bodies.len();
    for i in 0..n
        invariant
            bodies@.len() == n,
            forall|j: int| 0 <= j < i ==> bodies@[j] == update_aabb_circle_body(old(bodies)@[j]),
            forall|j: int| i <= j < n ==> bodies@[j] == old(bodies)@[j],
    {
        let b = bodies[i];
        if b.inv_mass.raw != 0 {
            match b.collider {
                Collider::Circle(c) => {
                    let half = Vec2::splat(c.radius);
                    bodies[i] = Body {
                        aabb: Aabb { min: b.pos.0.sub(half), max: b.pos.0.add(half) },
                        ..b
                    };
                },
                Collider::Rect(_) => {},
            }
        }
    }
}

/// Refreshes the bounding box of every dynamic box, with the velocity
/// margin.
#[verifier::loop_isolation(false)]
pub fn update_aabb_box(bodies: &mut Vec<Body>)
    ensures
        final(bodies)@.len() == old(bodies)@.len(),
        forall|i: int|
            0 <= i < old(bodies)@.len() ==> final(bodies)@[i] == update_aabb_box_body(
                old(bodies)@[i],
            ),
{
    let dt = Fx::from_raw(SUB_DT);
    let factor = Fx::from_raw(COLLISION_PAIR_VEL_MARGIN_FACTOR);
    let half_unit = Fx::from_raw(FX_ONE / 2);
    let n = bodies.len();
    for i in 0..n
        invariant
            bodies@.len() == n,
            forall|j: int| 0 <= j < i ==> bodies@[j] == update_aabb_box_body(old(bodies)@[j]),
            forall|j: int| i <= j < n ==> bodies@[j] == old(bodies)@[j],
    {
        let b = bodies[i];
        if b.inv_mass.raw != 0 {
            match b.collider {
                Collider::Rect(r) => {
                    let sin_abs = b.rot.sin().abs();
                    let cos_abs = b.rot.cos().abs();
                    let w = r.size.y.mul(sin_abs).add(r.size.x.mul(cos_abs));
                    let h = r.size.x.mul(sin_abs).add(r.size.y.mul(cos_abs));
                    let margin = factor.mul(dt).mul(b.vel.0.length());
                    let half = Vec2 {
                        x: w.mul(half_unit).add(margin),
                        y: h.mul(half_unit).add(margin),
                    };
                    bodies[i] = Body {
                        aabb: Aabb { min: b.pos.0.sub(half), max: b.pos.0.add(half) },
                        ..b
                    };
                },
                Collider::Circle(_) => {},
            }
        }
    }
}


/// One candidate pair through the position solver: if both indices name
/// distinct dynamic bodies and the narrow phase reports a contact at the
/// current poses, the correction is applied and the contact recorded;
/// otherwise nothing changes.
pub open spec fn solve_pos_step(bodies: Seq<Body>, contacts: Seq<BodyContact>, a: int, b: int)
    -> (Seq<Body>, Seq<BodyContact>) {
    if 0 <= a < bodies.len() && 0 <= b < bodies.len() && a != b && !is_static(bodies[a])
        && !is_static(bodies[b]) {
        match narrow_phase_spec(bodies[a], bodies[b]) {
            Some(c) => {
                let pair = constrain_pair(bodies[a], bodies[b], c.normal, c.penetration);
                (
                    bodies.update(a, pair.0).update(b, pair.1),
                    contacts.push(BodyContact {
                        entity_a: a as usize,
                        entity_b: b as usize,
                        r_a: c.r_a,
                        r_b: c.r_b,
                        normal: c.normal,
                    }),
                )
            },
            None => (bodies, contacts),
        }
    } else {
        (bodies, contacts)
    }
}

/// The first `k` candidate pairs through the position solver, in order.
pub open spec fn solve_pos_pairs(bodies: Seq<Body>, contacts: Seq<BodyContact>,
    pairs: Seq<(usize, usize)>, k: int) -> (Seq<Body>, Seq<BodyContact>)
    decreases k,
{
    if k <= 0 {
        (bodies, contacts)
    } else {
        let prev = solve_pos_pairs(bodies, contacts, pairs, k - 1);
        solve_pos_step(prev.0, prev.1, pairs[k - 1].0 as int, pairs[k - 1].1 as int)
    }
}

/// Projects out the penetration of every overlapping candidate pair of
/// dynamic bodies, re-running the narrow phase at current positions, and
/// records each resolved contact for the velocity solver. A pair whose
/// indices no longer name two distinct dynamic bodies is skipped silently.
#[verifier::loop_isolation(false)]
#[verifier::rlimit(100)]
pub fn solve_pos(bodies: &mut Vec<Body>, contacts: &mut Contacts, pairs: &CollisionPairs)
    ensures
        final(bodies)@ == solve_pos_pairs(old(bodies)@, old(contacts).0@, pairs.0@,
            pairs.0@.len() as int).0,
        final(contacts).0@ == solve_pos_pairs(old(bodies)@, old(contacts).0@, pairs.0@,
            pairs.0@.len() as int).1,
        final(bodies)@.len() == old(bodies)@.len(),
        forall|i: int|
            0 <= i < old(bodies)@.len() && is_static(old(bodies)@[i]) ==> final(bodies)@[i]
                == old(bodies)@[i],
{
    let m = pairs.0.len();
    for k in 0..m
        invariant
            bodies@ == solve_pos_pairs(old(bodies)@, old(contacts).0@, pairs.0@, k as int).0,
            contacts.0@ == solve_pos_pairs(old(bodies)@, old(contacts).0@, pairs.0@, k as int).1,
            bodies@.len() == old(bodies)@.len(),
            forall|i: int|
                0 <= i < old(bodies)@.len() && is_static(old(bodies)@[i]) ==> bodies@[i]
                    == old(bodies)@[i],
    {
        let pair = pairs.0[k];
        let a = pair.0;
        let b = pair.1;
        if a < bodies.len() && b < bodies.len() && a != b && bodies[a].inv_mass.raw != 0
            && bodies[b].inv_mass.raw != 0 {
            let ba = bodies[a];
            let bb = bodies[b];
            match narrow_phase(&ba, &bb) {
                Some(c) => {
                    let corrected = constrain_body_positions(ba, bb, c.normal, c.penetration);
                    bodies[a] = corrected.0;
                    bodies[b] = corrected.1;
                    contacts.0.push(BodyContact {
                        entity_a: a,
                        entity_b: b,
                        r_a: c.r_a,
                        r_b: c.r_b,
                        normal: c.normal,
                    });
                },
                None => {},
            }
        }
    }
}

/// One dynamic-static encounter through the position solver: if index `i`
/// names a dynamic body and `j` a static one and they touch, the dynamic
/// body takes the full correction and the contact is recorded.
pub open spec fn solve_static_step(bodies: Seq<Body>, sc: Seq<(usize, usize, Vec2)>, i: int,
    j: int) -> (Seq<Body>, Seq<(usize, usize, Vec2)>) {
    if 0 <= i < bodies.len() && 0 <= j < bodies.len() && i != j && !is_static(bodies[i])
        && is_static(bodies[j]) {
        match narrow_phase_spec(bodies[i], bodies[j]) {
            Some(c) => (
                bodies.update(i, constrain_single(bodies[i], c.normal, c.penetration)),
                sc.push((i as usize, j as usize, c.normal)),
            ),
            None => (bodies, sc),
        }
    } else {
        (bodies, sc)
    }
}

/// Body `i` against the first `j` candidate partners.
pub open spec fn solve_static_row(bodies: Seq<Body>, sc: Seq<(usize, usize, Vec2)>, i: int,
    j: int) -> (Seq<Body>, Seq<(usize, usize, Vec2)>)
    decreases j,
{
    if j <= 0 {
        (bodies, sc)
    } else {
        let prev = solve_static_row(bodies, sc, i, j - 1);
        solve_static_step(prev.0, prev.1, i, j - 1)
    }
}

/// The first `i` dynamic bodies, each against every static body.
pub open spec fn solve_statics_upto(bodies: Seq<Body>, sc: Seq<(usize, usize, Vec2)>, i: int)
    -> (Seq<Body>, Seq<(usize, usize, Vec2)>)
    decreases i,
{
    if i <= 0 {
        (bodies, sc)
    } else {
        let prev = solve_statics_upto(bodies, sc, i - 1);
        solve_static_row(prev.0, prev.1, i - 1, prev.0.len() as int)
    }
}

/// Projects every dynamic body out of every static body it penetrates,
/// iterating dynamics against statics directly, and records each resolved
/// contact for the velocity solver.
#[verifier::loop_isolation(false)]
#[verifier::rlimit(100)]
pub fn solve_pos_statics(bodies: &mut Vec<Body>, contacts: &mut StaticContacts)
    ensures
        final(bodies)@ == solve_statics_upto(old(bodies)@, old(contacts).0@,
            old(bodies)@.len() as int).0,
        final(contacts).0@ == solve_statics_upto(old(bodies)@, old(contacts).0@,
            old(bodies)@.len() as int).1,
        final(bodies)@.len() == old(bodies)@.len(),
        forall|i: int|
            0 <= i < old(bodies)@.len() && is_static(old(bodies)@[i]) ==> final(bodies)@[i]
                == old(bodies)@[i],
{
    let n = bodies.len();
    for i in 0..n
        invariant
            bodies@ == solve_statics_upto(old(bodies)@, old(contacts).0@, i as int).0,
            contacts.0@ == solve_statics_upto(old(bodies)@, old(contacts).0@, i as int).1,
            bodies@.len() == n,
            forall|w: int|
                0 <= w < n && is_static(old(bodies)@[w]) ==> bodies@[w] == old(bodies)@[w],
    {
        for j in 0..n
            invariant
                bodies@ == solve_static_row(
                    solve_statics_upto(old(bodies)@, old(contacts).0@, i as int).0,
                    solve_statics_upto(old(bodies)@, old(contacts).0@, i as int).1,
                    i as int, j as int).0,
                contacts.0@ == solve_static_row(
                    solve_statics_upto(old(bodies)@, old(contacts).0@, i as int).0,
                    solve_statics_upto(old(bodies)@, old(contacts).0@, i as int).1,
                    i as int, j as int).1,
                bodies@.len() == n,
                forall|w: int|
                    0 <= w < n && is_static(old(bodies)@[w]) ==> bodies@[w] == old(bodies)@[w],
        {
            if i != j && bodies[i].inv_mass.raw != 0 && bodies[j].inv_mass.raw == 0 {
                let bi = bodies[i];
                let bj = bodies[j];
                match narrow_phase(&bi, &bj) {
                    Some(c) => {
                        bodies[i] = constrain_body_position(bi, c.normal, c.penetration);
                        contacts.0.push((i, j, c.normal));
                    },
                    None => {},
                }
            }
        }
    }
}


/// One recorded dynamic-dynamic contact through the velocity solver: the
/// relative normal velocity is replaced by the restitution target (the
/// clamped, restitution-scaled reflection of the pre-solve approach
/// velocity), the impulse split by inverse mass. A contact whose indices no
/// longer name two distinct dynamic bodies changes nothing.
pub open spec fn solve_vel_step(bodies: Seq<Body>, c: BodyContact) -> Seq<Body> {
    let a = c.entity_a as int;
    let b = c.entity_b as int;
    if 0 <= a < bodies.len() && 0 <= b < bodies.len() && a != b && !is_static(bodies[a])
        && !is_static(bodies[b]) {
        let ba = bodies[a];
        let bb = bodies[b];
        let nx = c.normal.x@;
        let ny = c.normal.y@;
        let pre_nv = dot_spec(fx_sub(ba.pre_solve_vel.0.x@, bb.pre_solve_vel.0.x@),
            fx_sub(ba.pre_solve_vel.0.y@, bb.pre_solve_vel.0.y@), nx, ny);
        let nv = dot_spec(fx_sub(ba.vel.0.x@, bb.vel.0.x@),
            fx_sub(ba.vel.0.y@, bb.vel.0.y@), nx, ny);
        let e = fx_mul(fx_add(ba.restitution.0@, bb.restitution.0@), FX_ONE as int / 2);
        let w_a = ba.inv_mass@;
        let w_b = bb.inv_mass@;
        let w_sum = fx_add(w_a, w_b);
        let rv = vstd::math::min(fx_mul(fx_neg(e), pre_nv), 0);
        let f = fx_div(fx_add(fx_neg(nv), rv), w_sum);
        let ix = fx_mul(nx, f);
        let iy = fx_mul(ny, f);
        bodies.update(a, Body {
            vel: Vel(v2s(fx_add(ba.vel.0.x@, fx_mul(ix, w_a)),
                fx_add(ba.vel.0.y@, fx_mul(iy, w_a)))),
            ..ba
        }).update(b, Body {
            vel: Vel(v2s(fx_sub(bb.vel.0.x@, fx_mul(ix, w_b)),
                fx_sub(bb.vel.0.y@, fx_mul(iy, w_b)))),
            ..bb
        })
    } else {
        bodies
    }
}

/// The first `k` recorded contacts through the velocity solver, in order.
pub open spec fn solve_vel_list(bodies: Seq<Body>, cs: Seq<BodyContact>, k: int) -> Seq<Body>
    decreases k,
{
    if k <= 0 {
        bodies
    } else {
        solve_vel_step(solve_vel_list(bodies, cs, k - 1), cs[k - 1])
    }
}

/// Applies restitution impulses along every contact recorded by the
/// position solver this substep.
#[verifier::loop_isolation(false)]
#[verifier::rlimit(100)]
pub fn solve_vel(bodies: &mut Vec<Body>, contacts: &Contacts)
    ensures
        final(bodies)@ == solve_vel_list(old(bodies)@, contacts.0@, contacts.0@.len() as int),
        final(bodies)@.len() == old(bodies)@.len(),
        forall|i: int|
            0 <= i < old(bodies)@.len() && is_static(old(bodies)@[i]) ==> final(bodies)@[i]
                == old(bodies)@[i],
{
    let half_unit = Fx::from_raw(FX_ONE / 2);
    let m = contacts.0.len();
    for k in 0..m
        invariant
            bodies@ == solve_vel_list(old(bodies)@, contacts.0@, k as int),
            bodies@.len() == old(bodies)@.len(),
            forall|i: int|
                0 <= i < old(bodies)@.len() && is_static(old(bodies)@[i]) ==> bodies@[i]
                    == old(bodies)@[i],
    {
        let c = contacts.0[k];
        let a = c.entity_a;
        let b = c.entity_b;
        if a < bodies.len() && b < bodies.len() && a != b && bodies[a].inv_mass.raw != 0
            && bodies[b].inv_mass.raw != 0 {
            let ba = bodies[a];
            let bb = bodies[b];
            let pre_nv = ba.pre_solve_vel.0.sub(bb.pre_solve_vel.0).dot(c.normal);
            let nv = ba.vel.0.sub(bb.vel.0).dot(c.normal);
            let e = ba.restitution.0.add(bb.restitution.0).mul(half_unit);
            let w_sum = ba.inv_mass.add(bb.inv_mass);
            let rv = e.neg().mul(pre_nv).min(Fx::zero());
            let impulse = c.normal.scale(nv.neg().add(rv).div(w_sum));
            bodies[a] = Body { vel: Vel(ba.vel.0.add(impulse.scale(ba.inv_mass))), ..ba };
            bodies[b] = Body { vel: Vel(bb.vel.0.sub(impulse.scale(bb.inv_mass))), ..bb };
        }
    }
}

/// One recorded dynamic-static contact through the velocity solver: the
/// dynamic body takes the full impulse, the static partner lending only its
/// restitution.
pub open spec fn solve_vel_static_step(bodies: Seq<Body>, c: (usize, usize, Vec2))
    -> Seq<Body> {
    let a = c.0 as int;
    let b = c.1 as int;
    if 0 <= a < bodies.len() && 0 <= b < bodies.len() && a != b && !is_static(bodies[a])
        && is_static(bodies[b]) {
        let ba = bodies[a];
        let bb = bodies[b];
        let nx = c.2.x@;
        let ny = c.2.y@;
        let pre_nv = dot_spec(ba.pre_solve_vel.0.x@, ba.pre_solve_vel.0.y@, nx, ny);
        let nv = dot_spec(ba.vel.0.x@, ba.vel.0.y@, nx, ny);
        let e = fx_mul(fx_add(ba.restitution.0@, bb.restitution.0@), FX_ONE as int / 2);
        let rv = vstd::math::min(fx_mul(fx_neg(e), pre_nv), 0);
        let f = fx_add(fx_neg(nv), rv);
        bodies.update(a, Body {
            vel: Vel(v2s(fx_add(ba.vel.0.x@, fx_mul(nx, f)),
                fx_add(ba.vel.0.y@, fx_mul(ny, f)))),
            ..ba
        })
    } else {
        bodies
    }
}

/// The first `k` recorded dynamic-static contacts through the velocity
/// solver, in order.
pub open spec fn solve_vel_statics_list(bodies: Seq<Body>, cs: Seq<(usize, usize, Vec2)>,
    k: int) -> Seq<Body>
    decreases k,
{
    if k <= 0 {
        bodies
    } else {
        solve_vel_static_step(solve_vel_statics_list(bodies, cs, k - 1), cs[k - 1])
    }
}

/// Applies restitution impulses along every dynamic-static contact recorded
/// this substep; only the dynamic body's velocity changes.
#[verifier::loop_isolation(false)]
#[verifier::rlimit(100)]
pub fn solve_vel_statics(bodies: &mut Vec<Body>, contacts: &StaticContacts)
    ensures
        final(bodies)@ == solve_vel_statics_list(old(bodies)@, contacts.0@,
            contacts.0@.len() as int),
        final(bodies)@.len() == old(bodies)@.len(),
        forall|i: int|
            0 <= i < old(bodies)@.len() && is_static(old(bodies)@[i]) ==> final(bodies)@[i]
                == old(bodies)@[i],
{
    let half_unit = Fx::from_raw(FX_ONE / 2);
    let m = contacts.0.len();
    for k in 0..m
        invariant
            bodies@ == solve_vel_statics_list(old(bodies)@, contacts.0@, k as int),
            bodies@.len() == old(bodies)@.len(),
            forall|i: int|
                0 <= i < old(bodies)@.len() && is_static(old(bodies)@[i]) ==> bodies@[i]
                    == old(bodies)@[i],
    {
        let c = contacts.0[k];
        let a = c.0;
        let b = c.1;
        let n = c.2;
        if a < bodies.len() && b < bodies.len() && a != b && bodies[a].inv_mass.raw != 0
            && bodies[b].inv_mass.raw == 0 {
            let ba = bodies[a];
            let bb = bodies[b];
            let pre_nv = ba.pre_solve_vel.0.dot(n);
            let nv = ba.vel.0.dot(n);
            let e = ba.restitution.0.add(bb.restitution.0).mul(half_unit);
            let rv = e.neg().mul(pre_nv).min(Fx::zero());
            bodies[a] = Body { vel: Vel(ba.vel.0.add(n.scale(nv.neg().add(rv)))), ..ba };
        }
    }
}

/// One candidate partner in the broad phase: the pair (i, j) is kept when
/// both bodies are dynamic and their cached bounding boxes overlap.
pub open spec fn collect_step(ps: Seq<(usize, usize)>, bodies: Seq<Body>, i: int, j: int)
    -> Seq<(usize, usize)> {
    if 0 <= i < bodies.len() && 0 <= j < bodies.len() && !is_static(bodies[i])
        && !is_static(bodies[j]) && aabb_overlap(bodies[i].aabb, bodies[j].aabb) {
        ps.push((i as usize, j as usize))
    } else {
        ps
    }
}

/// Candidates of body `i` among the bodies after it, up to `j`.
pub open spec fn collect_row(ps: Seq<(usize, usize)>, bodies: Seq<Body>, i: int, j: int)
    -> Seq<(usize, usize)>
    decreases j - i,
{
    if j <= i + 1 {
        ps
    } else {
        collect_step(collect_row(ps, bodies, i, j - 1), bodies, i, j - 1)
    }
}

/// All candidates among the first `i` bodies and their successors.
pub open spec fn collect_upto(ps: Seq<(usize, usize)>, bodies: Seq<Body>, i: int)
    -> Seq<(usize, usize)>
    decreases i,
{
    if i <= 0 {
        ps
    } else {
        collect_row(collect_upto(ps, bodies, i - 1), bodies, i - 1, bodies.len() as int)
    }
}

/// Rebuilds the candidate pair list: every ordered pair of distinct dynamic
/// bodies whose cached bounding boxes overlap, each unordered pair listed
/// once. Runs on the first substep of a frame only; the list is reused by
/// every substep of the frame.
#[verifier::loop_isolation(false)]
pub fn collect_collision_pairs(bodies: &Vec<Body>, pairs: &mut CollisionPairs)
    ensures
        final(pairs).0@ == collect_upto(Seq::empty(), bodies@, bodies@.len() as int),
{
    pairs.0.clear();
    let n = bodies.len();
    for i in 0..n
        invariant
            pairs.0@ == collect_upto(Seq::empty(), bodies@, i as int),
    {
        let ghost row_base = pairs.0@;
        for j in (i + 1)..n
            invariant
                i < n,
                pairs.0@ == collect_row(row_base, bodies@, i as int, j as int),
        {
            if bodies[i].inv_mass.raw != 0 && bodies[j].inv_mass.raw != 0
                && bodies[i].aabb.intersects(&bodies[j].aabb) {
                pairs.0.push((i, j));
            }
        }
    }
}

/// Copies every body's pose into the renderable transforms; the sync
/// boundary calls this once per frame, on the last substep.
#[verifier::loop_isolation(false)]
pub fn sync_transforms(bodies: &Vec<Body>, transforms: &mut Vec<Transform>)
    ensures
        final(transforms)@.len() == bodies@.len(),
        forall|i: int|
            0 <= i < bodies@.len() ==> final(transforms)@[i].translation == bodies@[i].pos.0
                && final(transforms)@[i].rotation == bodies@[i].rot,
{
    transforms.clear();
    let n = bodies.len();
    for i in 0..n
        invariant
            transforms@.len() == i,
            forall|j: int|
                0 <= j < i ==> transforms@[j].translation == bodies@[j].pos.0
                    && transforms@[j].rotation == bodies@[j].rot,
    {
        let b = bodies[i];
        transforms.push(Transform { translation: b.pos.0, rotation: b.rot });
    }
}



/// Every body through the gravity integrator.
pub open spec fn integrate_all(s: Seq<Body>, g: Gravity) -> Seq<Body> {
    Seq::new(s.len(), |i: int| integrate_body(s[i], g))
}

/// Every body through the angular integrator.
pub open spec fn integrate_rot_all(s: Seq<Body>) -> Seq<Body> {
    Seq::new(s.len(), |i: int| integrate_rot_body(s[i]))
}

/// Every body through velocity reconstruction.
pub open spec fn update_vel_all(s: Seq<Body>) -> Seq<Body> {
    Seq::new(s.len(), |i: int| update_vel_body(s[i]))
}

/// Every body through angular-velocity reconstruction.
pub open spec fn update_ang_vel_all(s: Seq<Body>) -> Seq<Body> {
    Seq::new(s.len(), |i: int| update_ang_vel_body(s[i]))
}

/// Every body through both bounding-box refreshes.
pub open spec fn refresh_aabbs_all(s: Seq<Body>) -> Seq<Body> {
    Seq::new(s.len(), |i: int| update_aabb_box_body(update_aabb_circle_body(s[i])))
}

/// The bodies after one whole substep: on the first substep of a frame the
/// bounding boxes are refreshed first; then gravity and angular integration,
/// the two position solvers over the frame's candidate pairs, velocity
/// reconstruction, and the two velocity solvers over the contacts the
/// position solvers just recorded, in exactly that order.
pub open spec fn substep_bodies(bodies: Seq<Body>, pairs: Seq<(usize, usize)>, g: Gravity,
    first: bool) -> Seq<Body> {
    let refreshed = if first { refresh_aabbs_all(bodies) } else { bodies };
    let due = if first {
        collect_upto(Seq::empty(), refreshed, refreshed.len() as int)
    } else {
        pairs
    };
    let moved = integrate_rot_all(integrate_all(refreshed, g));
    let pos_solved = solve_pos_pairs(moved, Seq::empty(), due, due.len() as int);
    let statics_solved = solve_statics_upto(pos_solved.0, Seq::empty(),
        pos_solved.0.len() as int);
    let reconstructed = update_ang_vel_all(update_vel_all(statics_solved.0));
    let vel_solved = solve_vel_list(reconstructed, pos_solved.1, pos_solved.1.len() as int);
    solve_vel_statics_list(vel_solved, statics_solved.1, statics_solved.1.len() as int)
}


/// Bodies and candidate pairs after the first `k` substeps of one frame's
/// sequence: the first substep refreshes the pair list, the later substeps
/// reuse it unchanged.
pub open spec fn sequence_state(bodies: Seq<Body>, pairs: Seq<(usize, usize)>, g: Gravity,
    k: int) -> (Seq<Body>, Seq<(usize, usize)>)
    decreases k,
{
    if k <= 0 {
        (bodies, pairs)
    } else {
        let prev = sequence_state(bodies, pairs, g, k - 1);
        (
            substep_bodies(prev.0, prev.1, g, k - 1 == 0),
            if k - 1 == 0 {
                collect_upto(Seq::empty(), refresh_aabbs_all(prev.0), prev.0.len() as int)
            } else {
                prev.1
            },
        )
    }
}

/// Bodies and candidate pairs after `m` whole substep sequences.
pub open spec fn sequences_state(bodies: Seq<Body>, pairs: Seq<(usize, usize)>, g: Gravity,
    m: int) -> (Seq<Body>, Seq<(usize, usize)>)
    decreases m,
{
    if m <= 0 {
        (bodies, pairs)
    } else {
        let prev = sequences_state(bodies, pairs, g, m - 1);
        sequence_state(prev.0, prev.1, g, crate::NUM_SUBSTEPS as int)
    }
}

/// The scheduler's mutable state: unconsumed time, the substep index of a
/// running sequence, the mid-sequence flag, the paused flag, and the queued
/// manual steps.
#[derive(Clone, Copy, Debug)]
pub struct LoopState {
    pub has_added_time: bool,
    pub accumulator: Fx,
    pub substepping: bool,
    pub current_substep: u32,
    pub queued_steps: u32,
    pub paused: bool,
}

impl LoopState {
    /// A fresh scheduler: running, with an empty accumulator.
    pub fn new() -> (r: LoopState)
        ensures
            r.accumulator@ == 0,
            r.paused == false,
            r.queued_steps == 0,
            r.substepping == false,
            r.current_substep == 0,
            r.has_added_time == false,
    {
        LoopState {
            has_added_time: false,
            accumulator: Fx::zero(),
            substepping: false,
            current_substep: 0,
            queued_steps: 0,
            paused: false,
        }
    }

    /// Queues one manual substep sequence, honored by the next tick even
    /// while paused.
    pub fn step(&mut self)
        ensures
            final(self).queued_steps as int == vstd::math::min(
                old(self).queued_steps as int + 1, u32::MAX as int),
            final(self).paused == old(self).paused,
            final(self).accumulator == old(self).accumulator,
            final(self).queued_steps >= 1,
            final(self).substepping == old(self).substepping,
            final(self).current_substep == old(self).current_substep,
            final(self).has_added_time == old(self).has_added_time,
    {
        if self.queued_steps < u32::MAX {
            self.queued_steps = self.queued_steps + 1;
        }
    }

    /// Pauses the scheduler: ticks stop consuming time and running substeps.
    pub fn pause(&mut self)
        ensures
            *final(self) == (LoopState { paused: true, ..*old(self) }),
    {
        self.paused = true;
    }

    /// Resumes the scheduler.
    pub fn resume(&mut self)
        ensures
            *final(self) == (LoopState { paused: false, ..*old(self) }),
    {
        self.paused = false;
    }
}

/// Adds substeps to the session counter, holding at the top of the range.
fn saturating_count(count: u64, add: u32) -> (r: u64)
    ensures
        r as int == vstd::math::min(count as int + add as int, u64::MAX as int),
{
    if count > u64::MAX - add as u64 {
        u64::MAX
    } else {
        count + add as u64
    }
}

/// The simulation world: the dense body store, the engine-owned lists, the
/// scheduler state, the renderable transforms written once per frame, and a
/// running count of executed substeps.
#[derive(Debug)]
pub struct World {
    pub bodies: Vec<Body>,
    pub gravity: Gravity,
    pub collision_pairs: CollisionPairs,
    pub contacts: Contacts,
    pub static_contacts: StaticContacts,
    pub loop_state: LoopState,
    pub transforms: Vec<Transform>,
    pub substep_count: u64,
}

impl World {
    /// An empty world under default gravity.
    pub fn new() -> (r: World)
        ensures
            r.bodies@.len() == 0,
            r.loop_state.accumulator@ == 0,
            r.loop_state.paused == false,
            r.loop_state.queued_steps == 0,
            r.substep_count == 0,
            r.gravity.0.x@ == 0,
            r.gravity.0.y@ == -981 * FX_ONE as int / 100,
    {
        World {
            bodies: Vec::new(),
            gravity: Gravity::default(),
            collision_pairs: CollisionPairs(Vec::new()),
            contacts: Contacts(Vec::new()),
            static_contacts: StaticContacts(Vec::new()),
            loop_state: LoopState::new(),
            transforms: Vec::new(),
            substep_count: 0,
        }
    }

    /// Appends a body and returns its identifier: its index in the dense
    /// store.
    pub fn push_body(&mut self, body: Body) -> (idx: usize)
        ensures
            final(self).bodies@ == old(self).bodies@.push(body),
            idx as int == old(self).bodies@.len(),
            final(self).gravity == old(self).gravity,
            final(self).loop_state == old(self).loop_state,
            final(self).substep_count == old(self).substep_count,
    {
        let idx = self.bodies.len();
        self.bodies.push(body);
        idx
    }

    /// Pauses the scheduler.
    pub fn pause(&mut self)
        ensures
            final(self).loop_state.paused == true,
            final(self).loop_state.accumulator == old(self).loop_state.accumulator,
            final(self).loop_state.queued_steps == old(self).loop_state.queued_steps,
            final(self).bodies == old(self).bodies,
            final(self).substep_count == old(self).substep_count,
    {
        self.loop_state.pause();
    }

    /// Resumes the scheduler.
    pub fn resume(&mut self)
        ensures
            final(self).loop_state.paused == false,
            final(self).loop_state.accumulator == old(self).loop_state.accumulator,
            final(self).loop_state.queued_steps == old(self).loop_state.queued_steps,
            final(self).bodies == old(self).bodies,
            final(self).substep_count == old(self).substep_count,
    {
        self.loop_state.resume();
    }

    /// Queues one manual substep sequence.
    pub fn step(&mut self)
        ensures
            final(self).loop_state.queued_steps as int == vstd::math::min(
                old(self).loop_state.queued_steps as int + 1, u32::MAX as int),
            final(self).loop_state.paused == old(self).loop_state.paused,
            final(self).loop_state.accumulator == old(self).loop_state.accumulator,
            final(self).bodies == old(self).bodies,
            final(self).substep_count == old(self).substep_count,
    {
        self.loop_state.step();
    }

    /// One substep of the pipeline, in the order the control flow fixes:
    /// (first substep only) refresh bounding boxes and candidate pairs;
    /// integrate linear and angular state; solve positions against dynamic
    /// pairs and against statics, recording contacts; reconstruct linear and
    /// angular velocities from the position deltas; solve velocities along
    /// the recorded contacts; (last substep only) write the renderable
    /// transforms.
    fn substep(&mut self, first: bool, last: bool)
        ensures
            final(self).bodies@ == substep_bodies(old(self).bodies@,
                old(self).collision_pairs.0@, old(self).gravity, first),
            final(self).bodies@.len() == old(self).bodies@.len(),
            forall|i: int|
                0 <= i < old(self).bodies@.len() && is_static(old(self).bodies@[i])
                    ==> final(self).bodies@[i] == old(self).bodies@[i],
            final(self).collision_pairs.0@ == (if first {
                collect_upto(Seq::empty(), refresh_aabbs_all(old(self).bodies@),
                    old(self).bodies@.len() as int)
            } else {
                old(self).collision_pairs.0@
            }),
            final(self).gravity == old(self).gravity,
            final(self).loop_state == old(self).loop_state,
            final(self).substep_count == old(self).substep_count,
            last ==> final(self).transforms@.len() == final(self).bodies@.len(),
            last ==> forall|i: int|
                0 <= i < final(self).bodies@.len()
                    ==> final(self).transforms@[i].translation
                        == final(self).bodies@[i].pos.0 && final(self).transforms@[i].rotation
                        == final(self).bodies@[i].rot,
            !last ==> final(self).transforms == old(self).transforms,
    {
        if first {
            update_aabb_circle(&mut self.bodies);
            update_aabb_box(&mut self.bodies);
            proof {
                assert(self.bodies@ =~= refresh_aabbs_all(old(self).bodies@));
            }
            collect_collision_pairs(&self.bodies, &mut self.collision_pairs);
        }
        let ghost refreshed = self.bodies@;
        let ghost due = self.collision_pairs.0@;
        integrate(&mut self.bodies, &self.gravity);
        proof {
            assert(self.bodies@ =~= integrate_all(refreshed, self.gravity));
        }
        integrate_rot(&mut self.bodies);
        proof {
            assert(self.bodies@ =~= integrate_rot_all(integrate_all(refreshed, self.gravity)));
        }
        self.contacts.0.clear();
        self.static_contacts.0.clear();
        proof {
            assert(self.contacts.0@ =~= Seq::<BodyContact>::empty());
            assert(self.static_contacts.0@ =~= Seq::<(usize, usize, Vec2)>::empty());
        }
        solve_pos(&mut self.bodies, &mut self.contacts, &self.collision_pairs);
        solve_pos_statics(&mut self.bodies, &mut self.static_contacts);
        let ghost statics_solved = self.bodies@;
        update_vel(&mut self.bodies);
        proof {
            assert(self.bodies@ =~= update_vel_all(statics_solved));
        }
        update_ang_vel(&mut self.bodies);
        proof {
            assert(self.bodies@ =~= update_ang_vel_all(update_vel_all(statics_solved)));
        }
        solve_vel(&mut self.bodies, &self.contacts);
        solve_vel_statics(&mut self.bodies, &self.static_contacts);
        if last {
            sync_transforms(&self.bodies, &mut self.transforms);
        }
    }

    /// Runs one full substep sequence: every substep executes the whole
    /// phase pipeline in order; the first substep refreshes bounding boxes
    /// and candidate pairs, and the last writes the renderable transforms.
    /// Static bodies come out exactly as they went in.
    #[verifier::loop_isolation(false)]
    pub fn run_substep_sequence(&mut self)
        ensures
            final(self).bodies@ == sequence_state(old(self).bodies@,
                old(self).collision_pairs.0@, old(self).gravity,
                crate::NUM_SUBSTEPS as int).0,
            final(self).collision_pairs.0@ == sequence_state(old(self).bodies@,
                old(self).collision_pairs.0@, old(self).gravity,
                crate::NUM_SUBSTEPS as int).1,
            final(self).bodies@.len() == old(self).bodies@.len(),
            forall|i: int|
                0 <= i < old(self).bodies@.len() && is_static(old(self).bodies@[i])
                    ==> final(self).bodies@[i] == old(self).bodies@[i],
            final(self).substep_count as int == vstd::math::min(
                old(self).substep_count as int + crate::NUM_SUBSTEPS as int, u64::MAX as int),
            final(self).gravity == old(self).gravity,
            final(self).loop_state.paused == old(self).loop_state.paused,
            final(self).loop_state.accumulator == old(self).loop_state.accumulator,
            final(self).loop_state.queued_steps == old(self).loop_state.queued_steps,
            final(self).loop_state.has_added_time == old(self).loop_state.has_added_time,
            final(self).loop_state.substepping == false,
            final(self).loop_state.current_substep == 0,
    {
        self.loop_state.substepping = true;
        let n = crate::NUM_SUBSTEPS;
        for sub in 0..n
            invariant
                self.bodies@ == sequence_state(old(self).bodies@,
                    old(self).collision_pairs.0@, old(self).gravity, sub as int).0,
                self.collision_pairs.0@ == sequence_state(old(self).bodies@,
                    old(self).collision_pairs.0@, old(self).gravity, sub as int).1,
                self.bodies@.len() == old(self).bodies@.len(),
                forall|i: int|
                    0 <= i < old(self).bodies@.len() && is_static(old(self).bodies@[i])
                        ==> self.bodies@[i] == old(self).bodies@[i],
                self.substep_count as int == vstd::math::min(
                    old(self).substep_count as int + sub as int, u64::MAX as int),
                self.gravity == old(self).gravity,
                self.loop_state.paused == old(self).loop_state.paused,
                self.loop_state.accumulator == old(self).loop_state.accumulator,
                self.loop_state.queued_steps == old(self).loop_state.queued_steps,
                self.loop_state.has_added_time == old(self).loop_state.has_added_time,
        {
            self.loop_state.current_substep = sub;
            self.substep(sub == 0, sub == n - 1);
            self.substep_count = saturating_count(self.substep_count, 1);
        }
        self.loop_state.current_substep = 0;
        self.loop_state.substepping = false;
    }
}


/// Whole frames due once `elapsed` joins an accumulator holding `acc`.
pub open spec fn frames_due(acc: int, elapsed: int) -> int {
    (acc + elapsed) / (crate::DELTA_TIME as int)
}

/// What the accumulator retains after draining the frames due.
pub open spec fn drained_accumulator(acc: int, elapsed: int) -> int {
    (acc + elapsed) % (crate::DELTA_TIME as int)
}

impl World {
    /// One external tick: unless paused, the elapsed wall time joins the
    /// accumulator and one full substep sequence runs per whole frame
    /// accumulated; afterwards every queued manual sequence runs, paused or
    /// not. Static bodies come out exactly as they went in, and the substep
    /// counter advances by a sequence's worth of substeps per sequence run.
    #[verifier::loop_isolation(false)]
    #[verifier::rlimit(100)]
    pub fn tick(&mut self, elapsed: Fx)
        requires
            elapsed@ >= 0,
            old(self).loop_state.accumulator@ >= 0,
            old(self).loop_state.accumulator@ + elapsed@ <= i64::MAX as int,
        ensures
            final(self).bodies@.len() == old(self).bodies@.len(),
            forall|i: int|
                0 <= i < old(self).bodies@.len() && is_static(old(self).bodies@[i])
                    ==> final(self).bodies@[i] == old(self).bodies@[i],
            final(self).loop_state.queued_steps == 0,
            final(self).loop_state.paused == old(self).loop_state.paused,
            final(self).gravity == old(self).gravity,
            ({
                let sequences_run = (if old(self).loop_state.paused { 0int } else {
                    frames_due(old(self).loop_state.accumulator@, elapsed@)
                }) + old(self).loop_state.queued_steps as int;
                final(self).bodies@ == sequences_state(old(self).bodies@,
                    old(self).collision_pairs.0@, old(self).gravity, sequences_run).0
            }),
            !old(self).loop_state.paused ==> {
                &&& final(self).loop_state.accumulator@ == drained_accumulator(
                    old(self).loop_state.accumulator@, elapsed@)
                &&& final(self).substep_count as int == vstd::math::min(
                    old(self).substep_count as int + crate::NUM_SUBSTEPS as int * (frames_due(
                        old(self).loop_state.accumulator@, elapsed@)
                        + old(self).loop_state.queued_steps as int),
                    u64::MAX as int)
            },
            old(self).loop_state.paused ==> {
                &&& final(self).loop_state.accumulator == old(self).loop_state.accumulator
                &&& final(self).substep_count as int == vstd::math::min(
                    old(self).substep_count as int + crate::NUM_SUBSTEPS as int * (
                        old(self).loop_state.queued_steps as int),
                    u64::MAX as int)
            },
    {
        let frame = Fx::from_raw(crate::DELTA_TIME);
        if !self.loop_state.paused {
            self.loop_state.has_added_time = true;
            let a0 = self.loop_state.accumulator.add(elapsed);
            self.loop_state.accumulator = a0;
            let ghost start = a0@;
            let ghost mut drained: int = 0int;
            proof {
                assert(a0@ == old(self).loop_state.accumulator@ + elapsed@);
            }
            while self.loop_state.accumulator.raw >= crate::DELTA_TIME
                invariant
                    drained >= 0,
                    self.loop_state.accumulator@ == start - drained * (crate::DELTA_TIME as int),
                    self.loop_state.accumulator@ >= 0,
                    self.bodies@ == sequences_state(old(self).bodies@,
                        old(self).collision_pairs.0@, old(self).gravity, drained).0,
                    self.collision_pairs.0@ == sequences_state(old(self).bodies@,
                        old(self).collision_pairs.0@, old(self).gravity, drained).1,
                    self.bodies@.len() == old(self).bodies@.len(),
                    forall|i: int|
                        0 <= i < old(self).bodies@.len() && is_static(old(self).bodies@[i])
                            ==> self.bodies@[i] == old(self).bodies@[i],
                    self.substep_count as int == vstd::math::min(
                        old(self).substep_count as int
                            + crate::NUM_SUBSTEPS as int * drained, u64::MAX as int),
                    self.gravity == old(self).gravity,
                    self.loop_state.paused == old(self).loop_state.paused,
                    self.loop_state.queued_steps == old(self).loop_state.queued_steps,
                decreases self.loop_state.accumulator@,
            {
                let acc = self.loop_state.accumulator;
                self.run_substep_sequence();
                self.loop_state.accumulator = acc.sub(frame);
                proof {
                    drained = drained + 1;
                    assert((drained - 1 + 1) * (crate::DELTA_TIME as int)
                        == (drained - 1) * (crate::DELTA_TIME as int)
                        + crate::DELTA_TIME as int) by (nonlinear_arith);
                }
            }
            proof {
                vstd::arithmetic::div_mod::lemma_fundamental_div_mod_converse(
                    start, crate::DELTA_TIME as int, drained,
                    self.loop_state.accumulator@);
            }
            self.loop_state.has_added_time = false;
        }
        while self.loop_state.queued_steps > 0
            invariant
                ({
                    let done = (if old(self).loop_state.paused { 0int } else {
                        frames_due(old(self).loop_state.accumulator@, elapsed@)
                    }) + old(self).loop_state.queued_steps as int
                        - self.loop_state.queued_steps as int;
                    self.bodies@ == sequences_state(old(self).bodies@,
                        old(self).collision_pairs.0@, old(self).gravity, done).0
                        && self.collision_pairs.0@ == sequences_state(old(self).bodies@,
                        old(self).collision_pairs.0@, old(self).gravity, done).1
                }),
                self.bodies@.len() == old(self).bodies@.len(),
                forall|i: int|
                    0 <= i < old(self).bodies@.len() && is_static(old(self).bodies@[i])
                        ==> self.bodies@[i] == old(self).bodies@[i],
                self.substep_count as int == vstd::math::min(
                    old(self).substep_count as int + crate::NUM_SUBSTEPS as int * (
                        if old(self).loop_state.paused { 0int } else {
                            frames_due(old(self).loop_state.accumulator@, elapsed@)
                        } + (old(self).loop_state.queued_steps as int
                            - self.loop_state.queued_steps as int)),
                    u64::MAX as int),
                self.loop_state.queued_steps <= old(self).loop_state.queued_steps,
                self.gravity == old(self).gravity,
                self.loop_state.paused == old(self).loop_state.paused,
                old(self).loop_state.paused ==> self.loop_state.accumulator
                    == old(self).loop_state.accumulator,
                !old(self).loop_state.paused ==> self.loop_state.accumulator@
                    == drained_accumulator(old(self).loop_state.accumulator@, elapsed@),
            decreases self.loop_state.queued_steps,
        {
            self.loop_state.queued_steps = self.loop_state.queued_steps - 1;
            self.run_substep_sequence();
        }
    }
}

/// The scheduler's counting model for one tick: the elapsed time joins the
/// accumulator, a sequence of substeps runs per whole frame due, and the
/// remainder stays.
pub open spec fn tick_count_model(acc: int, count: int, elapsed: int) -> (int, int) {
    (
        drained_accumulator(acc, elapsed),
        count + crate::NUM_SUBSTEPS as int * frames_due(acc, elapsed),
    )
}

/// The counting model folded over the first `n` external ticks.
pub open spec fn run_ticks(acc: int, count: int, ticks: Seq<int>, n: int) -> (int, int)
    decreases n,
{
    if n <= 0 {
        (acc, count)
    } else {
        let prev = run_ticks(acc, count, ticks, n - 1);
        tick_count_model(prev.0, prev.1, ticks[n - 1])
    }
}

/// The total elapsed time of the first `n` ticks.
pub open spec fn total_elapsed(ticks: Seq<int>, n: int) -> int
    decreases n,
{
    if n <= 0 {
        0
    } else {
        total_elapsed(ticks, n - 1) + ticks[n - 1]
    }
}

/// Accumulator draining: over any sequence of external ticks with
/// nonnegative elapsed times summing to T, the scheduler, started empty,
/// executes exactly one sequence of substeps per whole frame of T, and the
/// accumulator retains exactly the remainder: the substep total is the
/// substeps-per-frame count times the number of whole frame durations in T.
pub proof fn lemma_accumulator_draining(ticks: Seq<int>, n: int)
    requires
        0 <= n <= ticks.len(),
        forall|i: int| 0 <= i < n ==> ticks[i] >= 0,
    ensures
        run_ticks(0, 0, ticks, n).0 == total_elapsed(ticks, n) % (crate::DELTA_TIME as int),
        run_ticks(0, 0, ticks, n).1 == crate::NUM_SUBSTEPS as int * (total_elapsed(ticks, n)
            / (crate::DELTA_TIME as int)),
    decreases n,
{
    let f = crate::DELTA_TIME as int;
    let num = crate::NUM_SUBSTEPS as int;
    if n > 0 {
        lemma_accumulator_draining(ticks, n - 1);
        let s = total_elapsed(ticks, n - 1);
        let e = ticks[n - 1];
        lemma_total_elapsed_nonneg(ticks, n - 1);
        vstd::arithmetic::div_mod::lemma_fundamental_div_mod(s, f);
        vstd::arithmetic::div_mod::lemma_remainder_upper(s, f);
        vstd::arithmetic::div_mod::lemma_remainder_lower(s, f);
        let a0 = s % f + e;
        vstd::arithmetic::div_mod::lemma_fundamental_div_mod(a0, f);
        vstd::arithmetic::div_mod::lemma_remainder_upper(a0, f);
        vstd::arithmetic::div_mod::lemma_remainder_lower(a0, f);
        let k = a0 / f;
        assert((s + e) == f * (s / f + k) + a0 % f) by (nonlinear_arith)
            requires
                s == f * (s / f) + s % f,
                a0 == s % f + e,
                a0 == f * k + a0 % f,
        ;
        vstd::arithmetic::div_mod::lemma_fundamental_div_mod_converse(
            s + e, f, s / f + k, a0 % f);
        assert(num * (s / f) + num * k == num * (s / f + k)) by (nonlinear_arith);
    }
}

/// The total elapsed time of nonnegative ticks is nonnegative.
proof fn lemma_total_elapsed_nonneg(ticks: Seq<int>, n: int)
    requires
        0 <= n <= ticks.len(),
        forall|i: int| 0 <= i < n ==> ticks[i] >= 0,
    ensures
        total_elapsed(ticks, n) >= 0,
    decreases n,
{
    if n > 0 {
        lemma_total_elapsed_nonneg(ticks, n - 1);
    }
}

/// Frame quantization: running whole frames of substeps keeps the substep
/// total within one frame's worth of substeps below the count of whole
/// substep durations in T, where the substep duration is the frame duration
/// split evenly.
pub proof fn lemma_substep_quantization(t: int)
    requires
        t >= 0,
    ensures
        crate::NUM_SUBSTEPS as int * (t / (crate::DELTA_TIME as int)) <= t
            / (crate::SUB_DT as int),
        t / (crate::SUB_DT as int) < crate::NUM_SUBSTEPS as int * (t
            / (crate::DELTA_TIME as int)) + crate::NUM_SUBSTEPS as int,
{
    let f = crate::DELTA_TIME as int;
    let d = crate::SUB_DT as int;
    let num = crate::NUM_SUBSTEPS as int;
    let q = t / f;
    let r = t % f;
    vstd::arithmetic::div_mod::lemma_fundamental_div_mod(t, f);
    vstd::arithmetic::div_mod::lemma_remainder_upper(t, f);
    vstd::arithmetic::div_mod::lemma_remainder_lower(t, f);
    assert(t == d * (num * q) + r) by (nonlinear_arith)
        requires
            t == f * q + r,
            f == num * d,
            f == crate::DELTA_TIME as int,
            d == crate::SUB_DT as int,
            num == crate::NUM_SUBSTEPS as int,
    ;
    vstd::arithmetic::div_mod::lemma_fundamental_div_mod(r, d);
    vstd::arithmetic::div_mod::lemma_remainder_upper(r, d);
    vstd::arithmetic::div_mod::lemma_remainder_lower(r, d);
    assert(t == d * (num * q + r / d) + r % d) by (nonlinear_arith)
        requires
            t == d * (num * q) + r,
            r == d * (r / d) + r % d,
    ;
    vstd::arithmetic::div_mod::lemma_fundamental_div_mod_converse(
        t, d, num * q + r / d, t % d);
    assert(r / d < num) by (nonlinear_arith)
        requires
            r < f,
            r >= 0,
            f == num * d,
            d > 0,
            num > 0,
            r == d * (r / d) + r % d,
            0 <= r % d < d,
    ;
}


/// The scalar core of the restitution bound. Along a unit axis, the
/// velocity solver replaces the relative normal velocity by the restitution
/// target, up to the truncation of one division by the inverse-mass sum and
/// two rescalings: the result stays within the restitution-scaled pre-solve
/// approach speed plus four millionths.
proof fn lemma_restitution_core(nv: int, pre: int, e: int, wa: int, wb: int)
    requires
        abs(nv) <= 2_000_000_000_000,
        abs(pre) <= 2_000_000_000_000,
        0 <= e <= FX_ONE as int,
        0 < wa <= FX_ONE as int,
        0 < wb <= FX_ONE as int,
    ensures
        ({
            let rv = vstd::math::min(fx_mul(fx_neg(e), pre), 0);
            let f = fx_div(fx_add(fx_neg(nv), rv), fx_add(wa, wb));
            abs(fx_add(nv, fx_add(fx_mul(f, wa), fx_mul(f, wb)))
                - vstd::math::min(fx_mul(fx_neg(e), pre), 0))
                <= 3
        }),
        abs(vstd::math::min(fx_mul(fx_neg(e), pre), 0)) <= tdiv(e * abs(pre), FX_ONE as int),
        abs(vstd::math::min(fx_mul(fx_neg(e), pre), 0)) <= 2_000_000_000_000,
{
    let one = FX_ONE as int;
    let b = 2_000_000_000_000int;

    // The restitution target: zero for separating pairs, the reflected
    // approach speed scaled by the restitution otherwise.
    crate::fxp::lemma_abs_mul(e, pre);
    lemma_tdiv_props(e * pre, one);
    lemma_tdiv_neg_left(e * pre, one);
    assert((-e) * pre == -(e * pre)) by (nonlinear_arith);
    assert(abs(e * pre) <= one * b) by (nonlinear_arith)
        requires
            abs(e * pre) == abs(e) * abs(pre),
            0 <= e <= one,
            abs(pre) <= b,
    ;
    assert(fx_mul(fx_neg(e), pre) == -tdiv(e * pre, one));
    let rv = vstd::math::min(fx_mul(fx_neg(e), pre), 0);
    assert(abs(rv) <= tdiv(e * abs(pre), one)) by {
        if pre >= 0 {
            assert(e * pre >= 0) by (nonlinear_arith)
                requires
                    e >= 0,
                    pre >= 0,
            ;
            assert(e * abs(pre) == e * pre) by (nonlinear_arith)
                requires
                    pre >= 0,
            ;
        } else {
            assert(e * pre <= 0) by (nonlinear_arith)
                requires
                    e >= 0,
                    pre < 0,
            ;
            assert(rv == 0);
            lemma_tdiv_props(e * abs(pre), one);
            assert(e * abs(pre) >= 0) by (nonlinear_arith)
                requires
                    e >= 0,
            ;
        }
    };
    assert(abs(rv) <= b) by {
        lemma_tdiv_props(e * abs(pre), one);
        assert(abs(e * abs(pre)) <= one * b) by (nonlinear_arith)
            requires
                abs(e * pre) == abs(e) * abs(pre),
                abs(e * pre) <= one * b,
        ;
        vstd::arithmetic::div_mod::lemma_div_is_ordered(abs(e * abs(pre)) as int, one * b, one);
        vstd::arithmetic::div_mod::lemma_div_multiples_vanish(b, one);
    };

    // The impulse divided among the two bodies.
    let wsum = wa + wb;
    assert(fx_add(wa, wb) == wsum);
    let g = fx_add(fx_neg(nv), rv);
    assert(g == rv - nv);
    let f = fx_div(g, wsum);
    assert(abs(g * one) <= 4 * b * one) by (nonlinear_arith)
        requires
            abs(g) <= 4 * b,
            one > 0,
            abs(g * one) == abs(g) * abs(one),
    ;
    crate::fxp::lemma_abs_mul(g, one);
    lemma_tdiv_props(g * one, wsum);
    let fraw = tdiv(g * one, wsum);
    assert(abs(fraw) <= abs(g * one)) by {
        vstd::arithmetic::div_mod::lemma_div_is_ordered_by_denominator(
            abs(g * one) as int, 1, wsum);
        vstd::arithmetic::div_mod::lemma_div_basics(abs(g * one) as int);
    };
    assert(f == fraw);

    // Rescaling the impulse by each inverse mass.
    crate::fxp::lemma_abs_mul(f, wa);
    crate::fxp::lemma_abs_mul(f, wb);
    lemma_tdiv_props(f * wa, one);
    lemma_tdiv_props(f * wb, one);
    let m1 = tdiv(f * wa, one);
    let m2 = tdiv(f * wb, one);
    assert(abs(f * wa) <= abs(f) * one && abs(f * wb) <= abs(f) * one) by (nonlinear_arith)
        requires
            abs(f * wa) == abs(f) * abs(wa),
            abs(f * wb) == abs(f) * abs(wb),
            0 < wa <= one,
            0 < wb <= one,
    ;
    assert(abs(m1) * one <= abs(f) * one && abs(m2) * one <= abs(f) * one) by (nonlinear_arith)
        requires
            abs(m1) == abs(f * wa) as int / one,
            abs(m2) == abs(f * wb) as int / one,
            abs(f * wa) <= abs(f) * one,
            abs(f * wb) <= abs(f) * one,
            one > 0,
            abs(m1) * one - abs(f * wa) < one,
            abs(m1) * one <= abs(f * wa),
            abs(m2) * one <= abs(f * wb),
    ;
    assert(fx_mul(f, wa) == m1 && fx_mul(f, wb) == m2);

    // Gather the three truncation errors at the unit scale.
    let r1 = g * one - fraw * wsum;
    let r2 = f * wa - m1 * one;
    let r3 = f * wb - m2 * one;
    assert(abs(r1) < wsum);
    assert(abs(r2) < one && abs(r3) < one);
    assert((m1 + m2) * one == g * one - r1 - r2 - r3) by (nonlinear_arith)
        requires
            m1 * one == f * wa - r2,
            m2 * one == f * wb - r3,
            fraw * wsum == g * one - r1,
            f == fraw,
            wsum == wa + wb,
    ;
    assert(abs((m1 + m2) - g) <= 3) by (nonlinear_arith)
        requires
            (m1 + m2) * one == g * one - r1 - r2 - r3,
            abs(r1) < wsum,
            wsum <= 2 * one,
            abs(r2) < one,
            abs(r3) < one,
            one == 1_000_000,
    ;
    assert(fx_add(nv, fx_add(m1, m2)) == nv + m1 + m2) by {
        assert(abs(m1) <= abs(f) && abs(m2) <= abs(f)) by (nonlinear_arith)
            requires
                abs(m1) * one <= abs(f) * one,
                abs(m2) * one <= abs(f) * one,
                one > 0,
        ;
        vstd::arithmetic::div_mod::lemma_fundamental_div_mod(abs(g * one) as int, wsum);
        vstd::arithmetic::div_mod::lemma_remainder_lower(abs(g * one) as int, wsum);
        assert(abs(fraw) * wsum <= abs(g * one)) by (nonlinear_arith)
            requires
                abs(fraw) == abs(g * one) as int / wsum,
                abs(g * one) as int == wsum * (abs(g * one) as int / wsum)
                    + abs(g * one) as int % wsum,
                0 <= abs(g * one) as int % wsum,
        ;
        assert(abs(fraw) * 2 <= abs(fraw) * wsum) by (nonlinear_arith)
            requires
                wsum >= 2,
                abs(fraw) >= 0,
        ;
    };
    assert(nv + m1 + m2 == rv + ((m1 + m2) - g));
}


/// Multiplying by a whole unit with a sign scales by that sign exactly.
proof fn lemma_fx_mul_unit(a: int, u: int)
    requires
        abs(a) <= i64::MAX as int,
        u == FX_ONE as int || u == -(FX_ONE as int),
    ensures
        u == FX_ONE as int ==> fx_mul(a, u) == a && fx_mul(u, a) == a,
        u == -(FX_ONE as int) ==> fx_mul(a, u) == -a && fx_mul(u, a) == -a,
{
    crate::fxp::lemma_fx_mul_one(a);
    if u == -(FX_ONE as int) {
        let one = FX_ONE as int;
        assert(a * (-one) == -(a * one) && (-one) * a == -(a * one)) by (nonlinear_arith);
        lemma_tdiv_neg_left(a * one, one);
    }
}

/// Negating one factor negates the rescaled product, saturation permitting.
proof fn lemma_fx_mul_neg_left(a: int, b: int)
    requires
        abs(a) <= i64::MAX as int,
        abs(a * b) <= i64::MAX as int * (FX_ONE as int),
    ensures
        fx_mul(-a, b) == -fx_mul(a, b),
{
    let one = FX_ONE as int;
    assert((-a) * b == -(a * b)) by (nonlinear_arith);
    lemma_tdiv_neg_left(a * b, one);
    lemma_tdiv_props(a * b, one);
    vstd::arithmetic::div_mod::lemma_div_is_ordered(abs(a * b) as int,
        i64::MAX as int * one, one);
    vstd::arithmetic::div_mod::lemma_div_multiples_vanish(i64::MAX as int, one);
    assert(one * i64::MAX as int == i64::MAX as int * one) by (nonlinear_arith);
}

/// The averaged restitution of two coefficients in the unit range stays in
/// the unit range.
proof fn lemma_restitution_range(ra: int, rb: int)
    requires
        0 <= ra <= FX_ONE as int,
        0 <= rb <= FX_ONE as int,
    ensures
        0 <= fx_mul(fx_add(ra, rb), FX_ONE as int / 2) <= FX_ONE as int,
{
    let one = FX_ONE as int;
    let half = one / 2;
    let s = ra + rb;
    assert(s * half >= 0 && s * half <= one * one) by (nonlinear_arith)
        requires
            0 <= s <= 2 * one,
            half == one / 2,
            one == 1_000_000,
    ;
    lemma_tdiv_props(s * half, one);
    crate::fxp::lemma_abs_mul(s, half);
    vstd::arithmetic::div_mod::lemma_div_is_ordered(abs(s * half) as int, one * one, one);
    vstd::arithmetic::div_mod::lemma_div_multiples_vanish(one, one);
}

/// Restitution bound: along an axis-aligned unit normal, one velocity-solver
/// step leaves the pair's relative normal velocity within the
/// restitution-scaled magnitude of the pre-solve approach velocity, plus
/// three millionths of truncation; impact response never adds energy beyond
/// that allowance. Holds for dynamic pairs whose inverse masses and
/// restitutions lie in the unit range and whose velocities are within a
/// million units.
#[verifier::rlimit(100)]
pub proof fn lemma_restitution_bound(bodies: Seq<Body>, c: BodyContact)
    requires
        0 <= c.entity_a < bodies.len(),
        0 <= c.entity_b < bodies.len(),
        c.entity_a != c.entity_b,
        0 < bodies[c.entity_a as int].inv_mass@ <= FX_ONE as int,
        0 < bodies[c.entity_b as int].inv_mass@ <= FX_ONE as int,
        0 <= bodies[c.entity_a as int].restitution.0@ <= FX_ONE as int,
        0 <= bodies[c.entity_b as int].restitution.0@ <= FX_ONE as int,
        abs(bodies[c.entity_a as int].vel.0.x@) <= 1_000_000_000_000,
        abs(bodies[c.entity_a as int].vel.0.y@) <= 1_000_000_000_000,
        abs(bodies[c.entity_b as int].vel.0.x@) <= 1_000_000_000_000,
        abs(bodies[c.entity_b as int].vel.0.y@) <= 1_000_000_000_000,
        abs(bodies[c.entity_a as int].pre_solve_vel.0.x@) <= 1_000_000_000_000,
        abs(bodies[c.entity_a as int].pre_solve_vel.0.y@) <= 1_000_000_000_000,
        abs(bodies[c.entity_b as int].pre_solve_vel.0.x@) <= 1_000_000_000_000,
        abs(bodies[c.entity_b as int].pre_solve_vel.0.y@) <= 1_000_000_000_000,
        (abs(c.normal.x@) == FX_ONE as int && c.normal.y@ == 0) || (c.normal.x@ == 0 && abs(
            c.normal.y@) == FX_ONE as int),
    ensures
        ({
            let a = c.entity_a as int;
            let b = c.entity_b as int;
            let after = solve_vel_step(bodies, c);
            let new_rel = dot_spec(fx_sub(after[a].vel.0.x@, after[b].vel.0.x@),
                fx_sub(after[a].vel.0.y@, after[b].vel.0.y@), c.normal.x@, c.normal.y@);
            let pre = dot_spec(fx_sub(bodies[a].pre_solve_vel.0.x@,
                bodies[b].pre_solve_vel.0.x@), fx_sub(bodies[a].pre_solve_vel.0.y@,
                bodies[b].pre_solve_vel.0.y@), c.normal.x@, c.normal.y@);
            let e = fx_mul(fx_add(bodies[a].restitution.0@, bodies[b].restitution.0@),
                FX_ONE as int / 2);
            abs(new_rel) <= tdiv(e * abs(pre), FX_ONE as int) + 3
        }),
{
    let one = FX_ONE as int;
    let bd = 1_000_000_000_000int;
    let a = c.entity_a as int;
    let b = c.entity_b as int;
    let ba = bodies[a];
    let bb = bodies[b];
    let nx = c.normal.x@;
    let ny = c.normal.y@;
    let wa = ba.inv_mass@;
    let wb = bb.inv_mass@;
    let e = fx_mul(fx_add(ba.restitution.0@, bb.restitution.0@), one / 2);
    lemma_restitution_range(ba.restitution.0@, bb.restitution.0@);

    // The spec quantities of the solver step.
    let pdx = fx_sub(ba.pre_solve_vel.0.x@, bb.pre_solve_vel.0.x@);
    let pdy = fx_sub(ba.pre_solve_vel.0.y@, bb.pre_solve_vel.0.y@);
    let vdx = fx_sub(ba.vel.0.x@, bb.vel.0.x@);
    let vdy = fx_sub(ba.vel.0.y@, bb.vel.0.y@);
    let pre = dot_spec(pdx, pdy, nx, ny);
    let nv = dot_spec(vdx, vdy, nx, ny);
    let rv = vstd::math::min(fx_mul(fx_neg(e), pre), 0);
    let wsum = fx_add(wa, wb);
    let f = fx_div(fx_add(fx_neg(nv), rv), wsum);
    let ix = fx_mul(nx, f);
    let iy = fx_mul(ny, f);
    let after = solve_vel_step(bodies, c);

    // The impulse scalar is bounded: the dividend is, and the divisor is at
    // least two.
    lemma_fx_mul_unit(pdx, if ny == 0 { nx } else { one });
    lemma_fx_mul_unit(pdy, if ny == 0 { one } else { ny });
    lemma_fx_mul_unit(vdx, if ny == 0 { nx } else { one });
    lemma_fx_mul_unit(vdy, if ny == 0 { one } else { ny });
    crate::fxp::lemma_fx_mul_zero(pdx);
    crate::fxp::lemma_fx_mul_zero(pdy);
    crate::fxp::lemma_fx_mul_zero(vdx);
    crate::fxp::lemma_fx_mul_zero(vdy);
    crate::fxp::lemma_fx_mul_zero(f);
    assert(abs(pre) <= 2 * bd && abs(nv) <= 2 * bd);
    lemma_restitution_core(nv, pre, e, wa, wb);

    // The impulse scalar and its per-body shares, bounded as in the core.
    let g = fx_add(fx_neg(nv), rv);
    assert(abs(g) <= 8 * bd);
    crate::fxp::lemma_abs_mul(g, one);
    lemma_tdiv_props(g * one, wsum);
    vstd::arithmetic::div_mod::lemma_div_is_ordered_by_denominator(abs(g * one) as int, 1,
        wsum);
    vstd::arithmetic::div_mod::lemma_div_basics(abs(g * one) as int);
    assert(abs(g * one) <= 8 * bd * one) by (nonlinear_arith)
        requires
            abs(g * one) == abs(g) * abs(one),
            abs(g) <= 8 * bd,
            one == 1_000_000,
    ;
    assert(abs(f) <= 8 * bd * one);
    crate::fxp::lemma_abs_mul(f, wa);
    crate::fxp::lemma_abs_mul(f, wb);
    lemma_tdiv_props(f * wa, one);
    lemma_tdiv_props(f * wb, one);
    let m1 = fx_mul(f, wa);
    let m2 = fx_mul(f, wb);
    assert(abs(f * wa) <= 8 * bd * one * one && abs(f * wb) <= 8 * bd * one * one)
        by (nonlinear_arith)
        requires
            abs(f * wa) == abs(f) * abs(wa),
            abs(f * wb) == abs(f) * abs(wb),
            abs(f) <= 8 * bd * one,
            0 < wa <= one,
            0 < wb <= one,
    ;
    assert(abs(tdiv(f * wa, one)) <= 8 * bd * one && abs(tdiv(f * wb, one)) <= 8 * bd * one)
        by (nonlinear_arith)
        requires
            abs(tdiv(f * wa, one)) == abs(f * wa) as int / one,
            abs(tdiv(f * wb, one)) == abs(f * wb) as int / one,
            abs(f * wa) <= 8 * bd * one * one,
            abs(f * wb) <= 8 * bd * one * one,
            one == 1_000_000,
            abs(tdiv(f * wa, one)) * one <= abs(f * wa),
            abs(tdiv(f * wb, one)) * one <= abs(f * wb),
            abs(tdiv(f * wa, one) * one - f * wa) < one,
            abs(tdiv(f * wb, one) * one - f * wb) < one,
    ;
    assert(m1 == tdiv(f * wa, one) && m2 == tdiv(f * wb, one));

    // Reduce the axis-aligned impulse and the new relative velocity to the
    // scalar core.
    crate::fxp::lemma_abs_mul(f, one);
    assert(abs(f * one) <= i64::MAX as int * one) by (nonlinear_arith)
        requires
            abs(f) <= 8 * bd * one,
            one == 1_000_000,
            bd == 1_000_000_000_000,
            abs(f * one) == abs(f) * abs(one),
            i64::MAX as int >= 0x7000000000000000,
    ;
    lemma_fx_mul_unit(f, if ny == 0 { nx } else { ny });
    lemma_fx_mul_neg_left(f, wa);
    lemma_fx_mul_neg_left(f, wb);
    if ny == 0 {
        assert(iy == 0);
        if nx == one {
            assert(ix == f);
        } else {
            assert(ix == -f);
        }
    } else {
        assert(ix == 0);
        if ny == one {
            assert(iy == f);
        } else {
            assert(iy == -f);
        }
    }
    let navx = fx_sub(after[a].vel.0.x@, after[b].vel.0.x@);
    let navy = fx_sub(after[a].vel.0.y@, after[b].vel.0.y@);
    lemma_fx_mul_unit(navx, if ny == 0 { nx } else { one });
    lemma_fx_mul_unit(navy, if ny == 0 { one } else { ny });
    crate::fxp::lemma_fx_mul_zero(navx);
    crate::fxp::lemma_fx_mul_zero(navy);
    assert(dot_spec(navx, navy, nx, ny) == fx_add(nv, fx_add(m1, m2)));
}


/// The pair (i, j) is a broad-phase candidate: two distinct dynamic bodies,
/// listed in index order, whose cached bounding boxes overlap.
pub open spec fn candidate_pair(bodies: Seq<Body>, p: (usize, usize)) -> bool {
    &&& (p.0 as int) < (p.1 as int) < bodies.len()
    &&& !is_static(bodies[p.0 as int])
    &&& !is_static(bodies[p.1 as int])
    &&& aabb_overlap(bodies[p.0 as int].aabb, bodies[p.1 as int].aabb)
}

/// One broad-phase step keeps every pair already listed.
proof fn lemma_collect_step_monotone(ps: Seq<(usize, usize)>, bodies: Seq<Body>, i: int,
    j: int, p: (usize, usize))
    requires
        ps.contains(p),
    ensures
        collect_step(ps, bodies, i, j).contains(p),
{
    let out = collect_step(ps, bodies, i, j);
    let k = choose|k: int| 0 <= k < ps.len() && ps[k] == p;
    assert(out[k] == p);
}

/// One row of the broad phase keeps every pair already listed.
proof fn lemma_collect_row_monotone(ps: Seq<(usize, usize)>, bodies: Seq<Body>, i: int,
    j: int, p: (usize, usize))
    requires
        ps.contains(p),
    ensures
        collect_row(ps, bodies, i, j).contains(p),
    decreases j - i,
{
    if j > i + 1 {
        lemma_collect_row_monotone(ps, bodies, i, j - 1, p);
        lemma_collect_step_monotone(collect_row(ps, bodies, i, j - 1), bodies, i, j - 1, p);
    }
}

/// A row lists every candidate partner of its body within its range.
#[verifier::rlimit(50)]
proof fn lemma_collect_row_complete(ps: Seq<(usize, usize)>, bodies: Seq<Body>, i: usize,
    j: int, jc: usize)
    requires
        i as int + 1 <= jc as int,
        (jc as int) < j,
        candidate_pair(bodies, (i, jc)),
    ensures
        collect_row(ps, bodies, i as int, j).contains((i, jc)),
    decreases j - i as int,
{
    let prev = collect_row(ps, bodies, i as int, j - 1);
    if jc as int == j - 1 {
        let out = collect_step(prev, bodies, i as int, j - 1);
        assert(out == prev.push((i, jc)));
        assert(out[out.len() - 1] == (i, jc));
        assert(collect_row(ps, bodies, i as int, j) == out);
    } else {
        lemma_collect_row_complete(ps, bodies, i, j - 1, jc);
        lemma_collect_step_monotone(prev, bodies, i as int, j - 1, (i, jc));
    }
}

/// The fold up to `m` lists every candidate pair whose first body lies
/// below `m`.
#[verifier::rlimit(50)]
proof fn lemma_collect_upto_contains_from(ps: Seq<(usize, usize)>, bodies: Seq<Body>, m: int,
    i: usize, j: usize)
    requires
        (i as int) < m,
        candidate_pair(bodies, (i, j)),
    ensures
        collect_upto(ps, bodies, m).contains((i, j)),
    decreases m,
{
    let prev = collect_upto(ps, bodies, m - 1);
    if i as int == m - 1 {
        lemma_collect_row_complete(prev, bodies, i, bodies.len() as int, j);
    } else {
        lemma_collect_upto_contains_from(ps, bodies, m - 1, i, j);
        lemma_collect_row_monotone(prev, bodies, m - 1, bodies.len() as int, (i, j));
    }
}

/// Broad-phase completeness: the emitted list holds every candidate pair —
/// every ordered pair of distinct dynamic bodies whose cached bounding
/// boxes overlap.
pub proof fn lemma_collect_complete(bodies: Seq<Body>, i: usize, j: usize)
    requires
        candidate_pair(bodies, (i, j)),
        bodies.len() <= usize::MAX,
    ensures
        collect_upto(Seq::empty(), bodies, bodies.len() as int).contains((i, j)),
{
    lemma_collect_upto_contains_from(Seq::empty(), bodies, bodies.len() as int, i, j);
}

/// Every pair a row adds within its range is a candidate of its body.
#[verifier::rlimit(100)]
#[verifier::spinoff_prover]
proof fn lemma_collect_row_sound(ps: Seq<(usize, usize)>, bodies: Seq<Body>, i: int, j: int,
    p: (usize, usize))
    requires
        collect_row(ps, bodies, i, j).contains(p),
        !ps.contains(p),
        0 <= i,
        bodies.len() <= usize::MAX,
    ensures
        candidate_pair(bodies, p),
        p.0 as int == i,
        i < p.1 as int && (p.1 as int) < j,
    decreases j - i,
{
    if j <= i + 1 {
        assert(collect_row(ps, bodies, i, j) == ps);
        assert(false);
    } else {
        let prev = collect_row(ps, bodies, i, j - 1);
        let out = collect_step(prev, bodies, i, j - 1);
        assert(collect_row(ps, bodies, i, j) == out);
        if prev.contains(p) {
            lemma_collect_row_sound(ps, bodies, i, j - 1, p);
        } else {
            if out == prev {
                let k = choose|k: int| 0 <= k < out.len() && out[k] == p;
                assert(prev[k] == p);
                assert(false);
            }
            assert(out == prev.push((i as usize, (j - 1) as usize)));
            let k = choose|k: int| 0 <= k < out.len() && out[k] == p;
            if k < prev.len() {
                assert(prev[k] == p);
                assert(false);
            }
            assert(p == (i as usize, (j - 1) as usize));
            assert(0 <= i < bodies.len() && 0 <= j - 1 < bodies.len()
                && !is_static(bodies[i]) && !is_static(bodies[j - 1])
                && aabb_overlap(bodies[i].aabb, bodies[j - 1].aabb));
        }
    }
}

/// Every pair the fold lists, beyond those given to it, is a candidate
/// pair.
#[verifier::rlimit(100)]
#[verifier::spinoff_prover]
proof fn lemma_collect_upto_sound(ps: Seq<(usize, usize)>, bodies: Seq<Body>, m: int,
    p: (usize, usize))
    requires
        collect_upto(ps, bodies, m).contains(p),
        !ps.contains(p),
        bodies.len() <= usize::MAX,
    ensures
        candidate_pair(bodies, p),
    decreases m,
{
    if m <= 0 {
        assert(collect_upto(ps, bodies, m) == ps);
        assert(false);
    } else {
        let prev = collect_upto(ps, bodies, m - 1);
        if prev.contains(p) {
            lemma_collect_upto_sound(ps, bodies, m - 1, p);
        } else {
            lemma_collect_row_sound(prev, bodies, m - 1, bodies.len() as int, p);
        }
    }
}

/// Broad-phase soundness: everything the emitted list holds is a candidate
/// pair.
pub proof fn lemma_collect_sound(bodies: Seq<Body>, p: (usize, usize))
    requires
        collect_upto(Seq::empty(), bodies, bodies.len() as int).contains(p),
        bodies.len() <= usize::MAX,
    ensures
        candidate_pair(bodies, p),
{
    lemma_collect_upto_sound(Seq::empty(), bodies, bodies.len() as int, p);
}

} // verus!
