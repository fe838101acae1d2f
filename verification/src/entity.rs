//! Bundles: ready-made component groups for the common body kinds, and their
//! conversion into the engine's body record.

use vstd::prelude::*;
use crate::fxp::{Fx, FX_ONE, fx_div, fx_mul, fx_neg, fx_sub};
use crate::vec2::Vec2;
use crate::rotation::{AngVel, PrevRot, Rot, rot_mul_cos, rot_mul_sin, small_rot_cos,
    small_rot_sin};
use crate::components::{Aabb, Body, BoxCollider, CircleCollider, Collider, Mass, Pos,
    PreSolveAngVel, PreSolveVel, PrevPos, Restitution, Vel};
use crate::SUB_DT;

verus! {

/// A dynamic circular body.
#[derive(Clone, Copy, Debug)]
pub struct ParticleBundle {
    pub pos: Pos,
    pub prev_pos: PrevPos,
    pub mass: Mass,
    pub collider: CircleCollider,
    pub vel: Vel,
    pub pre_solve_vel: PreSolveVel,
    pub restitution: Restitution,
    pub aabb: Aabb,
}

impl ParticleBundle {
    /// A defaulted particle at `pos` moving with `vel`: the previous
    /// position is back-projected by one substep so the first velocity
    /// reconstruction reproduces `vel`.
    pub fn new_with_pos_and_vel(pos: Vec2, vel: Vec2) -> (r: ParticleBundle)
        ensures
            r.pos.0 == pos,
            r.prev_pos.0.x@ == fx_sub(pos.x@, fx_mul(vel.x@, SUB_DT as int)),
            r.prev_pos.0.y@ == fx_sub(pos.y@, fx_mul(vel.y@, SUB_DT as int)),
            r.vel.0 == vel,
            r.mass.0@ == FX_ONE as int,
            r.collider.radius@ == FX_ONE as int / 2,
            r.restitution.0@ == 3 * FX_ONE as int / 10,
            r.pre_solve_vel.0.x@ == 0 && r.pre_solve_vel.0.y@ == 0,
    {
        ParticleBundle {
            pos: Pos(pos),
            prev_pos: PrevPos(pos.sub(vel.scale(Fx::from_raw(SUB_DT)))),
            mass: Mass::default(),
            collider: CircleCollider::default(),
            vel: Vel(vel),
            pre_solve_vel: PreSolveVel(Vec2::zero()),
            restitution: Restitution::default(),
            aabb: Aabb::zero(),
        }
    }
}

/// A dynamic rectangular body.
#[derive(Clone, Copy, Debug)]
pub struct DynamicBoxBundle {
    pub pos: Pos,
    pub rot: Rot,
    pub prev_pos: PrevPos,
    pub prev_rot: PrevRot,
    pub mass: Mass,
    pub collider: BoxCollider,
    pub vel: Vel,
    pub ang_vel: AngVel,
    pub pre_solve_vel: PreSolveVel,
    pub restitution: Restitution,
    pub aabb: Aabb,
}

impl DynamicBoxBundle {
    /// A defaulted dynamic box with full kinematic state: the previous
    /// orientation is back-rotated by one substep's worth of spin.
    pub fn new_with_pos_and_vel_and_rot_and_ang_vel(pos: Vec2, vel: Vec2, rot: Rot, ang_vel: Fx)
        -> (r: DynamicBoxBundle)
        ensures
            r.pos.0 == pos,
            r.prev_pos.0.x@ == fx_sub(pos.x@, fx_mul(vel.x@, SUB_DT as int)),
            r.prev_pos.0.y@ == fx_sub(pos.y@, fx_mul(vel.y@, SUB_DT as int)),
            r.vel.0 == vel,
            r.rot == rot,
            r.ang_vel.0 == ang_vel,
            ({
                let back = fx_neg(fx_mul(ang_vel@, SUB_DT as int));
                r.prev_rot.0.cos@ == rot_mul_cos(
                    rot.cos@, rot.sin@, small_rot_cos(back), small_rot_sin(back))
                && r.prev_rot.0.sin@ == rot_mul_sin(
                    rot.cos@, rot.sin@, small_rot_cos(back), small_rot_sin(back))
            }),
            r.mass.0@ == FX_ONE as int,
            r.collider.size.x@ == FX_ONE as int && r.collider.size.y@ == FX_ONE as int,
            r.restitution.0@ == 3 * FX_ONE as int / 10,
    {
        let particle = ParticleBundle::new_with_pos_and_vel(pos, vel);
        let back = Rot::from_small_angle(ang_vel.mul(Fx::from_raw(SUB_DT)).neg());
        DynamicBoxBundle {
            pos: particle.pos,
            rot,
            prev_pos: particle.prev_pos,
            prev_rot: PrevRot(rot.mul(back)),
            mass: particle.mass,
            collider: BoxCollider::default(),
            vel: particle.vel,
            ang_vel: AngVel(ang_vel),
            pre_solve_vel: particle.pre_solve_vel,
            restitution: particle.restitution,
            aabb: particle.aabb,
        }
    }
}

/// A static circular body.
#[derive(Clone, Copy, Debug)]
pub struct StaticCircleBundle {
    pub pos: Pos,
    pub rot: Rot,
    pub collider: CircleCollider,
    pub restitution: Restitution,
}

/// A static rectangular body.
#[derive(Clone, Copy, Debug)]
pub struct StaticBoxBundle {
    pub pos: Pos,
    pub rot: Rot,
    pub collider: BoxCollider,
    pub restitution: Restitution,
}

impl Body {
    /// The body record of a dynamic particle: the inverse mass is the
    /// reciprocal of the bundle's mass.
    pub fn from_particle(b: ParticleBundle) -> (r: Body)
        ensures
            r.pos == b.pos,
            r.prev_pos == b.prev_pos,
            r.vel == b.vel,
            r.pre_solve_vel == b.pre_solve_vel,
            r.restitution == b.restitution,
            r.aabb == b.aabb,
            r.collider == Collider::Circle(b.collider),
            r.inv_mass@ == fx_div(FX_ONE as int, b.mass.0@),
            r.rot.cos@ == FX_ONE as int && r.rot.sin@ == 0,
            r.ang_vel.0@ == 0,
    {
        Body {
            pos: b.pos,
            prev_pos: b.prev_pos,
            rot: Rot::identity(),
            prev_rot: PrevRot(Rot::identity()),
            vel: b.vel,
            pre_solve_vel: b.pre_solve_vel,
            ang_vel: AngVel(Fx::zero()),
            pre_solve_ang_vel: PreSolveAngVel(Fx::zero()),
            inv_mass: Fx::one().div(b.mass.0),
            inertia: crate::components::Inertia { inv: Fx::zero() },
            restitution: b.restitution,
            collider: Collider::Circle(b.collider),
            aabb: b.aabb,
        }
    }

    /// The body record of a dynamic box: the inverse rotational inertia
    /// follows from the collider and the inverse mass.
    pub fn from_dynamic_box(b: DynamicBoxBundle) -> (r: Body)
        ensures
            r.pos == b.pos,
            r.prev_pos == b.prev_pos,
            r.rot == b.rot,
            r.prev_rot == b.prev_rot,
            r.vel == b.vel,
            r.pre_solve_vel == b.pre_solve_vel,
            r.ang_vel == b.ang_vel,
            r.restitution == b.restitution,
            r.aabb == b.aabb,
            r.collider == Collider::Rect(b.collider),
            r.inv_mass@ == fx_div(FX_ONE as int, b.mass.0@),
    {
        let inv_mass = Fx::one().div(b.mass.0);
        Body {
            pos: b.pos,
            prev_pos: b.prev_pos,
            rot: b.rot,
            prev_rot: b.prev_rot,
            vel: b.vel,
            pre_solve_vel: b.pre_solve_vel,
            ang_vel: b.ang_vel,
            pre_solve_ang_vel: PreSolveAngVel(Fx::zero()),
            inv_mass,
            inertia: crate::components::Inertia {
                inv: b.collider.inertia_inv_from_mass_inv(inv_mass),
            },
            restitution: b.restitution,
            collider: Collider::Rect(b.collider),
            aabb: b.aabb,
        }
    }

    /// The body record of a static circle: inverse mass zero.
    pub fn from_static_circle(b: StaticCircleBundle) -> (r: Body)
        ensures
            r.pos == b.pos,
            r.rot == b.rot,
            r.restitution == b.restitution,
            r.collider == Collider::Circle(b.collider),
            r.inv_mass@ == 0,
            r.vel.0.x@ == 0 && r.vel.0.y@ == 0,
    {
        Body {
            pos: b.pos,
            prev_pos: PrevPos(b.pos.0),
            rot: b.rot,
            prev_rot: PrevRot(b.rot),
            vel: Vel(Vec2::zero()),
            pre_solve_vel: PreSolveVel(Vec2::zero()),
            ang_vel: AngVel(Fx::zero()),
            pre_solve_ang_vel: PreSolveAngVel(Fx::zero()),
            inv_mass: Fx::zero(),
            inertia: crate::components::Inertia { inv: Fx::zero() },
            restitution: b.restitution,
            collider: Collider::Circle(b.collider),
            aabb: Aabb::zero(),
        }
    }

    /// The body record of a static box: inverse mass zero.
    pub fn from_static_box(b: StaticBoxBundle) -> (r: Body)
        ensures
            r.pos == b.pos,
            r.rot == b.rot,
            r.restitution == b.restitution,
            r.collider == Collider::Rect(b.collider),
            r.inv_mass@ == 0,
            r.vel.0.x@ == 0 && r.vel.0.y@ == 0,
    {
        Body {
            pos: b.pos,
            prev_pos: PrevPos(b.pos.0),
            rot: b.rot,
            prev_rot: PrevRot(b.rot),
            vel: Vel(Vec2::zero()),
            pre_solve_vel: PreSolveVel(Vec2::zero()),
            ang_vel: AngVel(Fx::zero()),
            pre_solve_ang_vel: PreSolveAngVel(Fx::zero()),
            inv_mass: Fx::zero(),
            inertia: crate::components::Inertia { inv: Fx::zero() },
            restitution: b.restitution,
            collider: Collider::Rect(b.collider),
            aabb: Aabb::zero(),
        }
    }
}

} // verus!
