//! Per-body component data.
//!
//! Each physical quantity of a body lives in a small named wrapper, and a
//! [`Body`] gathers one of each into the record the solver phases work on.
//! A body with inverse mass zero is static: the solvers never mutate it.

use vstd::prelude::*;
use crate::fxp::{Fx, FX_ONE, fx_add, fx_div, fx_mul};
use crate::vec2::Vec2;
use crate::rotation::Rot;

verus! {

/// World-space position of a body's center.
#[derive(Clone, Copy, PartialEq, Eq, Structural, Debug)]
pub struct Pos(pub Vec2);

/// Position snapshotted at the start of the current substep, used to
/// reconstruct the velocity after positional correction.
#[derive(Clone, Copy, PartialEq, Eq, Structural, Debug)]
pub struct PrevPos(pub Vec2);

/// Angular velocity snapshotted right after integration, before any
/// positional correction of the current substep.
#[derive(Clone, Copy, PartialEq, Eq, Structural, Debug)]
pub struct PreSolveAngVel(pub Fx);

/// The mass of a dynamic body, in units of the default body mass.
#[derive(Clone, Copy, PartialEq, Eq, Structural, Debug)]
pub struct Mass(pub Fx);

impl Default for Mass {
    /// One unit of mass.
    fn default() -> (r: Mass)
        ensures
            r.0@ == FX_ONE as int,
    {
        Mass(Fx::one())
    }
}

/// A circular collider described by its radius.
#[derive(Clone, Copy, PartialEq, Eq, Structural, Debug)]
pub struct CircleCollider {
    pub radius: Fx,
}

impl Default for CircleCollider {
    /// A circle of radius one half.
    fn default() -> (r: CircleCollider)
        ensures
            r.radius@ == FX_ONE as int / 2,
    {
        CircleCollider { radius: Fx::from_raw(FX_ONE / 2) }
    }
}

/// A rectangular collider described by its full side lengths.
#[derive(Clone, Copy, PartialEq, Eq, Structural, Debug)]
pub struct BoxCollider {
    pub size: Vec2,
}

impl BoxCollider {
    /// Inverse rotational inertia of a uniform rectangle with the given
    /// inverse mass: twelve times the inverse mass over the squared diagonal.
    pub fn inertia_inv_from_mass_inv(&self, mass_inv: Fx) -> (r: Fx)
        ensures
            r@ == fx_div(
                fx_mul(12 * FX_ONE as int, mass_inv@),
                fx_add(
                    fx_mul(self.size.x@, self.size.x@),
                    fx_mul(self.size.y@, self.size.y@),
                ),
            ),
    {
        let twelve: Fx = Fx::from_raw(12 * FX_ONE);
        let diag2: Fx = self.size.x.mul(self.size.x).add(self.size.y.mul(self.size.y));
        twelve.mul(mass_inv).div(diag2)
    }
}

impl Default for BoxCollider {
    /// A unit square.
    fn default() -> (r: BoxCollider)
        ensures
            r.size.x@ == FX_ONE as int,
            r.size.y@ == FX_ONE as int,
    {
        BoxCollider { size: Vec2 { x: Fx::one(), y: Fx::one() } }
    }
}

/// Linear velocity.
#[derive(Clone, Copy, PartialEq, Eq, Structural, Debug)]
pub struct Vel(pub Vec2);

/// Linear velocity snapshotted right after integration, before any
/// positional correction of the current substep; restitution is computed
/// against it.
#[derive(Clone, Copy, PartialEq, Eq, Structural, Debug)]
pub struct PreSolveVel(pub Vec2);

/// Restitution coefficient: the fraction of closing velocity returned as
/// separating velocity after impact.
#[derive(Clone, Copy, PartialEq, Eq, Structural, Debug)]
pub struct Restitution(pub Fx);

impl Default for Restitution {
    /// Three tenths of the closing velocity are returned.
    fn default() -> (r: Restitution)
        ensures
            r.0@ == 3 * FX_ONE as int / 10,
    {
        Restitution(Fx::from_raw(3 * FX_ONE / 10))
    }
}

/// Cached axis-aligned bounding box of a body's collider.
#[derive(Clone, Copy, PartialEq, Eq, Structural, Debug)]
pub struct Aabb {
    pub min: Vec2,
    pub max: Vec2,
}

/// Two axis-aligned boxes overlap exactly when each one's maximum reaches
/// the other's minimum on both axes.
pub open spec fn aabb_overlap(a: Aabb, b: Aabb) -> bool {
    &&& a.max.x@ >= b.min.x@
    &&& a.max.y@ >= b.min.y@
    &&& a.min.x@ <= b.max.x@
    &&& a.min.y@ <= b.max.y@
}

impl Aabb {
    /// An empty box at the origin.
    pub fn zero() -> (r: Aabb)
        ensures
            r.min.x@ == 0,
            r.min.y@ == 0,
            r.max.x@ == 0,
            r.max.y@ == 0,
    {
        Aabb { min: Vec2::zero(), max: Vec2::zero() }
    }

    /// Tests bounding-box overlap.
    pub fn intersects(&self, other: &Aabb) -> (r: bool)
        ensures
            r == aabb_overlap(*self, *other),
    {
        self.max.x.raw >= other.min.x.raw
            && self.max.y.raw >= other.min.y.raw
            && self.min.x.raw <= other.max.x.raw
            && self.min.y.raw <= other.max.y.raw
    }
}

/// Inverse rotational inertia of a body.
#[derive(Clone, Copy, PartialEq, Eq, Structural, Debug)]
pub struct Inertia {
    pub inv: Fx,
}

/// The collider of a body: a circle or a rectangle.
#[derive(Clone, Copy, PartialEq, Eq, Structural, Debug)]
pub enum Collider {
    Circle(CircleCollider),
    Rect(BoxCollider),
}

/// The full per-body record the engine simulates.
#[derive(Clone, Copy, PartialEq, Eq, Structural, Debug)]
pub struct Body {
    pub pos: Pos,
    pub prev_pos: PrevPos,
    pub rot: Rot,
    pub prev_rot: crate::rotation::PrevRot,
    pub vel: Vel,
    pub pre_solve_vel: PreSolveVel,
    pub ang_vel: crate::rotation::AngVel,
    pub pre_solve_ang_vel: PreSolveAngVel,
    pub inv_mass: Fx,
    pub inertia: Inertia,
    pub restitution: Restitution,
    pub collider: Collider,
    pub aabb: Aabb,
}

/// A body with inverse mass zero is static; the solvers never mutate it.
pub open spec fn is_static(b: Body) -> bool {
    b.inv_mass@ == 0
}

/// A body with positive inverse mass is dynamic.
pub open spec fn is_dynamic(b: Body) -> bool {
    b.inv_mass@ > 0
}

} // verus!
