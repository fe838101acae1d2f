//! A 2D rigid-body physics engine built on extended position-based dynamics:
//! bodies are advanced under gravity in fixed substeps, overlaps between
//! circular and rectangular colliders are projected out positionally, and
//! impact response is applied as a restitution impulse derived from the
//! velocities recorded before the positional correction.
//!
//! All geometry and dynamics run on a deterministic fixed-point scalar, so
//! every routine carries an exact contract.

pub mod components;
pub mod contact;
pub mod entity;
pub mod fxp;
pub mod resources;
pub mod rotation;
pub mod vec2;
pub mod world;

pub use contact::{ball_ball, ball_box, box_box, Contact};
pub use components::{Aabb, Body, BoxCollider, CircleCollider, Collider, Inertia, Mass, Pos,
    PreSolveAngVel, PreSolveVel, PrevPos, Restitution, Vel};
pub use entity::{DynamicBoxBundle, ParticleBundle, StaticBoxBundle, StaticCircleBundle};
pub use fxp::Fx;
pub use fxp::FX_ONE;
pub use resources::{BodyContact, CollisionPairs, Contacts, Gravity, StaticContacts};
pub use rotation::{AngVel, PrevRot, Rot};
pub use vec2::Vec2;
pub use world::{collect_collision_pairs, constrain_body_position, constrain_body_positions,
    integrate, integrate_rot, narrow_phase, solve_pos, solve_pos_statics, solve_vel,
    solve_vel_statics, sync_transforms, update_aabb_box, update_aabb_circle, update_ang_vel,
    update_vel, LoopState, Transform, World, COLLISION_PAIR_VEL_MARGIN_FACTOR};

use vstd::prelude::*;

verus! {

/// The fixed frame duration, in millionths of a second: close to one
/// sixtieth of a second, chosen as an exact multiple of the substep
/// duration.
pub const DELTA_TIME: i64 = 16_670;

/// Substeps per frame.
pub const NUM_SUBSTEPS: u32 = 10;

/// The duration of one substep, in millionths of a second.
pub const SUB_DT: i64 = 1_667;

} // verus!
