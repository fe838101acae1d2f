//! Engine-owned shared state: contact lists, candidate pairs, gravity.

use vstd::prelude::*;
use crate::fxp::{Fx, FX_ONE};
use crate::vec2::Vec2;

verus! {

/// A resolved contact between two dynamic bodies, kept for the velocity
/// solver of the same substep. The normal points from the first body toward
/// the second; the optional offsets mirror those of the narrow phase.
#[derive(Clone, Copy, Debug)]
pub struct BodyContact {
    pub entity_a: usize,
    pub entity_b: usize,
    pub r_a: Option<Vec2>,
    pub r_b: Option<Vec2>,
    pub normal: Vec2,
}

/// The dynamic-dynamic contacts resolved in the current substep.
#[derive(Debug)]
pub struct Contacts(pub Vec<BodyContact>);

/// The dynamic-static contacts resolved in the current substep: dynamic body,
/// static body, and the normal pointing from the dynamic body toward the
/// static one.
#[derive(Debug)]
pub struct StaticContacts(pub Vec<(usize, usize, Vec2)>);

/// Candidate dynamic-dynamic pairs whose bounding boxes overlap; collected
/// once per frame and reused by every substep of that frame.
#[derive(Debug)]
pub struct CollisionPairs(pub Vec<(usize, usize)>);

/// The gravity vector applied to every dynamic body.
#[derive(Clone, Copy, Debug)]
pub struct Gravity(pub Vec2);

impl Default for Gravity {
    /// Standard gravity, pointing down: (0, -9.81) units per square second.
    fn default() -> (r: Gravity)
        ensures
            r.0.x@ == 0,
            r.0.y@ == -981 * FX_ONE as int / 100,
    {
        Gravity(Vec2 { x: Fx::zero(), y: Fx::from_raw(-981 * (FX_ONE / 100)) })
    }
}

} // verus!
