//! Physics component definitions shared with the simulation core.
//!
//! Only the integral parts of the physics data model live here; the solver
//! itself is an external collaborator of the engine.

use vstd::prelude::*;

verus! {

/// How a rigid body participates in the simulation.
#[derive(Clone, Copy, Debug, PartialEq, Eq, Structural)]
pub enum PhysicsBody {
    Static,
    Dynamic,
    Kinematic,
    Unknown,
}

/// Collision layer and mask bits for a collider.
#[derive(Clone, Copy, Debug, PartialEq, Eq, Structural)]
pub struct CollisionFilterDefinition {
    pub layer: u32,
    pub mask: u32,
}

} // verus!
