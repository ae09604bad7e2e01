//! Physics annotations as they appear in scene-file extras.
//!
//! Scene files may tag nodes with physics settings; these enums mirror the
//! vocabulary of that annotation format, with `Unknown` absorbing values a
//! newer file may carry. They convert into the simulation core's own
//! physics vocabulary.

use vstd::prelude::*;

verus! {

/// Rigid-body kind named by a scene-file annotation.
#[derive(Clone, Copy, Debug, PartialEq, Eq, Structural)]
pub enum PhysicsBody {
    Static,
    Dynamic,
    Kinematic,
    Unknown,
}

/// Collider shape named by a scene-file annotation.
#[derive(Clone, Copy, Debug, PartialEq, Eq, Structural)]
pub enum PhysicsShape {
    Box,
    Sphere,
    Capsule,
    Convex,
    Mesh,
    Unknown,
}

/// What the conversion into the core vocabulary yields.
pub open spec fn body_to_core(b: PhysicsBody) -> crate::physics::PhysicsBody {
    match b {
        PhysicsBody::Static => crate::physics::PhysicsBody::Static,
        PhysicsBody::Dynamic => crate::physics::PhysicsBody::Dynamic,
        PhysicsBody::Kinematic => crate::physics::PhysicsBody::Kinematic,
        PhysicsBody::Unknown => crate::physics::PhysicsBody::Unknown,
    }
}

impl From<PhysicsBody> for crate::physics::PhysicsBody {
    fn from(b: PhysicsBody) -> (r: crate::physics::PhysicsBody) {
        match b {
            PhysicsBody::Static => crate::physics::PhysicsBody::Static,
            PhysicsBody::Dynamic => crate::physics::PhysicsBody::Dynamic,
            PhysicsBody::Kinematic => crate::physics::PhysicsBody::Kinematic,
            PhysicsBody::Unknown => crate::physics::PhysicsBody::Unknown,
        }
    }
}

impl vstd::std_specs::convert::FromSpecImpl<PhysicsBody> for crate::physics::PhysicsBody {
    open spec fn obeys_from_spec() -> bool {
        true
    }

    open spec fn from_spec(b: PhysicsBody) -> Self {
        body_to_core(b)
    }
}

} // verus!
