//! Node transforms.
//!
//! A transform carries translation, rotation and scale as IEEE-754 bit
//! patterns in `u32` fields. The loading subsystem only moves these values
//! from the scene decoder into storage; the simulation converts them back
//! into vector types at its own boundary.

use crate::material::{BITS_ONE, BITS_ZERO};
use vstd::prelude::*;

verus! {

#[derive(Clone, Copy, Debug, PartialEq, Eq)]
pub struct Transform {
    pub translation: [u32; 3],
    pub rotation: [u32; 4],
    pub scale: [u32; 3],
}

impl Default for Transform {
    /// Zero translation, identity rotation, unit scale.
    fn default() -> (t: Transform)
        ensures
            t.translation == [BITS_ZERO, BITS_ZERO, BITS_ZERO],
            t.rotation == [BITS_ZERO, BITS_ZERO, BITS_ZERO, BITS_ONE],
            t.scale == [BITS_ONE, BITS_ONE, BITS_ONE],
    {
        Transform {
            translation: [BITS_ZERO, BITS_ZERO, BITS_ZERO],
            rotation: [BITS_ZERO, BITS_ZERO, BITS_ZERO, BITS_ONE],
            scale: [BITS_ONE, BITS_ONE, BITS_ONE],
        }
    }
}

} // verus!
