//! Input-context identity.
//!
//! Input handling itself is an external collaborator of the engine; the
//! identifier that names an active input context is plain data and lives
//! here.

use vstd::prelude::*;

verus! {

/// Names one input context (gameplay, menus, and so on).
#[derive(Clone, Copy, Debug, Eq, PartialEq, Hash, Structural)]
pub struct ContextId(pub u32);

} // verus!
