//! Handle-carrying components attached to world entities.

use crate::assets::{Handle, MeshData};
use crate::material::MaterialData;
use crate::scene::SceneData;
use vstd::prelude::*;

verus! {

/// "Please render this mesh."
#[derive(Clone, Debug)]
pub struct MeshDefinition(pub Handle<MeshData>);

/// "Please apply this material."
#[derive(Clone, Debug)]
pub struct MaterialDefinition(pub Handle<MaterialData>);

/// Marks an entity as the root of a scene instance to be expanded once
/// the scene's blueprint has been ingested.
#[derive(Clone, Debug)]
pub struct SceneRoot(pub Handle<SceneData>);

} // verus!
