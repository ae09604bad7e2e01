//! Scene payloads.
//!
//! A scene bundles the handles of its embedded sub-assets together with a
//! flat node list. Node fields reference the handle lists (and other nodes)
//! by index; a well-formed scene keeps every index in range, which is what
//! lets consumers walk the graph without bounds failures.

use crate::assets::{Handle, MeshData};
use crate::material::{MaterialData, TextureData};
use crate::transform::Transform;
use vstd::prelude::*;

verus! {

/// One node of the scene graph.
#[derive(Clone, Debug)]
pub struct SceneNode {
    pub name: String,
    pub transform: Transform,
    /// Index into the scene's mesh handle list.
    pub mesh_index: Option<usize>,
    /// Index into the scene's material handle list.
    pub material_index: Option<usize>,
    /// Indices of child nodes in the scene's node list.
    pub children: Vec<usize>,
}

/// The blueprint of a loaded scene: handles of its embedded sub-assets and
/// the node graph that references them by index.
#[derive(Clone, Debug)]
pub struct SceneData {
    pub meshes: Vec<Handle<MeshData>>,
    pub materials: Vec<Handle<MaterialData>>,
    pub textures: Vec<Handle<TextureData>>,
    pub nodes: Vec<SceneNode>,
}

/// A node is well-formed w.r.t. a scene when every index it holds is in
/// range.
pub open spec fn node_wf(n: SceneNode, meshes: nat, materials: nat, nodes: nat) -> bool {
    &&& n.mesh_index matches Some(i) ==> i < meshes
    &&& n.material_index matches Some(i) ==> i < materials
    &&& forall|k: int| 0 <= k < n.children@.len() ==> n.children@[k] < nodes
}

impl SceneData {
    /// Referential integrity of the node graph: every mesh, material and
    /// child reference lands inside the scene's own lists.
    pub open spec fn wf(&self) -> bool {
        forall|i: int|
            0 <= i < self.nodes@.len() ==> node_wf(
                #[trigger] self.nodes@[i],
                self.meshes@.len(),
                self.materials@.len(),
                self.nodes@.len(),
            )
    }
}

} // verus!
