//! A minimal model of the engine's component store.
//!
//! The loading subsystem treats the world as an opaque store with
//! spawn/insert/lookup primitives, mutated only on the simulation thread.
//! This model gives those primitives exact meaning: an entity is an index
//! into a grow-only list of records, and a record carries exactly the
//! components this subsystem and its immediate consumers read and write.

use crate::asset_server::AssetKind;
use crate::components::{MaterialDefinition, MeshDefinition, SceneRoot};
use crate::transform::Transform;
use vstd::prelude::*;

verus! {

/// The components of one entity that this subsystem touches.
#[derive(Clone, Debug)]
pub struct EntityRecord {
    /// Display name, set from the asset's path at ingestion.
    pub name: Option<String>,
    /// Kind tag: which kind of asset this entity materializes.
    pub kind: Option<AssetKind>,
    /// Whether the entity's data component is present: the sole readiness
    /// signal consumers observe.
    pub has_data: bool,
    /// Derived-from edge: the top-level asset this one was unpacked from.
    pub derived_from: Option<usize>,
    /// Hierarchy edge set when a scene instance is expanded.
    pub parent: Option<usize>,
    pub transform: Option<Transform>,
    pub mesh_def: Option<MeshDefinition>,
    pub material_def: Option<MaterialDefinition>,
    pub scene_root: Option<SceneRoot>,
}

/// The record of a freshly spawned placeholder entity: no components yet.
pub open spec fn blank_record() -> EntityRecord {
    EntityRecord {
        name: None,
        kind: None,
        has_data: false,
        derived_from: None,
        parent: None,
        transform: None,
        mesh_def: None,
        material_def: None,
        scene_root: None,
    }
}

/// The component store: a grow-only list of entity records, where an
/// entity is its index.
pub struct World {
    entities: Vec<EntityRecord>,
}

impl World {
    pub closed spec fn view(&self) -> Seq<EntityRecord> {
        self.entities@
    }

    pub fn new() -> (w: World)
        ensures
            w@ == Seq::<EntityRecord>::empty(),
    {
        World { entities: Vec::new() }
    }

    pub fn len(&self) -> (n: usize)
        ensures
            n == self@.len(),
    {
        self.entities.len()
    }

    /// Creates a blank entity and returns it.
    pub fn spawn(&mut self) -> (e: usize)
        ensures
            e == old(self)@.len(),
            final(self)@ == old(self)@.push(blank_record()),
    {
        let e = self.entities.len();
        self.entities.push(
            EntityRecord {
                name: None,
                kind: None,
                has_data: false,
                derived_from: None,
                parent: None,
                transform: None,
                mesh_def: None,
                material_def: None,
                scene_root: None,
            },
        );
        e
    }

    /// Reads an entity's components.
    pub fn record(&self, e: usize) -> (r: &EntityRecord)
        requires
            e < self@.len(),
        ensures
            *r == self@[e as int],
    {
        vstd::std_specs::vec::vec_index(&self.entities, e)
    }

    /// Takes an entity's components out, leaving a blank record; paired
    /// with `put` to modify a record in place.
    pub fn take(&mut self, e: usize) -> (r: EntityRecord)
        requires
            e < old(self)@.len(),
        ensures
            r == old(self)@[e as int],
            final(self)@ == old(self)@.update(e as int, blank_record()),
    {
        let mut tmp = EntityRecord {
            name: None,
            kind: None,
            has_data: false,
            derived_from: None,
            parent: None,
            transform: None,
            mesh_def: None,
            material_def: None,
            scene_root: None,
        };
        let slot = vstd::std_specs::vec::vec_index_mut(&mut self.entities, e);
        core::mem::swap(&mut tmp, slot);
        tmp
    }

    /// Replaces an entity's components wholesale; the callers state the
    /// field-level effect in their own contracts.
    pub fn put(&mut self, e: usize, r: EntityRecord)
        requires
            e < old(self)@.len(),
        ensures
            final(self)@ == old(self)@.update(e as int, r),
    {
        let slot = vstd::std_specs::vec::vec_index_mut(&mut self.entities, e);
        *slot = r;
    }
}

} // verus!
