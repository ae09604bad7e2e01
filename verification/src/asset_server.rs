//! The Asset Server: the public entry point of the loading subsystem.
//!
//! A load call returns immediately with a freshly minted handle and records
//! one unit of background work in the server's dispatch queue. The caller
//! that owns the background workers drains that queue, performs the blocking
//! reads and decodes off the simulation thread, and pushes one completion
//! message per successful load; a failed load pushes nothing and its handle
//! stays unresolved forever.

use crate::assets::{Handle, MeshData};
use crate::ids::{id_low, IdGen};
use crate::material::{MaterialData, TextureData};
use crate::scene::SceneData;
use vstd::prelude::*;

verus! {

/// The asset kinds this subsystem materializes.
#[derive(Clone, Copy, Debug, PartialEq, Eq, Structural)]
pub enum AssetKind {
    Texture,
    Scene,
    Material,
    Mesh,
}

/// One unit of background work recorded by the Asset Server.
#[derive(Clone, Debug)]
pub struct LoadRequest {
    pub id: u128,
    pub kind: AssetKind,
    pub path: String,
}

/// A completed load, as carried from a background worker to the simulation
/// thread. Produced exactly once per successful load and consumed exactly
/// once by the ingest step. A scene message bundles every embedded
/// sub-asset together with its freshly minted handle, so a scene and its
/// sub-assets are ingested atomically relative to each other.
pub enum AssetWorkerMessage {
    TextureLoaded { id: u128, path: String, data: TextureData },
    MeshLoaded { id: u128, path: String, data: MeshData },
    SceneLoaded {
        id: u128,
        path: String,
        scene: SceneData,
        textures: Vec<(Handle<TextureData>, TextureData)>,
        materials: Vec<(Handle<MaterialData>, MaterialData)>,
        meshes: Vec<(Handle<MeshData>, MeshData)>,
    },
}

impl AssetWorkerMessage {
    /// The identifier of the top-level asset the message completes.
    pub open spec fn root_id(&self) -> u128 {
        match *self {
            AssetWorkerMessage::TextureLoaded { id, .. } => id,
            AssetWorkerMessage::MeshLoaded { id, .. } => id,
            AssetWorkerMessage::SceneLoaded { id, .. } => id,
        }
    }
}

/// The public entry point: allocates handles and records dispatch work,
/// without ever blocking the caller.
pub struct AssetServer {
    ids: IdGen,
    outbox: Vec<LoadRequest>,
}

impl AssetServer {
    /// How many identifiers this server has minted.
    pub closed spec fn spec_count(&self) -> u64 {
        self.ids.spec_count()
    }

    /// The dispatch queue: work recorded but not yet handed to a worker.
    pub closed spec fn spec_outbox(&self) -> Seq<LoadRequest> {
        self.outbox@
    }

    /// Every recorded request carries an identifier minted by this server,
    /// and the embedded counters increase along the queue; therefore no
    /// two requests ever collide.
    pub open spec fn wf(&self) -> bool {
        &&& forall|i: int|
            0 <= i < self.spec_outbox().len() ==> id_low(
                #[trigger] self.spec_outbox()[i].id,
            ) < self.spec_count()
        &&& forall|i: int, j: int|
            0 <= i < j < self.spec_outbox().len() ==> id_low(#[trigger] self.spec_outbox()[i].id)
                < id_low(#[trigger] self.spec_outbox()[j].id)
    }

    pub fn new() -> (s: AssetServer)
        ensures
            s.wf(),
            s.spec_count() == 0,
            s.spec_outbox() == Seq::<LoadRequest>::empty(),
    {
        AssetServer { ids: IdGen::new(), outbox: Vec::new() }
    }

    /// Mints the handle and records the dispatch for one load of `kind`.
    fn dispatch(&mut self, path: &str, kind: AssetKind) -> (id: u128)
        requires
            old(self).wf(),
            old(self).spec_count() < u64::MAX,
        ensures
            final(self).wf(),
            id_low(id) == old(self).spec_count(),
            final(self).spec_count() == old(self).spec_count() + 1,
            final(self).spec_outbox().len() == old(self).spec_outbox().len() + 1,
            forall|i: int|
                0 <= i < old(self).spec_outbox().len() ==> final(self).spec_outbox()[i] == old(
                    self,
                ).spec_outbox()[i],
            final(self).spec_outbox().last().id == id,
            final(self).spec_outbox().last().kind == kind,
            final(self).spec_outbox().last().path@ == path@,
    {
        let id = self.ids.mint();
        self.outbox.push(LoadRequest { id, kind, path: path.to_string() });
        id
    }

    /// Requests one texture load. Returns immediately with a valid handle;
    /// the data arrives, if the load succeeds, in exactly one future
    /// completion message tagged with the handle's identifier.
    pub fn load_texture(&mut self, path: &str) -> (h: Handle<TextureData>)
        requires
            old(self).wf(),
            old(self).spec_count() < u64::MAX,
        ensures
            final(self).wf(),
            id_low(h.id) == old(self).spec_count(),
            final(self).spec_count() == old(self).spec_count() + 1,
            final(self).spec_outbox().len() == old(self).spec_outbox().len() + 1,
            forall|i: int|
                0 <= i < old(self).spec_outbox().len() ==> final(self).spec_outbox()[i] == old(
                    self,
                ).spec_outbox()[i],
            final(self).spec_outbox().last().id == h.id,
            final(self).spec_outbox().last().kind == AssetKind::Texture,
            final(self).spec_outbox().last().path@ == path@,
    {
        Handle::from_id(self.dispatch(path, AssetKind::Texture))
    }

    /// Requests one scene load; the completion message will bundle every
    /// embedded sub-asset with a handle of its own.
    pub fn load_scene(&mut self, path: &str) -> (h: Handle<SceneData>)
        requires
            old(self).wf(),
            old(self).spec_count() < u64::MAX,
        ensures
            final(self).wf(),
            id_low(h.id) == old(self).spec_count(),
            final(self).spec_count() == old(self).spec_count() + 1,
            final(self).spec_outbox().len() == old(self).spec_outbox().len() + 1,
            forall|i: int|
                0 <= i < old(self).spec_outbox().len() ==> final(self).spec_outbox()[i] == old(
                    self,
                ).spec_outbox()[i],
            final(self).spec_outbox().last().id == h.id,
            final(self).spec_outbox().last().kind == AssetKind::Scene,
            final(self).spec_outbox().last().path@ == path@,
    {
        Handle::from_id(self.dispatch(path, AssetKind::Scene))
    }

    /// Requests one mesh load.
    pub fn load_mesh(&mut self, path: &str) -> (h: Handle<MeshData>)
        requires
            old(self).wf(),
            old(self).spec_count() < u64::MAX,
        ensures
            final(self).wf(),
            id_low(h.id) == old(self).spec_count(),
            final(self).spec_count() == old(self).spec_count() + 1,
            final(self).spec_outbox().len() == old(self).spec_outbox().len() + 1,
            forall|i: int|
                0 <= i < old(self).spec_outbox().len() ==> final(self).spec_outbox()[i] == old(
                    self,
                ).spec_outbox()[i],
            final(self).spec_outbox().last().id == h.id,
            final(self).spec_outbox().last().kind == AssetKind::Mesh,
            final(self).spec_outbox().last().path@ == path@,
    {
        Handle::from_id(self.dispatch(path, AssetKind::Mesh))
    }

    /// How many identifiers this server has minted so far; the caller can
    /// check it against the identifier space before requesting a load.
    pub fn minted(&self) -> (c: u64)
        ensures
            c == self.spec_count(),
    {
        self.ids.count()
    }

    /// Hands the recorded dispatches to the worker pool, emptying the
    /// queue. The identifier allocator is untouched, so handles minted
    /// later still cannot collide with the requests handed out.
    pub fn take_requests(&mut self) -> (r: Vec<LoadRequest>)
        ensures
            final(self).wf(),
            r@ == old(self).spec_outbox(),
            final(self).spec_outbox() == Seq::<LoadRequest>::empty(),
            final(self).spec_count() == old(self).spec_count(),
    {
        let mut taken: Vec<LoadRequest> = Vec::new();
        core::mem::swap(&mut taken, &mut self.outbox);
        taken
    }
}

/// No two load requests recorded by one well-formed server collide: any
/// two distinct positions of the dispatch queue carry distinct
/// identifiers.
pub proof fn lemma_dispatched_ids_distinct(s: AssetServer, i: int, j: int)
    requires
        s.wf(),
        0 <= i < s.spec_outbox().len(),
        0 <= j < s.spec_outbox().len(),
        i != j,
    ensures
        s.spec_outbox()[i].id != s.spec_outbox()[j].id,
{
    if i < j {
        crate::ids::lemma_distinct_counters_distinct_ids(s.spec_outbox()[i].id, s.spec_outbox()[j].id);
    } else {
        crate::ids::lemma_distinct_counters_distinct_ids(s.spec_outbox()[i].id, s.spec_outbox()[j].id);
    }
}

} // verus!
