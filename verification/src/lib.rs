//! Asynchronous asset loading and dependency resolution for a real-time
//! simulation engine.
//!
//! The library mints stable, copyable handles for assets long before their
//! data exists, carries completed load results from background workers to
//! the simulation thread over a FIFO completion channel, and merges them
//! exactly once per identifier into the authoritative asset storage during
//! a per-tick ingest step.

pub mod asset_events;
pub mod asset_server;
pub mod assets;
pub mod channel;
pub mod components;
pub mod context;
pub mod gltf_extras;
pub mod gltf_unpack;
pub mod ids;
pub mod laws;
pub mod material;
pub mod physics;
pub mod scene;
pub mod scene_spawn;
pub mod time;
pub mod transform;
pub mod world;

use crate::asset_events::{flush_spec, store_model, store_wf, AssetStore};
use crate::asset_server::{AssetServer, AssetWorkerMessage};
use crate::channel::CompletionChannel;
use crate::world::World;
use vstd::prelude::*;

verus! {

/// The assembled loading subsystem: the public server, the completion
/// channel between workers and the simulation thread, and the
/// simulation-side store the ingest step writes.
pub struct AssetHub {
    pub server: AssetServer,
    pub channel: CompletionChannel,
    pub store: AssetStore,
}

/// Sets the loading subsystem up for an engine.
pub struct AssetPlugin;

impl AssetPlugin {
    /// Creates the server, the completion channel, the per-kind storage
    /// tables, the registry and the event log, all empty.
    pub fn build(&self) -> (h: AssetHub)
        ensures
            h.server.wf(),
            h.server.spec_count() == 0,
            h.server.spec_outbox() == Seq::<crate::asset_server::LoadRequest>::empty(),
            h.channel@ == Seq::<AssetWorkerMessage>::empty(),
            h.store.lookup@ == Map::<u128, usize>::empty(),
            h.store.textures@ == Map::<u128, crate::material::TextureData>::empty(),
            h.store.materials@ == Map::<u128, crate::material::MaterialData>::empty(),
            h.store.meshes@ == Map::<u128, crate::assets::MeshData>::empty(),
            h.store.scenes@ == Map::<u128, crate::scene::SceneData>::empty(),
            h.store.events@ == Seq::<crate::asset_events::AssetEvent>::empty(),
            h.store.textures.spec_id_count() == 0,
            h.store.materials.spec_id_count() == 0,
            h.store.meshes.spec_id_count() == 0,
            h.store.scenes.spec_id_count() == 0,
    {
        AssetHub {
            server: AssetServer::new(),
            channel: CompletionChannel::new(),
            store: AssetStore::new(),
        }
    }
}

/// The ingest/flush step, run once per simulation tick: drains the
/// completion channel without blocking and ingests each message, which is
/// the single authoritative write of each drained identifier's payload.
/// Draining an empty channel returns immediately and changes nothing.
pub fn flush_asset_events(hub: &mut AssetHub, world: &mut World)
    requires
        store_wf(old(hub).store, *old(world)),
    ensures
        store_wf(final(hub).store, *final(world)),
        store_model(final(hub).store, *final(world)) == flush_spec(
            store_model(old(hub).store, *old(world)),
            old(hub).channel@,
        ),
        final(hub).channel@ == Seq::<AssetWorkerMessage>::empty(),
        final(hub).server == old(hub).server,
        final(hub).store.textures.spec_id_count() == old(hub).store.textures.spec_id_count(),
        final(hub).store.materials.spec_id_count() == old(hub).store.materials.spec_id_count(),
        final(hub).store.meshes.spec_id_count() == old(hub).store.meshes.spec_id_count(),
        final(hub).store.scenes.spec_id_count() == old(hub).store.scenes.spec_id_count(),
{
    let ghost s0 = store_model(old(hub).store, *old(world));
    let ghost msgs0 = old(hub).channel@;
    while hub.channel.len() > 0
        invariant
            store_wf(hub.store, *world),
            flush_spec(store_model(hub.store, *world), hub.channel@) == flush_spec(s0, msgs0),
            hub.server == old(hub).server,
            hub.store.textures.spec_id_count() == old(hub).store.textures.spec_id_count(),
            hub.store.materials.spec_id_count() == old(hub).store.materials.spec_id_count(),
            hub.store.meshes.spec_id_count() == old(hub).store.meshes.spec_id_count(),
            hub.store.scenes.spec_id_count() == old(hub).store.scenes.spec_id_count(),
        decreases hub.channel@.len(),
    {
        let next = hub.channel.try_receive();
        match next {
            Some(msg) => {
                crate::asset_events::ingest_message(&mut hub.store, world, msg);
            },
            None => {},
        }
    }
}

} // verus!
