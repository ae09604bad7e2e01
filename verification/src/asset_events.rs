//! The registry of placeholder entities and the ingest step.
//!
//! The registry maps an asset identifier to a lazily created placeholder
//! entity, so dependents can link against an asset before its data exists;
//! resolving the same identifier twice yields the same entity. The ingest
//! step consumes one completion message at a time and performs the single
//! authoritative write of each identifier's payload into storage, tagging
//! and linking the affected entities.
//!
//! Every effect of ingestion is given a spec-level meaning
//! ([`ingest_message_spec`]); the executable code is proved to realize it
//! exactly.

use crate::asset_server::{AssetKind, AssetWorkerMessage};
use crate::assets::{Assets, Handle, MeshData};
use crate::material::{MaterialData, TextureData};
use crate::scene::SceneData;
use crate::world::{blank_record, EntityRecord, World};
use std::collections::HashMap;
use vstd::prelude::*;

verus! {

broadcast use vstd::std_specs::hash::group_hash_axioms;

/// A notification fired by the ingest step for each payload it
/// materializes, so downstream systems learn of newly ready assets.
#[derive(Clone, Debug)]
pub enum AssetEvent {
    MeshLoaded { id: u128, path: String },
    TextureLoaded { id: u128, path: String },
    MaterialLoaded { id: u128 },
}

/// An asset event as the contracts see it: paths by their character
/// sequences.
pub ghost enum EventView {
    MeshLoaded { id: u128, path: Seq<char> },
    TextureLoaded { id: u128, path: Seq<char> },
    MaterialLoaded { id: u128 },
}

pub open spec fn event_view(e: AssetEvent) -> EventView {
    match e {
        AssetEvent::MeshLoaded { id, path } => EventView::MeshLoaded { id, path: path@ },
        AssetEvent::TextureLoaded { id, path } => EventView::TextureLoaded { id, path: path@ },
        AssetEvent::MaterialLoaded { id } => EventView::MaterialLoaded { id },
    }
}

pub open spec fn events_view(s: Seq<AssetEvent>) -> Seq<EventView> {
    s.map_values(|e: AssetEvent| event_view(e))
}

/// The registry: identifier to placeholder entity, created lazily and
/// never deleted during a normal load flow.
pub struct AssetLookup {
    map: HashMap<u128, usize>,
}

/// Every registered entity exists in the world.
pub open spec fn lookup_wf(lk: Map<u128, usize>, w: Seq<EntityRecord>) -> bool {
    forall|id: u128| #[trigger] lk.contains_key(id) ==> lk[id] < w.len()
}

/// What resolve-or-create yields: the registry, the world, and the entity
/// for `id`. A known identifier resolves to its recorded entity and
/// changes nothing; an unknown one is bound to a freshly spawned blank
/// entity.
pub open spec fn resolve_spec(lk: Map<u128, usize>, w: Seq<EntityRecord>, id: u128) -> (
    Map<u128, usize>,
    Seq<EntityRecord>,
    usize,
) {
    if lk.contains_key(id) {
        (lk, w, lk[id])
    } else {
        (lk.insert(id, w.len() as usize), w.push(blank_record()), w.len() as usize)
    }
}

impl AssetLookup {
    pub closed spec fn view(&self) -> Map<u128, usize> {
        self.map@
    }

    pub fn new() -> (lk: AssetLookup)
        ensures
            lk@ == Map::<u128, usize>::empty(),
    {
        AssetLookup { map: HashMap::new() }
    }

    /// Resolve-or-create: idempotent per identifier. Confined to the
    /// simulation thread, like every structure of the ingest side.
    pub fn entity(&mut self, id: u128, world: &mut World) -> (e: usize)
        requires
            lookup_wf(old(self)@, old(world)@),
        ensures
            ({
                let (lk2, w2, e2) = resolve_spec(old(self)@, old(world)@, id);
                final(self)@ == lk2 && final(world)@ == w2 && e == e2
            }),
            lookup_wf(final(self)@, final(world)@),
            e < final(world)@.len(),
    {
        let cached: Option<&usize> = self.map.get(&id);
        match cached {
            Some(found) => *found,
            None => {
                let e = world.spawn();
                self.map.insert(id, e);
                e
            },
        }
    }
}

/// The simulation-side state the ingest step acts on, as one mathematical
/// value: registry, world, the four storage tables, and the event log.
#[verifier::ext_equal]
pub ghost struct IngestState {
    pub lookup: Map<u128, usize>,
    pub world: Seq<EntityRecord>,
    pub textures: Map<u128, TextureData>,
    pub materials: Map<u128, MaterialData>,
    pub meshes: Map<u128, MeshData>,
    pub scenes: Map<u128, SceneData>,
    pub events: Seq<EventView>,
}

/// Ingesting a simple texture message: resolve the entity, set its name,
/// kind tag and data mark, write the payload -- the single authoritative
/// write for this identifier -- and fire one event.
pub open spec fn ingest_texture_spec(
    s: IngestState,
    id: u128,
    path: String,
    data: TextureData,
) -> IngestState {
    let (lk2, w2, e) = resolve_spec(s.lookup, s.world, id);
    IngestState {
        lookup: lk2,
        world: w2.update(
            e as int,
            EntityRecord {
                name: Some(path),
                kind: Some(AssetKind::Texture),
                has_data: true,
                ..w2[e as int]
            },
        ),
        textures: s.textures.insert(id, data),
        events: s.events.push(EventView::TextureLoaded { id, path: path@ }),
        ..s
    }
}

/// Ingesting a simple mesh message, as for a texture.
pub open spec fn ingest_mesh_spec(
    s: IngestState,
    id: u128,
    path: String,
    data: MeshData,
) -> IngestState {
    let (lk2, w2, e) = resolve_spec(s.lookup, s.world, id);
    IngestState {
        lookup: lk2,
        world: w2.update(
            e as int,
            EntityRecord {
                name: Some(path),
                kind: Some(AssetKind::Mesh),
                has_data: true,
                ..w2[e as int]
            },
        ),
        meshes: s.meshes.insert(id, data),
        events: s.events.push(EventView::MeshLoaded { id, path: path@ }),
        ..s
    }
}

/// Ingesting one texture embedded in a scene: as a simple texture, but
/// nameless, with a derived-from edge back to the scene root, and an event
/// path marking it as embedded.
pub open spec fn ingest_sub_texture_spec(
    s: IngestState,
    root: usize,
    item: (Handle<TextureData>, TextureData),
) -> IngestState {
    let (lk2, w2, e) = resolve_spec(s.lookup, s.world, item.0.id);
    IngestState {
        lookup: lk2,
        world: w2.update(
            e as int,
            EntityRecord {
                kind: Some(AssetKind::Texture),
                has_data: true,
                derived_from: Some(root),
                ..w2[e as int]
            },
        ),
        textures: s.textures.insert(item.0.id, item.1),
        events: s.events.push(
            EventView::TextureLoaded { id: item.0.id, path: "embedded_in_scene"@ },
        ),
        ..s
    }
}

/// Ingesting one material embedded in a scene.
pub open spec fn ingest_sub_material_spec(
    s: IngestState,
    root: usize,
    item: (Handle<MaterialData>, MaterialData),
) -> IngestState {
    let (lk2, w2, e) = resolve_spec(s.lookup, s.world, item.0.id);
    IngestState {
        lookup: lk2,
        world: w2.update(
            e as int,
            EntityRecord {
                kind: Some(AssetKind::Material),
                has_data: true,
                derived_from: Some(root),
                ..w2[e as int]
            },
        ),
        materials: s.materials.insert(item.0.id, item.1),
        events: s.events.push(EventView::MaterialLoaded { id: item.0.id }),
        ..s
    }
}

/// Ingesting one mesh embedded in a scene.
pub open spec fn ingest_sub_mesh_spec(
    s: IngestState,
    root: usize,
    item: (Handle<MeshData>, MeshData),
) -> IngestState {
    let (lk2, w2, e) = resolve_spec(s.lookup, s.world, item.0.id);
    IngestState {
        lookup: lk2,
        world: w2.update(
            e as int,
            EntityRecord {
                kind: Some(AssetKind::Mesh),
                has_data: true,
                derived_from: Some(root),
                ..w2[e as int]
            },
        ),
        meshes: s.meshes.insert(item.0.id, item.1),
        events: s.events.push(
            EventView::MeshLoaded { id: item.0.id, path: "embedded_in_scene"@ },
        ),
        ..s
    }
}

pub open spec fn ingest_scene_textures_spec(
    s: IngestState,
    root: usize,
    items: Seq<(Handle<TextureData>, TextureData)>,
) -> IngestState
    decreases items.len(),
{
    if items.len() == 0 {
        s
    } else {
        ingest_scene_textures_spec(ingest_sub_texture_spec(s, root, items.first()), root, items.drop_first())
    }
}

pub open spec fn ingest_scene_materials_spec(
    s: IngestState,
    root: usize,
    items: Seq<(Handle<MaterialData>, MaterialData)>,
) -> IngestState
    decreases items.len(),
{
    if items.len() == 0 {
        s
    } else {
        ingest_scene_materials_spec(ingest_sub_material_spec(s, root, items.first()), root, items.drop_first())
    }
}

pub open spec fn ingest_scene_meshes_spec(
    s: IngestState,
    root: usize,
    items: Seq<(Handle<MeshData>, MeshData)>,
) -> IngestState
    decreases items.len(),
{
    if items.len() == 0 {
        s
    } else {
        ingest_scene_meshes_spec(ingest_sub_mesh_spec(s, root, items.first()), root, items.drop_first())
    }
}

/// Ingesting a composite scene message: resolve the root, write its name,
/// kind tag, data mark and blueprint, then ingest every bundled sub-asset
/// with a derived-from edge to the root. Because the sub-assets travel in
/// the same message, they are ingested atomically relative to their root.
pub open spec fn ingest_scene_spec(
    s: IngestState,
    id: u128,
    path: String,
    scene: SceneData,
    ts: Seq<(Handle<TextureData>, TextureData)>,
    ms: Seq<(Handle<MaterialData>, MaterialData)>,
    mms: Seq<(Handle<MeshData>, MeshData)>,
) -> IngestState {
    let (lk2, w2, root) = resolve_spec(s.lookup, s.world, id);
    let s2 = IngestState {
        lookup: lk2,
        world: w2.update(
            root as int,
            EntityRecord {
                name: Some(path),
                kind: Some(AssetKind::Scene),
                has_data: true,
                ..w2[root as int]
            },
        ),
        scenes: s.scenes.insert(id, scene),
        ..s
    };
    let s3 = ingest_scene_textures_spec(s2, root, ts);
    let s4 = ingest_scene_materials_spec(s3, root, ms);
    ingest_scene_meshes_spec(s4, root, mms)
}

/// What ingesting one completion message means.
pub open spec fn ingest_message_spec(s: IngestState, msg: AssetWorkerMessage) -> IngestState {
    match msg {
        AssetWorkerMessage::TextureLoaded { id, path, data } => ingest_texture_spec(
            s,
            id,
            path,
            data,
        ),
        AssetWorkerMessage::MeshLoaded { id, path, data } => ingest_mesh_spec(s, id, path, data),
        AssetWorkerMessage::SceneLoaded { id, path, scene, textures, materials, meshes } => ingest_scene_spec(
            s,
            id,
            path,
            scene,
            textures@,
            materials@,
            meshes@,
        ),
    }
}

/// What draining a whole queue of completion messages means: ingest them
/// front first. Draining an empty queue leaves the state untouched.
pub open spec fn flush_spec(s: IngestState, msgs: Seq<AssetWorkerMessage>) -> IngestState
    decreases msgs.len(),
{
    if msgs.len() == 0 {
        s
    } else {
        flush_spec(ingest_message_spec(s, msgs.first()), msgs.drop_first())
    }
}

/// The simulation-side structures the ingest step owns, besides the world:
/// registry, the four storage tables, and the event log written for
/// downstream systems.
pub struct AssetStore {
    pub lookup: AssetLookup,
    pub textures: Assets<TextureData>,
    pub materials: Assets<MaterialData>,
    pub meshes: Assets<MeshData>,
    pub scenes: Assets<SceneData>,
    pub events: Vec<AssetEvent>,
}

/// The store and world as one mathematical state.
pub open spec fn store_model(s: AssetStore, w: World) -> IngestState {
    IngestState {
        lookup: s.lookup@,
        world: w@,
        textures: s.textures@,
        materials: s.materials@,
        meshes: s.meshes@,
        scenes: s.scenes@,
        events: events_view(s.events@),
    }
}

pub open spec fn store_wf(s: AssetStore, w: World) -> bool {
    lookup_wf(s.lookup@, w@)
}

impl AssetStore {
    pub fn new() -> (s: AssetStore)
        ensures
            s.lookup@ == Map::<u128, usize>::empty(),
            s.textures@ == Map::<u128, TextureData>::empty(),
            s.materials@ == Map::<u128, MaterialData>::empty(),
            s.meshes@ == Map::<u128, MeshData>::empty(),
            s.scenes@ == Map::<u128, SceneData>::empty(),
            s.events@ == Seq::<AssetEvent>::empty(),
            s.textures.spec_id_count() == 0,
            s.materials.spec_id_count() == 0,
            s.meshes.spec_id_count() == 0,
            s.scenes.spec_id_count() == 0,
    {
        AssetStore {
            lookup: AssetLookup::new(),
            textures: Assets::new(),
            materials: Assets::new(),
            meshes: Assets::new(),
            scenes: Assets::new(),
            events: Vec::new(),
        }
    }
}

proof fn lemma_events_view_push(s: Seq<AssetEvent>, e: AssetEvent)
    ensures
        events_view(s.push(e)) == events_view(s).push(event_view(e)),
{
    assert(events_view(s.push(e)) =~= events_view(s).push(event_view(e)));
}

proof fn lemma_scene_textures_fold_push(
    s: IngestState,
    root: usize,
    items: Seq<(Handle<TextureData>, TextureData)>,
    x: (Handle<TextureData>, TextureData),
)
    ensures
        ingest_scene_textures_spec(s, root, items.push(x)) == ingest_sub_texture_spec(
            ingest_scene_textures_spec(s, root, items),
            root,
            x,
        ),
    decreases items.len(),
{
    if items.len() == 0 {
        let s1 = ingest_sub_texture_spec(s, root, x);
        assert(items.push(x).first() == x);
        assert(items.push(x).drop_first() =~= Seq::<(Handle<TextureData>, TextureData)>::empty());
        assert(ingest_scene_textures_spec(s, root, items) == s);
        assert(ingest_scene_textures_spec(s1, root, Seq::<(Handle<TextureData>, TextureData)>::empty()) == s1);
        assert(ingest_scene_textures_spec(s, root, items.push(x)) == ingest_scene_textures_spec(
            s1,
            root,
            items.push(x).drop_first(),
        ));
    } else {
        let s1 = ingest_sub_texture_spec(s, root, items.first());
        assert(items.push(x).first() == items.first());
        assert(items.push(x).drop_first() =~= items.drop_first().push(x));
        lemma_scene_textures_fold_push(s1, root, items.drop_first(), x);
        assert(ingest_scene_textures_spec(s, root, items.push(x)) == ingest_scene_textures_spec(
            s1,
            root,
            items.drop_first().push(x),
        ));
        assert(ingest_scene_textures_spec(s, root, items) == ingest_scene_textures_spec(
            s1,
            root,
            items.drop_first(),
        ));
    }
}

proof fn lemma_scene_materials_fold_push(
    s: IngestState,
    root: usize,
    items: Seq<(Handle<MaterialData>, MaterialData)>,
    x: (Handle<MaterialData>, MaterialData),
)
    ensures
        ingest_scene_materials_spec(s, root, items.push(x)) == ingest_sub_material_spec(
            ingest_scene_materials_spec(s, root, items),
            root,
            x,
        ),
    decreases items.len(),
{
    if items.len() == 0 {
        let s1 = ingest_sub_material_spec(s, root, x);
        assert(items.push(x).first() == x);
        assert(items.push(x).drop_first() =~= Seq::<(Handle<MaterialData>, MaterialData)>::empty());
        assert(ingest_scene_materials_spec(s, root, items) == s);
        assert(ingest_scene_materials_spec(s1, root, Seq::<(Handle<MaterialData>, MaterialData)>::empty()) == s1);
        assert(ingest_scene_materials_spec(s, root, items.push(x)) == ingest_scene_materials_spec(
            s1,
            root,
            items.push(x).drop_first(),
        ));
    } else {
        let s1 = ingest_sub_material_spec(s, root, items.first());
        assert(items.push(x).first() == items.first());
        assert(items.push(x).drop_first() =~= items.drop_first().push(x));
        lemma_scene_materials_fold_push(s1, root, items.drop_first(), x);
        assert(ingest_scene_materials_spec(s, root, items.push(x)) == ingest_scene_materials_spec(
            s1,
            root,
            items.drop_first().push(x),
        ));
        assert(ingest_scene_materials_spec(s, root, items) == ingest_scene_materials_spec(
            s1,
            root,
            items.drop_first(),
        ));
    }
}

proof fn lemma_scene_meshes_fold_push(
    s: IngestState,
    root: usize,
    items: Seq<(Handle<MeshData>, MeshData)>,
    x: (Handle<MeshData>, MeshData),
)
    ensures
        ingest_scene_meshes_spec(s, root, items.push(x)) == ingest_sub_mesh_spec(
            ingest_scene_meshes_spec(s, root, items),
            root,
            x,
        ),
    decreases items.len(),
{
    if items.len() == 0 {
        let s1 = ingest_sub_mesh_spec(s, root, x);
        assert(items.push(x).first() == x);
        assert(items.push(x).drop_first() =~= Seq::<(Handle<MeshData>, MeshData)>::empty());
        assert(ingest_scene_meshes_spec(s, root, items) == s);
        assert(ingest_scene_meshes_spec(s1, root, Seq::<(Handle<MeshData>, MeshData)>::empty()) == s1);
        assert(ingest_scene_meshes_spec(s, root, items.push(x)) == ingest_scene_meshes_spec(
            s1,
            root,
            items.push(x).drop_first(),
        ));
    } else {
        let s1 = ingest_sub_mesh_spec(s, root, items.first());
        assert(items.push(x).first() == items.first());
        assert(items.push(x).drop_first() =~= items.drop_first().push(x));
        lemma_scene_meshes_fold_push(s1, root, items.drop_first(), x);
        assert(ingest_scene_meshes_spec(s, root, items.push(x)) == ingest_scene_meshes_spec(
            s1,
            root,
            items.drop_first().push(x),
        ));
        assert(ingest_scene_meshes_spec(s, root, items) == ingest_scene_meshes_spec(
            s1,
            root,
            items.drop_first(),
        ));
    }
}

/// Ingests one completion message: the executable realization of
/// [`ingest_message_spec`], and the only place that writes asset payloads.
pub fn ingest_message(store: &mut AssetStore, world: &mut World, msg: AssetWorkerMessage)
    requires
        store_wf(*old(store), *old(world)),
    ensures
        store_wf(*final(store), *final(world)),
        store_model(*final(store), *final(world)) == ingest_message_spec(
            store_model(*old(store), *old(world)),
            msg,
        ),
        final(store).textures.spec_id_count() == old(store).textures.spec_id_count(),
        final(store).materials.spec_id_count() == old(store).materials.spec_id_count(),
        final(store).meshes.spec_id_count() == old(store).meshes.spec_id_count(),
        final(store).scenes.spec_id_count() == old(store).scenes.spec_id_count(),
{
    match msg {
        AssetWorkerMessage::TextureLoaded { id, path, data } => {
            let ghost path_g = path;
            let ghost data_g = data;
            let e = store.lookup.entity(id, world);
            let mut rec = world.take(e);
            rec.name = Some(path.clone());
            rec.kind = Some(AssetKind::Texture);
            rec.has_data = true;
            world.put(e, rec);
            store.textures.insert_by_id(id, data);
            let ev = AssetEvent::TextureLoaded { id, path };
            let ghost evs_before = store.events@;
            let ghost ev_g = ev;
            store.events.push(ev);
            proof {
                lemma_events_view_push(evs_before, ev_g);
            }
            proof {
                let s0 = store_model(*old(store), *old(world));
                assert(world@ =~= ingest_texture_spec(s0, id, path_g, data_g).world);
                assert(store_model(*store, *world) =~~= ingest_texture_spec(s0, id, path_g, data_g));
            }
        },
        AssetWorkerMessage::MeshLoaded { id, path, data } => {
            let ghost path_g = path;
            let ghost data_g = data;
            let e = store.lookup.entity(id, world);
            let mut rec = world.take(e);
            rec.name = Some(path.clone());
            rec.kind = Some(AssetKind::Mesh);
            rec.has_data = true;
            world.put(e, rec);
            store.meshes.insert_by_id(id, data);
            let ev = AssetEvent::MeshLoaded { id, path };
            let ghost evs_before = store.events@;
            let ghost ev_g = ev;
            store.events.push(ev);
            proof {
                lemma_events_view_push(evs_before, ev_g);
            }
            proof {
                let s0 = store_model(*old(store), *old(world));
                assert(world@ =~= ingest_mesh_spec(s0, id, path_g, data_g).world);
                assert(store_model(*store, *world) =~~= ingest_mesh_spec(s0, id, path_g, data_g));
            }
        },
        AssetWorkerMessage::SceneLoaded { id, path, scene, textures, materials, meshes } => {
            let ghost s0 = store_model(*old(store), *old(world));
            let ghost path_g = path;
            let ghost scene_g = scene;
            let ghost ts = textures@;
            let ghost ms = materials@;
            let ghost mms = meshes@;

            let root = store.lookup.entity(id, world);
            let mut rec = world.take(root);
            rec.name = Some(path);
            rec.kind = Some(AssetKind::Scene);
            rec.has_data = true;
            world.put(root, rec);
            store.scenes.insert_by_id(id, scene);
            let ghost s2 = store_model(*store, *world);
            proof {
                let (lk2, w2, root2) = resolve_spec(s0.lookup, s0.world, id);
                let spec_s2 = IngestState {
                    lookup: lk2,
                    world: w2.update(
                        root2 as int,
                        EntityRecord {
                            name: Some(path_g),
                            kind: Some(AssetKind::Scene),
                            has_data: true,
                            ..w2[root2 as int]
                        },
                    ),
                    scenes: s0.scenes.insert(id, scene_g),
                    ..s0
                };
                assert(world@ =~= spec_s2.world);
                assert(s2 =~~= spec_s2);
            }

            let mut remaining_t = textures;
            let ghost mut i: int = 0;
            while remaining_t.len() > 0
                invariant
                    0 <= i <= ts.len(),
                    remaining_t@ == ts.skip(i),
                    store_wf(*store, *world),
                    store.textures.spec_id_count() == old(store).textures.spec_id_count(),
                    store.materials.spec_id_count() == old(store).materials.spec_id_count(),
                    store.meshes.spec_id_count() == old(store).meshes.spec_id_count(),
                    store.scenes.spec_id_count() == old(store).scenes.spec_id_count(),
                    store_model(*store, *world) == ingest_scene_textures_spec(s2, root, ts.take(i)),
                decreases remaining_t@.len(),
            {
                proof {
                    assert(ts.skip(i).len() > 0);
                }
                let (h, data) = remaining_t.remove(0);
                let ghost data_g = data;
                let ghost cur = store_model(*store, *world);
                let e = store.lookup.entity(h.id, world);
                let mut rec = world.take(e);
                rec.kind = Some(AssetKind::Texture);
                rec.has_data = true;
                rec.derived_from = Some(root);
                world.put(e, rec);
                store.textures.insert_by_id(h.id, data);
                let ev = AssetEvent::TextureLoaded {
                    id: h.id,
                    path: "embedded_in_scene".to_string(),
                };
                let ghost evs_before = store.events@;
                let ghost ev_g = ev;
                store.events.push(ev);
                proof {
                    lemma_events_view_push(evs_before, ev_g);
                }
                proof {
                    assert(ts[i] == (h, data_g));
                    assert(world@ =~= ingest_sub_texture_spec(cur, root, (h, data_g)).world);
                    assert(store_model(*store, *world) =~~= ingest_sub_texture_spec(
                        cur,
                        root,
                        (h, data_g),
                    ));
                    assert(ts.take(i + 1) =~= ts.take(i).push(ts[i]));
                    lemma_scene_textures_fold_push(s2, root, ts.take(i), ts[i]);
                    i = i + 1;
                    assert(remaining_t@ =~= ts.skip(i));
                }
            }
            proof {
                assert(ts.take(i) =~= ts);
            }
            let ghost s3 = store_model(*store, *world);

            let mut remaining_m = materials;
            let ghost mut j: int = 0;
            while remaining_m.len() > 0
                invariant
                    0 <= j <= ms.len(),
                    remaining_m@ == ms.skip(j),
                    store_wf(*store, *world),
                    store.textures.spec_id_count() == old(store).textures.spec_id_count(),
                    store.materials.spec_id_count() == old(store).materials.spec_id_count(),
                    store.meshes.spec_id_count() == old(store).meshes.spec_id_count(),
                    store.scenes.spec_id_count() == old(store).scenes.spec_id_count(),
                    store_model(*store, *world) == ingest_scene_materials_spec(s3, root, ms.take(j)),
                decreases remaining_m@.len(),
            {
                proof {
                    assert(ms.skip(j).len() > 0);
                }
                let (h, data) = remaining_m.remove(0);
                let ghost data_g = data;
                let ghost cur = store_model(*store, *world);
                let e = store.lookup.entity(h.id, world);
                let mut rec = world.take(e);
                rec.kind = Some(AssetKind::Material);
                rec.has_data = true;
                rec.derived_from = Some(root);
                world.put(e, rec);
                store.materials.insert_by_id(h.id, data);
                let ev = AssetEvent::MaterialLoaded { id: h.id };
                let ghost evs_before = store.events@;
                let ghost ev_g = ev;
                store.events.push(ev);
                proof {
                    lemma_events_view_push(evs_before, ev_g);
                }
                proof {
                    assert(ms[j] == (h, data_g));
                    assert(world@ =~= ingest_sub_material_spec(cur, root, (h, data_g)).world);
                    assert(store_model(*store, *world) =~~= ingest_sub_material_spec(
                        cur,
                        root,
                        (h, data_g),
                    ));
                    assert(ms.take(j + 1) =~= ms.take(j).push(ms[j]));
                    lemma_scene_materials_fold_push(s3, root, ms.take(j), ms[j]);
                    j = j + 1;
                    assert(remaining_m@ =~= ms.skip(j));
                }
            }
            proof {
                assert(ms.take(j) =~= ms);
            }
            let ghost s4 = store_model(*store, *world);

            let mut remaining_mm = meshes;
            let ghost mut k: int = 0;
            while remaining_mm.len() > 0
                invariant
                    0 <= k <= mms.len(),
                    remaining_mm@ == mms.skip(k),
                    store_wf(*store, *world),
                    store.textures.spec_id_count() == old(store).textures.spec_id_count(),
                    store.materials.spec_id_count() == old(store).materials.spec_id_count(),
                    store.meshes.spec_id_count() == old(store).meshes.spec_id_count(),
                    store.scenes.spec_id_count() == old(store).scenes.spec_id_count(),
                    store_model(*store, *world) == ingest_scene_meshes_spec(s4, root, mms.take(k)),
                decreases remaining_mm@.len(),
            {
                proof {
                    assert(mms.skip(k).len() > 0);
                }
                let (h, data) = remaining_mm.remove(0);
                let ghost data_g = data;
                let ghost cur = store_model(*store, *world);
                let e = store.lookup.entity(h.id, world);
                let mut rec = world.take(e);
                rec.kind = Some(AssetKind::Mesh);
                rec.has_data = true;
                rec.derived_from = Some(root);
                world.put(e, rec);
                store.meshes.insert_by_id(h.id, data);
                let ev = AssetEvent::MeshLoaded {
                    id: h.id,
                    path: "embedded_in_scene".to_string(),
                };
                let ghost evs_before = store.events@;
                let ghost ev_g = ev;
                store.events.push(ev);
                proof {
                    lemma_events_view_push(evs_before, ev_g);
                }
                proof {
                    assert(mms[k] == (h, data_g));
                    assert(world@ =~= ingest_sub_mesh_spec(cur, root, (h, data_g)).world);
                    assert(store_model(*store, *world) =~~= ingest_sub_mesh_spec(
                        cur,
                        root,
                        (h, data_g),
                    ));
                    assert(mms.take(k + 1) =~= mms.take(k).push(mms[k]));
                    lemma_scene_meshes_fold_push(s4, root, mms.take(k), mms[k]);
                    k = k + 1;
                    assert(remaining_mm@ =~= mms.skip(k));
                }
            }
            proof {
                assert(mms.take(k) =~= mms);
            }
        },
    }
}

} // verus!
