//! System-wide laws of the loading subsystem, stated over the spec-level
//! transitions and proved once and for all.

use crate::asset_events::{
    flush_spec, ingest_message_spec, ingest_scene_materials_spec, ingest_scene_meshes_spec,
    ingest_scene_spec, ingest_scene_textures_spec, ingest_sub_material_spec, ingest_sub_mesh_spec,
    ingest_sub_texture_spec, resolve_spec, IngestState,
};
use crate::asset_server::{AssetKind, AssetWorkerMessage};
use crate::assets::{Handle, MeshData};
use crate::material::{MaterialData, TextureData};
use crate::scene::SceneData;
use crate::asset_events::lookup_wf;
use crate::world::{blank_record, EntityRecord};
use vstd::prelude::*;

verus! {

/// Resolving an identifier is idempotent: resolving it a second time,
/// with no ingestion in between, returns the same entity and changes
/// neither the registry nor the world.
pub proof fn lemma_resolve_idempotent(lk: Map<u128, usize>, w: Seq<EntityRecord>, id: u128)
    ensures
        ({
            let (lk1, w1, e1) = resolve_spec(lk, w, id);
            let (lk2, w2, e2) = resolve_spec(lk1, w1, id);
            e2 == e1 && lk2 == lk1 && w2 == w1
        }),
{
}

/// The identifiers of the sub-assets of one kind bundled in a scene
/// message.
pub open spec fn sub_ids<T>(items: Seq<(Handle<T>, T)>) -> Seq<u128> {
    items.map_values(|it: (Handle<T>, T)| it.0.id)
}

/// Whether `x` is the identifier of one of the bundled sub-assets.
pub open spec fn among_sub_ids<T>(items: Seq<(Handle<T>, T)>, x: u128) -> bool {
    exists|i: int| 0 <= i < items.len() && (#[trigger] items[i]).0.id == x
}

/// Every identifier a message writes a texture payload for.
pub open spec fn msg_texture_ids(msg: AssetWorkerMessage) -> Set<u128> {
    match msg {
        AssetWorkerMessage::TextureLoaded { id, .. } => Set::empty().insert(id),
        AssetWorkerMessage::MeshLoaded { .. } => Set::empty(),
        AssetWorkerMessage::SceneLoaded { textures, .. } => sub_ids(textures@).to_set(),
    }
}

proof fn lemma_sub_textures_lookup_preserved(
    s: IngestState,
    root: usize,
    items: Seq<(Handle<TextureData>, TextureData)>,
    id: u128,
)
    requires
        s.lookup.contains_key(id),
    ensures
        ingest_scene_textures_spec(s, root, items).lookup.contains_key(id),
        ingest_scene_textures_spec(s, root, items).lookup[id] == s.lookup[id],
    decreases items.len(),
{
    if items.len() > 0 {
        lemma_sub_textures_lookup_preserved(
            ingest_sub_texture_spec(s, root, items.first()),
            root,
            items.drop_first(),
            id,
        );
    }
}

proof fn lemma_sub_materials_lookup_preserved(
    s: IngestState,
    root: usize,
    items: Seq<(Handle<MaterialData>, MaterialData)>,
    id: u128,
)
    requires
        s.lookup.contains_key(id),
    ensures
        ingest_scene_materials_spec(s, root, items).lookup.contains_key(id),
        ingest_scene_materials_spec(s, root, items).lookup[id] == s.lookup[id],
    decreases items.len(),
{
    if items.len() > 0 {
        lemma_sub_materials_lookup_preserved(
            ingest_sub_material_spec(s, root, items.first()),
            root,
            items.drop_first(),
            id,
        );
    }
}

proof fn lemma_sub_meshes_lookup_preserved(
    s: IngestState,
    root: usize,
    items: Seq<(Handle<MeshData>, MeshData)>,
    id: u128,
)
    requires
        s.lookup.contains_key(id),
    ensures
        ingest_scene_meshes_spec(s, root, items).lookup.contains_key(id),
        ingest_scene_meshes_spec(s, root, items).lookup[id] == s.lookup[id],
    decreases items.len(),
{
    if items.len() > 0 {
        lemma_sub_meshes_lookup_preserved(
            ingest_sub_mesh_spec(s, root, items.first()),
            root,
            items.drop_first(),
            id,
        );
    }
}

/// Ingesting any message preserves every existing registry binding: a
/// placeholder entity, once resolved, stays the entity of its identifier.
pub proof fn lemma_ingest_lookup_preserved(s: IngestState, msg: AssetWorkerMessage, id: u128)
    requires
        s.lookup.contains_key(id),
    ensures
        ingest_message_spec(s, msg).lookup.contains_key(id),
        ingest_message_spec(s, msg).lookup[id] == s.lookup[id],
{
    match msg {
        AssetWorkerMessage::TextureLoaded { .. } => {},
        AssetWorkerMessage::MeshLoaded { .. } => {},
        AssetWorkerMessage::SceneLoaded { id: rid, path, scene, textures, materials, meshes } => {
            let (lk2, w2, root) = resolve_spec(s.lookup, s.world, rid);
            let s2 = IngestState {
                lookup: lk2,
                world: w2.update(
                    root as int,
                    EntityRecord {
                        name: Some(path),
                        kind: Some(crate::asset_server::AssetKind::Scene),
                        has_data: true,
                        ..w2[root as int]
                    },
                ),
                scenes: s.scenes.insert(rid, scene),
                ..s
            };
            let s3 = ingest_scene_textures_spec(s2, root, textures@);
            let s4 = ingest_scene_materials_spec(s3, root, materials@);
            lemma_sub_textures_lookup_preserved(s2, root, textures@, id);
            lemma_sub_materials_lookup_preserved(s3, root, materials@, id);
            lemma_sub_meshes_lookup_preserved(s4, root, meshes@, id);
        },
    }
}

/// Idempotence of placeholder resolution across ingestion: once an
/// identifier is bound to an entity, draining any queue of completion
/// messages leaves that binding -- and hence what resolve-or-create
/// returns -- unchanged.
pub proof fn lemma_resolution_stable_across_flush(
    s: IngestState,
    msgs: Seq<AssetWorkerMessage>,
    id: u128,
)
    requires
        s.lookup.contains_key(id),
    ensures
        flush_spec(s, msgs).lookup.contains_key(id),
        flush_spec(s, msgs).lookup[id] == s.lookup[id],
    decreases msgs.len(),
{
    if msgs.len() > 0 {
        lemma_ingest_lookup_preserved(s, msgs.first(), id);
        lemma_resolution_stable_across_flush(
            ingest_message_spec(s, msgs.first()),
            msgs.drop_first(),
            id,
        );
    }
}

/// Draining an empty completion queue is a no-op: the state is returned
/// unchanged.
pub proof fn lemma_flush_empty(s: IngestState)
    ensures
        flush_spec(s, Seq::<AssetWorkerMessage>::empty()) == s,
{
}

proof fn lemma_sub_materials_textures_frame(
    s: IngestState,
    root: usize,
    items: Seq<(Handle<MaterialData>, MaterialData)>,
)
    ensures
        ingest_scene_materials_spec(s, root, items).textures == s.textures,
    decreases items.len(),
{
    if items.len() > 0 {
        lemma_sub_materials_textures_frame(
            ingest_sub_material_spec(s, root, items.first()),
            root,
            items.drop_first(),
        );
    }
}

proof fn lemma_sub_meshes_textures_frame(
    s: IngestState,
    root: usize,
    items: Seq<(Handle<MeshData>, MeshData)>,
)
    ensures
        ingest_scene_meshes_spec(s, root, items).textures == s.textures,
    decreases items.len(),
{
    if items.len() > 0 {
        lemma_sub_meshes_textures_frame(
            ingest_sub_mesh_spec(s, root, items.first()),
            root,
            items.drop_first(),
        );
    }
}

proof fn lemma_sub_textures_frame(
    s: IngestState,
    root: usize,
    items: Seq<(Handle<TextureData>, TextureData)>,
    id: u128,
)
    requires
        !sub_ids(items).to_set().contains(id),
    ensures
        ingest_scene_textures_spec(s, root, items).textures.contains_key(id)
            == s.textures.contains_key(id),
        s.textures.contains_key(id) ==> ingest_scene_textures_spec(s, root, items).textures[id]
            == s.textures[id],
    decreases items.len(),
{
    if items.len() > 0 {
        assert(sub_ids(items)[0] == items.first().0.id);
        assert(items.first().0.id != id);
        assert(sub_ids(items.drop_first()) =~= sub_ids(items).drop_first());
        assert forall|x: u128| sub_ids(items).drop_first().to_set().contains(x) implies sub_ids(
            items,
        ).to_set().contains(x) by {
            let k = choose|k: int|
                0 <= k < sub_ids(items).drop_first().len() && sub_ids(items).drop_first()[k] == x;
            assert(sub_ids(items)[k + 1] == x);
        }
        lemma_sub_textures_frame(
            ingest_sub_texture_spec(s, root, items.first()),
            root,
            items.drop_first(),
            id,
        );
    }
}

/// Frame property of one ingestion: a message that does not carry a
/// texture payload for `id` leaves the texture storage binding of `id`
/// exactly as it was.
pub proof fn lemma_ingest_textures_frame(s: IngestState, msg: AssetWorkerMessage, id: u128)
    requires
        !msg_texture_ids(msg).contains(id),
    ensures
        ingest_message_spec(s, msg).textures.contains_key(id) == s.textures.contains_key(id),
        s.textures.contains_key(id) ==> ingest_message_spec(s, msg).textures[id] == s.textures[id],
{
    match msg {
        AssetWorkerMessage::TextureLoaded { .. } => {},
        AssetWorkerMessage::MeshLoaded { .. } => {},
        AssetWorkerMessage::SceneLoaded { id: rid, path, scene, textures, materials, meshes } => {
            let (lk2, w2, root) = resolve_spec(s.lookup, s.world, rid);
            let s2 = IngestState {
                lookup: lk2,
                world: w2.update(
                    root as int,
                    EntityRecord {
                        name: Some(path),
                        kind: Some(crate::asset_server::AssetKind::Scene),
                        has_data: true,
                        ..w2[root as int]
                    },
                ),
                scenes: s.scenes.insert(rid, scene),
                ..s
            };
            let s3 = ingest_scene_textures_spec(s2, root, textures@);
            let s4 = ingest_scene_materials_spec(s3, root, materials@);
            lemma_sub_textures_frame(s2, root, textures@, id);
            lemma_sub_materials_textures_frame(s3, root, materials@);
            lemma_sub_meshes_textures_frame(s4, root, meshes@);
        },
    }
}

/// Frame property of a whole drain: if none of the drained messages
/// carries a texture payload for `id`, the texture storage binding of
/// `id` survives the drain unchanged.
pub proof fn lemma_flush_textures_frame(s: IngestState, msgs: Seq<AssetWorkerMessage>, id: u128)
    requires
        forall|j: int| 0 <= j < msgs.len() ==> !msg_texture_ids(#[trigger] msgs[j]).contains(id),
    ensures
        flush_spec(s, msgs).textures.contains_key(id) == s.textures.contains_key(id),
        s.textures.contains_key(id) ==> flush_spec(s, msgs).textures[id] == s.textures[id],
    decreases msgs.len(),
{
    if msgs.len() > 0 {
        assert(msgs[0] == msgs.first());
        lemma_ingest_textures_frame(s, msgs.first(), id);
        assert(forall|j: int|
            0 <= j < msgs.drop_first().len() ==> msgs.drop_first()[j] == msgs[j + 1]);
        lemma_flush_textures_frame(ingest_message_spec(s, msgs.first()), msgs.drop_first(), id);
    }
}

/// Exactly-once materialization for a texture load: after a drain in
/// which exactly one message carries the texture payload for `id`, the
/// texture storage holds precisely that payload under `id` -- one record,
/// never zero, and (the storage being a map) never more than one.
pub proof fn lemma_exactly_once_texture(
    s: IngestState,
    msgs: Seq<AssetWorkerMessage>,
    k: int,
    id: u128,
    path: String,
    data: TextureData,
)
    requires
        0 <= k < msgs.len(),
        msgs[k] == (AssetWorkerMessage::TextureLoaded { id, path, data }),
        forall|j: int|
            0 <= j < msgs.len() && j != k ==> !msg_texture_ids(#[trigger] msgs[j]).contains(id),
    ensures
        flush_spec(s, msgs).textures.contains_key(id),
        flush_spec(s, msgs).textures[id] == data,
    decreases msgs.len(),
{
    assert(msgs[0] == msgs.first());
    assert(forall|j: int| 0 <= j < msgs.drop_first().len() ==> msgs.drop_first()[j] == msgs[j + 1]);
    if k == 0 {
        let s1 = ingest_message_spec(s, msgs.first());
        assert(s1.textures.contains_key(id) && s1.textures[id] == data);
        lemma_flush_textures_frame(s1, msgs.drop_first(), id);
    } else {
        lemma_exactly_once_texture(
            ingest_message_spec(s, msgs.first()),
            msgs.drop_first(),
            k - 1,
            id,
            path,
            data,
        );
    }
}


proof fn lemma_subs_effect_textures(
    s: IngestState,
    root: usize,
    items: Seq<(Handle<TextureData>, TextureData)>,
)
    requires
        lookup_wf(s.lookup, s.world),
        s.world.len() + items.len() <= usize::MAX,
        forall|i: int| 0 <= i < items.len() ==> !s.lookup.contains_key((#[trigger] items[i]).0.id),
        forall|i: int, j: int| 0 <= i < j < items.len() ==> items[i].0.id != items[j].0.id,
    ensures
        ({
            let s1 = ingest_scene_textures_spec(s, root, items);
            &&& s1.world.len() == s.world.len() + items.len()
            &&& (forall|e: int| 0 <= e < s.world.len() ==> s1.world[e] == s.world[e])
            &&& (forall|e: int|
                s.world.len() <= e < s1.world.len() ==> #[trigger] s1.world[e] == (EntityRecord {
                    kind: Some(AssetKind::Texture),
                    has_data: true,
                    derived_from: Some(root),
                    ..blank_record()
                }))
            &&& (forall|i: int|
                0 <= i < items.len() ==> s1.lookup.contains_key((#[trigger] items[i]).0.id)
                    && s1.lookup[items[i].0.id] == s.world.len() + i)
            &&& (forall|x: u128|
                #[trigger] s1.lookup.contains_key(x) ==> s.lookup.contains_key(x)
                    || among_sub_ids(items, x))
            &&& (forall|x: u128|
                #[trigger] s.lookup.contains_key(x) ==> s1.lookup.contains_key(x) && s1.lookup[x]
                    == s.lookup[x])
            &&& lookup_wf(s1.lookup, s1.world)
            &&& (forall|i: int|
                0 <= i < items.len() ==> s1.textures.contains_key((#[trigger] items[i]).0.id)
                    && s1.textures[items[i].0.id] == items[i].1)
            &&& (forall|x: u128|
                !(#[trigger] among_sub_ids(items, x)) ==> s1.textures.contains_key(x)
                    == s.textures.contains_key(x) && (s.textures.contains_key(x) ==> s1.textures[x]
                    == s.textures[x]))
            &&& s1.materials == s.materials && s1.meshes == s.meshes && s1.scenes == s.scenes
            &&& s1.events.len() == s.events.len() + items.len()
        }),
    decreases items.len(),
{
    if items.len() > 0 {
        let first = items.first();
        let rest = items.drop_first();
        assert(forall|i: int| 0 <= i < rest.len() ==> rest[i] == items[i + 1]);
        let s_1 = ingest_sub_texture_spec(s, root, first);
        lemma_subs_effect_textures(s_1, root, rest);
        let s1 = ingest_scene_textures_spec(s, root, items);
        assert(s1 == ingest_scene_textures_spec(s_1, root, rest));
        assert(s_1.lookup == s.lookup.insert(first.0.id, (s.world.len() as usize)));
        assert(s_1.textures == s.textures.insert(first.0.id, first.1));
        assert(!among_sub_ids(rest, first.0.id)) by {
            if among_sub_ids(rest, first.0.id) {
                let j = choose|j: int|
                    0 <= j < rest.len() && (#[trigger] rest[j]).0.id == first.0.id;
                assert(items[j + 1].0.id == items[0].0.id);
            }
        }
        assert forall|x: u128| #[trigger] s.lookup.contains_key(x) implies s1.lookup.contains_key(
            x,
        ) && s1.lookup[x] == s.lookup[x] by {
            assert(s_1.lookup.contains_key(x));
        }
        assert forall|i: int|
            0 <= i < items.len() implies s1.lookup.contains_key((#[trigger] items[i]).0.id)
                && s1.lookup[items[i].0.id] == s.world.len() + i by {
            if i == 0 {
                assert(s_1.lookup.contains_key(first.0.id));
                assert(s_1.lookup[first.0.id] == s.world.len() as usize);
                assert(s1.lookup.contains_key(first.0.id) && s1.lookup[first.0.id]
                    == s_1.lookup[first.0.id]);
                assert(items[0] == first);
            } else {
                assert(items[i] == rest[i - 1]);
            }
        }
        assert forall|x: u128| #[trigger] s1.lookup.contains_key(x) implies s.lookup.contains_key(
            x,
        ) || among_sub_ids(items, x) by {
            if !s.lookup.contains_key(x) {
                if s_1.lookup.contains_key(x) {
                    assert(items[0].0.id == x);
                } else {
                    assert(among_sub_ids(rest, x));
                    let i = choose|i: int| 0 <= i < rest.len() && (#[trigger] rest[i]).0.id == x;
                    assert(items[i + 1].0.id == x);
                }
            }
        }
        assert forall|i: int|
            0 <= i < items.len() implies s1.textures.contains_key((#[trigger] items[i]).0.id)
                && s1.textures[items[i].0.id] == items[i].1 by {
            if i == 0 {
                assert(s_1.textures.contains_key(first.0.id));
                assert(!among_sub_ids(rest, first.0.id));
                assert(s1.textures.contains_key(first.0.id) && s1.textures[first.0.id]
                    == s_1.textures[first.0.id]);
                assert(items[0] == first);
            } else {
                assert(items[i] == rest[i - 1]);
            }
        }
        assert forall|x: u128|
            !(#[trigger] among_sub_ids(items, x)) implies s1.textures.contains_key(x)
                == s.textures.contains_key(x) && (s.textures.contains_key(x) ==> s1.textures[x]
                == s.textures[x]) by {
            assert(items[0].0.id != x);
            assert(!among_sub_ids(rest, x)) by {
                if among_sub_ids(rest, x) {
                    let i = choose|i: int| 0 <= i < rest.len() && (#[trigger] rest[i]).0.id == x;
                    assert(items[i + 1].0.id == x);
                }
            }
            assert(x != first.0.id);
        }
    }
}

proof fn lemma_subs_effect_materials(
    s: IngestState,
    root: usize,
    items: Seq<(Handle<MaterialData>, MaterialData)>,
)
    requires
        lookup_wf(s.lookup, s.world),
        s.world.len() + items.len() <= usize::MAX,
        forall|i: int| 0 <= i < items.len() ==> !s.lookup.contains_key((#[trigger] items[i]).0.id),
        forall|i: int, j: int| 0 <= i < j < items.len() ==> items[i].0.id != items[j].0.id,
    ensures
        ({
            let s1 = ingest_scene_materials_spec(s, root, items);
            &&& s1.world.len() == s.world.len() + items.len()
            &&& (forall|e: int| 0 <= e < s.world.len() ==> s1.world[e] == s.world[e])
            &&& (forall|e: int|
                s.world.len() <= e < s1.world.len() ==> #[trigger] s1.world[e] == (EntityRecord {
                    kind: Some(AssetKind::Material),
                    has_data: true,
                    derived_from: Some(root),
                    ..blank_record()
                }))
            &&& (forall|i: int|
                0 <= i < items.len() ==> s1.lookup.contains_key((#[trigger] items[i]).0.id)
                    && s1.lookup[items[i].0.id] == s.world.len() + i)
            &&& (forall|x: u128|
                #[trigger] s1.lookup.contains_key(x) ==> s.lookup.contains_key(x)
                    || among_sub_ids(items, x))
            &&& (forall|x: u128|
                #[trigger] s.lookup.contains_key(x) ==> s1.lookup.contains_key(x) && s1.lookup[x]
                    == s.lookup[x])
            &&& lookup_wf(s1.lookup, s1.world)
            &&& (forall|i: int|
                0 <= i < items.len() ==> s1.materials.contains_key((#[trigger] items[i]).0.id)
                    && s1.materials[items[i].0.id] == items[i].1)
            &&& (forall|x: u128|
                !(#[trigger] among_sub_ids(items, x)) ==> s1.materials.contains_key(x)
                    == s.materials.contains_key(x) && (s.materials.contains_key(x) ==> s1.materials[x]
                    == s.materials[x]))
            &&& s1.textures == s.textures && s1.meshes == s.meshes && s1.scenes == s.scenes
            &&& s1.events.len() == s.events.len() + items.len()
        }),
    decreases items.len(),
{
    if items.len() > 0 {
        let first = items.first();
        let rest = items.drop_first();
        assert(forall|i: int| 0 <= i < rest.len() ==> rest[i] == items[i + 1]);
        let s_1 = ingest_sub_material_spec(s, root, first);
        lemma_subs_effect_materials(s_1, root, rest);
        let s1 = ingest_scene_materials_spec(s, root, items);
        assert(s1 == ingest_scene_materials_spec(s_1, root, rest));
        assert(s_1.lookup == s.lookup.insert(first.0.id, (s.world.len() as usize)));
        assert(s_1.materials == s.materials.insert(first.0.id, first.1));
        assert(!among_sub_ids(rest, first.0.id)) by {
            if among_sub_ids(rest, first.0.id) {
                let j = choose|j: int|
                    0 <= j < rest.len() && (#[trigger] rest[j]).0.id == first.0.id;
                assert(items[j + 1].0.id == items[0].0.id);
            }
        }
        assert forall|x: u128| #[trigger] s.lookup.contains_key(x) implies s1.lookup.contains_key(
            x,
        ) && s1.lookup[x] == s.lookup[x] by {
            assert(s_1.lookup.contains_key(x));
        }
        assert forall|i: int|
            0 <= i < items.len() implies s1.lookup.contains_key((#[trigger] items[i]).0.id)
                && s1.lookup[items[i].0.id] == s.world.len() + i by {
            if i == 0 {
                assert(s_1.lookup.contains_key(first.0.id));
                assert(s_1.lookup[first.0.id] == s.world.len() as usize);
                assert(s1.lookup.contains_key(first.0.id) && s1.lookup[first.0.id]
                    == s_1.lookup[first.0.id]);
                assert(items[0] == first);
            } else {
                assert(items[i] == rest[i - 1]);
            }
        }
        assert forall|x: u128| #[trigger] s1.lookup.contains_key(x) implies s.lookup.contains_key(
            x,
        ) || among_sub_ids(items, x) by {
            if !s.lookup.contains_key(x) {
                if s_1.lookup.contains_key(x) {
                    assert(items[0].0.id == x);
                } else {
                    assert(among_sub_ids(rest, x));
                    let i = choose|i: int| 0 <= i < rest.len() && (#[trigger] rest[i]).0.id == x;
                    assert(items[i + 1].0.id == x);
                }
            }
        }
        assert forall|i: int|
            0 <= i < items.len() implies s1.materials.contains_key((#[trigger] items[i]).0.id)
                && s1.materials[items[i].0.id] == items[i].1 by {
            if i == 0 {
                assert(s_1.materials.contains_key(first.0.id));
                assert(!among_sub_ids(rest, first.0.id));
                assert(s1.materials.contains_key(first.0.id) && s1.materials[first.0.id]
                    == s_1.materials[first.0.id]);
                assert(items[0] == first);
            } else {
                assert(items[i] == rest[i - 1]);
            }
        }
        assert forall|x: u128|
            !(#[trigger] among_sub_ids(items, x)) implies s1.materials.contains_key(x)
                == s.materials.contains_key(x) && (s.materials.contains_key(x) ==> s1.materials[x]
                == s.materials[x]) by {
            assert(items[0].0.id != x);
            assert(!among_sub_ids(rest, x)) by {
                if among_sub_ids(rest, x) {
                    let i = choose|i: int| 0 <= i < rest.len() && (#[trigger] rest[i]).0.id == x;
                    assert(items[i + 1].0.id == x);
                }
            }
            assert(x != first.0.id);
        }
    }
}

proof fn lemma_subs_effect_meshes(
    s: IngestState,
    root: usize,
    items: Seq<(Handle<MeshData>, MeshData)>,
)
    requires
        lookup_wf(s.lookup, s.world),
        s.world.len() + items.len() <= usize::MAX,
        forall|i: int| 0 <= i < items.len() ==> !s.lookup.contains_key((#[trigger] items[i]).0.id),
        forall|i: int, j: int| 0 <= i < j < items.len() ==> items[i].0.id != items[j].0.id,
    ensures
        ({
            let s1 = ingest_scene_meshes_spec(s, root, items);
            &&& s1.world.len() == s.world.len() + items.len()
            &&& (forall|e: int| 0 <= e < s.world.len() ==> s1.world[e] == s.world[e])
            &&& (forall|e: int|
                s.world.len() <= e < s1.world.len() ==> #[trigger] s1.world[e] == (EntityRecord {
                    kind: Some(AssetKind::Mesh),
                    has_data: true,
                    derived_from: Some(root),
                    ..blank_record()
                }))
            &&& (forall|i: int|
                0 <= i < items.len() ==> s1.lookup.contains_key((#[trigger] items[i]).0.id)
                    && s1.lookup[items[i].0.id] == s.world.len() + i)
            &&& (forall|x: u128|
                #[trigger] s1.lookup.contains_key(x) ==> s.lookup.contains_key(x)
                    || among_sub_ids(items, x))
            &&& (forall|x: u128|
                #[trigger] s.lookup.contains_key(x) ==> s1.lookup.contains_key(x) && s1.lookup[x]
                    == s.lookup[x])
            &&& lookup_wf(s1.lookup, s1.world)
            &&& (forall|i: int|
                0 <= i < items.len() ==> s1.meshes.contains_key((#[trigger] items[i]).0.id)
                    && s1.meshes[items[i].0.id] == items[i].1)
            &&& (forall|x: u128|
                !(#[trigger] among_sub_ids(items, x)) ==> s1.meshes.contains_key(x)
                    == s.meshes.contains_key(x) && (s.meshes.contains_key(x) ==> s1.meshes[x]
                    == s.meshes[x]))
            &&& s1.textures == s.textures && s1.materials == s.materials && s1.scenes == s.scenes
            &&& s1.events.len() == s.events.len() + items.len()
        }),
    decreases items.len(),
{
    if items.len() > 0 {
        let first = items.first();
        let rest = items.drop_first();
        assert(forall|i: int| 0 <= i < rest.len() ==> rest[i] == items[i + 1]);
        let s_1 = ingest_sub_mesh_spec(s, root, first);
        lemma_subs_effect_meshes(s_1, root, rest);
        let s1 = ingest_scene_meshes_spec(s, root, items);
        assert(s1 == ingest_scene_meshes_spec(s_1, root, rest));
        assert(s_1.lookup == s.lookup.insert(first.0.id, (s.world.len() as usize)));
        assert(s_1.meshes == s.meshes.insert(first.0.id, first.1));
        assert(!among_sub_ids(rest, first.0.id)) by {
            if among_sub_ids(rest, first.0.id) {
                let j = choose|j: int|
                    0 <= j < rest.len() && (#[trigger] rest[j]).0.id == first.0.id;
                assert(items[j + 1].0.id == items[0].0.id);
            }
        }
        assert forall|x: u128| #[trigger] s.lookup.contains_key(x) implies s1.lookup.contains_key(
            x,
        ) && s1.lookup[x] == s.lookup[x] by {
            assert(s_1.lookup.contains_key(x));
        }
        assert forall|i: int|
            0 <= i < items.len() implies s1.lookup.contains_key((#[trigger] items[i]).0.id)
                && s1.lookup[items[i].0.id] == s.world.len() + i by {
            if i == 0 {
                assert(s_1.lookup.contains_key(first.0.id));
                assert(s_1.lookup[first.0.id] == s.world.len() as usize);
                assert(s1.lookup.contains_key(first.0.id) && s1.lookup[first.0.id]
                    == s_1.lookup[first.0.id]);
                assert(items[0] == first);
            } else {
                assert(items[i] == rest[i - 1]);
            }
        }
        assert forall|x: u128| #[trigger] s1.lookup.contains_key(x) implies s.lookup.contains_key(
            x,
        ) || among_sub_ids(items, x) by {
            if !s.lookup.contains_key(x) {
                if s_1.lookup.contains_key(x) {
                    assert(items[0].0.id == x);
                } else {
                    assert(among_sub_ids(rest, x));
                    let i = choose|i: int| 0 <= i < rest.len() && (#[trigger] rest[i]).0.id == x;
                    assert(items[i + 1].0.id == x);
                }
            }
        }
        assert forall|i: int|
            0 <= i < items.len() implies s1.meshes.contains_key((#[trigger] items[i]).0.id)
                && s1.meshes[items[i].0.id] == items[i].1 by {
            if i == 0 {
                assert(s_1.meshes.contains_key(first.0.id));
                assert(!among_sub_ids(rest, first.0.id));
                assert(s1.meshes.contains_key(first.0.id) && s1.meshes[first.0.id]
                    == s_1.meshes[first.0.id]);
                assert(items[0] == first);
            } else {
                assert(items[i] == rest[i - 1]);
            }
        }
        assert forall|x: u128|
            !(#[trigger] among_sub_ids(items, x)) implies s1.meshes.contains_key(x)
                == s.meshes.contains_key(x) && (s.meshes.contains_key(x) ==> s1.meshes[x]
                == s.meshes[x]) by {
            assert(items[0].0.id != x);
            assert(!among_sub_ids(rest, x)) by {
                if among_sub_ids(rest, x) {
                    let i = choose|i: int| 0 <= i < rest.len() && (#[trigger] rest[i]).0.id == x;
                    assert(items[i + 1].0.id == x);
                }
            }
            assert(x != first.0.id);
        }
    }
}


/// Scene unpacking: ingesting one scene message that bundles k sub-assets
/// with fresh, pairwise-distinct identifiers materializes exactly k+1 new
/// entities -- the root and one per sub-asset -- leaves every pre-existing
/// entity untouched, binds each identifier to its entity, writes each
/// payload into its storage table, and gives every sub-asset entity a
/// derived-from edge back to the scene root.
pub proof fn lemma_scene_unpacking(
    s: IngestState,
    id: u128,
    path: String,
    scene: SceneData,
    ts: Seq<(Handle<TextureData>, TextureData)>,
    ms: Seq<(Handle<MaterialData>, MaterialData)>,
    mms: Seq<(Handle<MeshData>, MeshData)>,
)
    requires
        lookup_wf(s.lookup, s.world),
        s.world.len() + 1 + ts.len() + ms.len() + mms.len() <= usize::MAX,
        !s.lookup.contains_key(id),
        forall|i: int|
            0 <= i < ts.len() ==> !s.lookup.contains_key((#[trigger] ts[i]).0.id) && ts[i].0.id
                != id,
        forall|i: int|
            0 <= i < ms.len() ==> !s.lookup.contains_key((#[trigger] ms[i]).0.id) && ms[i].0.id
                != id,
        forall|i: int|
            0 <= i < mms.len() ==> !s.lookup.contains_key((#[trigger] mms[i]).0.id) && mms[i].0.id
                != id,
        forall|i: int, j: int| 0 <= i < j < ts.len() ==> ts[i].0.id != ts[j].0.id,
        forall|i: int, j: int| 0 <= i < j < ms.len() ==> ms[i].0.id != ms[j].0.id,
        forall|i: int, j: int| 0 <= i < j < mms.len() ==> mms[i].0.id != mms[j].0.id,
        forall|i: int, j: int| 0 <= i < ts.len() && 0 <= j < ms.len() ==> ts[i].0.id != ms[j].0.id,
        forall|i: int, j: int|
            0 <= i < ts.len() && 0 <= j < mms.len() ==> ts[i].0.id != mms[j].0.id,
        forall|i: int, j: int|
            0 <= i < ms.len() && 0 <= j < mms.len() ==> ms[i].0.id != mms[j].0.id,
    ensures
        ({
            let s5 = ingest_scene_spec(s, id, path, scene, ts, ms, mms);
            let root: int = s.world.len() as int;
            &&& s5.world.len() == s.world.len() + 1 + ts.len() + ms.len() + mms.len()
            &&& (forall|e: int| 0 <= e < s.world.len() ==> s5.world[e] == s.world[e])
            &&& s5.lookup.contains_key(id) && s5.lookup[id] == root
            &&& s5.world[root].kind == Some(AssetKind::Scene)
            &&& s5.world[root].has_data
            &&& s5.world[root].name == Some(path)
            &&& s5.scenes.contains_key(id) && s5.scenes[id] == scene
            &&& (forall|e: int|
                root < e < s5.world.len() ==> (#[trigger] s5.world[e]).has_data && s5.world[e].derived_from
                    == Some((s.world.len() as usize)))
            &&& (forall|e: int|
                root < e <= root + ts.len() ==> (#[trigger] s5.world[e]).kind == Some(
                    AssetKind::Texture,
                ))
            &&& (forall|e: int|
                root + ts.len() < e <= root + ts.len() + ms.len() ==> (#[trigger] s5.world[e]).kind
                    == Some(AssetKind::Material))
            &&& (forall|e: int|
                root + ts.len() + ms.len() < e < s5.world.len() ==> (#[trigger] s5.world[e]).kind
                    == Some(AssetKind::Mesh))
            &&& (forall|i: int|
                0 <= i < ts.len() ==> s5.lookup.contains_key((#[trigger] ts[i]).0.id)
                    && s5.lookup[ts[i].0.id] == root + 1 + i && s5.textures.contains_key(
                    ts[i].0.id,
                ) && s5.textures[ts[i].0.id] == ts[i].1)
            &&& (forall|i: int|
                0 <= i < ms.len() ==> s5.lookup.contains_key((#[trigger] ms[i]).0.id)
                    && s5.lookup[ms[i].0.id] == root + 1 + ts.len() + i
                    && s5.materials.contains_key(ms[i].0.id) && s5.materials[ms[i].0.id]
                    == ms[i].1)
            &&& (forall|i: int|
                0 <= i < mms.len() ==> s5.lookup.contains_key((#[trigger] mms[i]).0.id)
                    && s5.lookup[mms[i].0.id] == root + 1 + ts.len() + ms.len() + i
                    && s5.meshes.contains_key(mms[i].0.id) && s5.meshes[mms[i].0.id] == mms[i].1)
        }),
{
    let (lk2, w2, root) = resolve_spec(s.lookup, s.world, id);
    let s2 = IngestState {
        lookup: lk2,
        world: w2.update(
            root as int,
            EntityRecord {
                name: Some(path),
                kind: Some(AssetKind::Scene),
                has_data: true,
                ..w2[root as int]
            },
        ),
        scenes: s.scenes.insert(id, scene),
        ..s
    };
    assert(root == s.world.len() as usize);
    assert(s2.world.len() == s.world.len() + 1);
    assert(lookup_wf(s2.lookup, s2.world)) by {
        assert forall|x: u128| #[trigger] s2.lookup.contains_key(x) implies s2.lookup[x]
            < s2.world.len() by {
            if x != id {
                assert(s.lookup.contains_key(x));
            }
        }
    }
    assert forall|i: int| 0 <= i < ts.len() implies !s2.lookup.contains_key(
        (#[trigger] ts[i]).0.id,
    ) by {
        assert(ts[i].0.id != id);
    }
    lemma_subs_effect_textures(s2, root, ts);
    let s3 = ingest_scene_textures_spec(s2, root, ts);
    assert(s3.world.len() == s.world.len() + 1 + ts.len());
    assert forall|i: int| 0 <= i < ms.len() implies !s3.lookup.contains_key(
        (#[trigger] ms[i]).0.id,
    ) by {
        if s3.lookup.contains_key(ms[i].0.id) {
            assert(s2.lookup.contains_key(ms[i].0.id) || among_sub_ids(ts, ms[i].0.id));
            if among_sub_ids(ts, ms[i].0.id) {
                let j = choose|j: int| 0 <= j < ts.len() && (#[trigger] ts[j]).0.id == ms[i].0.id;
            }
            assert(ms[i].0.id != id);
        }
    }
    lemma_subs_effect_materials(s3, root, ms);
    let s4 = ingest_scene_materials_spec(s3, root, ms);
    assert(s4.world.len() == s.world.len() + 1 + ts.len() + ms.len());
    assert forall|i: int| 0 <= i < mms.len() implies !s4.lookup.contains_key(
        (#[trigger] mms[i]).0.id,
    ) by {
        if s4.lookup.contains_key(mms[i].0.id) {
            assert(s3.lookup.contains_key(mms[i].0.id) || among_sub_ids(ms, mms[i].0.id));
            if among_sub_ids(ms, mms[i].0.id) {
                let j = choose|j: int| 0 <= j < ms.len() && (#[trigger] ms[j]).0.id == mms[i].0.id;
            }
            if s3.lookup.contains_key(mms[i].0.id) {
                assert(s2.lookup.contains_key(mms[i].0.id) || among_sub_ids(ts, mms[i].0.id));
                if among_sub_ids(ts, mms[i].0.id) {
                    let j = choose|j: int|
                        0 <= j < ts.len() && (#[trigger] ts[j]).0.id == mms[i].0.id;
                }
                assert(mms[i].0.id != id);
            }
        }
    }
    lemma_subs_effect_meshes(s4, root, mms);
    let s5 = ingest_scene_meshes_spec(s4, root, mms);
    assert(s5 == ingest_scene_spec(s, id, path, scene, ts, ms, mms));

    assert(s2.lookup.contains_key(id));
    assert(s3.lookup.contains_key(id) && s3.lookup[id] == s2.lookup[id]);
    assert(s4.lookup.contains_key(id) && s4.lookup[id] == s3.lookup[id]);
    assert(s5.lookup.contains_key(id) && s5.lookup[id] == s4.lookup[id]);

    assert(s5.world[root as int] == s2.world[root as int]);
    assert(s5.scenes == s4.scenes && s4.scenes == s3.scenes && s3.scenes == s2.scenes);

    assert forall|i: int|
        0 <= i < ts.len() implies s5.lookup.contains_key((#[trigger] ts[i]).0.id)
            && s5.lookup[ts[i].0.id] == s.world.len() + 1 + i && s5.textures.contains_key(
        ts[i].0.id,
    ) && s5.textures[ts[i].0.id] == ts[i].1 by {
        assert(s3.lookup.contains_key(ts[i].0.id) && s3.lookup[ts[i].0.id] == s2.world.len() + i);
        assert(s4.lookup.contains_key(ts[i].0.id) && s4.lookup[ts[i].0.id]
            == s3.lookup[ts[i].0.id]);
        assert(s5.lookup.contains_key(ts[i].0.id) && s5.lookup[ts[i].0.id]
            == s4.lookup[ts[i].0.id]);
        assert(s3.textures.contains_key(ts[i].0.id) && s3.textures[ts[i].0.id] == ts[i].1);
        assert(s4.textures == s3.textures && s5.textures == s4.textures);
    }
    assert forall|i: int|
        0 <= i < ms.len() implies s5.lookup.contains_key((#[trigger] ms[i]).0.id)
            && s5.lookup[ms[i].0.id] == s.world.len() + 1 + ts.len() + i
            && s5.materials.contains_key(ms[i].0.id) && s5.materials[ms[i].0.id] == ms[i].1 by {
        assert(s4.lookup.contains_key(ms[i].0.id) && s4.lookup[ms[i].0.id] == s3.world.len() + i);
        assert(s5.lookup.contains_key(ms[i].0.id) && s5.lookup[ms[i].0.id]
            == s4.lookup[ms[i].0.id]);
        assert(s4.materials.contains_key(ms[i].0.id) && s4.materials[ms[i].0.id] == ms[i].1);
        assert(s5.materials == s4.materials);
    }
    assert forall|i: int|
        0 <= i < mms.len() implies s5.lookup.contains_key((#[trigger] mms[i]).0.id)
            && s5.lookup[mms[i].0.id] == s.world.len() + 1 + ts.len() + ms.len() + i
            && s5.meshes.contains_key(mms[i].0.id) && s5.meshes[mms[i].0.id] == mms[i].1 by {
        assert(s5.lookup.contains_key(mms[i].0.id) && s5.lookup[mms[i].0.id]
            == s4.world.len() + i);
    }

    assert forall|e: int|
        (s.world.len() as int) < e <= s.world.len() + ts.len() implies (#[trigger] s5.world[e]).kind
            == Some(AssetKind::Texture) by {
        assert(s3.world[e] == (EntityRecord {
            kind: Some(AssetKind::Texture),
            has_data: true,
            derived_from: Some(root),
            ..blank_record()
        }));
        assert(s4.world[e] == s3.world[e]);
        assert(s5.world[e] == s4.world[e]);
    }
    assert forall|e: int|
        s.world.len() + ts.len() < e <= s.world.len() + ts.len() + ms.len() implies (
        #[trigger] s5.world[e]).kind == Some(AssetKind::Material) by {
        assert(s4.world[e] == (EntityRecord {
            kind: Some(AssetKind::Material),
            has_data: true,
            derived_from: Some(root),
            ..blank_record()
        }));
        assert(s5.world[e] == s4.world[e]);
    }
    assert forall|e: int|
        s.world.len() + ts.len() + ms.len() < e < s5.world.len() implies (
        #[trigger] s5.world[e]).kind == Some(AssetKind::Mesh) by {
        assert(s5.world[e] == (EntityRecord {
            kind: Some(AssetKind::Mesh),
            has_data: true,
            derived_from: Some(root),
            ..blank_record()
        }));
    }
    assert forall|e: int|
        (s.world.len() as int) < e < s5.world.len() implies (#[trigger] s5.world[e]).has_data
            && s5.world[e].derived_from == Some((s.world.len() as usize)) by {
        if e <= s.world.len() + ts.len() {
            assert(s3.world[e] == (EntityRecord {
                kind: Some(AssetKind::Texture),
                has_data: true,
                derived_from: Some(root),
                ..blank_record()
            }));
            assert(s4.world[e] == s3.world[e]);
            assert(s5.world[e] == s4.world[e]);
        } else if e <= s.world.len() + ts.len() + ms.len() {
            assert(s4.world[e] == (EntityRecord {
                kind: Some(AssetKind::Material),
                has_data: true,
                derived_from: Some(root),
                ..blank_record()
            }));
            assert(s5.world[e] == s4.world[e]);
        } else {
            assert(s5.world[e] == (EntityRecord {
                kind: Some(AssetKind::Mesh),
                has_data: true,
                derived_from: Some(root),
                ..blank_record()
            }));
        }
    }
    assert forall|e: int| 0 <= e < s.world.len() implies s5.world[e] == s.world[e] by {
        assert(s2.world[e] == s.world[e]);
        assert(s3.world[e] == s2.world[e]);
        assert(s4.world[e] == s3.world[e]);
        assert(s5.world[e] == s4.world[e]);
    }
}


/// Every identifier a message writes a mesh payload for.
pub open spec fn msg_mesh_ids(msg: AssetWorkerMessage) -> Set<u128> {
    match msg {
        AssetWorkerMessage::TextureLoaded { .. } => Set::empty(),
        AssetWorkerMessage::MeshLoaded { id, .. } => Set::empty().insert(id),
        AssetWorkerMessage::SceneLoaded { meshes, .. } => sub_ids(meshes@).to_set(),
    }
}

/// Every identifier a message writes a scene blueprint for.
pub open spec fn msg_scene_ids(msg: AssetWorkerMessage) -> Set<u128> {
    match msg {
        AssetWorkerMessage::TextureLoaded { .. } => Set::empty(),
        AssetWorkerMessage::MeshLoaded { .. } => Set::empty(),
        AssetWorkerMessage::SceneLoaded { id, .. } => Set::empty().insert(id),
    }
}

proof fn lemma_sub_textures_other_frames(
    s: IngestState,
    root: usize,
    items: Seq<(Handle<TextureData>, TextureData)>,
)
    ensures
        ingest_scene_textures_spec(s, root, items).meshes == s.meshes,
        ingest_scene_textures_spec(s, root, items).scenes == s.scenes,
    decreases items.len(),
{
    if items.len() > 0 {
        lemma_sub_textures_other_frames(
            ingest_sub_texture_spec(s, root, items.first()),
            root,
            items.drop_first(),
        );
    }
}

proof fn lemma_sub_materials_other_frames(
    s: IngestState,
    root: usize,
    items: Seq<(Handle<MaterialData>, MaterialData)>,
)
    ensures
        ingest_scene_materials_spec(s, root, items).meshes == s.meshes,
        ingest_scene_materials_spec(s, root, items).scenes == s.scenes,
    decreases items.len(),
{
    if items.len() > 0 {
        lemma_sub_materials_other_frames(
            ingest_sub_material_spec(s, root, items.first()),
            root,
            items.drop_first(),
        );
    }
}

proof fn lemma_sub_meshes_other_frames(
    s: IngestState,
    root: usize,
    items: Seq<(Handle<MeshData>, MeshData)>,
)
    ensures
        ingest_scene_meshes_spec(s, root, items).scenes == s.scenes,
    decreases items.len(),
{
    if items.len() > 0 {
        lemma_sub_meshes_other_frames(
            ingest_sub_mesh_spec(s, root, items.first()),
            root,
            items.drop_first(),
        );
    }
}

proof fn lemma_sub_meshes_frame(
    s: IngestState,
    root: usize,
    items: Seq<(Handle<MeshData>, MeshData)>,
    id: u128,
)
    requires
        !sub_ids(items).to_set().contains(id),
    ensures
        ingest_scene_meshes_spec(s, root, items).meshes.contains_key(id) == s.meshes.contains_key(
            id,
        ),
        s.meshes.contains_key(id) ==> ingest_scene_meshes_spec(s, root, items).meshes[id]
            == s.meshes[id],
    decreases items.len(),
{
    if items.len() > 0 {
        assert(sub_ids(items)[0] == items.first().0.id);
        assert(items.first().0.id != id);
        assert(sub_ids(items.drop_first()) =~= sub_ids(items).drop_first());
        assert forall|x: u128| sub_ids(items).drop_first().to_set().contains(x) implies sub_ids(
            items,
        ).to_set().contains(x) by {
            let k = choose|k: int|
                0 <= k < sub_ids(items).drop_first().len() && sub_ids(items).drop_first()[k] == x;
            assert(sub_ids(items)[k + 1] == x);
        }
        lemma_sub_meshes_frame(
            ingest_sub_mesh_spec(s, root, items.first()),
            root,
            items.drop_first(),
            id,
        );
    }
}

/// Frame property of one ingestion for meshes: a message that carries no
/// mesh payload for `id` leaves the mesh storage binding of `id` as it
/// was.
pub proof fn lemma_ingest_meshes_frame(s: IngestState, msg: AssetWorkerMessage, id: u128)
    requires
        !msg_mesh_ids(msg).contains(id),
    ensures
        ingest_message_spec(s, msg).meshes.contains_key(id) == s.meshes.contains_key(id),
        s.meshes.contains_key(id) ==> ingest_message_spec(s, msg).meshes[id] == s.meshes[id],
{
    match msg {
        AssetWorkerMessage::TextureLoaded { .. } => {},
        AssetWorkerMessage::MeshLoaded { .. } => {},
        AssetWorkerMessage::SceneLoaded { id: rid, path, scene, textures, materials, meshes } => {
            let (lk2, w2, root) = resolve_spec(s.lookup, s.world, rid);
            let s2 = IngestState {
                lookup: lk2,
                world: w2.update(
                    root as int,
                    EntityRecord {
                        name: Some(path),
                        kind: Some(crate::asset_server::AssetKind::Scene),
                        has_data: true,
                        ..w2[root as int]
                    },
                ),
                scenes: s.scenes.insert(rid, scene),
                ..s
            };
            let s3 = ingest_scene_textures_spec(s2, root, textures@);
            let s4 = ingest_scene_materials_spec(s3, root, materials@);
            lemma_sub_textures_other_frames(s2, root, textures@);
            lemma_sub_materials_other_frames(s3, root, materials@);
            lemma_sub_meshes_frame(s4, root, meshes@, id);
        },
    }
}

/// Frame property of one ingestion for scene blueprints: only a scene
/// message's own root identifier gains a blueprint.
pub proof fn lemma_ingest_scenes_frame(s: IngestState, msg: AssetWorkerMessage, id: u128)
    requires
        !msg_scene_ids(msg).contains(id),
    ensures
        ingest_message_spec(s, msg).scenes.contains_key(id) == s.scenes.contains_key(id),
        s.scenes.contains_key(id) ==> ingest_message_spec(s, msg).scenes[id] == s.scenes[id],
{
    match msg {
        AssetWorkerMessage::TextureLoaded { .. } => {},
        AssetWorkerMessage::MeshLoaded { .. } => {},
        AssetWorkerMessage::SceneLoaded { id: rid, path, scene, textures, materials, meshes } => {
            let (lk2, w2, root) = resolve_spec(s.lookup, s.world, rid);
            let s2 = IngestState {
                lookup: lk2,
                world: w2.update(
                    root as int,
                    EntityRecord {
                        name: Some(path),
                        kind: Some(crate::asset_server::AssetKind::Scene),
                        has_data: true,
                        ..w2[root as int]
                    },
                ),
                scenes: s.scenes.insert(rid, scene),
                ..s
            };
            let s3 = ingest_scene_textures_spec(s2, root, textures@);
            let s4 = ingest_scene_materials_spec(s3, root, materials@);
            lemma_sub_textures_other_frames(s2, root, textures@);
            lemma_sub_materials_other_frames(s3, root, materials@);
            lemma_sub_meshes_other_frames(s4, root, meshes@);
        },
    }
}

proof fn lemma_flush_meshes_frame(s: IngestState, msgs: Seq<AssetWorkerMessage>, id: u128)
    requires
        forall|j: int| 0 <= j < msgs.len() ==> !msg_mesh_ids(#[trigger] msgs[j]).contains(id),
    ensures
        flush_spec(s, msgs).meshes.contains_key(id) == s.meshes.contains_key(id),
        s.meshes.contains_key(id) ==> flush_spec(s, msgs).meshes[id] == s.meshes[id],
    decreases msgs.len(),
{
    if msgs.len() > 0 {
        assert(msgs[0] == msgs.first());
        lemma_ingest_meshes_frame(s, msgs.first(), id);
        assert(forall|j: int|
            0 <= j < msgs.drop_first().len() ==> msgs.drop_first()[j] == msgs[j + 1]);
        lemma_flush_meshes_frame(ingest_message_spec(s, msgs.first()), msgs.drop_first(), id);
    }
}

proof fn lemma_flush_scenes_frame(s: IngestState, msgs: Seq<AssetWorkerMessage>, id: u128)
    requires
        forall|j: int| 0 <= j < msgs.len() ==> !msg_scene_ids(#[trigger] msgs[j]).contains(id),
    ensures
        flush_spec(s, msgs).scenes.contains_key(id) == s.scenes.contains_key(id),
        s.scenes.contains_key(id) ==> flush_spec(s, msgs).scenes[id] == s.scenes[id],
    decreases msgs.len(),
{
    if msgs.len() > 0 {
        assert(msgs[0] == msgs.first());
        lemma_ingest_scenes_frame(s, msgs.first(), id);
        assert(forall|j: int|
            0 <= j < msgs.drop_first().len() ==> msgs.drop_first()[j] == msgs[j + 1]);
        lemma_flush_scenes_frame(ingest_message_spec(s, msgs.first()), msgs.drop_first(), id);
    }
}

/// Exactly-once materialization for a mesh load, as for textures.
pub proof fn lemma_exactly_once_mesh(
    s: IngestState,
    msgs: Seq<AssetWorkerMessage>,
    k: int,
    id: u128,
    path: String,
    data: MeshData,
)
    requires
        0 <= k < msgs.len(),
        msgs[k] == (AssetWorkerMessage::MeshLoaded { id, path, data }),
        forall|j: int|
            0 <= j < msgs.len() && j != k ==> !msg_mesh_ids(#[trigger] msgs[j]).contains(id),
    ensures
        flush_spec(s, msgs).meshes.contains_key(id),
        flush_spec(s, msgs).meshes[id] == data,
    decreases msgs.len(),
{
    assert(msgs[0] == msgs.first());
    assert(forall|j: int| 0 <= j < msgs.drop_first().len() ==> msgs.drop_first()[j] == msgs[j + 1]);
    if k == 0 {
        let s1 = ingest_message_spec(s, msgs.first());
        assert(s1.meshes.contains_key(id) && s1.meshes[id] == data);
        lemma_flush_meshes_frame(s1, msgs.drop_first(), id);
    } else {
        lemma_exactly_once_mesh(
            ingest_message_spec(s, msgs.first()),
            msgs.drop_first(),
            k - 1,
            id,
            path,
            data,
        );
    }
}

/// Exactly-once materialization for a scene load: after the drain that
/// ingests the scene message for `id`, the scene storage holds precisely
/// that blueprint under `id`.
pub proof fn lemma_exactly_once_scene(
    s: IngestState,
    msgs: Seq<AssetWorkerMessage>,
    k: int,
    id: u128,
    scene: SceneData,
)
    requires
        0 <= k < msgs.len(),
        msgs[k] matches AssetWorkerMessage::SceneLoaded { id: rid, scene: sc, .. } && rid == id
            && sc == scene,
        forall|j: int|
            0 <= j < msgs.len() && j != k ==> !msg_scene_ids(#[trigger] msgs[j]).contains(id),
    ensures
        flush_spec(s, msgs).scenes.contains_key(id),
        flush_spec(s, msgs).scenes[id] == scene,
    decreases msgs.len(),
{
    assert(msgs[0] == msgs.first());
    assert(forall|j: int| 0 <= j < msgs.drop_first().len() ==> msgs.drop_first()[j] == msgs[j + 1]);
    if k == 0 {
        let s1 = ingest_message_spec(s, msgs.first());
        assert(s1.scenes.contains_key(id) && s1.scenes[id] == scene) by {
            match msgs.first() {
                AssetWorkerMessage::SceneLoaded { id: rid, path, scene: sc, textures, materials, meshes } => {
                    let (lk2, w2, root) = resolve_spec(s.lookup, s.world, rid);
                    let s2 = IngestState {
                        lookup: lk2,
                        world: w2.update(
                            root as int,
                            EntityRecord {
                                name: Some(path),
                                kind: Some(crate::asset_server::AssetKind::Scene),
                                has_data: true,
                                ..w2[root as int]
                            },
                        ),
                        scenes: s.scenes.insert(rid, sc),
                        ..s
                    };
                    let s3 = ingest_scene_textures_spec(s2, root, textures@);
                    let s4 = ingest_scene_materials_spec(s3, root, materials@);
                    lemma_sub_textures_other_frames(s2, root, textures@);
                    lemma_sub_materials_other_frames(s3, root, materials@);
                    lemma_sub_meshes_other_frames(s4, root, meshes@);
                },
                _ => {},
            }
        }
        lemma_flush_scenes_frame(s1, msgs.drop_first(), id);
    } else {
        lemma_exactly_once_scene(
            ingest_message_spec(s, msgs.first()),
            msgs.drop_first(),
            k - 1,
            id,
            scene,
        );
    }
}

} // verus!
