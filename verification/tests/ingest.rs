use catalyst_assets::asset_server::{AssetKind, AssetWorkerMessage};
use catalyst_assets::asset_events::AssetEvent;
use catalyst_assets::assets::{Handle, MeshData, Vertex};
use catalyst_assets::flush_asset_events;
use catalyst_assets::ids::IdGen;
use catalyst_assets::material::{MaterialData, TextureData, TextureFormat};
use catalyst_assets::scene::SceneData;
use catalyst_assets::world::World;
use catalyst_assets::AssetPlugin;

fn tiny_texture(name: &str) -> TextureData {
    TextureData {
        name: name.to_string(),
        pixels: vec![0, 255, 0, 255],
        width: 1,
        height: 1,
        format: TextureFormat::Rgba8Unorm,
    }
}

fn tiny_mesh() -> MeshData {
    MeshData {
        vertices: vec![Vertex {
            position: [0, 0, 0],
            normal: [0, 0x3F80_0000, 0],
            uv: [0, 0],
        }],
        indices: vec![0, 0, 0],
    }
}

#[test]
fn placeholder_resolution_is_idempotent() {
    let mut hub = AssetPlugin.build();
    let mut world = World::new();
    let h = hub.server.load_texture("a.png");
    let e1 = hub.store.lookup.entity(h.id, &mut world);
    let e2 = hub.store.lookup.entity(h.id, &mut world);
    assert_eq!(e1, e2);
    assert_eq!(world.len(), 1);
    // still the same entity after a tick has ingested the data
    hub.channel.send(AssetWorkerMessage::TextureLoaded {
        id: h.id,
        path: "a.png".to_string(),
        data: tiny_texture("a"),
    });
    flush_asset_events(&mut hub, &mut world);
    let e3 = hub.store.lookup.entity(h.id, &mut world);
    assert_eq!(e1, e3);
}

#[test]
fn texture_load_becomes_visible_after_one_tick() {
    // request a texture; before any tick the resolved entity has no data;
    // after the tick that drains its message, it does
    let mut hub = AssetPlugin.build();
    let mut world = World::new();
    let h = hub.server.load_texture("a.png");
    let e = hub.store.lookup.entity(h.id, &mut world);
    assert!(!world.record(e).has_data);
    assert!(world.record(e).kind.is_none());
    assert!(hub.store.textures.get(&h).is_none());

    // the worker completes
    hub.channel.send(AssetWorkerMessage::TextureLoaded {
        id: h.id,
        path: "a.png".to_string(),
        data: tiny_texture("a"),
    });
    flush_asset_events(&mut hub, &mut world);

    let rec = world.record(e);
    assert!(rec.has_data);
    assert!(matches!(rec.kind, Some(AssetKind::Texture)));
    assert_eq!(rec.name.as_deref(), Some("a.png"));
    let stored = hub.store.textures.get(&h).expect("texture must be stored");
    assert_eq!(stored.width, 1);
    assert_eq!(stored.height, 1);
    assert_eq!(stored.pixels, vec![0, 255, 0, 255]);
    assert_eq!(hub.store.textures.len(), 1);
    assert_eq!(hub.store.events.len(), 1);
    match &hub.store.events[0] {
        AssetEvent::TextureLoaded { id, path } => {
            assert_eq!(*id, h.id);
            assert_eq!(path, "a.png");
        }
        other => panic!("unexpected event {:?}", other),
    }
}

#[test]
fn materialization_is_exactly_once() {
    let mut hub = AssetPlugin.build();
    let mut world = World::new();
    let h = hub.server.load_texture("a.png");
    hub.channel.send(AssetWorkerMessage::TextureLoaded {
        id: h.id,
        path: "a.png".to_string(),
        data: tiny_texture("a"),
    });
    flush_asset_events(&mut hub, &mut world);
    assert_eq!(hub.store.textures.len(), 1);
    // a later empty tick leaves the one record alone
    flush_asset_events(&mut hub, &mut world);
    assert_eq!(hub.store.textures.len(), 1);
    assert_eq!(world.len(), 1);
}

#[test]
fn empty_flush_changes_nothing() {
    let mut hub = AssetPlugin.build();
    let mut world = World::new();
    let h = hub.server.load_texture("a.png");
    let e = hub.store.lookup.entity(h.id, &mut world);
    let before_len = world.len();
    flush_asset_events(&mut hub, &mut world);
    assert_eq!(world.len(), before_len);
    assert!(!world.record(e).has_data);
    assert_eq!(hub.store.textures.len(), 0);
    assert_eq!(hub.store.events.len(), 0);
}

#[test]
fn scene_bundle_unpacks_into_tagged_linked_entities() {
    // a scene embedding 2 textures and 1 material: after ingestion exactly
    // 4 entities exist, tagged {Scene, Texture, Texture, Material}, each
    // sub-asset linked to the scene root
    let mut hub = AssetPlugin.build();
    let mut world = World::new();
    let root_handle = hub.server.load_scene("s.glb");

    let mut worker_ids = IdGen::new();
    let t1: Handle<TextureData> = Handle::new(&mut worker_ids);
    let t2: Handle<TextureData> = Handle::new(&mut worker_ids);
    let m1: Handle<MaterialData> = Handle::new(&mut worker_ids);
    let scene = SceneData {
        meshes: vec![],
        materials: vec![m1.duplicate()],
        textures: vec![t1.duplicate(), t2.duplicate()],
        nodes: vec![],
    };
    hub.channel.send(AssetWorkerMessage::SceneLoaded {
        id: root_handle.id,
        path: "s.glb".to_string(),
        scene,
        textures: vec![
            (t1.duplicate(), tiny_texture("t1")),
            (t2.duplicate(), tiny_texture("t2")),
        ],
        materials: vec![(m1.duplicate(), MaterialData::default())],
        meshes: vec![],
    });
    flush_asset_events(&mut hub, &mut world);

    assert_eq!(world.len(), 4);
    let root = hub.store.lookup.entity(root_handle.id, &mut world);
    let e1 = hub.store.lookup.entity(t1.id, &mut world);
    let e2 = hub.store.lookup.entity(t2.id, &mut world);
    let em = hub.store.lookup.entity(m1.id, &mut world);
    assert_eq!(world.len(), 4, "resolution after ingest creates nothing new");

    let root_rec = world.record(root);
    assert!(matches!(root_rec.kind, Some(AssetKind::Scene)));
    assert!(root_rec.has_data);
    assert_eq!(root_rec.name.as_deref(), Some("s.glb"));
    assert!(root_rec.derived_from.is_none());

    for (e, kind_is_texture) in [(e1, true), (e2, true), (em, false)] {
        let rec = world.record(e);
        assert!(rec.has_data);
        assert_eq!(rec.derived_from, Some(root));
        if kind_is_texture {
            assert!(matches!(rec.kind, Some(AssetKind::Texture)));
        } else {
            assert!(matches!(rec.kind, Some(AssetKind::Material)));
        }
    }

    assert_eq!(hub.store.scenes.len(), 1);
    assert_eq!(hub.store.textures.len(), 2);
    assert_eq!(hub.store.materials.len(), 1);
    assert!(hub.store.scenes.get(&root_handle).is_some());
    assert!(hub.store.textures.get(&t1).is_some());
    assert!(hub.store.textures.get(&t2).is_some());
    assert!(hub.store.materials.get(&m1).is_some());
    // events: two textures then one material, all for the embedded assets
    assert_eq!(hub.store.events.len(), 3);
    match &hub.store.events[0] {
        AssetEvent::TextureLoaded { id, path } => {
            assert_eq!(*id, t1.id);
            assert_eq!(path, "embedded_in_scene");
        }
        other => panic!("unexpected event {:?}", other),
    }
    match &hub.store.events[2] {
        AssetEvent::MaterialLoaded { id } => assert_eq!(*id, m1.id),
        other => panic!("unexpected event {:?}", other),
    }
}

#[test]
fn mesh_message_materializes_mesh() {
    let mut hub = AssetPlugin.build();
    let mut world = World::new();
    let h = hub.server.load_mesh("m.obj");
    hub.channel.send(AssetWorkerMessage::MeshLoaded {
        id: h.id,
        path: "m.obj".to_string(),
        data: tiny_mesh(),
    });
    flush_asset_events(&mut hub, &mut world);
    let e = hub.store.lookup.entity(h.id, &mut world);
    assert!(matches!(world.record(e).kind, Some(AssetKind::Mesh)));
    let stored = hub.store.meshes.get(&h).expect("mesh must be stored");
    assert_eq!(stored.vertices.len(), 1);
    assert_eq!(stored.indices, vec![0, 0, 0]);
}

#[test]
fn failed_load_stays_pending_forever() {
    // a load whose worker never completes: the resolved entity never gains
    // a data component, however many ticks pass
    let mut hub = AssetPlugin.build();
    let mut world = World::new();
    let h = hub.server.load_texture("does_not_exist.png");
    let e = hub.store.lookup.entity(h.id, &mut world);
    for _ in 0..5 {
        flush_asset_events(&mut hub, &mut world);
        assert!(!world.record(e).has_data);
        assert!(world.record(e).kind.is_none());
        assert!(hub.store.textures.get(&h).is_none());
    }
}
