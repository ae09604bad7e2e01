use catalyst_assets::assets::{Assets, Handle, MeshData};
use catalyst_assets::context::ContextId;
use catalyst_assets::gltf_extras;
use catalyst_assets::ids::IdGen;
use catalyst_assets::material::{
    MaterialData, MaterialSettings, BITS_HALF, BITS_ONE, BITS_ZERO,
};
use catalyst_assets::physics::{CollisionFilterDefinition, PhysicsBody};
use catalyst_assets::scene::{SceneData, SceneNode};
use catalyst_assets::scene_spawn::spawn_scene;
use catalyst_assets::time::Time;
use catalyst_assets::transform::Transform;
use catalyst_assets::world::World;

fn node(name: &str, mesh: Option<usize>, material: Option<usize>, children: Vec<usize>) -> SceneNode {
    SceneNode {
        name: name.to_string(),
        transform: Transform::default(),
        mesh_index: mesh,
        material_index: material,
        children,
    }
}

#[test]
fn spawn_scene_builds_the_hierarchy() {
    let mut world = World::new();
    let root = world.spawn();
    let mut ids = IdGen::new();
    let mesh_handle: Handle<MeshData> = Handle::new(&mut ids);
    let material_handle: Handle<MaterialData> = Handle::new(&mut ids);
    let scene = SceneData {
        meshes: vec![mesh_handle.duplicate()],
        materials: vec![material_handle.duplicate()],
        textures: vec![],
        nodes: vec![
            node("a", Some(0), Some(0), vec![1]),
            node("b", None, None, vec![2]),
            node("c", None, Some(0), vec![]),
        ],
    };
    spawn_scene(&mut world, root, &scene);

    assert_eq!(world.len(), 4);
    let base: usize = 1;
    // node 0 hangs off the scene root; 1 under 0; 2 under 1
    assert_eq!(world.record(base).parent, Some(root));
    assert_eq!(world.record(base + 1).parent, Some(base));
    assert_eq!(world.record(base + 2).parent, Some(base + 1));
    // components: transform everywhere, mesh and material only on node 0;
    // node 2 names a material but has no mesh, so it gets neither
    for i in 0..3 {
        assert!(world.record(base + i).transform.is_some());
        assert!(!world.record(base + i).has_data);
    }
    let rec0 = world.record(base);
    assert_eq!(rec0.mesh_def.as_ref().unwrap().0.id, mesh_handle.id);
    assert_eq!(
        rec0.material_def.as_ref().unwrap().0.id,
        material_handle.id
    );
    assert!(world.record(base + 1).mesh_def.is_none());
    assert!(world.record(base + 2).mesh_def.is_none());
    assert!(world.record(base + 2).material_def.is_none());
    // the root entity itself is untouched
    assert!(world.record(root).transform.is_none());
}

#[test]
fn reparenting_last_claim_wins() {
    let mut world = World::new();
    let root = world.spawn();
    let scene = SceneData {
        meshes: vec![],
        materials: vec![],
        textures: vec![],
        nodes: vec![
            node("a", None, None, vec![2]),
            node("b", None, None, vec![2]),
            node("c", None, None, vec![]),
        ],
    };
    spawn_scene(&mut world, root, &scene);
    let base: usize = 1;
    // both a and b claim c; b is processed later, so c ends under b
    assert_eq!(world.record(base + 2).parent, Some(base + 1));
}

#[test]
fn storage_add_and_get_round_trip() {
    let mut assets: Assets<MeshData> = Assets::new();
    let h = assets.add(MeshData { vertices: vec![], indices: vec![1, 2, 3] });
    let got = assets.get(&h).expect("added asset must be found");
    assert_eq!(got.indices, vec![1, 2, 3]);
    assert_eq!(assets.len(), 1);
    let other: Handle<MeshData> = Handle::from_id(h.id.wrapping_add(1));
    assert!(assets.get(&other).is_none());
}

#[test]
fn insert_by_id_binds_each_identifier_once() {
    let mut assets: Assets<MeshData> = Assets::new();
    assets.insert_by_id(7, MeshData { vertices: vec![], indices: vec![1] });
    assets.insert_by_id(7, MeshData { vertices: vec![], indices: vec![2] });
    assert_eq!(assets.len(), 1);
    let h: Handle<MeshData> = Handle::from_id(7);
    assert_eq!(assets.get(&h).unwrap().indices, vec![2]);
}

#[test]
fn default_material_is_opaque_white() {
    let m = MaterialData::default();
    assert_eq!(
        m.settings,
        MaterialSettings {
            base_color: [BITS_ONE, BITS_ONE, BITS_ONE, BITS_ONE],
            roughness: BITS_HALF,
            metallic: BITS_ZERO,
        }
    );
    assert!(m.diffuse_texture.is_none());
    assert!(m.normal_texture.is_none());
    assert!(m.metallic_roughness_texture.is_none());
    assert!(m.occlusion_texture.is_none());
}

#[test]
fn default_transform_is_identity() {
    let t = Transform::default();
    assert_eq!(t.translation, [BITS_ZERO, BITS_ZERO, BITS_ZERO]);
    assert_eq!(t.rotation, [BITS_ZERO, BITS_ZERO, BITS_ZERO, BITS_ONE]);
    assert_eq!(t.scale, [BITS_ONE, BITS_ONE, BITS_ONE]);
}

#[test]
fn time_records_frame_deltas() {
    let mut time = Time::default();
    assert_eq!(time.delta_nanos(), 0);
    time.update();
    time.update();
    // nothing is promised of the clock's values; only that the getters run
    let _ = time.delta_nanos();
    let _ = time.elapsed_nanos();
}

#[test]
fn scene_file_physics_bodies_convert_to_core_bodies() {
    assert_eq!(
        PhysicsBody::from(gltf_extras::PhysicsBody::Static),
        PhysicsBody::Static
    );
    assert_eq!(
        PhysicsBody::from(gltf_extras::PhysicsBody::Dynamic),
        PhysicsBody::Dynamic
    );
    assert_eq!(
        PhysicsBody::from(gltf_extras::PhysicsBody::Kinematic),
        PhysicsBody::Kinematic
    );
    assert_eq!(
        PhysicsBody::from(gltf_extras::PhysicsBody::Unknown),
        PhysicsBody::Unknown
    );
    assert_eq!(
        gltf_extras::PhysicsShape::Capsule,
        gltf_extras::PhysicsShape::Capsule
    );
}

#[test]
fn plain_identity_types_compare_by_value() {
    assert_eq!(ContextId(3), ContextId(3));
    assert_ne!(ContextId(3), ContextId(4));
    let f = CollisionFilterDefinition { layer: 1, mask: 0xFF };
    assert_eq!(f.layer, 1);
    assert_eq!(f.mask, 0xFF);
}
