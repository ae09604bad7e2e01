use catalyst_assets::gltf_unpack::{
    build_mesh_data, build_scene_payload, build_texture_data, build_textures, RawImage,
    RawMaterial, RawMesh, RawNode, RawScene,
};
use catalyst_assets::ids::IdGen;
use catalyst_assets::material::{TextureFormat, BITS_HALF, BITS_ONE, BITS_ZERO};
use catalyst_assets::transform::Transform;

/// A 1x1 PNG with one known pixel, encoded in memory.
fn tiny_png() -> Vec<u8> {
    let img = image::RgbaImage::from_pixel(1, 1, image::Rgba([10, 20, 30, 255]));
    let mut bytes: Vec<u8> = Vec::new();
    img.write_to(
        &mut std::io::Cursor::new(&mut bytes),
        image::ImageFormat::Png,
    )
    .expect("encoding a png in memory cannot fail");
    bytes
}

#[test]
fn texture_decoding_yields_the_pixels() {
    let png = tiny_png();
    let tex = build_texture_data("wall".to_string(), &png).expect("png must decode");
    assert_eq!(tex.name, "wall");
    assert_eq!(tex.width, 1);
    assert_eq!(tex.height, 1);
    assert_eq!(tex.pixels, vec![10, 20, 30, 255]);
    assert!(matches!(tex.format, TextureFormat::Rgba8Unorm));
}

#[test]
fn undecodable_bytes_are_rejected() {
    let garbage = vec![1u8, 2, 3, 4];
    let err = build_texture_data("x".to_string(), &garbage).unwrap_err();
    assert_eq!(err, "Failed to decode image");
}

#[test]
fn out_of_bounds_image_view_is_rejected() {
    let mut ids = IdGen::new();
    let buffers = vec![vec![0u8; 4]];
    let images = vec![RawImage {
        name: "i".to_string(),
        buffer_index: 0,
        offset: 2,
        length: 10,
    }];
    let err = build_textures(&buffers, &images, &mut ids).unwrap_err();
    assert_eq!(err, "Image view out of bounds");
    let images2 = vec![RawImage {
        name: "i".to_string(),
        buffer_index: 7,
        offset: 0,
        length: 1,
    }];
    let err2 = build_textures(&buffers, &images2, &mut ids).unwrap_err();
    assert_eq!(err2, "Image view out of bounds");
}

#[test]
fn mesh_interleaving_uses_defaults_for_missing_attributes() {
    let raw = RawMesh {
        positions: Some(vec![[1, 2, 3], [4, 5, 6]]),
        normals: None,
        uvs: None,
        indices: Some(vec![0, 1, 0]),
    };
    let mesh = build_mesh_data(&raw).expect("mesh must build");
    assert_eq!(mesh.vertices.len(), 2);
    assert_eq!(mesh.vertices[0].position, [1, 2, 3]);
    assert_eq!(mesh.vertices[0].normal, [BITS_ZERO, BITS_ONE, BITS_ZERO]);
    assert_eq!(mesh.vertices[0].uv, [BITS_ZERO, BITS_ZERO]);
    assert_eq!(mesh.vertices[1].position, [4, 5, 6]);
    assert_eq!(mesh.indices, vec![0, 1, 0]);
}

#[test]
fn mesh_without_positions_or_indices_is_rejected() {
    let no_positions = RawMesh {
        positions: None,
        normals: None,
        uvs: None,
        indices: Some(vec![0]),
    };
    assert_eq!(
        build_mesh_data(&no_positions).unwrap_err(),
        "Mesh missing positions"
    );
    let no_indices = RawMesh {
        positions: Some(vec![[0, 0, 0]]),
        normals: None,
        uvs: None,
        indices: None,
    };
    assert_eq!(
        build_mesh_data(&no_indices).unwrap_err(),
        "Mesh missing indices"
    );
}

fn sample_scene() -> RawScene {
    RawScene {
        buffers: vec![tiny_png()],
        images: vec![RawImage {
            name: "embedded".to_string(),
            buffer_index: 0,
            offset: 0,
            length: tiny_png().len(),
        }],
        materials: vec![RawMaterial {
            base_color: [BITS_ONE, BITS_ONE, BITS_ONE, BITS_ONE],
            roughness: BITS_HALF,
            metallic: BITS_ZERO,
            base_color_texture: Some(0),
            metallic_roughness_texture: None,
            normal_texture: None,
            occlusion_texture: None,
        }],
        meshes: vec![RawMesh {
            positions: Some(vec![[0, 0, 0], [1, 1, 1], [2, 2, 2]]),
            normals: Some(vec![[9, 9, 9], [9, 9, 9], [9, 9, 9]]),
            uvs: None,
            indices: Some(vec![0, 1, 2]),
        }],
        nodes: vec![
            RawNode {
                name: "parent".to_string(),
                transform: Transform::default(),
                mesh_index: Some(0),
                material_index: Some(0),
                children: vec![1],
            },
            RawNode {
                name: "child".to_string(),
                transform: Transform::default(),
                mesh_index: None,
                material_index: None,
                children: vec![],
            },
        ],
    }
}

#[test]
fn scene_payload_bundles_everything_with_fresh_handles() {
    let mut ids = IdGen::new();
    let raw = sample_scene();
    let p = build_scene_payload(&raw, &mut ids).expect("scene must unpack");

    assert_eq!(p.textures.len(), 1);
    assert_eq!(p.materials.len(), 1);
    assert_eq!(p.meshes.len(), 1);
    assert_eq!(p.scene.nodes.len(), 2);

    // the blueprint's handle lists agree with the bundled artifacts
    assert_eq!(p.scene.textures[0].id, p.textures[0].0.id);
    assert_eq!(p.scene.materials[0].id, p.materials[0].0.id);
    assert_eq!(p.scene.meshes[0].id, p.meshes[0].0.id);

    // all minted handles are pairwise distinct
    let all = [p.textures[0].0.id, p.materials[0].0.id, p.meshes[0].0.id];
    assert_ne!(all[0], all[1]);
    assert_ne!(all[0], all[2]);
    assert_ne!(all[1], all[2]);

    // the material links the texture by handle, and because it samples it
    // as base colour, the texture was retagged as sRGB
    let mat = &p.materials[0].1;
    assert_eq!(mat.diffuse_texture.as_ref().unwrap().id, p.textures[0].0.id);
    assert!(mat.normal_texture.is_none());
    assert!(matches!(
        p.textures[0].1.format,
        TextureFormat::Rgba8UnormSrgb
    ));
    assert_eq!(p.textures[0].1.pixels, vec![10, 20, 30, 255]);
    assert_eq!(p.textures[0].1.name, "embedded");

    // meshes keep their attribute arrays, interleaved
    let mesh = &p.meshes[0].1;
    assert_eq!(mesh.vertices.len(), 3);
    assert_eq!(mesh.vertices[1].position, [1, 1, 1]);
    assert_eq!(mesh.vertices[1].normal, [9, 9, 9]);
    assert_eq!(mesh.vertices[1].uv, [BITS_ZERO, BITS_ZERO]);
    assert_eq!(mesh.indices, vec![0, 1, 2]);

    // the node graph survives intact
    assert_eq!(p.scene.nodes[0].name, "parent");
    assert_eq!(p.scene.nodes[0].mesh_index, Some(0));
    assert_eq!(p.scene.nodes[0].material_index, Some(0));
    assert_eq!(p.scene.nodes[0].children, vec![1]);
    assert_eq!(p.scene.nodes[1].name, "child");
    assert!(p.scene.nodes[1].mesh_index.is_none());
}

#[test]
fn unreferenced_textures_keep_the_linear_format() {
    let mut ids = IdGen::new();
    let mut raw = sample_scene();
    raw.materials[0].base_color_texture = None;
    let p = build_scene_payload(&raw, &mut ids).expect("scene must unpack");
    assert!(matches!(p.textures[0].1.format, TextureFormat::Rgba8Unorm));
}

#[test]
fn material_referencing_missing_texture_is_rejected() {
    let mut ids = IdGen::new();
    let mut raw = sample_scene();
    raw.materials[0].base_color_texture = Some(5);
    let err = build_scene_payload(&raw, &mut ids).unwrap_err();
    assert_eq!(err, "Material references missing texture");
}

#[test]
fn node_with_dangling_reference_is_rejected() {
    let mut ids = IdGen::new();
    let mut raw = sample_scene();
    raw.nodes[0].children = vec![9];
    let err = build_scene_payload(&raw, &mut ids).unwrap_err();
    assert_eq!(err, "Scene node index out of range");
}

#[test]
fn malformed_mesh_fails_the_whole_scene() {
    let mut ids = IdGen::new();
    let mut raw = sample_scene();
    raw.meshes[0].positions = None;
    let err = build_scene_payload(&raw, &mut ids).unwrap_err();
    assert_eq!(err, "Mesh missing positions");
}
