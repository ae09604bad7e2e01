//! Building a scene completion payload from decoded scene-file content.
//!
//! A background worker hands this module the plain shape of a scene file:
//! raw byte buffers, image references into them, material factors, mesh
//! attribute arrays and a node list. The module decodes the embedded
//! images, mints a fresh handle for every sub-asset, wires material and
//! node references into handles and indices, and produces the payload
//! bundle that travels in one scene completion message. Malformed content
//! is rejected with an error, and the worker then sends no message at
//! all.
//!
//! Scalar factors and vertex attributes are IEEE-754 bit patterns in
//! `u32` fields throughout; this module moves them without interpreting
//! them.

use crate::assets::{Handle, MeshData, Vertex};
use crate::ids::{id_low, IdGen};
use crate::material::{MaterialData, MaterialSettings, TextureData, TextureFormat, BITS_ONE, BITS_ZERO};
use crate::scene::{node_wf, SceneData, SceneNode};
use crate::transform::Transform;
use vstd::prelude::*;

verus! {

broadcast use vstd::string::group_string_axioms;

/// What decoding an image byte stream yields: `None` when the bytes are
/// not a decodable image, otherwise width, height and the tightly packed
/// RGBA8 pixel buffer. The result depends on the bytes alone.
pub uninterp spec fn decoded_rgba(bytes: Seq<u8>) -> Option<(u32, u32, Seq<u8>)>;

/// Relies on image::load_from_memory and DynamicImage::to_rgba8: decoding
/// is a function of the input bytes alone; a decoded image comes back as
/// an RGBA8 buffer of exactly width * height * 4 bytes.
#[verifier::external_body]
fn decode_rgba8(bytes: &[u8]) -> (r: Option<(u32, u32, Vec<u8>)>)
    ensures
        r matches Some(t) ==> decoded_rgba(bytes@) == Some((t.0, t.1, t.2@)) && t.2@.len() == t.0
            * t.1 * 4,
        (r is None) ==> (decoded_rgba(bytes@) is None),
{
    match image::load_from_memory(bytes) {
        Ok(img) => {
            let rgba = img.to_rgba8();
            let w = rgba.width();
            let h = rgba.height();
            Some((w, h, rgba.into_raw()))
        },
        Err(_) => None,
    }
}

/// An embedded image: a view into one of the scene file's byte buffers.
#[derive(Clone, Debug)]
pub struct RawImage {
    pub name: String,
    pub buffer_index: usize,
    pub offset: usize,
    pub length: usize,
}

/// Scalar factors and texture references of one material, by image index.
#[derive(Clone, Copy, Debug)]
pub struct RawMaterial {
    pub base_color: [u32; 4],
    pub roughness: u32,
    pub metallic: u32,
    pub base_color_texture: Option<usize>,
    pub metallic_roughness_texture: Option<usize>,
    pub normal_texture: Option<usize>,
    pub occlusion_texture: Option<usize>,
}

/// The attribute arrays of one mesh primitive, as the file carries them.
/// Positions and indices are mandatory in a well-formed file; normals and
/// texture coordinates get defaults when missing.
#[derive(Clone, Debug)]
pub struct RawMesh {
    pub positions: Option<Vec<[u32; 3]>>,
    pub normals: Option<Vec<[u32; 3]>>,
    pub uvs: Option<Vec<[u32; 2]>>,
    pub indices: Option<Vec<u32>>,
}

/// One node of the file's scene graph.
#[derive(Clone, Debug)]
pub struct RawNode {
    pub name: String,
    pub transform: Transform,
    pub mesh_index: Option<usize>,
    pub material_index: Option<usize>,
    pub children: Vec<usize>,
}

/// The plain shape of one decoded scene file.
#[derive(Debug)]
pub struct RawScene {
    pub buffers: Vec<Vec<u8>>,
    pub images: Vec<RawImage>,
    pub materials: Vec<RawMaterial>,
    pub meshes: Vec<RawMesh>,
    pub nodes: Vec<RawNode>,
}

/// Everything one scene load hands to the completion channel: the
/// blueprint plus every embedded sub-asset paired with its fresh handle.
#[derive(Debug)]
pub struct ScenePayload {
    pub scene: SceneData,
    pub textures: Vec<(Handle<TextureData>, TextureData)>,
    pub materials: Vec<(Handle<MaterialData>, MaterialData)>,
    pub meshes: Vec<(Handle<MeshData>, MeshData)>,
}

/// Whether an image reference lands inside its buffer.
pub open spec fn image_in_bounds(buffers: Seq<Vec<u8>>, img: RawImage) -> bool {
    &&& img.buffer_index < buffers.len()
    &&& img.offset + img.length <= buffers[img.buffer_index as int]@.len()
}

/// The byte view an image reference selects.
pub open spec fn image_slice(buffers: Seq<Vec<u8>>, img: RawImage) -> Seq<u8> {
    buffers[img.buffer_index as int]@.subrange(
        img.offset as int,
        img.offset + img.length,
    )
}

/// Whether an embedded image is usable: in bounds and decodable.
pub open spec fn image_ok(buffers: Seq<Vec<u8>>, img: RawImage) -> bool {
    image_in_bounds(buffers, img) && (decoded_rgba(image_slice(buffers, img)) is Some)
}

fn slice_bytes(buf: &Vec<u8>, start: usize, len: usize) -> (out: Vec<u8>)
    requires
        start + len <= buf@.len(),
    ensures
        out@ == buf@.subrange(start as int, start + len),
{
    let mut out: Vec<u8> = Vec::new();
    let total = buf.len();
    let mut i: usize = 0;
    while i < len
        invariant
            start + len <= total == buf@.len(),
            i <= len,
            out@ == buf@.subrange(start as int, start + i),
        decreases len - i,
    {
        out.push(buf[start + i]);
        proof {
            assert(out@ =~= buf@.subrange(start as int, start + i + 1));
        }
        i = i + 1;
    }
    out
}

/// Decodes one embedded texture from its bytes. Exactly the images whose
/// bytes decode yield a texture; the result's dimensions and pixels are
/// those of the decoded image, initially tagged with the standard colour
/// format.
pub fn build_texture_data(name: String, bytes: &Vec<u8>) -> (r: Result<TextureData, String>)
    ensures
        (r is Ok) <==> (decoded_rgba(bytes@) is Some),
        r matches Ok(t) ==> ({
            let d = decoded_rgba(bytes@).unwrap();
            &&& t.name == name
            &&& t.width == d.0
            &&& t.height == d.1
            &&& t.pixels@ == d.2
            &&& t.format == TextureFormat::Rgba8Unorm
        }),
        r matches Err(e) ==> e@ == "Failed to decode image"@,
{
    match decode_rgba8(bytes.as_slice()) {
        Some((width, height, pixels)) => Ok(
            TextureData { name, pixels, width, height, format: TextureFormat::Rgba8Unorm },
        ),
        None => Err("Failed to decode image".to_string()),
    }
}

/// Decodes every embedded image and pairs it with a fresh handle; the
/// handles' embedded counters run consecutively from the allocator's
/// current count, so all minted handles are distinct.
pub fn build_textures(buffers: &Vec<Vec<u8>>, images: &Vec<RawImage>, ids: &mut IdGen) -> (r:
    Result<Vec<(Handle<TextureData>, TextureData)>, String>)
    requires
        old(ids).spec_count() + images@.len() <= u64::MAX,
    ensures
        (r is Ok) <==> (forall|i: int|
            0 <= i < images@.len() ==> image_ok(buffers@, #[trigger] images@[i])),
        r matches Ok(v) ==> ({
            &&& v@.len() == images@.len()
            &&& final(ids).spec_count() == old(ids).spec_count() + images@.len()
            &&& (forall|i: int|
                0 <= i < images@.len() ==> ({
                    let d = decoded_rgba(
                        image_slice(buffers@, #[trigger] images@[i]),
                    ).unwrap();
                    &&& v@[i].1.name == images@[i].name
                    &&& v@[i].1.width == d.0
                    &&& v@[i].1.height == d.1
                    &&& v@[i].1.pixels@ == d.2
                    &&& v@[i].1.format == TextureFormat::Rgba8Unorm
                    &&& id_low(v@[i].0.id) == old(ids).spec_count() + i
                }))
        }),
        r matches Err(e) ==> ({
            &&& (exists|i: int|
                0 <= i < images@.len() && !image_ok(buffers@, #[trigger] images@[i]))
            &&& (e@ == "Image view out of bounds"@ || e@ == "Failed to decode image"@)
            &&& final(ids).spec_count() == old(ids).spec_count()
        }),
{
    let mut decoded: Vec<TextureData> = Vec::new();
    let mut i: usize = 0;
    while i < images.len()
        invariant
            old(ids).spec_count() + images@.len() <= u64::MAX,
            *ids == *old(ids),
            i <= images@.len(),
            decoded@.len() == i as int,
            forall|k: int|
                0 <= k < i as int ==> image_ok(buffers@, #[trigger] images@[k]),
            forall|k: int|
                0 <= k < i as int ==> ({
                    let d = decoded_rgba(
                        image_slice(buffers@, #[trigger] images@[k]),
                    ).unwrap();
                    &&& decoded@[k].name == images@[k].name
                    &&& decoded@[k].width == d.0
                    &&& decoded@[k].height == d.1
                    &&& decoded@[k].pixels@ == d.2
                    &&& decoded@[k].format == TextureFormat::Rgba8Unorm
                }),
        decreases images@.len() - i,
    {
        let img = &images[i];
        if img.buffer_index >= buffers.len() {
            return Err("Image view out of bounds".to_string());
        }
        let buf = &buffers[img.buffer_index];
        if img.offset > buf.len() || img.length > buf.len() - img.offset {
            return Err("Image view out of bounds".to_string());
        }
        let bytes = slice_bytes(buf, img.offset, img.length);
        proof {
            assert(bytes@ == image_slice(buffers@, images@[i as int]));
        }
        let tex = match build_texture_data(img.name.clone(), &bytes) {
            Ok(t) => t,
            Err(e) => {
                return Err(e);
            },
        };
        decoded.push(tex);
        i = i + 1;
    }
    let mut out: Vec<(Handle<TextureData>, TextureData)> = Vec::new();
    let ghost all = decoded@;
    let ghost mut j: int = 0;
    while decoded.len() > 0
        invariant
            old(ids).spec_count() + all.len() <= u64::MAX,
            0 <= j <= all.len(),
            decoded@ == all.skip(j),
            out@.len() == j,
            ids.spec_count() == old(ids).spec_count() + j,
            forall|k: int|
                0 <= k < j ==> (#[trigger] out@[k]).1 == all[k] && id_low(out@[k].0.id) == old(
                    ids,
                ).spec_count() + k,
        decreases decoded@.len(),
    {
        let handle: Handle<TextureData> = Handle::new(ids);
        let tex = decoded.remove(0);
        proof {
            assert(all.skip(j).len() > 0);
            assert(tex == all[j]);
        }
        out.push((handle, tex));
        proof {
            j = j + 1;
            assert(decoded@ =~= all.skip(j));
        }
    }
    proof {
        assert(all.skip(j).len() == 0);
        assert(j == all.len());
    }
    Ok(out)
}


/// What one material assigns to texture slot `j`, if it references it:
/// the base-colour slot samples as sRGB, every data slot as linear. When
/// one material uses a texture in several slots, the last slot written
/// wins, which is the order checked here.
pub open spec fn slot_format(m: RawMaterial, j: usize) -> Option<TextureFormat> {
    if m.occlusion_texture == Some(j) {
        Some(TextureFormat::Rgba8Unorm)
    } else if m.normal_texture == Some(j) {
        Some(TextureFormat::Rgba8Unorm)
    } else if m.metallic_roughness_texture == Some(j) {
        Some(TextureFormat::Rgba8Unorm)
    } else if m.base_color_texture == Some(j) {
        Some(TextureFormat::Rgba8UnormSrgb)
    } else {
        None
    }
}

/// The format texture `j` ends with after the materials have been walked
/// in order over a texture that started as `base`: the last material that
/// references `j` decides.
pub open spec fn tex_format_from(
    materials: Seq<RawMaterial>,
    j: usize,
    base: TextureFormat,
) -> TextureFormat
    decreases materials.len(),
{
    if materials.len() == 0 {
        base
    } else {
        match slot_format(materials.last(), j) {
            Some(f) => f,
            None => tex_format_from(materials.drop_last(), j, base),
        }
    }
}

proof fn lemma_format_push(ms: Seq<RawMaterial>, m: RawMaterial, j: usize, base: TextureFormat)
    ensures
        tex_format_from(ms.push(m), j, base) == (match slot_format(m, j) {
            Some(f) => f,
            None => tex_format_from(ms, j, base),
        }),
{
    assert(ms.push(m).last() == m);
    assert(ms.push(m).drop_last() =~= ms);
}

/// Whether every texture slot of a material points into the image list.
pub open spec fn material_refs_ok(m: RawMaterial, n: nat) -> bool {
    &&& m.base_color_texture matches Some(j) ==> j < n
    &&& m.metallic_roughness_texture matches Some(j) ==> j < n
    &&& m.normal_texture matches Some(j) ==> j < n
    &&& m.occlusion_texture matches Some(j) ==> j < n
}

fn set_format(ts: &mut Vec<(Handle<TextureData>, TextureData)>, j: usize, f: TextureFormat)
    requires
        j < old(ts)@.len(),
    ensures
        final(ts)@.len() == old(ts)@.len(),
        final(ts)@[j as int].0 == old(ts)@[j as int].0,
        final(ts)@[j as int].1 == (TextureData { format: f, ..old(ts)@[j as int].1 }),
        forall|k: int| 0 <= k < old(ts)@.len() && k != j ==> final(ts)@[k] == old(ts)@[k],
{
    let slot = vstd::std_specs::vec::vec_index_mut(ts, j);
    slot.1.format = f;
}

/// Walks the materials in order and retags each referenced texture with
/// the format its (last) referencing slot requires; unreferenced textures
/// keep their format. Only formats change: every handle, pixel buffer,
/// name and dimension stays as it was.
pub fn apply_material_formats(
    textures: &mut Vec<(Handle<TextureData>, TextureData)>,
    materials: &Vec<RawMaterial>,
)
    requires
        forall|i: int|
            0 <= i < materials@.len() ==> material_refs_ok(
                #[trigger] materials@[i],
                old(textures)@.len(),
            ),
    ensures
        final(textures)@.len() == old(textures)@.len(),
        forall|k: int|
            0 <= k < old(textures)@.len() ==> (#[trigger] final(textures)@[k]).0 == old(
                textures,
            )@[k].0 && final(textures)@[k].1 == (TextureData {
                format: tex_format_from(materials@, k as usize, old(textures)@[k].1.format),
                ..old(textures)@[k].1
            }),
{
    let n_tex = textures.len();
    let mut i: usize = 0;
    while i < materials.len()
        invariant
            forall|q: int|
                0 <= q < materials@.len() ==> material_refs_ok(
                    #[trigger] materials@[q],
                    old(textures)@.len(),
                ),
            i <= materials@.len(),
            n_tex == old(textures)@.len(),
            textures@.len() == old(textures)@.len(),
            forall|k: int|
                0 <= k < old(textures)@.len() ==> (#[trigger] textures@[k]).0 == old(
                    textures,
                )@[k].0 && textures@[k].1 == (TextureData {
                    format: tex_format_from(
                        materials@.take(i as int),
                        k as usize,
                        old(textures)@[k].1.format,
                    ),
                    ..old(textures)@[k].1
                }),
        decreases materials@.len() - i,
    {
        let m = materials[i];
        let ghost g0 = textures@;
        match m.base_color_texture {
            Some(j) => set_format(textures, j, TextureFormat::Rgba8UnormSrgb),
            None => {},
        }
        let ghost g1 = textures@;
        match m.metallic_roughness_texture {
            Some(j) => set_format(textures, j, TextureFormat::Rgba8Unorm),
            None => {},
        }
        let ghost g2 = textures@;
        match m.normal_texture {
            Some(j) => set_format(textures, j, TextureFormat::Rgba8Unorm),
            None => {},
        }
        let ghost g3 = textures@;
        match m.occlusion_texture {
            Some(j) => set_format(textures, j, TextureFormat::Rgba8Unorm),
            None => {},
        }
        proof {
            assert(materials@.take(i + 1) =~= materials@.take(i as int).push(m));
            assert forall|k: int| 0 <= k < old(textures)@.len() implies (
            #[trigger] textures@[k]).0 == old(textures)@[k].0 && textures@[k].1 == (TextureData {
                format: tex_format_from(
                    materials@.take(i + 1),
                    k as usize,
                    old(textures)@[k].1.format,
                ),
                ..old(textures)@[k].1
            }) by {
                let ku = k as usize;
                assert(g1[k].0 == g0[k].0 && g1[k].1 == (TextureData {
                    format: if m.base_color_texture == Some(ku) {
                        TextureFormat::Rgba8UnormSrgb
                    } else {
                        g0[k].1.format
                    },
                    ..g0[k].1
                }));
                assert(g2[k].0 == g1[k].0 && g2[k].1 == (TextureData {
                    format: if m.metallic_roughness_texture == Some(ku) {
                        TextureFormat::Rgba8Unorm
                    } else {
                        g1[k].1.format
                    },
                    ..g1[k].1
                }));
                assert(g3[k].0 == g2[k].0 && g3[k].1 == (TextureData {
                    format: if m.normal_texture == Some(ku) {
                        TextureFormat::Rgba8Unorm
                    } else {
                        g2[k].1.format
                    },
                    ..g2[k].1
                }));
                assert(textures@[k].0 == g3[k].0 && textures@[k].1 == (TextureData {
                    format: if m.occlusion_texture == Some(ku) {
                        TextureFormat::Rgba8Unorm
                    } else {
                        g3[k].1.format
                    },
                    ..g3[k].1
                }));
                assert(textures@[k].1.format == (match slot_format(m, ku) {
                    Some(f) => f,
                    None => g0[k].1.format,
                }));
                lemma_format_push(
                    materials@.take(i as int),
                    m,
                    ku,
                    old(textures)@[k].1.format,
                );
            }
        }
        i = i + 1;
    }
    proof {
        assert(materials@.take(materials@.len() as int) =~= materials@);
    }
}

/// Builds one material payload per raw material, wiring each texture
/// reference to the handle minted for that image, and pairing the
/// material with a fresh handle of its own.
pub fn build_materials(
    materials: &Vec<RawMaterial>,
    textures: &Vec<(Handle<TextureData>, TextureData)>,
    ids: &mut IdGen,
) -> (r: Vec<(Handle<MaterialData>, MaterialData)>)
    requires
        old(ids).spec_count() + materials@.len() <= u64::MAX,
        forall|i: int|
            0 <= i < materials@.len() ==> material_refs_ok(
                #[trigger] materials@[i],
                textures@.len(),
            ),
    ensures
        r@.len() == materials@.len(),
        final(ids).spec_count() == old(ids).spec_count() + materials@.len(),
        forall|i: int|
            0 <= i < materials@.len() ==> ({
                let m = #[trigger] materials@[i];
                let d = r@[i].1;
                &&& id_low(r@[i].0.id) == old(ids).spec_count() + i
                &&& d.settings.base_color == m.base_color
                &&& d.settings.roughness == m.roughness
                &&& d.settings.metallic == m.metallic
                &&& (m.base_color_texture matches Some(j) ==> d.diffuse_texture matches Some(h)
                    && h.id == textures@[j as int].0.id)
                &&& (m.base_color_texture is None ==> d.diffuse_texture is None)
                &&& (m.metallic_roughness_texture matches Some(j)
                    ==> d.metallic_roughness_texture matches Some(h) && h.id == textures@[
                    j as int].0.id)
                &&& (m.metallic_roughness_texture is None ==> d.metallic_roughness_texture
                    is None)
                &&& (m.normal_texture matches Some(j) ==> d.normal_texture matches Some(h)
                    && h.id == textures@[j as int].0.id)
                &&& (m.normal_texture is None ==> d.normal_texture is None)
                &&& (m.occlusion_texture matches Some(j) ==> d.occlusion_texture matches Some(h)
                    && h.id == textures@[j as int].0.id)
                &&& (m.occlusion_texture is None ==> d.occlusion_texture is None)
            }),
{
    let mut out: Vec<(Handle<MaterialData>, MaterialData)> = Vec::new();
    let mut i: usize = 0;
    while i < materials.len()
        invariant
            old(ids).spec_count() + materials@.len() <= u64::MAX,
            forall|q: int|
                0 <= q < materials@.len() ==> material_refs_ok(
                    #[trigger] materials@[q],
                    textures@.len(),
                ),
            i <= materials@.len(),
            out@.len() == i as int,
            ids.spec_count() == old(ids).spec_count() + i as int,
            forall|q: int|
                0 <= q < i as int ==> ({
                    let m = #[trigger] materials@[q];
                    let d = out@[q].1;
                    &&& id_low(out@[q].0.id) == old(ids).spec_count() + q
                    &&& d.settings.base_color == m.base_color
                    &&& d.settings.roughness == m.roughness
                    &&& d.settings.metallic == m.metallic
                    &&& (m.base_color_texture matches Some(j) ==> d.diffuse_texture matches Some(
                        h,
                    ) && h.id == textures@[j as int].0.id)
                    &&& (m.base_color_texture is None ==> d.diffuse_texture is None)
                    &&& (m.metallic_roughness_texture matches Some(j)
                        ==> d.metallic_roughness_texture matches Some(h) && h.id == textures@[
                        j as int].0.id)
                    &&& (m.metallic_roughness_texture is None ==> d.metallic_roughness_texture
                        is None)
                    &&& (m.normal_texture matches Some(j) ==> d.normal_texture matches Some(h)
                        && h.id == textures@[j as int].0.id)
                    &&& (m.normal_texture is None ==> d.normal_texture is None)
                    &&& (m.occlusion_texture matches Some(j) ==> d.occlusion_texture matches Some(
                        h,
                    ) && h.id == textures@[j as int].0.id)
                    &&& (m.occlusion_texture is None ==> d.occlusion_texture is None)
                }),
        decreases materials@.len() - i,
    {
        let m = materials[i];
        let diffuse = match m.base_color_texture {
            Some(j) => Some(textures[j].0.duplicate()),
            None => None,
        };
        let metallic_roughness = match m.metallic_roughness_texture {
            Some(j) => Some(textures[j].0.duplicate()),
            None => None,
        };
        let normal = match m.normal_texture {
            Some(j) => Some(textures[j].0.duplicate()),
            None => None,
        };
        let occlusion = match m.occlusion_texture {
            Some(j) => Some(textures[j].0.duplicate()),
            None => None,
        };
        let data = MaterialData {
            settings: MaterialSettings {
                base_color: m.base_color,
                roughness: m.roughness,
                metallic: m.metallic,
            },
            diffuse_texture: diffuse,
            normal_texture: normal,
            metallic_roughness_texture: metallic_roughness,
            occlusion_texture: occlusion,
        };
        let handle: Handle<MaterialData> = Handle::new(ids);
        out.push((handle, data));
        i = i + 1;
    }
    out
}

/// Whether a raw mesh carries the mandatory attribute arrays.
pub open spec fn mesh_ok(m: RawMesh) -> bool {
    (m.positions is Some) && (m.indices is Some)
}

/// The interleaved vertex a raw mesh defines at position `v`: attribute
/// arrays that are missing or too short fall back to the unit-up normal
/// and the zero texture coordinate.
pub open spec fn mesh_vertex(m: RawMesh, v: int) -> Vertex {
    Vertex {
        position: m.positions.unwrap()@[v],
        normal: match m.normals {
            Some(ns) => if v < ns@.len() {
                ns@[v]
            } else {
                [BITS_ZERO, BITS_ONE, BITS_ZERO]
            },
            None => [BITS_ZERO, BITS_ONE, BITS_ZERO],
        },
        uv: match m.uvs {
            Some(us) => if v < us@.len() {
                us@[v]
            } else {
                [BITS_ZERO, BITS_ZERO]
            },
            None => [BITS_ZERO, BITS_ZERO],
        },
    }
}

/// Interleaves one raw mesh into a mesh payload. Exactly the meshes with
/// positions and indices build; the vertices combine position, normal and
/// texture coordinate per index, with defaults where the file had none.
pub fn build_mesh_data(raw: &RawMesh) -> (r: Result<MeshData, String>)
    ensures
        (r is Ok) <==> mesh_ok(*raw),
        r matches Ok(d) ==> ({
            &&& d.vertices@.len() == raw.positions.unwrap()@.len()
            &&& (forall|v: int|
                0 <= v < d.vertices@.len() ==> #[trigger] d.vertices@[v] == mesh_vertex(*raw, v))
            &&& d.indices@ == raw.indices.unwrap()@
        }),
        r matches Err(e) ==> ({
            &&& ((raw.positions is None) ==> e@ == "Mesh missing positions"@)
            &&& ((raw.positions is Some) ==> e@ == "Mesh missing indices"@)
        }),
{
    let positions = match &raw.positions {
        Some(p) => p,
        None => {
            return Err("Mesh missing positions".to_string());
        },
    };
    let indices = match &raw.indices {
        Some(ix) => ix,
        None => {
            return Err("Mesh missing indices".to_string());
        },
    };
    let mut vertices: Vec<Vertex> = Vec::new();
    let mut v: usize = 0;
    while v < positions.len()
        invariant
            raw.positions matches Some(p) && p@ == positions@,
            raw.indices is Some,
            v <= positions@.len(),
            vertices@.len() == v as int,
            forall|q: int|
                0 <= q < v as int ==> #[trigger] vertices@[q] == mesh_vertex(*raw, q),
        decreases positions@.len() - v,
    {
        let normal: [u32; 3] = match &raw.normals {
            Some(ns) => if v < ns.len() {
                ns[v]
            } else {
                [BITS_ZERO, BITS_ONE, BITS_ZERO]
            },
            None => [BITS_ZERO, BITS_ONE, BITS_ZERO],
        };
        let uv: [u32; 2] = match &raw.uvs {
            Some(us) => if v < us.len() {
                us[v]
            } else {
                [BITS_ZERO, BITS_ZERO]
            },
            None => [BITS_ZERO, BITS_ZERO],
        };
        vertices.push(Vertex { position: positions[v], normal, uv });
        v = v + 1;
    }
    let mut index_copy: Vec<u32> = Vec::new();
    let mut k: usize = 0;
    while k < indices.len()
        invariant
            raw.indices matches Some(ix) && ix@ == indices@,
            raw.positions is Some,
            k <= indices@.len(),
            index_copy@ == indices@.take(k as int),
        decreases indices@.len() - k,
    {
        index_copy.push(indices[k]);
        proof {
            assert(index_copy@ =~= indices@.take(k + 1));
        }
        k = k + 1;
    }
    proof {
        assert(indices@.take(indices@.len() as int) =~= indices@);
    }
    Ok(MeshData { vertices, indices: index_copy })
}

/// Builds one mesh payload per raw mesh and pairs each with a fresh
/// handle; no handle is minted unless every mesh builds.
pub fn build_meshes(meshes: &Vec<RawMesh>, ids: &mut IdGen) -> (r: Result<
    Vec<(Handle<MeshData>, MeshData)>,
    String,
>)
    requires
        old(ids).spec_count() + meshes@.len() <= u64::MAX,
    ensures
        (r is Ok) <==> (forall|i: int| 0 <= i < meshes@.len() ==> mesh_ok(#[trigger] meshes@[i])),
        r matches Ok(v) ==> ({
            &&& v@.len() == meshes@.len()
            &&& final(ids).spec_count() == old(ids).spec_count() + meshes@.len()
            &&& (forall|i: int|
                0 <= i < meshes@.len() ==> ({
                    let m = #[trigger] meshes@[i];
                    let d = v@[i].1;
                    &&& id_low(v@[i].0.id) == old(ids).spec_count() + i
                    &&& d.vertices@.len() == m.positions.unwrap()@.len()
                    &&& (forall|q: int|
                        0 <= q < d.vertices@.len() ==> #[trigger] d.vertices@[q] == mesh_vertex(
                            m,
                            q,
                        ))
                    &&& d.indices@ == m.indices.unwrap()@
                }))
        }),
        r matches Err(e) ==> ({
            &&& (exists|i: int|
                0 <= i < meshes@.len() && !mesh_ok(#[trigger] meshes@[i]) && (forall|q: int|
                    0 <= q < i ==> mesh_ok(#[trigger] meshes@[q])) && ((meshes@[i].positions
                    is None) ==> e@ == "Mesh missing positions"@) && ((meshes@[i].positions
                    is Some) ==> e@ == "Mesh missing indices"@))
            &&& final(ids).spec_count() == old(ids).spec_count()
        }),
{
    let mut built: Vec<MeshData> = Vec::new();
    let mut i: usize = 0;
    while i < meshes.len()
        invariant
            old(ids).spec_count() + meshes@.len() <= u64::MAX,
            *ids == *old(ids),
            i <= meshes@.len(),
            built@.len() == i as int,
            forall|q: int| 0 <= q < i as int ==> mesh_ok(#[trigger] meshes@[q]),
            forall|q: int|
                0 <= q < i as int ==> ({
                    let m = #[trigger] meshes@[q];
                    let d = built@[q];
                    &&& d.vertices@.len() == m.positions.unwrap()@.len()
                    &&& (forall|p: int|
                        0 <= p < d.vertices@.len() ==> #[trigger] d.vertices@[p] == mesh_vertex(
                            m,
                            p,
                        ))
                    &&& d.indices@ == m.indices.unwrap()@
                }),
        decreases meshes@.len() - i,
    {
        let d = match build_mesh_data(&meshes[i]) {
            Ok(d) => d,
            Err(e) => {
                return Err(e);
            },
        };
        built.push(d);
        i = i + 1;
    }
    let mut out: Vec<(Handle<MeshData>, MeshData)> = Vec::new();
    let ghost all = built@;
    let ghost mut j: int = 0;
    while built.len() > 0
        invariant
            old(ids).spec_count() + all.len() <= u64::MAX,
            0 <= j <= all.len(),
            built@ == all.skip(j),
            out@.len() == j,
            ids.spec_count() == old(ids).spec_count() + j,
            forall|k: int|
                0 <= k < j ==> (#[trigger] out@[k]).1 == all[k] && id_low(out@[k].0.id) == old(
                    ids,
                ).spec_count() + k,
        decreases built@.len(),
    {
        let handle: Handle<MeshData> = Handle::new(ids);
        let d = built.remove(0);
        proof {
            assert(all.skip(j).len() > 0);
            assert(d == all[j]);
        }
        out.push((handle, d));
        proof {
            j = j + 1;
            assert(built@ =~= all.skip(j));
        }
    }
    proof {
        assert(all.skip(j).len() == 0);
    }
    Ok(out)
}

/// Whether a raw node's references land inside the given lists.
pub open spec fn raw_node_ok(n: RawNode, meshes: nat, materials: nat, nodes: nat) -> bool {
    &&& n.mesh_index matches Some(i) ==> i < meshes
    &&& n.material_index matches Some(i) ==> i < materials
    &&& forall|k: int| 0 <= k < n.children@.len() ==> n.children@[k] < nodes
}

fn children_in_range(children: &Vec<usize>, n: usize) -> (b: bool)
    ensures
        b == (forall|k: int| 0 <= k < children@.len() ==> children@[k] < n),
{
    let mut k: usize = 0;
    while k < children.len()
        invariant
            k <= children@.len(),
            forall|q: int| 0 <= q < k as int ==> children@[q] < n,
        decreases children@.len() - k,
    {
        if children[k] >= n {
            return false;
        }
        k = k + 1;
    }
    true
}

fn copy_indices(children: &Vec<usize>) -> (out: Vec<usize>)
    ensures
        out@ == children@,
{
    let mut out: Vec<usize> = Vec::new();
    let mut k: usize = 0;
    while k < children.len()
        invariant
            k <= children@.len(),
            out@ == children@.take(k as int),
        decreases children@.len() - k,
    {
        out.push(children[k]);
        proof {
            assert(out@ =~= children@.take(k + 1));
        }
        k = k + 1;
    }
    proof {
        assert(children@.take(children@.len() as int) =~= children@);
    }
    out
}

/// Builds the scene's node list, rejecting any node whose mesh, material
/// or child reference points outside the scene; on success the node list
/// reproduces the raw graph exactly.
pub fn build_nodes(nodes: &Vec<RawNode>, n_meshes: usize, n_materials: usize) -> (r: Result<
    Vec<SceneNode>,
    String,
>)
    ensures
        (r is Ok) <==> (forall|i: int|
            0 <= i < nodes@.len() ==> raw_node_ok(
                #[trigger] nodes@[i],
                n_meshes as nat,
                n_materials as nat,
                nodes@.len(),
            )),
        r matches Ok(v) ==> ({
            &&& v@.len() == nodes@.len()
            &&& (forall|i: int|
                0 <= i < nodes@.len() ==> ({
                    let n = #[trigger] nodes@[i];
                    &&& v@[i].name == n.name
                    &&& v@[i].transform == n.transform
                    &&& v@[i].mesh_index == n.mesh_index
                    &&& v@[i].material_index == n.material_index
                    &&& v@[i].children@ == n.children@
                }))
        }),
        r matches Err(e) ==> ({
            &&& (exists|i: int|
                0 <= i < nodes@.len() && !raw_node_ok(
                    #[trigger] nodes@[i],
                    n_meshes as nat,
                    n_materials as nat,
                    nodes@.len(),
                ))
            &&& e@ == "Scene node index out of range"@
        }),
{
    let total = nodes.len();
    let mut out: Vec<SceneNode> = Vec::new();
    let mut i: usize = 0;
    while i < nodes.len()
        invariant
            total == nodes@.len(),
            i <= nodes@.len(),
            out@.len() == i as int,
            forall|q: int|
                0 <= q < i as int ==> raw_node_ok(
                    #[trigger] nodes@[q],
                    n_meshes as nat,
                    n_materials as nat,
                    nodes@.len(),
                ),
            forall|q: int|
                0 <= q < i as int ==> ({
                    let n = #[trigger] nodes@[q];
                    &&& out@[q].name == n.name
                    &&& out@[q].transform == n.transform
                    &&& out@[q].mesh_index == n.mesh_index
                    &&& out@[q].material_index == n.material_index
                    &&& out@[q].children@ == n.children@
                }),
        decreases nodes@.len() - i,
    {
        let n = &nodes[i];
        match n.mesh_index {
            Some(mi) => if mi >= n_meshes {
                return Err("Scene node index out of range".to_string());
            },
            None => {},
        }
        match n.material_index {
            Some(mi) => if mi >= n_materials {
                return Err("Scene node index out of range".to_string());
            },
            None => {},
        }
        if !children_in_range(&n.children, total) {
            return Err("Scene node index out of range".to_string());
        }
        let children = copy_indices(&n.children);
        out.push(
            SceneNode {
                name: n.name.clone(),
                transform: n.transform,
                mesh_index: n.mesh_index,
                material_index: n.material_index,
                children,
            },
        );
        i = i + 1;
    }
    Ok(out)
}


fn materials_refs_all_ok(materials: &Vec<RawMaterial>, n: usize) -> (b: bool)
    ensures
        b == (forall|i: int|
            0 <= i < materials@.len() ==> material_refs_ok(#[trigger] materials@[i], n as nat)),
{
    let mut i: usize = 0;
    while i < materials.len()
        invariant
            i <= materials@.len(),
            forall|q: int|
                0 <= q < i as int ==> material_refs_ok(#[trigger] materials@[q], n as nat),
        decreases materials@.len() - i,
    {
        let m = materials[i];
        match m.base_color_texture {
            Some(j) => if j >= n {
                return false;
            },
            None => {},
        }
        match m.metallic_roughness_texture {
            Some(j) => if j >= n {
                return false;
            },
            None => {},
        }
        match m.normal_texture {
            Some(j) => if j >= n {
                return false;
            },
            None => {},
        }
        match m.occlusion_texture {
            Some(j) => if j >= n {
                return false;
            },
            None => {},
        }
        i = i + 1;
    }
    true
}

fn first_bad_mesh(meshes: &Vec<RawMesh>) -> (r: Option<usize>)
    ensures
        (r is None) == (forall|i: int| 0 <= i < meshes@.len() ==> mesh_ok(#[trigger] meshes@[i])),
        r matches Some(i) ==> i < meshes@.len() && !mesh_ok(meshes@[i as int]) && (forall|q: int|
            0 <= q < i as int ==> mesh_ok(#[trigger] meshes@[q])),
{
    let mut i: usize = 0;
    while i < meshes.len()
        invariant
            i <= meshes@.len(),
            forall|q: int| 0 <= q < i as int ==> mesh_ok(#[trigger] meshes@[q]),
        decreases meshes@.len() - i,
    {
        let m = &meshes[i];
        if m.positions.is_none() || m.indices.is_none() {
            return Some(i);
        }
        i = i + 1;
    }
    None
}

fn nodes_all_ok(nodes: &Vec<RawNode>, n_meshes: usize, n_materials: usize) -> (b: bool)
    ensures
        b == (forall|i: int|
            0 <= i < nodes@.len() ==> raw_node_ok(
                #[trigger] nodes@[i],
                n_meshes as nat,
                n_materials as nat,
                nodes@.len(),
            )),
{
    let total = nodes.len();
    let mut i: usize = 0;
    while i < nodes.len()
        invariant
            total == nodes@.len(),
            i <= nodes@.len(),
            forall|q: int|
                0 <= q < i as int ==> raw_node_ok(
                    #[trigger] nodes@[q],
                    n_meshes as nat,
                    n_materials as nat,
                    nodes@.len(),
                ),
        decreases nodes@.len() - i,
    {
        let n = &nodes[i];
        match n.mesh_index {
            Some(mi) => if mi >= n_meshes {
                return false;
            },
            None => {},
        }
        match n.material_index {
            Some(mi) => if mi >= n_materials {
                return false;
            },
            None => {},
        }
        if !children_in_range(&n.children, total) {
            return false;
        }
        i = i + 1;
    }
    true
}

/// Collects the handle of each artifact, in order.
fn handle_list<T>(items: &Vec<(Handle<T>, T)>) -> (out: Vec<Handle<T>>)
    ensures
        out@.len() == items@.len(),
        forall|j: int| 0 <= j < items@.len() ==> out@[j].id == (#[trigger] items@[j]).0.id,
{
    let mut out: Vec<Handle<T>> = Vec::new();
    let mut j: usize = 0;
    while j < items.len()
        invariant
            j <= items@.len(),
            out@.len() == j as int,
            forall|q: int| 0 <= q < j as int ==> out@[q].id == (#[trigger] items@[q]).0.id,
        decreases items@.len() - j,
    {
        out.push(items[j].0.duplicate());
        j = j + 1;
    }
    out
}

/// Whether a whole raw scene is well formed: every embedded image decodes,
/// every material texture slot points at an image, every mesh carries its
/// mandatory arrays, and every node reference is in range.
pub open spec fn raw_scene_ok(raw: RawScene) -> bool {
    &&& (forall|i: int|
        0 <= i < raw.images@.len() ==> image_ok(raw.buffers@, #[trigger] raw.images@[i]))
    &&& (forall|i: int|
        0 <= i < raw.materials@.len() ==> material_refs_ok(
            #[trigger] raw.materials@[i],
            raw.images@.len(),
        ))
    &&& (forall|i: int| 0 <= i < raw.meshes@.len() ==> mesh_ok(#[trigger] raw.meshes@[i]))
    &&& (forall|i: int|
        0 <= i < raw.nodes@.len() ==> raw_node_ok(
            #[trigger] raw.nodes@[i],
            raw.meshes@.len(),
            raw.materials@.len(),
            raw.nodes@.len(),
        ))
}

/// Unpacks one decoded scene file into the payload of its completion
/// message: decodes the embedded textures, retags their formats from the
/// materials that sample them, builds material, mesh and node payloads,
/// and mints one fresh handle per sub-asset -- counters running
/// consecutively, textures first, then materials, then meshes, so every
/// minted handle is distinct. Exactly the well-formed scenes unpack; a
/// malformed one is rejected with an error and mints nothing.
pub fn build_scene_payload(raw: &RawScene, ids: &mut IdGen) -> (r: Result<ScenePayload, String>)
    requires
        old(ids).spec_count() + raw.images@.len() + raw.materials@.len() + raw.meshes@.len()
            <= u64::MAX,
    ensures
        (r is Ok) <==> raw_scene_ok(*raw),
        r matches Err(e) ==> final(ids).spec_count() == old(ids).spec_count(),
        r matches Ok(p) ==> ({
            let c0 = old(ids).spec_count();
            let ni = raw.images@.len() as int;
            let nm = raw.materials@.len() as int;
            let nh = raw.meshes@.len() as int;
            &&& final(ids).spec_count() == c0 + ni + nm + nh
            &&& p.textures@.len() == ni
            &&& p.materials@.len() == nm
            &&& p.meshes@.len() == nh
            &&& p.scene.textures@.len() == ni
            &&& p.scene.materials@.len() == nm
            &&& p.scene.meshes@.len() == nh
            &&& p.scene.nodes@.len() == raw.nodes@.len()
            &&& (forall|j: int|
                0 <= j < ni ==> (#[trigger] p.scene.textures@[j]).id == p.textures@[j].0.id)
            &&& (forall|j: int|
                0 <= j < nm ==> (#[trigger] p.scene.materials@[j]).id == p.materials@[j].0.id)
            &&& (forall|j: int|
                0 <= j < nh ==> (#[trigger] p.scene.meshes@[j]).id == p.meshes@[j].0.id)
            &&& (forall|j: int|
                0 <= j < ni ==> id_low((#[trigger] p.textures@[j]).0.id) == c0 + j)
            &&& (forall|j: int|
                0 <= j < nm ==> id_low((#[trigger] p.materials@[j]).0.id) == c0 + ni + j)
            &&& (forall|j: int|
                0 <= j < nh ==> id_low((#[trigger] p.meshes@[j]).0.id) == c0 + ni + nm + j)
            &&& (forall|j: int|
                0 <= j < ni ==> ({
                    let d = decoded_rgba(
                        image_slice(raw.buffers@, #[trigger] raw.images@[j]),
                    ).unwrap();
                    &&& p.textures@[j].1.name == raw.images@[j].name
                    &&& p.textures@[j].1.width == d.0
                    &&& p.textures@[j].1.height == d.1
                    &&& p.textures@[j].1.pixels@ == d.2
                    &&& p.textures@[j].1.format == tex_format_from(
                        raw.materials@,
                        j as usize,
                        TextureFormat::Rgba8Unorm,
                    )
                }))
            &&& (forall|j: int|
                0 <= j < nm ==> ({
                    let m = #[trigger] raw.materials@[j];
                    let d = p.materials@[j].1;
                    &&& d.settings.base_color == m.base_color
                    &&& d.settings.roughness == m.roughness
                    &&& d.settings.metallic == m.metallic
                    &&& (m.base_color_texture matches Some(q) ==> d.diffuse_texture matches Some(
                        h,
                    ) && h.id == p.textures@[q as int].0.id)
                    &&& (m.base_color_texture is None ==> d.diffuse_texture is None)
                    &&& (m.metallic_roughness_texture matches Some(q)
                        ==> d.metallic_roughness_texture matches Some(h) && h.id == p.textures@[
                        q as int].0.id)
                    &&& (m.metallic_roughness_texture is None ==> d.metallic_roughness_texture
                        is None)
                    &&& (m.normal_texture matches Some(q) ==> d.normal_texture matches Some(h)
                        && h.id == p.textures@[q as int].0.id)
                    &&& (m.normal_texture is None ==> d.normal_texture is None)
                    &&& (m.occlusion_texture matches Some(q) ==> d.occlusion_texture matches Some(
                        h,
                    ) && h.id == p.textures@[q as int].0.id)
                    &&& (m.occlusion_texture is None ==> d.occlusion_texture is None)
                }))
            &&& (forall|j: int|
                0 <= j < nh ==> ({
                    let m = #[trigger] raw.meshes@[j];
                    let d = p.meshes@[j].1;
                    &&& d.vertices@.len() == m.positions.unwrap()@.len()
                    &&& (forall|q: int|
                        0 <= q < d.vertices@.len() ==> #[trigger] d.vertices@[q] == mesh_vertex(
                            m,
                            q,
                        ))
                    &&& d.indices@ == m.indices.unwrap()@
                }))
            &&& (forall|j: int|
                0 <= j < raw.nodes@.len() ==> ({
                    let n = #[trigger] raw.nodes@[j];
                    &&& p.scene.nodes@[j].name == n.name
                    &&& p.scene.nodes@[j].transform == n.transform
                    &&& p.scene.nodes@[j].mesh_index == n.mesh_index
                    &&& p.scene.nodes@[j].material_index == n.material_index
                    &&& p.scene.nodes@[j].children@ == n.children@
                }))
            &&& p.scene.wf()
        }),
{
    if !materials_refs_all_ok(&raw.materials, raw.images.len()) {
        return Err("Material references missing texture".to_string());
    }
    match first_bad_mesh(&raw.meshes) {
        Some(i) => {
            if meshes_missing_positions(&raw.meshes, i) {
                return Err("Mesh missing positions".to_string());
            } else {
                return Err("Mesh missing indices".to_string());
            }
        },
        None => {},
    }
    if !nodes_all_ok(&raw.nodes, raw.meshes.len(), raw.materials.len()) {
        return Err("Scene node index out of range".to_string());
    }
    let mut textures = match build_textures(&raw.buffers, &raw.images, ids) {
        Ok(v) => v,
        Err(e) => {
            return Err(e);
        },
    };
    apply_material_formats(&mut textures, &raw.materials);
    let materials = build_materials(&raw.materials, &textures, ids);
    let meshes = match build_meshes(&raw.meshes, ids) {
        Ok(v) => v,
        Err(e) => {
            return Err(e);
        },
    };
    let nodes = match build_nodes(&raw.nodes, meshes.len(), materials.len()) {
        Ok(v) => v,
        Err(e) => {
            return Err(e);
        },
    };
    let texture_handles = handle_list(&textures);
    let material_handles = handle_list(&materials);
    let mesh_handles = handle_list(&meshes);
    let scene = SceneData {
        meshes: mesh_handles,
        materials: material_handles,
        textures: texture_handles,
        nodes,
    };
    proof {
        assert forall|i: int| 0 <= i < scene.nodes@.len() implies node_wf(
            #[trigger] scene.nodes@[i],
            scene.meshes@.len(),
            scene.materials@.len(),
            scene.nodes@.len(),
        ) by {
            assert(raw_node_ok(
                raw.nodes@[i],
                raw.meshes@.len(),
                raw.materials@.len(),
                raw.nodes@.len(),
            ));
        }
    }
    proof {
        let c0 = old(ids).spec_count();
        let ni = raw.images@.len() as int;
        let nm = raw.materials@.len() as int;
        let nh = raw.meshes@.len() as int;
        assert(ids.spec_count() == c0 + ni + nm + nh);
        assert(textures@.len() == ni && materials@.len() == nm && meshes@.len() == nh);
        assert forall|j: int|
            0 <= j < ni implies id_low((#[trigger] textures@[j]).0.id) == c0 + j by {
            assert(image_ok(raw.buffers@, raw.images@[j]));
        }
        assert forall|j: int|
            0 <= j < nm implies id_low((#[trigger] materials@[j]).0.id) == c0 + ni + j by {
            assert(material_refs_ok(raw.materials@[j], raw.images@.len()));
        }
        assert forall|j: int|
            0 <= j < nh implies id_low((#[trigger] meshes@[j]).0.id) == c0 + ni + nm + j by {
            assert(mesh_ok(raw.meshes@[j]));
        }
        assert(forall|j: int|
            0 <= j < ni ==> ({
                let d = decoded_rgba(
                    image_slice(raw.buffers@, #[trigger] raw.images@[j]),
                ).unwrap();
                &&& textures@[j].1.name == raw.images@[j].name
                &&& textures@[j].1.width == d.0
                &&& textures@[j].1.height == d.1
                &&& textures@[j].1.pixels@ == d.2
            }));
        assert forall|j: int|
            0 <= j < ni implies (#[trigger] textures@[j]).1.format == tex_format_from(
            raw.materials@,
            j as usize,
            TextureFormat::Rgba8Unorm,
        ) by {
            assert(image_ok(raw.buffers@, raw.images@[j]));
        }
        assert(forall|j: int|
            0 <= j < nm ==> ({
                let m = #[trigger] raw.materials@[j];
                let d = materials@[j].1;
                &&& d.settings.base_color == m.base_color
                &&& (m.base_color_texture matches Some(q) ==> d.diffuse_texture matches Some(h)
                    && h.id == textures@[q as int].0.id)
            }));
        assert(forall|j: int|
            0 <= j < nh ==> ({
                let m = #[trigger] raw.meshes@[j];
                let d = meshes@[j].1;
                &&& d.vertices@.len() == m.positions.unwrap()@.len()
                &&& d.indices@ == m.indices.unwrap()@
            }));
        assert(scene.nodes@.len() == raw.nodes@.len());
        assert(forall|j: int|
            0 <= j < raw.nodes@.len() ==> ({
                let n = #[trigger] raw.nodes@[j];
                &&& scene.nodes@[j].name == n.name
                &&& scene.nodes@[j].children@ == n.children@
            }));
        assert(forall|j: int|
            0 <= j < ni ==> (#[trigger] scene.textures@[j]).id == textures@[j].0.id);
    }
    Ok(ScenePayload { scene, textures, materials, meshes })
}

fn meshes_missing_positions(meshes: &Vec<RawMesh>, i: usize) -> (b: bool)
    requires
        i < meshes@.len(),
    ensures
        b == (meshes@[i as int].positions is None),
{
    meshes[i].positions.is_none()
}

} // verus!
