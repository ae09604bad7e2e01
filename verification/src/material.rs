//! Texture and material payloads.
//!
//! Scalar colour and roughness parameters are carried as IEEE-754 bit
//! patterns in `u32` fields; the subsystem never interprets them, it only
//! moves them from the decoder to storage, and the renderer converts them
//! back at its boundary.

use crate::assets::Handle;
use vstd::prelude::*;

verus! {

/// Bit pattern of the scalar one as a 32-bit IEEE-754 value.
pub const BITS_ONE: u32 = 0x3F80_0000;

/// Bit pattern of the scalar one half as a 32-bit IEEE-754 value.
pub const BITS_HALF: u32 = 0x3F00_0000;

/// Bit pattern of the scalar zero as a 32-bit IEEE-754 value.
pub const BITS_ZERO: u32 = 0;

#[derive(Clone, Copy, Debug, PartialEq, Eq, Structural)]
pub enum TextureFormat {
    /// Standard 32-bit colour.
    Rgba8Unorm,
    /// Standard 32-bit colour, sampled as sRGB.
    Rgba8UnormSrgb,
    /// HDR data.
    Rgba32Float,
    /// Grayscale, used for roughness/metallic masks.
    Gray8,
}

/// A decoded texture: a tightly packed pixel buffer with explicit
/// dimensions and format.
#[derive(Clone, Debug)]
pub struct TextureData {
    pub name: String,
    pub pixels: Vec<u8>,
    pub width: u32,
    pub height: u32,
    pub format: TextureFormat,
}

/// Scalar material parameters, as bit patterns.
#[derive(Clone, Copy, Debug, PartialEq, Eq)]
pub struct MaterialSettings {
    pub base_color: [u32; 4],
    pub roughness: u32,
    pub metallic: u32,
}

impl Default for MaterialSettings {
    /// Opaque white base colour, half roughness, no metallic.
    fn default() -> (s: MaterialSettings)
        ensures
            s.base_color == [BITS_ONE, BITS_ONE, BITS_ONE, BITS_ONE],
            s.roughness == BITS_HALF,
            s.metallic == BITS_ZERO,
    {
        MaterialSettings {
            base_color: [BITS_ONE, BITS_ONE, BITS_ONE, BITS_ONE],
            roughness: BITS_HALF,
            metallic: BITS_ZERO,
        }
    }
}

/// A material payload: scalar settings plus optional references, by
/// handle, to the textures it samples.
#[derive(Clone, Debug)]
pub struct MaterialData {
    pub settings: MaterialSettings,
    pub diffuse_texture: Option<Handle<TextureData>>,
    pub normal_texture: Option<Handle<TextureData>>,
    pub metallic_roughness_texture: Option<Handle<TextureData>>,
    pub occlusion_texture: Option<Handle<TextureData>>,
}

impl Default for MaterialData {
    /// Default settings and no texture references.
    fn default() -> (m: MaterialData)
        ensures
            m.settings == (MaterialSettings {
                base_color: [BITS_ONE, BITS_ONE, BITS_ONE, BITS_ONE],
                roughness: BITS_HALF,
                metallic: BITS_ZERO,
            }),
            (m.diffuse_texture is None),
            (m.normal_texture is None),
            (m.metallic_roughness_texture is None),
            (m.occlusion_texture is None),
    {
        MaterialData {
            settings: MaterialSettings::default(),
            diffuse_texture: None,
            normal_texture: None,
            metallic_roughness_texture: None,
            occlusion_texture: None,
        }
    }
}

} // verus!
