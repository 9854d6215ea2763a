//! Materials: what the document declares, turned into what the renderer takes.
use crate::document::{Material, MaterialAlphaMode};
use crate::index_set::{held, IndexSet};
use crate::label::{decimal, material_label};
use crate::ONE_BITS;
use vstd::prelude::*;

verus! {

/// Bit pattern of the single-precision number one half.
pub const HALF_BITS: u32 = 0x3f00_0000;

/// A side of a triangle.
#[derive(Clone, Copy, Debug, PartialEq, Eq, Structural)]
pub enum Face {
    Front,
    Back,
}

/// How transparency is handled.
#[derive(Clone, Copy, Debug, PartialEq, Eq, Structural)]
pub enum AlphaMode {
    Opaque,
    /// Opaque where alpha is at least the cutoff, else invisible.
    Mask(u32),
    Blend,
}

/// A material of the renderer. Textures are named by their index.
#[derive(Clone, Copy, Debug, PartialEq, Eq)]
pub struct StandardMaterial {
    pub base_color: [u32; 4],
    pub base_color_texture: Option<usize>,
    pub perceptual_roughness: u32,
    pub metallic: u32,
    pub metallic_roughness_texture: Option<usize>,
    pub normal_map_texture: Option<usize>,
    pub double_sided: bool,
    /// The side that is not drawn.
    pub cull_mode: Option<Face>,
    pub occlusion_texture: Option<usize>,
    pub emissive: [u32; 4],
    pub emissive_texture: Option<usize>,
    pub unlit: bool,
    pub alpha_mode: AlphaMode,
}

/// The alpha mode of a material: a mask cuts at one half where the material names
/// no cutoff.
pub open spec fn spec_alpha_mode(material: Material) -> AlphaMode {
    match material.alpha_mode {
        MaterialAlphaMode::Opaque => AlphaMode::Opaque,
        MaterialAlphaMode::Mask => AlphaMode::Mask(
            match material.alpha_cutoff {
                Some(cutoff) => cutoff,
                None => HALF_BITS,
            },
        ),
        MaterialAlphaMode::Blend => AlphaMode::Blend,
    }
}

/// The material of the renderer for a material of the document: every field is taken
/// over, the emissive color gets an alpha of one, and a material that is not double
/// sided does not draw its back.
pub open spec fn standard_material(material: Material) -> StandardMaterial {
    StandardMaterial {
        base_color: material.base_color_factor,
        base_color_texture: material.base_color_texture,
        perceptual_roughness: material.roughness_factor,
        metallic: material.metallic_factor,
        metallic_roughness_texture: material.metallic_roughness_texture,
        normal_map_texture: material.normal_texture,
        double_sided: material.double_sided,
        cull_mode: if material.double_sided {
            None
        } else {
            Some(Face::Back)
        },
        occlusion_texture: material.occlusion_texture,
        emissive: [
            material.emissive_factor[0],
            material.emissive_factor[1],
            material.emissive_factor[2],
            ONE_BITS,
        ],
        emissive_texture: material.emissive_texture,
        unlit: material.unlit,
        alpha_mode: spec_alpha_mode(material),
    }
}

/// The alpha mode of a material.
pub fn alpha_mode(material: &Material) -> (r: AlphaMode)
    ensures
        r == spec_alpha_mode(*material),
{
    match material.alpha_mode {
        MaterialAlphaMode::Opaque => AlphaMode::Opaque,
        MaterialAlphaMode::Mask => AlphaMode::Mask(
            match material.alpha_cutoff {
                Some(cutoff) => cutoff,
                None => HALF_BITS,
            },
        ),
        MaterialAlphaMode::Blend => AlphaMode::Blend,
    }
}

/// Loads a glTF material as a material of the renderer and returns it with its label.
pub fn load_material(material: &Material) -> (r: (String, StandardMaterial))
    ensures
        r.0@ == match material.index {
            Some(index) => "Material"@ + decimal(index as nat),
            None => "MaterialDefault"@,
        },
        r.1 == standard_material(*material),
{
    let emissive = &material.emissive_factor;
    (
        material_label(material.index),
        StandardMaterial {
            base_color: material.base_color_factor,
            base_color_texture: material.base_color_texture,
            perceptual_roughness: material.roughness_factor,
            metallic: material.metallic_factor,
            metallic_roughness_texture: material.metallic_roughness_texture,
            normal_map_texture: material.normal_texture,
            double_sided: material.double_sided,
            cull_mode: if material.double_sided {
                None
            } else {
                Some(Face::Back)
            },
            occlusion_texture: material.occlusion_texture,
            emissive: [emissive[0], emissive[1], emissive[2], ONE_BITS],
            emissive_texture: material.emissive_texture,
            unlit: material.unlit,
            alpha_mode: alpha_mode(material),
        },
    )
}

/// The material holds data that is not color in texture `texture`: a normal map, an
/// occlusion map or a metallic-roughness map.
pub open spec fn uses_linear(material: Material, texture: usize) -> bool {
    ||| material.normal_texture == Some(texture)
    ||| material.occlusion_texture == Some(texture)
    ||| material.metallic_roughness_texture == Some(texture)
}

/// The textures that hold data that is not color in one of the materials.
pub fn linear_textures(materials: &Vec<Material>) -> (r: IndexSet)
    ensures
        forall|texture: usize|
            held(r).contains(texture) <==> exists|i: int|
                0 <= i < materials@.len() && uses_linear(#[trigger] materials@[i], texture),
{
    let mut r = IndexSet::new();
    let mut i: usize = 0;
    while i < materials.len()
        invariant
            i <= materials.len(),
            forall|texture: usize|
                held(r).contains(texture) <==> exists|j: int|
                    0 <= j < i && uses_linear(#[trigger] materials@[j], texture),
        decreases materials.len() - i,
    {
        let material = &materials[i];
        let ghost before = held(r);
        if let Some(texture) = material.normal_texture {
            r.insert(texture);
        }
        if let Some(texture) = material.occlusion_texture {
            r.insert(texture);
        }
        if let Some(texture) = material.metallic_roughness_texture {
            r.insert(texture);
        }
        proof {
            assert forall|texture: usize|
                held(r).contains(texture) <==> exists|j: int|
                    0 <= j < i + 1 && uses_linear(#[trigger] materials@[j], texture) by {
                if held(r).contains(texture) {
                    if before.contains(texture) {
                        let j = choose|j: int| 0 <= j < i && uses_linear(materials@[j], texture);
                        assert(uses_linear(materials@[j], texture));
                    } else {
                        assert(uses_linear(materials@[i as int], texture));
                    }
                }
                if exists|j: int| 0 <= j < i + 1 && uses_linear(#[trigger] materials@[j], texture) {
                    let j = choose|j: int|
                        0 <= j < i + 1 && uses_linear(#[trigger] materials@[j], texture);
                    if j < i {
                        assert(before.contains(texture));
                    }
                }
            }
        }
        i = i + 1;
    }
    r
}

} // verus!
