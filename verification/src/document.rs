//! The parsed document: what a glTF file declares, before anything is resolved.
//!
//! Everything refers to everything else by index. A single-precision number is held
//! as its bit pattern.
use crate::accessor::{Accessor, BufferView};
use crate::buffer::BufferSource;
use crate::loader::Mode;
use crate::Transform;
use vstd::prelude::*;

verus! {

/// The meaning of a vertex attribute.
#[derive(Clone, Debug, PartialEq, Eq)]
pub enum Semantic {
    Positions,
    Normals,
    Tangents,
    /// A color set, by its number.
    Colors(u32),
    /// A texture coordinate set, by its number.
    TexCoords(u32),
    /// A joint index set, by its number.
    Joints(u32),
    /// A joint weight set, by its number.
    Weights(u32),
    /// An attribute of the application, by its name.
    Extras(String),
}

/// Part of a mesh: vertex attributes, indices, a topology and a material.
#[derive(Clone, Debug, PartialEq, Eq)]
pub struct Primitive {
    /// Each attribute with the index of its accessor.
    pub attributes: Vec<(Semantic, usize)>,
    /// The index of the accessor of the vertex indices.
    pub indices: Option<usize>,
    pub mode: Mode,
    /// The index of the material, where the primitive names one.
    pub material: Option<usize>,
}

/// A mesh: a sequence of primitives.
#[derive(Clone, Debug, PartialEq, Eq)]
pub struct Mesh {
    pub name: Option<String>,
    pub primitives: Vec<Primitive>,
}

/// How transparency is handled, as the document declares it.
#[derive(Clone, Copy, Debug, PartialEq, Eq, Structural)]
pub enum MaterialAlphaMode {
    Opaque,
    Mask,
    Blend,
}

/// A material as the document declares it. Textures are named by their index.
#[derive(Clone, Debug, PartialEq, Eq)]
pub struct Material {
    /// The index of the material, or nothing for the default material.
    pub index: Option<usize>,
    pub name: Option<String>,
    pub base_color_factor: [u32; 4],
    pub base_color_texture: Option<usize>,
    pub roughness_factor: u32,
    pub metallic_factor: u32,
    pub metallic_roughness_texture: Option<usize>,
    pub normal_texture: Option<usize>,
    pub occlusion_texture: Option<usize>,
    pub emissive_factor: [u32; 3],
    pub emissive_texture: Option<usize>,
    pub double_sided: bool,
    pub unlit: bool,
    pub alpha_mode: MaterialAlphaMode,
    pub alpha_cutoff: Option<u32>,
}

/// Magnification filter.
#[derive(Clone, Copy, Debug, PartialEq, Eq, Structural)]
pub enum MagFilter {
    Nearest,
    Linear,
}

/// Minification filter.
#[derive(Clone, Copy, Debug, PartialEq, Eq, Structural)]
pub enum MinFilter {
    Nearest,
    Linear,
    NearestMipmapNearest,
    LinearMipmapNearest,
    NearestMipmapLinear,
    LinearMipmapLinear,
}

/// Texture coordinate wrapping mode.
#[derive(Clone, Copy, Debug, PartialEq, Eq, Structural)]
pub enum WrappingMode {
    ClampToEdge,
    MirroredRepeat,
    Repeat,
}

/// How a texture is sampled.
#[derive(Clone, Copy, Debug, PartialEq, Eq)]
pub struct Sampler {
    pub mag_filter: Option<MagFilter>,
    pub min_filter: Option<MinFilter>,
    pub wrap_s: WrappingMode,
    pub wrap_t: WrappingMode,
}

/// Where the image of a texture comes from.
#[derive(Clone, Debug, PartialEq, Eq)]
pub enum ImageSource {
    /// A buffer view, by its index, that holds an image of the given mime type.
    View { view: usize, mime_type: String },
    /// A URI, percent-encoded as the document has it, and the mime type where the
    /// document declares one.
    Uri { uri: String, mime_type: Option<String> },
}

/// A texture: an image and how it is sampled.
#[derive(Clone, Debug, PartialEq, Eq)]
pub struct Texture {
    pub sampler: Sampler,
    pub source: ImageSource,
}

/// A node of the scene graph as the document declares it.
#[derive(Clone, Debug, PartialEq, Eq)]
pub struct Node {
    pub name: Option<String>,
    /// The index of the mesh.
    pub mesh: Option<usize>,
    /// Whether the node carries a camera.
    pub has_camera: bool,
    pub transform: Transform,
    /// The indices of the children.
    pub children: Vec<usize>,
}

/// A skin, as far as its data goes: one inverse bind matrix for each joint.
#[derive(Clone, Copy, Debug, PartialEq, Eq)]
pub struct Skin {
    /// The index of the accessor of the inverse bind matrices.
    pub inverse_bind_matrices: Option<usize>,
}

/// How an animation sampler goes from one keyframe to the next.
#[derive(Clone, Copy, Debug, PartialEq, Eq, Structural)]
pub enum Interpolation {
    Linear,
    Step,
    CubicSpline,
}

/// What a channel animates.
#[derive(Clone, Copy, Debug, PartialEq, Eq, Structural)]
pub enum Property {
    Translation,
    Rotation,
    Scale,
    MorphTargetWeights,
}

/// One channel of an animation: a target and the sampler that drives it.
#[derive(Clone, Copy, Debug, PartialEq, Eq)]
pub struct Channel {
    /// The index of the animated node.
    pub node: usize,
    pub property: Property,
    pub interpolation: Interpolation,
    /// The index of the accessor of the keyframe times.
    pub input: usize,
    /// The index of the accessor of the keyframe values.
    pub output: usize,
}

/// An animation: a named set of channels.
#[derive(Clone, Debug, PartialEq, Eq)]
pub struct Animation {
    pub name: Option<String>,
    pub channels: Vec<Channel>,
}

/// A scene: the indices of its root nodes.
#[derive(Clone, Debug, PartialEq, Eq)]
pub struct Scene {
    pub name: Option<String>,
    pub nodes: Vec<usize>,
}

/// Everything that a glTF file declares.
#[derive(Clone, Debug, PartialEq, Eq)]
pub struct Document {
    pub buffers: Vec<BufferSource>,
    pub views: Vec<BufferView>,
    pub accessors: Vec<Accessor>,
    pub materials: Vec<Material>,
    pub textures: Vec<Texture>,
    pub meshes: Vec<Mesh>,
    pub nodes: Vec<Node>,
    pub skins: Vec<Skin>,
    pub animations: Vec<Animation>,
    pub scenes: Vec<Scene>,
    /// The index of the scene to show first.
    pub default_scene: Option<usize>,
    /// The binary blob that came with the document.
    pub blob: Option<Vec<u8>>,
}

} // verus!
