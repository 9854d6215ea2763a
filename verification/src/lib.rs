//! Decoding of glTF 2.0 documents into a resolved, engine-independent scene graph.
//!
//! Every single-precision number is carried as its IEEE-754 bit pattern in a `u32`, so
//! that values pass through the library unchanged and bit for bit.
use crate::animation::AnimationClip;
use crate::maps::{registered, AttributeMap, NameMap, Registrations};
use crate::material::StandardMaterial;
use crate::mesh::{MeshVertexAttribute, PrimitiveMesh, PrimitiveMeshView};
use crate::scene::ScenePlan;
use vstd::prelude::*;

pub mod accessor;
pub mod animation;
pub mod attribute;
pub mod buffer;
pub mod data_uri;
pub mod document;
pub mod hierarchy;
pub mod index_set;
pub mod label;
pub mod loader;
pub mod maps;
pub mod material;
pub mod mesh;
pub mod scene;
pub mod texture;

verus! {

/// Bit pattern of the single-precision number one.
pub const ONE_BITS: u32 = 0x3f80_0000;

/// The local transform of a node, as the document declares it.
#[derive(Clone, Copy, Debug, PartialEq, Eq)]
pub enum Transform {
    /// A column-major 4x4 matrix.
    Matrix { matrix: [[u32; 4]; 4] },
    /// Translation, rotation quaternion (x, y, z, w) and scale.
    Decomposed { translation: [u32; 3], rotation: [u32; 4], scale: [u32; 3] },
}

impl Transform {
    /// No translation, the identity rotation and unit scale.
    pub fn identity() -> (r: Transform)
        ensures
            r == Self::spec_identity(),
    {
        Transform::Decomposed {
            translation: [0, 0, 0],
            rotation: [0, 0, 0, ONE_BITS],
            scale: [ONE_BITS, ONE_BITS, ONE_BITS],
        }
    }

    /// No translation, the identity rotation and unit scale.
    pub open spec fn spec_identity() -> Transform {
        Transform::Decomposed {
            translation: [0, 0, 0],
            rotation: [0, 0, 0, ONE_BITS],
            scale: [ONE_BITS, ONE_BITS, ONE_BITS],
        }
    }
}

/// A glTF node with all of its child nodes, the index of its mesh and its transform.
#[derive(Debug, PartialEq, Eq)]
pub struct GltfNode {
    pub children: Vec<GltfNode>,
    pub mesh: Option<usize>,
    pub transform: Transform,
}

/// The mathematical value of a [`GltfNode`]: a finite tree.
pub struct NodeTree {
    pub children: Seq<NodeTree>,
    pub mesh: Option<usize>,
    pub transform: Transform,
}

impl View for GltfNode {
    type V = NodeTree;

    open spec fn view(&self) -> NodeTree {
        self.tree()
    }
}

impl GltfNode {
    /// The tree that the node and its descendants form.
    pub open spec fn tree(self) -> NodeTree
        decreases self,
    {
        NodeTree {
            children: Seq::new(
                self.children@.len(),
                |i: int|
                    if 0 <= i < self.children@.len() {
                        self.children@[i].tree()
                    } else {
                        arbitrary()
                    },
            ),
            mesh: self.mesh,
            transform: self.transform,
        }
    }

    /// A deep copy of the node and of everything below it.
    pub fn duplicate(&self) -> (r: GltfNode)
        ensures
            r@ == self@,
        decreases self,
    {
        let mut children: Vec<GltfNode> = Vec::new();
        let mut i: usize = 0;
        while i < self.children.len()
            invariant
                i <= self.children.len(),
                children@.len() == i,
                forall|k: int| 0 <= k < i ==> (#[trigger] children@[k])@ == self.children@[k]@,
            decreases self.children.len() - i,
        {
            let child = self.children[i].duplicate();
            children.push(child);
            i = i + 1;
        }
        let r = GltfNode { children, mesh: self.mesh, transform: self.transform };
        assert(r@.children =~= self@.children);
        r
    }
}

/// Part of a [`GltfMesh`] that consists of a mesh and the index of its material.
#[derive(Debug, PartialEq, Eq)]
pub struct GltfPrimitive {
    pub mesh: PrimitiveMesh,
    pub material: Option<usize>,
}

/// A glTF mesh, which may consist of multiple [`GltfPrimitive`]s.
#[derive(Debug, PartialEq, Eq)]
pub struct GltfMesh {
    pub primitives: Vec<GltfPrimitive>,
}

/// The primitives of a mesh, as mathematics.
pub open spec fn primitives_view(primitives: Seq<GltfPrimitive>) -> Seq<
    (PrimitiveMeshView, Option<usize>),
> {
    Seq::new(primitives.len(), |i: int| (primitives[i].mesh@, primitives[i].material))
}

impl View for GltfMesh {
    type V = Seq<(PrimitiveMeshView, Option<usize>)>;

    open spec fn view(&self) -> Seq<(PrimitiveMeshView, Option<usize>)> {
        primitives_view(self.primitives@)
    }
}

/// What the application has attached to a part of the document, as text.
#[derive(Clone, Debug, PartialEq, Eq)]
pub struct GltfExtras {
    pub value: String,
}

/// Representation of a loaded glTF file. What is named is named by its place in the
/// list of its kind.
#[derive(Debug, PartialEq, Eq)]
pub struct Gltf {
    pub scenes: Vec<ScenePlan>,
    pub named_scenes: NameMap,
    pub meshes: Vec<GltfMesh>,
    pub named_meshes: NameMap,
    pub materials: Vec<StandardMaterial>,
    pub named_materials: NameMap,
    /// The resolved nodes, each with its label.
    pub nodes: Vec<(String, GltfNode)>,
    pub named_nodes: NameMap,
    pub default_scene: Option<usize>,
    pub animations: Vec<AnimationClip>,
    pub named_animations: NameMap,
}

/// Adds support for glTF file loading: holds what the loader is set up with.
#[derive(Debug)]
pub struct GltfPlugin {
    custom_vertex_attributes: AttributeMap,
}

impl GltfPlugin {
    /// The custom vertex attributes, by the name that the document calls them.
    pub closed spec fn custom(self) -> Registrations {
        registered(self.custom_vertex_attributes)
    }

    /// A plugin without custom vertex attributes.
    pub fn new() -> (r: GltfPlugin)
        ensures
            r.custom() == Registrations::empty(),
    {
        GltfPlugin { custom_vertex_attributes: AttributeMap::new() }
    }

    /// Registers `attribute` as the target of the attributes that the document
    /// calls `name`. It replaces what was registered under this name before.
    pub fn add_custom_vertex_attribute(self, name: &str, attribute: MeshVertexAttribute) -> (r:
        Self)
        ensures
            r.custom() == self.custom().insert(name@, attribute@),
    {
        let mut plugin = self;
        plugin.custom_vertex_attributes.insert(crate::buffer::str_to_string(name), attribute);
        plugin
    }

    /// The loader that the plugin sets up, for a renderer that supports the given
    /// compressed image formats.
    pub fn build(&self, supported_compressed_formats: u32) -> (r: loader::GltfLoader)
        ensures
            r.supported_compressed_formats == supported_compressed_formats,
            registered(r.custom_vertex_attributes) == self.custom(),
    {
        loader::GltfLoader {
            supported_compressed_formats,
            custom_vertex_attributes: self.custom_vertex_attributes.duplicate(),
        }
    }
}

impl Default for GltfPlugin {
    fn default() -> (r: GltfPlugin)
        ensures
            r.custom() == Registrations::empty(),
    {
        GltfPlugin::new()
    }
}

} // verus!
