//! Loading a whole document, and what can go wrong with it.
use crate::accessor::{
    accessed, rows, rows_u32, Accessor, BufferAccessor, BufferView, DataType, Normalization,
};
use crate::animation::{
    children_exist, find_node_paths, is_resolved, load_animation, loaded_channels, node_paths,
    roots_exist, walked, walked_children, AnimationClip, AnimationWarning,
};
use crate::document::{Animation, Document, Material, Mesh, Node, Scene, Skin};
use crate::hierarchy::{
    entries, is_first_fault, kept, lemma_kept_ascending, resolvable, resolve_node_hierarchy,
    resolves, Entry, NodeEntry, ResolvedHierarchy, StructuralWarning,
};
use crate::label::{decimal, node_label, spec_node_name};
use crate::material::{linear_textures, load_material, standard_material, StandardMaterial};
use crate::mesh::{load_primitive, primitive_mesh, topology, PrimitiveMeshView};
use crate::scene::{
    load_node, met, planned, planned_children, trees_view, walk_after, walk_after_children,
    ScenePlan, ScenePlanView, SceneNode, SceneTree, Walk,
};
use crate::index_set::{held, IndexSet};
use crate::maps::{
    known_ways, named_places, registered, AttributeMap, NameMap, PathMap, Places, Registrations,
    Ways,
};
use crate::{Gltf, GltfMesh, GltfNode, GltfPrimitive, NodeTree, primitives_view};
use vstd::prelude::*;
use vstd::string::StringExecFns;

verus! {

/// Loads glTF files with all of their data.
#[derive(Debug)]
pub struct GltfLoader {
    /// The compressed image formats that the renderer supports, as the flags of the
    /// renderer.
    pub supported_compressed_formats: u32,
    /// The custom vertex attributes, by the name that the document calls them.
    pub custom_vertex_attributes: AttributeMap,
}

impl GltfLoader {
    /// The file extensions that the loader takes.
    pub fn extensions(&self) -> (r: Vec<&'static str>)
        ensures
            r@.len() == 2,
            r@[0]@ == "gltf"@,
            r@[1]@ == "glb"@,
    {
        let mut r: Vec<&'static str> = Vec::new();
        r.push("gltf");
        r.push("glb");
        r
    }
}

/// The topology that a primitive declares.
#[derive(Clone, Copy, Debug, PartialEq, Eq, Structural)]
pub enum Mode {
    Points,
    Lines,
    LineLoop,
    LineStrip,
    Triangles,
    TriangleStrip,
    TriangleFan,
}

/// An error that occurs when loading a glTF file.
#[derive(Debug, PartialEq, Eq)]
pub enum GltfError {
    /// Unsupported primitive mode.
    UnsupportedPrimitive { mode: Mode },
    /// Invalid glTF file, with what is wrong with it.
    Gltf(String),
    /// The binary blob is missing.
    MissingBlob,
    /// Failed to decode base64 data.
    Base64Decode(base64::DecodeError),
    /// Unsupported buffer format.
    BufferFormatUnsupported,
    /// Invalid image mime type, with the type.
    InvalidImageMimeType(String),
    /// An image could not be decoded, with the reason.
    ImageError(String),
    /// Failed to load an asset path, with the reason.
    AssetIoError(String),
    /// Missing sampler for the animation of this index.
    MissingAnimationSampler(usize),
    /// Failed to generate tangents, with the reason.
    GenerateTangentsError(String),
}


/// The kinds of errors, without what they carry.
#[derive(Clone, Copy, Debug, PartialEq, Eq, Structural)]
pub enum ErrorKind {
    UnsupportedPrimitive,
    Gltf,
    MissingBlob,
    Base64Decode,
    BufferFormatUnsupported,
    InvalidImageMimeType,
    ImageError,
    AssetIoError,
    MissingAnimationSampler,
    GenerateTangentsError,
}

impl GltfError {
    /// The kind of the error.
    pub open spec fn kind(self) -> ErrorKind {
        match self {
            GltfError::UnsupportedPrimitive { .. } => ErrorKind::UnsupportedPrimitive,
            GltfError::Gltf(_) => ErrorKind::Gltf,
            GltfError::MissingBlob => ErrorKind::MissingBlob,
            GltfError::Base64Decode(_) => ErrorKind::Base64Decode,
            GltfError::BufferFormatUnsupported => ErrorKind::BufferFormatUnsupported,
            GltfError::InvalidImageMimeType(_) => ErrorKind::InvalidImageMimeType,
            GltfError::ImageError(_) => ErrorKind::ImageError,
            GltfError::AssetIoError(_) => ErrorKind::AssetIoError,
            GltfError::MissingAnimationSampler(_) => ErrorKind::MissingAnimationSampler,
            GltfError::GenerateTangentsError(_) => ErrorKind::GenerateTangentsError,
        }
    }

    /// The kind of the error.
    pub fn error_kind(&self) -> (r: ErrorKind)
        ensures
            r == self.kind(),
    {
        match self {
            GltfError::UnsupportedPrimitive { .. } => ErrorKind::UnsupportedPrimitive,
            GltfError::Gltf(_) => ErrorKind::Gltf,
            GltfError::MissingBlob => ErrorKind::MissingBlob,
            GltfError::Base64Decode(_) => ErrorKind::Base64Decode,
            GltfError::BufferFormatUnsupported => ErrorKind::BufferFormatUnsupported,
            GltfError::InvalidImageMimeType(_) => ErrorKind::InvalidImageMimeType,
            GltfError::ImageError(_) => ErrorKind::ImageError,
            GltfError::AssetIoError(_) => ErrorKind::AssetIoError,
            GltfError::MissingAnimationSampler(_) => ErrorKind::MissingAnimationSampler,
            GltfError::GenerateTangentsError(_) => ErrorKind::GenerateTangentsError,
        }
    }
}

/// A part of a document that may have a name.
pub trait Named {
    /// The name, where the part has one.
    spec fn spec_name(&self) -> Option<String>;

    /// The name, where the part has one.
    fn name(&self) -> (r: &Option<String>)
        ensures
            *r == self.spec_name(),
    ;
}

impl Named for Material {
    open spec fn spec_name(&self) -> Option<String> {
        self.name
    }

    fn name(&self) -> (r: &Option<String>) {
        &self.name
    }
}

impl Named for Mesh {
    open spec fn spec_name(&self) -> Option<String> {
        self.name
    }

    fn name(&self) -> (r: &Option<String>) {
        &self.name
    }
}

impl Named for Node {
    open spec fn spec_name(&self) -> Option<String> {
        self.name
    }

    fn name(&self) -> (r: &Option<String>) {
        &self.name
    }
}

impl Named for Scene {
    open spec fn spec_name(&self) -> Option<String> {
        self.name
    }

    fn name(&self) -> (r: &Option<String>) {
        &self.name
    }
}

impl Named for Animation {
    open spec fn spec_name(&self) -> Option<String> {
        self.name
    }

    fn name(&self) -> (r: &Option<String>) {
        &self.name
    }
}

/// The place of each name among the first `upto` items. Where several items have the
/// same name, it leads to the last of them.
pub open spec fn named_upto<T: Named>(items: Seq<T>, upto: int) -> Places
    decreases upto,
{
    if upto <= 0 {
        Map::empty()
    } else {
        match items[upto - 1].spec_name() {
            Some(name) => named_upto(items, upto - 1).insert(name@, (upto - 1) as usize),
            None => named_upto(items, upto - 1),
        }
    }
}

/// Maps the names of the items to the places of the items.
pub fn named<T: Named>(items: &Vec<T>) -> (r: NameMap)
    ensures
        named_places(r) == named_upto(items@, items@.len() as int),
{
    let mut r = NameMap::new();
    let mut i: usize = 0;
    while i < items.len()
        invariant
            i <= items.len(),
            named_places(r) == named_upto(items@, i as int),
        decreases items.len() - i,
    {
        match items[i].name() {
            Some(name) => {
                r.insert(name.clone(), i);
            },
            None => {},
        }
        i = i + 1;
    }
    r
}

/// The materials of the renderer for the materials of a document.
pub fn load_materials(materials: &Vec<Material>) -> (r: Vec<StandardMaterial>)
    ensures
        r@.len() == materials@.len(),
        forall|i: int| 0 <= i < r@.len() ==> #[trigger] r@[i] == standard_material(materials@[i]),
{
    let mut r: Vec<StandardMaterial> = Vec::new();
    let mut i: usize = 0;
    while i < materials.len()
        invariant
            i <= materials.len(),
            r@.len() == i,
            forall|j: int| 0 <= j < i ==> #[trigger] r@[j] == standard_material(materials@[j]),
        decreases materials.len() - i,
    {
        let (_, material) = load_material(&materials[i]);
        r.push(material);
        i = i + 1;
    }
    r
}

impl Document {
    /// Every child of a node and every root of a scene is a node of the document.
    pub open spec fn well_formed(self) -> bool {
        children_exist(self.nodes@) && roots_exist(self.nodes@, self.scenes@)
    }

    /// Whether every child of a node and every root of a scene is a node of the
    /// document.
    pub fn validate(&self) -> (r: bool)
        ensures
            r == self.well_formed(),
    {
        let n = self.nodes.len();
        let mut i: usize = 0;
        while i < n
            invariant
                i <= n,
                n == self.nodes@.len(),
                forall|j: int, k: int|
                    0 <= j < i && 0 <= k < self.nodes@[j].children@.len() ==> (
                    #[trigger] self.nodes@[j].children@[k]) < n,
            decreases n - i,
        {
            if !all_below(&self.nodes[i].children, n) {
                return false;
            }
            i = i + 1;
        }
        let mut s: usize = 0;
        while s < self.scenes.len()
            invariant
                s <= self.scenes.len(),
                n == self.nodes@.len(),
                children_exist(self.nodes@),
                forall|j: int, k: int|
                    0 <= j < s && 0 <= k < self.scenes@[j].nodes@.len() ==> (
                    #[trigger] self.scenes@[j].nodes@[k]) < n,
            decreases self.scenes.len() - s,
        {
            if !all_below(&self.scenes[s].nodes, n) {
                return false;
            }
            s = s + 1;
        }
        true
    }
}

/// Whether every index is below `bound`.
fn all_below(indices: &Vec<usize>, bound: usize) -> (r: bool)
    ensures
        r == forall|k: int| 0 <= k < indices@.len() ==> (#[trigger] indices@[k]) < bound,
{
    let mut k: usize = 0;
    while k < indices.len()
        invariant
            k <= indices.len(),
            forall|j: int| 0 <= j < k ==> (#[trigger] indices@[j]) < bound,
        decreases indices.len() - k,
    {
        if indices[k] >= bound {
            return false;
        }
        k = k + 1;
    }
    true
}

/// The material of a primitive, where the document has it.
pub open spec fn material_of(material: Option<usize>, materials: Seq<Material>) -> Option<usize> {
    match material {
        Some(index) => if index < materials.len() {
            Some(index)
        } else {
            None
        },
        None => None,
    }
}

/// What loading the primitives of a mesh from the one at `from` on gives, or the mode
/// of the first of them whose topology the renderer does not have.
pub open spec fn loaded_primitives(
    mesh: Mesh,
    document: Document,
    buffers: Seq<Vec<u8>>,
    custom: Registrations,
    from: int,
) -> Result<Seq<(PrimitiveMeshView, Option<usize>)>, Mode>
    decreases mesh.primitives@.len() - from,
{
    if from < 0 || from >= mesh.primitives@.len() {
        Ok(Seq::empty())
    } else {
        let primitive = mesh.primitives@[from];
        match topology(primitive.mode) {
            None => Err(primitive.mode),
            Some(found) => match loaded_primitives(mesh, document, buffers, custom, from + 1) {
                Ok(rest) => Ok(
                    seq![
                        (
                            primitive_mesh(
                                primitive,
                                found,
                                document.accessors@,
                                document.views@,
                                buffers,
                                document.materials@,
                                custom,
                            ),
                            material_of(primitive.material, document.materials@),
                        ),
                    ] + rest,
                ),
                Err(mode) => Err(mode),
            },
        }
    }
}

/// Loads a mesh of the document. Fails on the first primitive whose topology the
/// renderer does not have.
#[verifier::loop_isolation(false)]
pub fn load_mesh(
    mesh: &Mesh,
    document: &Document,
    buffer_data: &Vec<Vec<u8>>,
    custom_vertex_attributes: &AttributeMap,
) -> (r: Result<GltfMesh, GltfError>)
    ensures
        match loaded_primitives(*mesh, *document, buffer_data@, registered(*custom_vertex_attributes), 0) {
            Ok(primitives) => r matches Ok(found) && found@ == primitives,
            Err(mode) => r == Err::<GltfMesh, GltfError>(GltfError::UnsupportedPrimitive { mode }),
        },
{
    let ghost whole = loaded_primitives(
        *mesh,
        *document,
        buffer_data@,
        registered(*custom_vertex_attributes),
        0,
    );
    let mut primitives: Vec<GltfPrimitive> = Vec::new();
    let mut i: usize = 0;
    assert(primitives_view(primitives@) + Seq::empty() =~= Seq::<
        (PrimitiveMeshView, Option<usize>),
    >::empty());
    while i < mesh.primitives.len()
        invariant
            i <= mesh.primitives.len(),
            whole == match loaded_primitives(
                *mesh,
                *document,
                buffer_data@,
                registered(*custom_vertex_attributes),
                i as int,
            ) {
                Ok(rest) => Ok::<Seq<(PrimitiveMeshView, Option<usize>)>, Mode>(
                    primitives_view(primitives@) + rest,
                ),
                Err(mode) => Err(mode),
            },
        decreases mesh.primitives.len() - i,
    {
        let primitive = &mesh.primitives[i];
        let ghost before = primitives_view(primitives@);
        let loaded = match load_primitive(
            primitive,
            &document.accessors,
            &document.views,
            buffer_data,
            &document.materials,
            custom_vertex_attributes,
        ) {
            Ok(loaded) => loaded,
            Err(e) => {
                return Err(e);
            },
        };
        let material = match primitive.material {
            Some(index) => if index < document.materials.len() {
                Some(index)
            } else {
                None
            },
            None => None,
        };
        primitives.push(GltfPrimitive { mesh: loaded, material });
        proof {
            let entry = (loaded@, material);
            assert(primitives_view(primitives@) =~= before.push(entry));
            match loaded_primitives(
                *mesh,
                *document,
                buffer_data@,
                registered(*custom_vertex_attributes),
                i + 1,
            ) {
                Ok(rest) => {
                    assert(before + (seq![entry] + rest) =~= primitives_view(primitives@) + rest);
                },
                Err(_) => {},
            }
        }
        i = i + 1;
    }
    assert(primitives_view(primitives@) + Seq::empty() =~= primitives_view(primitives@));
    Ok(GltfMesh { primitives })
}

/// Meshes, as mathematics.
pub open spec fn meshes_view(meshes: Seq<GltfMesh>) -> Seq<Seq<(PrimitiveMeshView, Option<usize>)>> {
    Seq::new(meshes.len(), |i: int| meshes[i]@)
}

/// What loading the meshes of a document from the one at `from` on gives, or the mode
/// of the first primitive whose topology the renderer does not have.
pub open spec fn loaded_meshes(
    document: Document,
    buffers: Seq<Vec<u8>>,
    custom: Registrations,
    from: int,
) -> Result<Seq<Seq<(PrimitiveMeshView, Option<usize>)>>, Mode>
    decreases document.meshes@.len() - from,
{
    if from < 0 || from >= document.meshes@.len() {
        Ok(Seq::empty())
    } else {
        match loaded_primitives(document.meshes@[from], document, buffers, custom, 0) {
            Err(mode) => Err(mode),
            Ok(first) => match loaded_meshes(document, buffers, custom, from + 1) {
                Ok(rest) => Ok(seq![first] + rest),
                Err(mode) => Err(mode),
            },
        }
    }
}

/// Loads the meshes of a document.
#[verifier::loop_isolation(false)]
pub fn load_meshes(
    document: &Document,
    buffer_data: &Vec<Vec<u8>>,
    custom_vertex_attributes: &AttributeMap,
) -> (r: Result<Vec<GltfMesh>, GltfError>)
    ensures
        match loaded_meshes(*document, buffer_data@, registered(*custom_vertex_attributes), 0) {
            Ok(meshes) => r matches Ok(found) && meshes_view(found@) == meshes,
            Err(mode) => r == Err::<Vec<GltfMesh>, GltfError>(
                GltfError::UnsupportedPrimitive { mode },
            ),
        },
{
    let ghost whole = loaded_meshes(*document, buffer_data@, registered(*custom_vertex_attributes), 0);
    let mut meshes: Vec<GltfMesh> = Vec::new();
    let mut i: usize = 0;
    assert(meshes_view(meshes@) + Seq::empty() =~= Seq::<
        Seq<(PrimitiveMeshView, Option<usize>)>,
    >::empty());
    while i < document.meshes.len()
        invariant
            i <= document.meshes.len(),
            whole == match loaded_meshes(
                *document,
                buffer_data@,
                registered(*custom_vertex_attributes),
                i as int,
            ) {
                Ok(rest) => Ok::<Seq<Seq<(PrimitiveMeshView, Option<usize>)>>, Mode>(
                    meshes_view(meshes@) + rest,
                ),
                Err(mode) => Err(mode),
            },
        decreases document.meshes.len() - i,
    {
        let ghost before = meshes_view(meshes@);
        let mesh = match load_mesh(
            &document.meshes[i],
            document,
            buffer_data,
            custom_vertex_attributes,
        ) {
            Ok(mesh) => mesh,
            Err(e) => {
                return Err(e);
            },
        };
        meshes.push(mesh);
        proof {
            assert(meshes_view(meshes@) =~= before.push(mesh@));
            match loaded_meshes(*document, buffer_data@, registered(*custom_vertex_attributes), i + 1) {
                Ok(rest) => {
                    assert(before + (seq![mesh@] + rest) =~= meshes_view(meshes@) + rest);
                },
                Err(_) => {},
            }
        }
        i = i + 1;
    }
    assert(meshes_view(meshes@) + Seq::empty() =~= meshes_view(meshes@));
    Ok(meshes)
}

/// What loading the animations of a document gives.
#[derive(Debug, PartialEq, Eq)]
pub struct LoadedAnimations {
    /// The clips, in the order of the animations.
    pub clips: Vec<AnimationClip>,
    /// The roots below which a curve animates a node.
    pub roots: IndexSet,
    /// What was found wrong with the channels of each animation.
    pub warnings: Vec<Vec<AnimationWarning>>,
}

/// What loading the animations of a document gives, as mathematics.
pub struct LoadedAnimationsView {
    pub clips: Seq<Seq<(Seq<Seq<char>>, crate::animation::CurveView)>>,
    pub roots: Set<usize>,
    pub warnings: Seq<Seq<AnimationWarning>>,
}

/// Clips, as mathematics.
pub open spec fn clips_view(clips: Seq<AnimationClip>) -> Seq<
    Seq<(Seq<Seq<char>>, crate::animation::CurveView)>,
> {
    Seq::new(clips.len(), |i: int| crate::animation::curves_view(clips[i].curves@))
}

/// Lists of warnings, as mathematics.
pub open spec fn warnings_view(warnings: Seq<Vec<AnimationWarning>>) -> Seq<Seq<AnimationWarning>> {
    Seq::new(warnings.len(), |i: int| warnings[i]@)
}

impl View for LoadedAnimations {
    type V = LoadedAnimationsView;

    open spec fn view(&self) -> LoadedAnimationsView {
        LoadedAnimationsView {
            clips: clips_view(self.clips@),
            roots: held(self.roots),
            warnings: warnings_view(self.warnings@),
        }
    }
}

/// What loading the animations of a document from the one at `from` on gives, or the
/// index of the first of them with a channel whose keyframes cannot be located.
pub open spec fn loaded_animations(
    document: Document,
    buffers: Seq<Vec<u8>>,
    paths: Ways,
    from: int,
) -> Result<LoadedAnimationsView, usize>
    decreases document.animations@.len() - from,
{
    if from < 0 || from >= document.animations@.len() {
        Ok(
            LoadedAnimationsView {
                clips: Seq::empty(),
                roots: Set::empty(),
                warnings: Seq::empty(),
            },
        )
    } else {
        match loaded_channels(
            document.animations@[from].channels@,
            document.accessors@,
            document.views@,
            buffers,
            paths,
            document.animations@[from].channels@.len() as int,
        ) {
            None => Err(from as usize),
            Some(first) => match loaded_animations(document, buffers, paths, from + 1) {
                Ok(rest) => Ok(
                    LoadedAnimationsView {
                        clips: seq![first.curves] + rest.clips,
                        roots: first.roots.to_set() + rest.roots,
                        warnings: seq![first.warnings] + rest.warnings,
                    },
                ),
                Err(index) => Err(index),
            },
        }
    }
}

/// Puts the indices into the set.
fn insert_indices(set: &mut IndexSet, indices: &Vec<usize>)
    ensures
        held(*final(set)) == held(*old(set)) + indices@.to_set(),
{
    let mut i: usize = 0;
    assert(indices@.subrange(0, 0).to_set() =~= Set::<usize>::empty()) by {
        assert(indices@.subrange(0, 0).len() == 0);
    }
    assert(held(*set) =~= held(*old(set)) + Set::<usize>::empty());
    while i < indices.len()
        invariant
            i <= indices.len(),
            held(*set) == held(*old(set)) + indices@.subrange(0, i as int).to_set(),
        decreases indices.len() - i,
    {
        set.insert(indices[i]);
        proof {
            let shorter = indices@.subrange(0, i as int);
            let longer = indices@.subrange(0, i + 1);
            assert(longer == shorter.push(indices@[i as int]));
            assert forall|x: usize| longer.to_set().contains(x) <==> shorter.to_set().insert(
                indices@[i as int],
            ).contains(x) by {
                if shorter.contains(x) {
                    let w = choose|w: int| 0 <= w < shorter.len() && shorter[w] == x;
                    assert(longer[w] == x);
                }
                if x == indices@[i as int] {
                    assert(longer[i as int] == x);
                }
                if longer.contains(x) {
                    let w = choose|w: int| 0 <= w < longer.len() && longer[w] == x;
                    if w < i {
                        assert(shorter[w] == x);
                    }
                }
            }
            assert(held(*set) =~= held(*old(set)) + longer.to_set());
        }
        i = i + 1;
    }
    assert(indices@.subrange(0, indices@.len() as int) == indices@);
}

/// Loads the animations of a document.
#[verifier::loop_isolation(false)]
pub fn load_animations(
    document: &Document,
    buffer_data: &Vec<Vec<u8>>,
    paths: &PathMap,
) -> (r: Result<LoadedAnimations, GltfError>)
    ensures
        match loaded_animations(*document, buffer_data@, known_ways(*paths), 0) {
            Ok(animations) => r matches Ok(found) && found@ == animations,
            Err(index) => r == Err::<LoadedAnimations, GltfError>(
                GltfError::MissingAnimationSampler(index),
            ),
        },
{
    let ghost whole = loaded_animations(*document, buffer_data@, known_ways(*paths), 0);
    let mut clips: Vec<AnimationClip> = Vec::new();
    let mut roots = IndexSet::new();
    let mut warnings: Vec<Vec<AnimationWarning>> = Vec::new();
    let mut i: usize = 0;
    proof {
        assert(clips_view(clips@) + Seq::empty() =~= Seq::<
            Seq<(Seq<Seq<char>>, crate::animation::CurveView)>,
        >::empty());
        match whole {
            Ok(rest) => {
                assert(held(roots) + rest.roots =~= rest.roots);
                assert(clips_view(clips@) + rest.clips =~= rest.clips);
                assert(warnings_view(warnings@) + rest.warnings =~= rest.warnings);
            },
            Err(_) => {},
        }
        assert(warnings_view(warnings@) + Seq::empty() =~= Seq::<Seq<AnimationWarning>>::empty());
    }
    while i < document.animations.len()
        invariant
            i <= document.animations.len(),
            whole == match loaded_animations(
                *document,
                buffer_data@,
                known_ways(*paths),
                i as int,
            ) {
                Ok(rest) => Ok::<LoadedAnimationsView, usize>(
                    LoadedAnimationsView {
                        clips: clips_view(clips@) + rest.clips,
                        roots: held(roots) + rest.roots,
                        warnings: warnings_view(warnings@) + rest.warnings,
                    },
                ),
                Err(index) => Err(index),
            },
        decreases document.animations.len() - i,
    {
        let ghost clips_before = clips_view(clips@);
        let ghost roots_before = held(roots);
        let ghost warnings_before = warnings_view(warnings@);
        let animation = match load_animation(
            &document.animations[i],
            i,
            &document.accessors,
            &document.views,
            buffer_data,
            paths,
        ) {
            Ok(animation) => animation,
            Err(e) => {
                return Err(e);
            },
        };
        let ghost first = animation@;
        insert_indices(&mut roots, &animation.roots);
        clips.push(animation.clip);
        warnings.push(animation.warnings);
        proof {
            assert(clips_view(clips@) =~= clips_before.push(first.curves));
            assert(warnings_view(warnings@) =~= warnings_before.push(first.warnings));
            match loaded_animations(*document, buffer_data@, known_ways(*paths), i + 1) {
                Ok(rest) => {
                    assert(clips_before + (seq![first.curves] + rest.clips) =~= clips_view(clips@)
                        + rest.clips);
                    assert(roots_before + (first.roots.to_set() + rest.roots) =~= held(roots)
                        + rest.roots);
                    assert(warnings_before + (seq![first.warnings] + rest.warnings)
                        =~= warnings_view(warnings@) + rest.warnings);
                },
                Err(_) => {},
            }
        }
        i = i + 1;
    }
    proof {
        assert(clips_view(clips@) + Seq::empty() =~= clips_view(clips@));
        assert(held(roots) + Set::empty() =~= held(roots));
        assert(warnings_view(warnings@) + Seq::empty() =~= warnings_view(warnings@));
    }
    Ok(LoadedAnimations { clips, roots, warnings })
}

/// The entry of node `i` in the flat node list: its label, the node without
/// children, with its mesh where the document has it, and the indices of its
/// children.
pub open spec fn node_entry(document: Document, i: int) -> Entry {
    let node = document.nodes@[i];
    Entry {
        label: "Node"@ + decimal(i as nat),
        node: NodeTree {
            children: Seq::empty(),
            mesh: match node.mesh {
                Some(mesh) => if mesh < document.meshes@.len() {
                    Some(mesh)
                } else {
                    None
                },
                None => None,
            },
            transform: node.transform,
        },
        children: node.children@,
    }
}

/// The flat node list of a document.
pub open spec fn node_list(document: Document) -> Seq<Entry> {
    Seq::new(document.nodes@.len(), |i: int| node_entry(document, i))
}

/// Lists the nodes of a document with their labels and the indices of their children.
pub fn node_entries(document: &Document) -> (r: Vec<NodeEntry>)
    ensures
        entries(r@) == node_list(*document),
{
    let mut r: Vec<NodeEntry> = Vec::new();
    let mut i: usize = 0;
    while i < document.nodes.len()
        invariant
            i <= document.nodes.len(),
            r@.len() == i,
            forall|j: int| 0 <= j < i ==> (#[trigger] entries(r@)[j]) == node_entry(*document, j),
        decreases document.nodes.len() - i,
    {
        let node = &document.nodes[i];
        let ghost before = entries(r@);
        let entry = (
            node_label(i),
            GltfNode {
                children: Vec::new(),
                mesh: match node.mesh {
                    Some(mesh) => if mesh < document.meshes.len() {
                        Some(mesh)
                    } else {
                        None
                    },
                    None => None,
                },
                transform: node.transform,
            },
            node.children.clone(),
        );
        proof {
            assert(entry.1@.children =~= Seq::<NodeTree>::empty());
        }
        r.push(entry);
        proof {
            assert forall|j: int| 0 <= j < i + 1 implies (#[trigger] entries(r@)[j]) == node_entry(
                *document,
                j,
            ) by {
                if j < i {
                    assert(entries(r@)[j] == before[j]);
                }
            }
        }
        i = i + 1;
    }
    assert(entries(r@) =~= node_list(*document));
    r
}

/// The place among the resolved nodes of each name of the first `upto` of them.
/// `indices` gives the index in the document of each resolved node. A node that did
/// not resolve has no place, so its name leads nowhere.
pub open spec fn named_resolved(nodes: Seq<Node>, indices: Seq<usize>, upto: int) -> Places
    decreases upto,
{
    if upto <= 0 {
        Map::empty()
    } else {
        let before = named_resolved(nodes, indices, upto - 1);
        if indices[upto - 1] < nodes.len() {
            match nodes[indices[upto - 1] as int].name {
                Some(name) => before.insert(name@, (upto - 1) as usize),
                None => before,
            }
        } else {
            before
        }
    }
}

/// Maps the names of the resolved nodes to the places of the nodes.
pub fn named_nodes(nodes: &Vec<Node>, indices: &Vec<usize>) -> (r: NameMap)
    ensures
        named_places(r) == named_resolved(nodes@, indices@, indices@.len() as int),
{
    let mut r = NameMap::new();
    let mut j: usize = 0;
    while j < indices.len()
        invariant
            j <= indices.len(),
            named_places(r) == named_resolved(nodes@, indices@, j as int),
        decreases indices.len() - j,
    {
        if indices[j] < nodes.len() {
            match &nodes[indices[j]].name {
                Some(name) => {
                    r.insert(name.clone(), j);
                },
                None => {},
            }
        }
        j = j + 1;
    }
    r
}

/// The inverse bind matrices of a skin, sixteen single-precision numbers each, column
/// after column. Nothing where the skin names no accessor, or one that does not
/// exist or decode.
pub open spec fn skin_matrices(
    skin: Skin,
    accessors: Seq<Accessor>,
    views: Seq<BufferView>,
    buffers: Seq<Vec<u8>>,
) -> Option<Seq<Seq<int>>> {
    match skin.inverse_bind_matrices {
        Some(accessor) => if accessor < accessors.len() {
            match accessed(accessors[accessor as int], views, buffers, 64) {
                Ok(items) => Some(rows(items, DataType::F32, 16)),
                Err(_) => None,
            }
        } else {
            None
        },
        None => None,
    }
}

/// What reading inverse bind matrices returned, as mathematics.
pub open spec fn matrices_of(r: Option<Vec<[u32; 16]>>) -> Option<Seq<Seq<int>>> {
    match r {
        Some(matrices) => Some(rows_u32(matrices@)),
        None => None,
    }
}

/// Reads the inverse bind matrices of a skin.
pub fn load_skin(
    skin: &Skin,
    accessors: &Vec<Accessor>,
    views: &Vec<BufferView>,
    buffer_data: &Vec<Vec<u8>>,
) -> (r: Option<Vec<[u32; 16]>>)
    ensures
        matrices_of(r) == skin_matrices(*skin, accessors@, views@, buffer_data@),
{
    let accessor = match skin.inverse_bind_matrices {
        Some(accessor) => if accessor < accessors.len() {
            &accessors[accessor]
        } else {
            return None;
        },
        None => {
            return None;
        },
    };
    let acc = BufferAccessor {
        accessor,
        views,
        buffer_data,
        normalization: Normalization(accessor.normalized),
    };
    match acc.iter::<64>() {
        Ok(it) => {
            let matrices = it.read_u32::<16>();
            proof {
                assert(rows(it@, DataType::F32, 16) =~~= rows(it@, DataType::U32, 16));
            }
            Some(matrices)
        },
        Err(_) => None,
    }
}

/// Reads the inverse bind matrices of every skin of a document.
pub fn load_skins(document: &Document, buffer_data: &Vec<Vec<u8>>) -> (r: Vec<
    Option<Vec<[u32; 16]>>,
>)
    ensures
        r@.len() == document.skins@.len(),
        forall|i: int|
            0 <= i < r@.len() ==> matrices_of(#[trigger] r@[i]) == skin_matrices(
                document.skins@[i],
                document.accessors@,
                document.views@,
                buffer_data@,
            ),
{
    let mut r: Vec<Option<Vec<[u32; 16]>>> = Vec::new();
    let mut i: usize = 0;
    while i < document.skins.len()
        invariant
            i <= document.skins.len(),
            r@.len() == i,
            forall|j: int|
                0 <= j < i ==> matrices_of(#[trigger] r@[j]) == skin_matrices(
                    document.skins@[j],
                    document.accessors@,
                    document.views@,
                    buffer_data@,
                ),
        decreases document.skins.len() - i,
    {
        r.push(load_skin(&document.skins[i], &document.accessors, &document.views, buffer_data));
        i = i + 1;
    }
    r
}

/// What is known after the roots from the one at `from` on have been walked. A root
/// that did not resolve is passed over.
pub open spec fn walk_after_roots(
    document: Document,
    roots: Seq<usize>,
    resolved: Seq<bool>,
    from: int,
    walk: Walk,
) -> Walk
    decreases roots.len() - from,
{
    if from < 0 || from >= roots.len() {
        walk
    } else if is_resolved(resolved, roots[from]) {
        walk_after_roots(
            document,
            roots,
            resolved,
            from + 1,
            walk_after(document.nodes@, document.meshes@, roots[from], walk, document.nodes@.len()),
        )
    } else {
        walk_after_roots(document, roots, resolved, from + 1, walk)
    }
}

/// The plans for the roots from the one at `from` on, each walked no deeper than there
/// are nodes. A root that did not resolve is left out.
pub open spec fn planned_roots(
    document: Document,
    roots: Seq<usize>,
    resolved: Seq<bool>,
    from: int,
    walk: Walk,
) -> Seq<SceneTree>
    decreases roots.len() - from,
{
    if from < 0 || from >= roots.len() {
        Seq::empty()
    } else if is_resolved(resolved, roots[from]) {
        let rest = planned_roots(
            document,
            roots,
            resolved,
            from + 1,
            walk_after(document.nodes@, document.meshes@, roots[from], walk, document.nodes@.len()),
        );
        match planned(
            document.nodes@,
            document.meshes@,
            roots[from],
            walk,
            document.nodes@.len(),
        ) {
            Some(first) => seq![first] + rest,
            None => rest,
        }
    } else {
        planned_roots(document, roots, resolved, from + 1, walk)
    }
}

/// For each planned root, whether it is among the animated roots.
pub open spec fn animated_flags(roots: Seq<SceneTree>, animated_roots: Set<usize>) -> Seq<bool> {
    Seq::new(roots.len(), |k: int| animated_roots.contains(roots[k].node))
}

/// What is known after the scenes from the one at `from` on have been walked.
pub open spec fn walk_after_scenes(
    document: Document,
    resolved: Seq<bool>,
    from: int,
    walk: Walk,
) -> Walk
    decreases document.scenes@.len() - from,
{
    if from < 0 || from >= document.scenes@.len() {
        walk
    } else {
        walk_after_scenes(
            document,
            resolved,
            from + 1,
            walk_after_roots(document, document.scenes@[from].nodes@, resolved, 0, walk),
        )
    }
}

/// The plans for the scenes from the one at `from` on.
pub open spec fn planned_scenes(
    document: Document,
    animated_roots: Set<usize>,
    resolved: Seq<bool>,
    from: int,
    walk: Walk,
) -> Seq<ScenePlanView>
    decreases document.scenes@.len() - from,
{
    if from < 0 || from >= document.scenes@.len() {
        Seq::empty()
    } else {
        let roots = document.scenes@[from].nodes@;
        let trees = planned_roots(document, roots, resolved, 0, walk);
        seq![ScenePlanView { roots: trees, animated: animated_flags(trees, animated_roots) }]
            + planned_scenes(
            document,
            animated_roots,
            resolved,
            from + 1,
            walk_after_roots(document, roots, resolved, 0, walk),
        )
    }
}

/// Scene plans, as mathematics.
pub open spec fn plans_view(plans: Seq<ScenePlan>) -> Seq<ScenePlanView> {
    Seq::new(plans.len(), |i: int| plans[i]@)
}

/// Plans what is to be spawned for the roots of a scene.
#[verifier::loop_isolation(false)]
fn load_roots(document: &Document, roots: &Vec<usize>, resolved: &Vec<bool>, walk: &mut Walk) -> (r:
    Vec<SceneNode>)
    ensures
        trees_view(r@) == planned_roots(*document, roots@, resolved@, 0, *old(walk)),
        *final(walk) == walk_after_roots(*document, roots@, resolved@, 0, *old(walk)),
{
    let mut plans: Vec<SceneNode> = Vec::new();
    let mut k: usize = 0;
    assert(trees_view(plans@) =~= Seq::<SceneTree>::empty());
    while k < roots.len()
        invariant
            k <= roots.len(),
            planned_roots(*document, roots@, resolved@, 0, *old(walk)) == trees_view(plans@)
                + planned_roots(*document, roots@, resolved@, k as int, *walk),
            walk_after_roots(*document, roots@, resolved@, 0, *old(walk)) == walk_after_roots(
                *document,
                roots@,
                resolved@,
                k as int,
                *walk,
            ),
        decreases roots.len() - k,
    {
        let root = roots[k];
        if root < resolved.len() && resolved[root] {
            let ghost before = trees_view(plans@);
            let ghost rest = planned_roots(
                *document,
                roots@,
                resolved@,
                k + 1,
                walk_after(document.nodes@, document.meshes@, root, *walk, document.nodes@.len()),
            );
            match load_node(&document.nodes, &document.meshes, root, walk, document.nodes.len()) {
                Some(plan) => {
                    plans.push(plan);
                    proof {
                        assert(trees_view(plans@) =~= before.push(plan@));
                        assert(before + (seq![plan@] + rest) =~= trees_view(plans@) + rest);
                    }
                },
                None => {},
            }
        }
        k = k + 1;
    }
    assert(trees_view(plans@) + Seq::empty() =~= trees_view(plans@));
    plans
}

/// Plans what is to be spawned for the scenes of a document. `resolved` says of each
/// node whether it resolved; below a root that did not, nothing is spawned.
#[verifier::loop_isolation(false)]
pub fn load_scenes(
    document: &Document,
    animated_roots: &IndexSet,
    resolved: &Vec<bool>,
    walk: &mut Walk,
) -> (r: Vec<ScenePlan>)
    ensures
        plans_view(r@) == planned_scenes(
            *document,
            held(*animated_roots),
            resolved@,
            0,
            *old(walk),
        ),
        *final(walk) == walk_after_scenes(*document, resolved@, 0, *old(walk)),
{
    let mut plans: Vec<ScenePlan> = Vec::new();
    let mut s: usize = 0;
    assert(plans_view(plans@) =~= Seq::<ScenePlanView>::empty());
    while s < document.scenes.len()
        invariant
            s <= document.scenes.len(),
            planned_scenes(*document, held(*animated_roots), resolved@, 0, *old(walk))
                == plans_view(plans@) + planned_scenes(
                *document,
                held(*animated_roots),
                resolved@,
                s as int,
                *walk,
            ),
            walk_after_scenes(*document, resolved@, 0, *old(walk)) == walk_after_scenes(
                *document,
                resolved@,
                s as int,
                *walk,
            ),
        decreases document.scenes.len() - s,
    {
        let ghost before = plans_view(plans@);
        let ghost rest = planned_scenes(
            *document,
            held(*animated_roots),
            resolved@,
            s + 1,
            walk_after_roots(*document, document.scenes@[s as int].nodes@, resolved@, 0, *walk),
        );
        let roots = load_roots(document, &document.scenes[s].nodes, resolved, walk);
        let mut animated: Vec<bool> = Vec::new();
        let mut k: usize = 0;
        while k < roots.len()
            invariant
                k <= roots.len(),
                animated@.len() == k,
                forall|j: int|
                    0 <= j < k ==> (#[trigger] animated@[j]) == held(*animated_roots).contains(
                        roots@[j].node,
                    ),
            decreases roots.len() - k,
        {
            animated.push(animated_roots.contains(roots[k].node));
            k = k + 1;
        }
        assert(animated@ =~= animated_flags(trees_view(roots@), held(*animated_roots)));
        let plan = ScenePlan { roots, animated };
        plans.push(plan);
        proof {
            assert(plans_view(plans@) =~= before.push(plan@));
            assert(before + (seq![plan@] + rest) =~= plans_view(plans@) + rest);
        }
        s = s + 1;
    }
    assert(plans_view(plans@) + Seq::empty() =~= plans_view(plans@));
    plans
}

/// Of each of the first `n` indices, whether it is among `indices`.
pub fn flags_of(indices: &Vec<usize>, n: usize) -> (r: Vec<bool>)
    ensures
        r@.len() == n,
        forall|i: int| 0 <= i < n ==> (#[trigger] r@[i] <==> indices@.contains(i as usize)),
{
    let mut r: Vec<bool> = Vec::new();
    let mut i: usize = 0;
    while i < n
        invariant
            i <= n,
            r@.len() == i,
            forall|j: int| 0 <= j < i ==> !(#[trigger] r@[j]),
        decreases n - i,
    {
        r.push(false);
        i = i + 1;
    }
    let mut k: usize = 0;
    while k < indices.len()
        invariant
            k <= indices.len(),
            r@.len() == n,
            forall|i: int|
                0 <= i < n ==> (#[trigger] r@[i] <==> indices@.subrange(0, k as int).contains(
                    i as usize,
                )),
        decreases indices.len() - k,
    {
        let index = indices[k];
        let ghost shorter = indices@.subrange(0, k as int);
        let ghost longer = indices@.subrange(0, k + 1);
        if index < n {
            r[index] = true;
        }
        proof {
            assert(longer == shorter.push(index));
            assert forall|i: int| 0 <= i < n implies (#[trigger] r@[i] <==> longer.contains(
                i as usize,
            )) by {
                if i == index {
                    assert(longer[k as int] == index);
                } else {
                    if shorter.contains(i as usize) {
                        let w = choose|w: int| 0 <= w < shorter.len() && shorter[w] == i as usize;
                        assert(longer[w] == i as usize);
                    }
                    if longer.contains(i as usize) {
                        let w = choose|w: int| 0 <= w < longer.len() && longer[w] == i as usize;
                        assert(shorter[w] == i as usize);
                    }
                }
            }
        }
        k = k + 1;
    }
    assert(indices@.subrange(0, indices@.len() as int) == indices@);
    r
}

/// Of each node of the list, whether it resolves.
pub open spec fn resolved_flags(list: Seq<Entry>) -> Seq<bool> {
    Seq::new(list.len(), |i: int| resolves(list, i))
}

/// Below a node that resolves no walk is cut short: a walk that may go deeper than the
/// node needs rounds finds the same ways.
pub proof fn lemma_resolved_walk_is_whole(
    document: Document,
    node: usize,
    current_path: Seq<Seq<char>>,
    paths: Ways,
    root_index: usize,
    fuel: nat,
    depth: nat,
)
    requires
        resolvable(node_list(document), node as int, fuel),
        fuel <= depth,
    ensures
        walked(document.nodes@, node, current_path, paths, root_index, depth) == walked(
            document.nodes@,
            node,
            current_path,
            paths,
            root_index,
            fuel,
        ),
    decreases fuel, 1nat, 0nat,
{
    let path = current_path.push(spec_node_name(document.nodes@[node as int].name, node));
    lemma_children_walk_is_whole(document, node, 0, path, paths, root_index, fuel, depth);
}

/// The same of the children of a node that resolves, from the one at `from` on.
proof fn lemma_children_walk_is_whole(
    document: Document,
    node: usize,
    from: int,
    path: Seq<Seq<char>>,
    paths: Ways,
    root_index: usize,
    fuel: nat,
    depth: nat,
)
    requires
        resolvable(node_list(document), node as int, fuel),
        fuel <= depth,
        0 <= from,
    ensures
        walked_children(document.nodes@, node, from, path, paths, root_index, depth)
            == walked_children(document.nodes@, node, from, path, paths, root_index, fuel),
    decreases fuel, 0nat, document.nodes@[node as int].children@.len() - from,
{
    if from < document.nodes@[node as int].children@.len() {
        let child = document.nodes@[node as int].children@[from];
        assert(node_list(document)[node as int].children[from] == child);
        lemma_resolved_walk_is_whole(
            document,
            child,
            path,
            paths,
            root_index,
            (fuel - 1) as nat,
            (depth - 1) as nat,
        );
        let after = walked(document.nodes@, child, path, paths, root_index, (fuel - 1) as nat);
        lemma_children_walk_is_whole(document, node, from + 1, path, after, root_index, fuel, depth);
    }
}

/// For a node that resolves there is a plan, and no plan below it is cut short: a walk
/// that may go deeper than the node needs rounds plans the same and learns the same.
pub proof fn lemma_resolved_plan_is_whole(
    document: Document,
    node: usize,
    walk: Walk,
    fuel: nat,
    depth: nat,
)
    requires
        resolvable(node_list(document), node as int, fuel),
        fuel <= depth,
    ensures
        planned(document.nodes@, document.meshes@, node, walk, depth) is Some,
        planned(document.nodes@, document.meshes@, node, walk, depth) == planned(
            document.nodes@,
            document.meshes@,
            node,
            walk,
            fuel,
        ),
        walk_after(document.nodes@, document.meshes@, node, walk, depth) == walk_after(
            document.nodes@,
            document.meshes@,
            node,
            walk,
            fuel,
        ),
    decreases fuel, 1nat, 0nat,
{
    let here = met(document.nodes@[node as int], document.meshes@, walk);
    lemma_children_plan_is_whole(document, node, 0, here, fuel, depth);
}

/// The same of the children of a node that resolves, from the one at `from` on: each
/// of them has a plan.
pub proof fn lemma_children_plan_is_whole(
    document: Document,
    node: usize,
    from: int,
    walk: Walk,
    fuel: nat,
    depth: nat,
)
    requires
        resolvable(node_list(document), node as int, fuel),
        fuel <= depth,
        0 <= from <= document.nodes@[node as int].children@.len(),
    ensures
        planned_children(document.nodes@, document.meshes@, node, from, walk, depth).len()
            == document.nodes@[node as int].children@.len() - from,
        planned_children(document.nodes@, document.meshes@, node, from, walk, depth)
            == planned_children(document.nodes@, document.meshes@, node, from, walk, fuel),
        walk_after_children(document.nodes@, document.meshes@, node, from, walk, depth)
            == walk_after_children(document.nodes@, document.meshes@, node, from, walk, fuel),
    decreases fuel, 0nat, document.nodes@[node as int].children@.len() - from,
{
    if from < document.nodes@[node as int].children@.len() {
        let child = document.nodes@[node as int].children@[from];
        assert(node_list(document)[node as int].children[from] == child);
        lemma_resolved_plan_is_whole(document, child, walk, (fuel - 1) as nat, (depth - 1) as nat);
        let after = walk_after(
            document.nodes@,
            document.meshes@,
            child,
            walk,
            (fuel - 1) as nat,
        );
        lemma_children_plan_is_whole(document, node, from + 1, after, fuel, depth);
    }
}

/// What loading a document gives: the document as loaded, and what is to be known
/// beside it.
#[derive(Debug, PartialEq, Eq)]
pub struct LoadedGltf {
    pub gltf: Gltf,
    /// The inverse bind matrices of each skin, or nothing where they cannot be read.
    pub skins: Vec<Option<Vec<[u32; 16]>>>,
    /// The textures that hold data that is not color.
    pub linear_textures: IndexSet,
    /// Whether a primitive below a scene root has no material, so that the default
    /// material is to be loaded.
    pub default_material_needed: bool,
    /// What was found wrong with the channels of each animation.
    pub animation_warnings: Vec<Vec<AnimationWarning>>,
    /// Whether every node resolved. The model must be a tree.
    pub is_tree: bool,
    /// The first fault in the structure of the node list, when there is one.
    pub structural_warning: Option<StructuralWarning>,
}

/// The scene of this index, where the document has it.
pub open spec fn scene_of(scene: Option<usize>, scenes: Seq<Scene>) -> Option<usize> {
    match scene {
        Some(index) => if index < scenes.len() {
            Some(index)
        } else {
            None
        },
        None => None,
    }
}

/// `loaded` is what the document gives, its animations, meshes and scene plans being
/// those of `parts`.
pub open spec fn loaded_as(
    loaded: LoadedGltf,
    document: Document,
    buffers: Seq<Vec<u8>>,
    parts: LoadedParts,
) -> bool {
    let animations = parts.animations;
    let meshes = parts.meshes;
    let plans = parts.plans;
    let walk = parts.walk;
    let list = node_list(document);
    let resolved = crate::hierarchy::kept(list, list.len() as int);
    &&& loaded.gltf.materials@.len() == document.materials@.len()
    &&& forall|i: int|
        0 <= i < document.materials@.len() ==> #[trigger] loaded.gltf.materials@[i]
            == standard_material(document.materials@[i])
    &&& named_places(loaded.gltf.named_materials) == named_upto(
        document.materials@,
        document.materials@.len() as int,
    )
    &&& clips_view(loaded.gltf.animations@) == animations.clips
    &&& warnings_view(loaded.animation_warnings@) == animations.warnings
    &&& named_places(loaded.gltf.named_animations) == named_upto(
        document.animations@,
        document.animations@.len() as int,
    )
    &&& meshes_view(loaded.gltf.meshes@) == meshes
    &&& named_places(loaded.gltf.named_meshes) == named_upto(
        document.meshes@,
        document.meshes@.len() as int,
    )
    &&& loaded.gltf.nodes@.len() == resolved.len()
    &&& forall|j: int|
        0 <= j < loaded.gltf.nodes@.len() ==> {
            &&& (#[trigger] loaded.gltf.nodes@[j]).0@ == list[resolved[j]].label
            &&& crate::hierarchy::linked(list, resolved[j], loaded.gltf.nodes@[j].1@)
        }
    &&& loaded.is_tree <==> forall|i: int|
        0 <= i < list.len() ==> crate::hierarchy::resolves(list, i)
    &&& is_first_fault(list, loaded.structural_warning)
    &&& named_places(loaded.gltf.named_nodes) == named_resolved(
        document.nodes@,
        Seq::new(resolved.len(), |j: int| resolved[j] as usize),
        resolved.len() as int,
    )
    &&& plans_view(loaded.gltf.scenes@) == plans
    &&& named_places(loaded.gltf.named_scenes) == named_upto(
        document.scenes@,
        document.scenes@.len() as int,
    )
    &&& loaded.gltf.default_scene == scene_of(document.default_scene, document.scenes@)
    &&& loaded.skins@.len() == document.skins@.len()
    &&& forall|i: int|
        0 <= i < loaded.skins@.len() ==> matrices_of(#[trigger] loaded.skins@[i]) == skin_matrices(
            document.skins@[i],
            document.accessors@,
            document.views@,
            buffers,
        )
    &&& forall|texture: usize|
        held(loaded.linear_textures).contains(texture) <==> exists|i: int|
            0 <= i < document.materials@.len() && crate::material::uses_linear(
                #[trigger] document.materials@[i],
                texture,
            )
    &&& loaded.default_material_needed == walk.default_material_needed
}

/// Nothing has been met yet.
pub open spec fn fresh_walk() -> Walk {
    Walk { active_camera_found: false, default_material_needed: false }
}

/// The parts of a loaded document that take more than a look at the document.
pub struct LoadedParts {
    pub animations: LoadedAnimationsView,
    pub meshes: Seq<Seq<(PrimitiveMeshView, Option<usize>)>>,
    pub plans: Seq<ScenePlanView>,
    /// What is known after all scenes have been walked.
    pub walk: Walk,
}

/// What loading the document gives, or why it fails.
///
/// A document that is not well formed is invalid. Then the animations are loaded, and
/// after them the meshes. A failure of the animations comes before one of the meshes.
/// Nodes that do not resolve fail nothing: no way leads below a scene root that did
/// not resolve, and nothing is planned for it.
pub open spec fn load_outcome(
    document: Document,
    buffers: Seq<Vec<u8>>,
    custom: Registrations,
) -> Result<LoadedParts, GltfFailure> {
    if !document.well_formed() {
        Err(GltfFailure::Invalid)
    } else {
        let resolved = resolved_flags(node_list(document));
        let paths = node_paths(document.nodes@, document.scenes@, resolved);
        match loaded_animations(document, buffers, paths, 0) {
            Err(index) => Err(GltfFailure::MissingAnimationSampler(index)),
            Ok(animations) => match loaded_meshes(document, buffers, custom, 0) {
                Err(mode) => Err(GltfFailure::UnsupportedPrimitive(mode)),
                Ok(meshes) => Ok(
                    LoadedParts {
                        animations,
                        meshes,
                        plans: planned_scenes(document, animations.roots, resolved, 0, fresh_walk()),
                        walk: walk_after_scenes(document, resolved, 0, fresh_walk()),
                    },
                ),
            },
        }
    }
}

/// Why a document does not load.
pub enum GltfFailure {
    /// The document is invalid.
    Invalid,
    MissingAnimationSampler(usize),
    UnsupportedPrimitive(Mode),
}

/// The error is the one that the failure asks for.
pub open spec fn fails_as(e: GltfError, failure: GltfFailure) -> bool {
    match failure {
        GltfFailure::Invalid => e is Gltf,
        GltfFailure::MissingAnimationSampler(index) => e == GltfError::MissingAnimationSampler(
            index,
        ),
        GltfFailure::UnsupportedPrimitive(mode) => e == (GltfError::UnsupportedPrimitive { mode }),
    }
}

/// Loads an entire glTF document whose buffers have been loaded.
///
/// The load fails if and only if `load_outcome` says so, and with the error that it
/// names. Else every part of the result is what the part of the document gives.
pub fn load_gltf(document: &Document, buffer_data: &Vec<Vec<u8>>, loader: &GltfLoader) -> (r: Result<
    LoadedGltf,
    GltfError,
>)
    ensures
        match load_outcome(*document, buffer_data@, registered(loader.custom_vertex_attributes)) {
            Err(failure) => r matches Err(e) && fails_as(e, failure),
            Ok(parts) => r matches Ok(loaded) && loaded_as(loaded, *document, buffer_data@, parts),
        },
{
    if !document.validate() {
        return Err(GltfError::Gltf(String::from_str("an index names no node")));
    }
    let materials = load_materials(&document.materials);
    let named_materials = named(&document.materials);
    let linear_textures = linear_textures(&document.materials);
    let ResolvedHierarchy { nodes, indices, warning, is_tree } = resolve_node_hierarchy(
        node_entries(document),
    );
    let resolved = flags_of(&indices, document.nodes.len());
    proof {
        let list = node_list(*document);
        lemma_kept_ascending(list, list.len() as int);
        assert forall|i: int| 0 <= i < list.len() implies resolved@[i] == resolves(list, i) by {
            let kept_ones = kept(list, list.len() as int);
            if resolves(list, i) {
                let j = choose|j: int| 0 <= j < kept_ones.len() && kept_ones[j] == i;
                assert(indices@[j] == i as usize);
            }
            if indices@.contains(i as usize) {
                let j = choose|j: int| 0 <= j < indices@.len() && indices@[j] == i as usize;
                assert(kept_ones[j] == i);
            }
        }
        assert(resolved@ =~= resolved_flags(list));
    }
    let paths = find_node_paths(&document.nodes, &document.scenes, &resolved);
    let animations = match load_animations(document, buffer_data, &paths) {
        Ok(animations) => animations,
        Err(e) => {
            return Err(e);
        },
    };
    let named_animations = named(&document.animations);
    let meshes = match load_meshes(document, buffer_data, &loader.custom_vertex_attributes) {
        Ok(meshes) => meshes,
        Err(e) => {
            return Err(e);
        },
    };
    let named_meshes = named(&document.meshes);
    let named_nodes = named_nodes(&document.nodes, &indices);
    let skins = load_skins(document, buffer_data);
    let mut walk = Walk { active_camera_found: false, default_material_needed: false };
    let scenes = load_scenes(document, &animations.roots, &resolved, &mut walk);
    let named_scenes = named(&document.scenes);
    let default_scene = match document.default_scene {
        Some(index) => if index < document.scenes.len() {
            Some(index)
        } else {
            None
        },
        None => None,
    };
    let LoadedAnimations { clips, roots: _, warnings } = animations;
    let loaded = LoadedGltf {
        gltf: Gltf {
            scenes,
            named_scenes,
            meshes,
            named_meshes,
            materials,
            named_materials,
            nodes,
            named_nodes,
            default_scene,
            animations: clips,
            named_animations,
        },
        skins,
        linear_textures,
        default_material_needed: walk.default_material_needed,
        animation_warnings: warnings,
        is_tree,
        structural_warning: warning,
    };
    proof {
        let list = node_list(*document);
        let resolved = crate::hierarchy::kept(list, list.len() as int);
        assert(indices@ =~= Seq::new(resolved.len(), |j: int| resolved[j] as usize));
    }
    Ok(loaded)
}

} // verus!
