//! Meshes: the primitives of a document turned into vertex data.
//!
//! A primitive that names an attribute which cannot be loaded still loads: the
//! attribute is left out and a warning says why. Only a topology that the renderer
//! does not have fails the load.
use crate::accessor::{
    accessed, rows, rows_scalar, rows_u8, AccessFailed, Accessor, BufferAccessor, BufferView,
    DataType, Dimensions, Normalization,
};
use crate::attribute::{
    any_values, attribute_elements, joint_index_values, rgba_values, tex_coord_values, Elements,
    Values, VertexAttributeIter, VertexAttributeValues, VertexFormat,
};
use crate::document::{Material, Primitive, Semantic};
use crate::loader::{GltfError, Mode};
use crate::maps::{registered, AttributeMap, Registrations};
use vstd::prelude::*;
use vstd::string::StringExecFns;

verus! {

/// The topologies of the renderer.
#[derive(Clone, Copy, Debug, PartialEq, Eq, Structural)]
pub enum PrimitiveTopology {
    PointList,
    LineList,
    LineStrip,
    TriangleList,
    TriangleStrip,
}

/// The topology of the renderer for a mode, if it has one: line loops and triangle
/// fans have none.
pub open spec fn topology(mode: Mode) -> Option<PrimitiveTopology> {
    match mode {
        Mode::Points => Some(PrimitiveTopology::PointList),
        Mode::Lines => Some(PrimitiveTopology::LineList),
        Mode::LineStrip => Some(PrimitiveTopology::LineStrip),
        Mode::Triangles => Some(PrimitiveTopology::TriangleList),
        Mode::TriangleStrip => Some(PrimitiveTopology::TriangleStrip),
        Mode::LineLoop | Mode::TriangleFan => None,
    }
}

/// Maps the primitive topology from glTF to that of the renderer.
pub fn get_primitive_topology(mode: Mode) -> (r: Result<PrimitiveTopology, GltfError>)
    ensures
        match topology(mode) {
            Some(found) => r == Ok::<PrimitiveTopology, GltfError>(found),
            None => r == Err::<PrimitiveTopology, GltfError>(
                GltfError::UnsupportedPrimitive { mode },
            ),
        },
{
    match mode {
        Mode::Points => Ok(PrimitiveTopology::PointList),
        Mode::Lines => Ok(PrimitiveTopology::LineList),
        Mode::LineStrip => Ok(PrimitiveTopology::LineStrip),
        Mode::Triangles => Ok(PrimitiveTopology::TriangleList),
        Mode::TriangleStrip => Ok(PrimitiveTopology::TriangleStrip),
        mode => Err(GltfError::UnsupportedPrimitive { mode }),
    }
}

/// A vertex attribute of a mesh: a name, a number that identifies it, and the format
/// of its values.
#[derive(Clone, Debug, PartialEq, Eq)]
pub struct MeshVertexAttribute {
    pub name: String,
    pub id: usize,
    pub format: VertexFormat,
}

/// A vertex attribute of a mesh, as mathematics.
pub struct AttributeView {
    pub name: Seq<char>,
    pub id: usize,
    pub format: VertexFormat,
}

impl View for MeshVertexAttribute {
    type V = AttributeView;

    open spec fn view(&self) -> AttributeView {
        AttributeView { name: self.name@, id: self.id, format: self.format }
    }
}

/// The id of the normal attribute.
pub const NORMAL_ID: usize = 1;

/// The attributes that every mesh knows.
#[derive(Clone, Copy, Debug, PartialEq, Eq, Structural)]
pub enum BuiltIn {
    Position,
    Normal,
    Uv0,
    Tangent,
    Color,
    JointWeight,
    JointIndex,
}

impl BuiltIn {
    /// The attribute as mathematics.
    pub open spec fn attribute(self) -> AttributeView {
        match self {
            BuiltIn::Position => AttributeView {
                name: "Vertex_Position"@,
                id: 0,
                format: VertexFormat::Float32x3,
            },
            BuiltIn::Normal => AttributeView {
                name: "Vertex_Normal"@,
                id: 1,
                format: VertexFormat::Float32x3,
            },
            BuiltIn::Uv0 => AttributeView {
                name: "Vertex_Uv"@,
                id: 2,
                format: VertexFormat::Float32x2,
            },
            BuiltIn::Tangent => AttributeView {
                name: "Vertex_Tangent"@,
                id: 3,
                format: VertexFormat::Float32x4,
            },
            BuiltIn::Color => AttributeView {
                name: "Vertex_Color"@,
                id: 4,
                format: VertexFormat::Float32x4,
            },
            BuiltIn::JointWeight => AttributeView {
                name: "Vertex_JointWeight"@,
                id: 5,
                format: VertexFormat::Float32x4,
            },
            BuiltIn::JointIndex => AttributeView {
                name: "Vertex_JointIndex"@,
                id: 6,
                format: VertexFormat::Uint16x4,
            },
        }
    }
}

impl MeshVertexAttribute {
    /// The attribute that every mesh knows under this name.
    pub fn built_in(which: BuiltIn) -> (r: MeshVertexAttribute)
        ensures
            r@ == which.attribute(),
    {
        match which {
            BuiltIn::Position => MeshVertexAttribute {
                name: String::from_str("Vertex_Position"),
                id: 0,
                format: VertexFormat::Float32x3,
            },
            BuiltIn::Normal => MeshVertexAttribute {
                name: String::from_str("Vertex_Normal"),
                id: 1,
                format: VertexFormat::Float32x3,
            },
            BuiltIn::Uv0 => MeshVertexAttribute {
                name: String::from_str("Vertex_Uv"),
                id: 2,
                format: VertexFormat::Float32x2,
            },
            BuiltIn::Tangent => MeshVertexAttribute {
                name: String::from_str("Vertex_Tangent"),
                id: 3,
                format: VertexFormat::Float32x4,
            },
            BuiltIn::Color => MeshVertexAttribute {
                name: String::from_str("Vertex_Color"),
                id: 4,
                format: VertexFormat::Float32x4,
            },
            BuiltIn::JointWeight => MeshVertexAttribute {
                name: String::from_str("Vertex_JointWeight"),
                id: 5,
                format: VertexFormat::Float32x4,
            },
            BuiltIn::JointIndex => MeshVertexAttribute {
                name: String::from_str("Vertex_JointIndex"),
                id: 6,
                format: VertexFormat::Uint16x4,
            },
        }
    }

    /// A copy of the attribute.
    pub fn duplicate(&self) -> (r: MeshVertexAttribute)
        ensures
            r@ == self@,
    {
        MeshVertexAttribute { name: self.name.clone(), id: self.id, format: self.format }
    }
}

/// How the elements of an attribute become values.
#[derive(Clone, Copy, Debug, PartialEq, Eq, Structural)]
pub enum VertexAttributeConversion {
    Any,
    Rgba,
    JointIndex,
    TexCoord,
}

/// The attribute of the mesh that a semantic of the document goes into, and how its
/// elements are converted. Of the numbered sets only the first is taken. A semantic
/// of the application goes into the attribute registered under its name.
pub open spec fn attribute_target(
    semantic: Semantic,
    custom: Registrations,
) -> Option<(AttributeView, VertexAttributeConversion)> {
    match semantic {
        Semantic::Positions => Some((BuiltIn::Position.attribute(), VertexAttributeConversion::Any)),
        Semantic::Normals => Some((BuiltIn::Normal.attribute(), VertexAttributeConversion::Any)),
        Semantic::Tangents => Some((BuiltIn::Tangent.attribute(), VertexAttributeConversion::Any)),
        Semantic::Colors(set) => if set == 0 {
            Some((BuiltIn::Color.attribute(), VertexAttributeConversion::Rgba))
        } else {
            None
        },
        Semantic::TexCoords(set) => if set == 0 {
            Some((BuiltIn::Uv0.attribute(), VertexAttributeConversion::TexCoord))
        } else {
            None
        },
        Semantic::Joints(set) => if set == 0 {
            Some((BuiltIn::JointIndex.attribute(), VertexAttributeConversion::JointIndex))
        } else {
            None
        },
        Semantic::Weights(set) => if set == 0 {
            Some((BuiltIn::JointWeight.attribute(), VertexAttributeConversion::Any))
        } else {
            None
        },
        Semantic::Extras(name) => if custom.contains_key(name@) {
            Some((custom[name@], VertexAttributeConversion::Any))
        } else {
            None
        },
    }
}

/// What a target lookup returned, as mathematics.
pub open spec fn target_of(r: Option<(MeshVertexAttribute, VertexAttributeConversion)>) -> Option<
    (AttributeView, VertexAttributeConversion),
> {
    match r {
        Some((attribute, conversion)) => Some((attribute@, conversion)),
        None => None,
    }
}

/// Finds the attribute of the mesh that a semantic goes into.
pub fn find_attribute_target(
    semantic: &Semantic,
    custom_vertex_attributes: &AttributeMap,
) -> (r: Option<(MeshVertexAttribute, VertexAttributeConversion)>)
    ensures
        target_of(r) == attribute_target(*semantic, registered(*custom_vertex_attributes)),
{
    match semantic {
        Semantic::Positions => Some(
            (MeshVertexAttribute::built_in(BuiltIn::Position), VertexAttributeConversion::Any),
        ),
        Semantic::Normals => Some(
            (MeshVertexAttribute::built_in(BuiltIn::Normal), VertexAttributeConversion::Any),
        ),
        Semantic::Tangents => Some(
            (MeshVertexAttribute::built_in(BuiltIn::Tangent), VertexAttributeConversion::Any),
        ),
        Semantic::Colors(0) => Some(
            (MeshVertexAttribute::built_in(BuiltIn::Color), VertexAttributeConversion::Rgba),
        ),
        Semantic::TexCoords(0) => Some(
            (MeshVertexAttribute::built_in(BuiltIn::Uv0), VertexAttributeConversion::TexCoord),
        ),
        Semantic::Joints(0) => Some(
            (
                MeshVertexAttribute::built_in(BuiltIn::JointIndex),
                VertexAttributeConversion::JointIndex,
            ),
        ),
        Semantic::Weights(0) => Some(
            (MeshVertexAttribute::built_in(BuiltIn::JointWeight), VertexAttributeConversion::Any),
        ),
        Semantic::Extras(name) => match custom_vertex_attributes.get(name.as_str()) {
            Some(attribute) => Some((attribute.duplicate(), VertexAttributeConversion::Any)),
            None => None,
        },
        _ => None,
    }
}


/// Why a vertex attribute was left out of a mesh. The attribute is named by its place
/// among the attributes of the primitive.
#[derive(Clone, Copy, Debug, PartialEq, Eq, Structural)]
pub enum MeshWarning {
    /// No attribute of the mesh takes the semantic of the attribute.
    UnrecognisedAttribute { attribute: usize },
    /// The accessor of the attribute does not exist or its data cannot be located.
    MalformedData { attribute: usize, accessor: usize },
    /// There is no way to read elements of this kind, or the accessor is sparse.
    UnsupportedFormat {
        attribute: usize,
        data_type: DataType,
        dimensions: Dimensions,
        normalized: bool,
        accessor: usize,
    },
    /// The values of the attribute have another format than the attribute of the mesh
    /// that they are for.
    FormatMismatch { attribute: usize, loaded: VertexFormat, expected: VertexFormat },
}

/// The values that a conversion makes of what reading an attribute gave.
pub open spec fn converted(
    conversion: VertexAttributeConversion,
    elements: Result<Elements, AccessFailed>,
) -> Result<Values, AccessFailed> {
    match elements {
        Ok(e) => match conversion {
            VertexAttributeConversion::Any => any_values(e),
            VertexAttributeConversion::Rgba => rgba_values(e),
            VertexAttributeConversion::TexCoord => tex_coord_values(e),
            VertexAttributeConversion::JointIndex => joint_index_values(e),
        },
        Err(e) => Err(e),
    }
}

/// What becomes of one attribute of a primitive: it is loaded into an attribute of
/// the mesh, or left out with a warning.
pub enum AttributeOutcome {
    Loaded(AttributeView, Values),
    Warned(MeshWarning),
}

/// What becomes of the attribute at place `attribute` among the attributes of a
/// primitive. It is loaded when its semantic has a target, its accessor exists and
/// decodes, its elements convert, and the values have the format of the target.
pub open spec fn attribute_outcome(
    attribute: usize,
    semantic: Semantic,
    accessor: usize,
    accessors: Seq<Accessor>,
    views: Seq<BufferView>,
    buffers: Seq<Vec<u8>>,
    custom: Registrations,
) -> AttributeOutcome {
    match attribute_target(semantic, custom) {
        None => AttributeOutcome::Warned(MeshWarning::UnrecognisedAttribute { attribute }),
        Some((target, conversion)) => if accessor < accessors.len() {
            let declared = accessors[accessor as int];
            match converted(conversion, attribute_elements(declared, views, buffers)) {
                Ok(values) => if values.format == target.format {
                    AttributeOutcome::Loaded(target, values)
                } else {
                    AttributeOutcome::Warned(
                        MeshWarning::FormatMismatch {
                            attribute,
                            loaded: values.format,
                            expected: target.format,
                        },
                    )
                },
                Err(AccessFailed::MalformedData) => AttributeOutcome::Warned(
                    MeshWarning::MalformedData { attribute, accessor },
                ),
                Err(AccessFailed::UnsupportedFormat) => AttributeOutcome::Warned(
                    MeshWarning::UnsupportedFormat {
                        attribute,
                        data_type: declared.data_type,
                        dimensions: declared.dimensions,
                        normalized: declared.normalized,
                        accessor,
                    },
                ),
            }
        } else {
            AttributeOutcome::Warned(MeshWarning::MalformedData { attribute, accessor })
        },
    }
}

/// What loading an attribute returned, as mathematics.
pub open spec fn outcome_of(
    r: Result<(MeshVertexAttribute, VertexAttributeValues), MeshWarning>,
) -> AttributeOutcome {
    match r {
        Ok((attribute, values)) => AttributeOutcome::Loaded(attribute@, values@),
        Err(warning) => AttributeOutcome::Warned(warning),
    }
}

/// Loads the attribute at place `attribute` among the attributes of a primitive.
pub fn load_attribute(
    attribute: usize,
    semantic: &Semantic,
    accessor: usize,
    accessors: &Vec<Accessor>,
    views: &Vec<BufferView>,
    buffer_data: &Vec<Vec<u8>>,
    custom_vertex_attributes: &AttributeMap,
) -> (r: Result<(MeshVertexAttribute, VertexAttributeValues), MeshWarning>)
    ensures
        outcome_of(r) == attribute_outcome(
            attribute,
            *semantic,
            accessor,
            accessors@,
            views@,
            buffer_data@,
            registered(*custom_vertex_attributes),
        ),
{
    let (target, conversion) = match find_attribute_target(semantic, custom_vertex_attributes) {
        Some(found) => found,
        None => {
            return Err(MeshWarning::UnrecognisedAttribute { attribute });
        },
    };
    if accessor >= accessors.len() {
        return Err(MeshWarning::MalformedData { attribute, accessor });
    }
    let declared = &accessors[accessor];
    let raw_iter = VertexAttributeIter::from_accessor(declared, views, buffer_data);
    let converted_values = match raw_iter {
        Ok(iter) => match conversion {
            VertexAttributeConversion::Any => iter.into_any_values(),
            VertexAttributeConversion::Rgba => iter.into_rgba_values(),
            VertexAttributeConversion::TexCoord => iter.into_tex_coord_values(),
            VertexAttributeConversion::JointIndex => iter.into_joint_index_values(),
        },
        Err(e) => Err(e),
    };
    match converted_values {
        Ok(values) => {
            let loaded_format = values.format();
            if target.format == loaded_format {
                Ok((target, values))
            } else {
                Err(
                    MeshWarning::FormatMismatch {
                        attribute,
                        loaded: loaded_format,
                        expected: target.format,
                    },
                )
            }
        },
        Err(AccessFailed::MalformedData) => Err(MeshWarning::MalformedData { attribute, accessor }),
        Err(AccessFailed::UnsupportedFormat) => Err(
            MeshWarning::UnsupportedFormat {
                attribute,
                data_type: declared.data_type,
                dimensions: declared.dimensions,
                normalized: declared.normalized,
                accessor,
            },
        ),
    }
}

/// The vertex indices of a mesh.
#[derive(Clone, Debug, PartialEq, Eq)]
pub enum Indices {
    U16(Vec<u16>),
    U32(Vec<u32>),
}

/// The vertex indices of a mesh, as mathematics.
pub enum IndicesView {
    U16(Seq<int>),
    U32(Seq<int>),
}

impl View for Indices {
    type V = IndicesView;

    open spec fn view(&self) -> IndicesView {
        match self {
            Indices::U16(v) => IndicesView::U16(Seq::new(v@.len(), |i: int| v@[i] as int)),
            Indices::U32(v) => IndicesView::U32(Seq::new(v@.len(), |i: int| v@[i] as int)),
        }
    }
}

/// The first component of every element.
pub open spec fn column(items: crate::accessor::ItemsView, data_type: DataType) -> Seq<int> {
    Seq::new(items.count, |i: int| crate::accessor::component(items, data_type, i, 0))
}

/// The vertex indices that a primitive declares: 8-bit indices are widened to 16
/// bits, 16-bit and 32-bit indices stay as they are. There are none where the
/// primitive names no accessor, or one that does not exist, does not decode or holds
/// something else.
pub open spec fn primitive_indices(
    indices: Option<usize>,
    accessors: Seq<Accessor>,
    views: Seq<BufferView>,
    buffers: Seq<Vec<u8>>,
) -> Option<IndicesView> {
    match indices {
        Some(accessor) => if accessor < accessors.len() {
            let declared = accessors[accessor as int];
            match declared.data_type {
                DataType::U8 => match accessed(declared, views, buffers, 1) {
                    Ok(items) => Some(IndicesView::U16(column(items, DataType::U8))),
                    Err(_) => None,
                },
                DataType::U16 => match accessed(declared, views, buffers, 2) {
                    Ok(items) => Some(IndicesView::U16(column(items, DataType::U16))),
                    Err(_) => None,
                },
                DataType::U32 => match accessed(declared, views, buffers, 4) {
                    Ok(items) => Some(IndicesView::U32(column(items, DataType::U32))),
                    Err(_) => None,
                },
                _ => None,
            }
        } else {
            None
        },
        None => None,
    }
}

/// What reading indices returned, as mathematics.
pub open spec fn indices_of(r: Option<Indices>) -> Option<IndicesView> {
    match r {
        Some(indices) => Some(indices@),
        None => None,
    }
}

/// Reads the vertex indices of a primitive.
pub fn read_indices(
    indices: Option<usize>,
    accessors: &Vec<Accessor>,
    views: &Vec<BufferView>,
    buffer_data: &Vec<Vec<u8>>,
) -> (r: Option<Indices>)
    ensures
        indices_of(r) == primitive_indices(indices, accessors@, views@, buffer_data@),
{
    let accessor = match indices {
        Some(accessor) => if accessor < accessors.len() {
            &accessors[accessor]
        } else {
            return None;
        },
        None => {
            return None;
        },
    };
    let acc = BufferAccessor {
        accessor,
        views,
        buffer_data,
        normalization: Normalization(accessor.normalized),
    };
    match accessor.data_type {
        DataType::U8 => match acc.iter::<1>() {
            Ok(is) => {
                let narrow = is.read_u8::<1>();
                let mut wide: Vec<u16> = Vec::new();
                let mut i: usize = 0;
                while i < narrow.len()
                    invariant
                        i <= narrow.len(),
                        wide@.len() == i,
                        forall|j: int| 0 <= j < i ==> (#[trigger] wide@[j]) as int == narrow@[j][0],
                    decreases narrow.len() - i,
                {
                    wide.push(narrow[i][0] as u16);
                    i = i + 1;
                }
                proof {
                    let held = rows(is@, DataType::U8, 1);
                    assert(rows_u8(narrow@).len() == held.len());
                    assert forall|j: int| 0 <= j < wide@.len() implies (#[trigger] wide@[j]) as int
                        == column(is@, DataType::U8)[j] by {
                        assert(rows_u8(narrow@)[j][0] == held[j][0]);
                    }
                    assert(Indices::U16(wide)@ == IndicesView::U16(column(is@, DataType::U8))) by {
                        assert(Seq::new(wide@.len(), |i: int| wide@[i] as int) =~= column(
                            is@,
                            DataType::U8,
                        ));
                    }
                }
                Some(Indices::U16(wide))
            },
            Err(_) => None,
        },
        DataType::U16 => match acc.iter::<2>() {
            Ok(is) => {
                let read = is.read_u16::<1>();
                let mut values: Vec<u16> = Vec::new();
                let mut i: usize = 0;
                while i < read.len()
                    invariant
                        i <= read.len(),
                        values@.len() == i,
                        forall|j: int| 0 <= j < i ==> (#[trigger] values@[j]) == read@[j][0],
                    decreases read.len() - i,
                {
                    values.push(read[i][0]);
                    i = i + 1;
                }
                proof {
                    let held = rows(is@, DataType::U16, 1);
                    assert(crate::accessor::rows_u16(read@).len() == held.len());
                    assert forall|j: int| 0 <= j < values@.len() implies (#[trigger] values@[j]) as int
                        == column(is@, DataType::U16)[j] by {
                        assert(crate::accessor::rows_u16(read@)[j][0] == held[j][0]);
                    }
                    assert(Indices::U16(values)@ == IndicesView::U16(column(is@, DataType::U16)))
                        by {
                        assert(Seq::new(values@.len(), |i: int| values@[i] as int) =~= column(
                            is@,
                            DataType::U16,
                        ));
                    }
                }
                Some(Indices::U16(values))
            },
            Err(_) => None,
        },
        DataType::U32 => match acc.iter::<4>() {
            Ok(is) => {
                let values = is.read_scalar();
                proof {
                    let held = rows(is@, DataType::U32, 1);
                    assert(rows_scalar(values@).len() == held.len());
                    assert forall|j: int| 0 <= j < values@.len() implies (#[trigger] values@[j]) as int
                        == column(is@, DataType::U32)[j] by {
                        assert(rows_scalar(values@)[j][0] == held[j][0]);
                    }
                    assert(Indices::U32(values)@ == IndicesView::U32(column(is@, DataType::U32)))
                        by {
                        assert(Seq::new(values@.len(), |i: int| values@[i] as int) =~= column(
                            is@,
                            DataType::U32,
                        ));
                    }
                }
                Some(Indices::U32(values))
            },
            Err(_) => None,
        },
        _ => None,
    }
}


/// The vertex data of one primitive, and what is still to be computed from it.
#[derive(Debug, PartialEq, Eq)]
pub struct PrimitiveMesh {
    pub topology: PrimitiveTopology,
    /// The attributes in the order in which they are to be inserted. One that comes
    /// later replaces one of the same id that came before.
    pub attributes: Vec<(MeshVertexAttribute, VertexAttributeValues)>,
    pub indices: Option<Indices>,
    /// Whether the vertices are to be duplicated, so that no two triangles share
    /// one, and flat normals computed.
    pub flat_normals: bool,
    /// The tangents that the primitive declares. They are to be inserted as the
    /// tangent attribute once the flat normals, if any, are computed.
    pub tangents: Option<VertexAttributeValues>,
    /// Whether tangents are to be generated.
    pub generate_tangents: bool,
    /// Why attributes were left out, in the order of the attributes.
    pub warnings: Vec<MeshWarning>,
}

/// The vertex data of one primitive, as mathematics.
pub struct PrimitiveMeshView {
    pub topology: PrimitiveTopology,
    pub attributes: Seq<(AttributeView, Values)>,
    pub indices: Option<IndicesView>,
    pub flat_normals: bool,
    pub tangents: Option<Values>,
    pub generate_tangents: bool,
    pub warnings: Seq<MeshWarning>,
}

/// Attributes with their values, as mathematics.
pub open spec fn attributes_view(
    attributes: Seq<(MeshVertexAttribute, VertexAttributeValues)>,
) -> Seq<(AttributeView, Values)> {
    Seq::new(attributes.len(), |i: int| (attributes[i].0@, attributes[i].1@))
}

impl View for PrimitiveMesh {
    type V = PrimitiveMeshView;

    open spec fn view(&self) -> PrimitiveMeshView {
        PrimitiveMeshView {
            topology: self.topology,
            attributes: attributes_view(self.attributes@),
            indices: indices_of(self.indices),
            flat_normals: self.flat_normals,
            tangents: match self.tangents {
                Some(values) => Some(values@),
                None => None,
            },
            generate_tangents: self.generate_tangents,
            warnings: self.warnings@,
        }
    }
}

/// What loading the first `upto` attributes of a primitive gives: the attributes that
/// are loaded, and the warnings for those that are not.
pub open spec fn loaded_attributes(
    attributes: Seq<(Semantic, usize)>,
    accessors: Seq<Accessor>,
    views: Seq<BufferView>,
    buffers: Seq<Vec<u8>>,
    custom: Registrations,
    upto: int,
) -> (Seq<(AttributeView, Values)>, Seq<MeshWarning>)
    decreases upto,
{
    if upto <= 0 {
        (Seq::empty(), Seq::empty())
    } else {
        let before = loaded_attributes(attributes, accessors, views, buffers, custom, upto - 1);
        match attribute_outcome(
            (upto - 1) as usize,
            attributes[upto - 1].0,
            attributes[upto - 1].1,
            accessors,
            views,
            buffers,
            custom,
        ) {
            AttributeOutcome::Loaded(attribute, values) => (
                before.0.push((attribute, values)),
                before.1,
            ),
            AttributeOutcome::Warned(warning) => (before.0, before.1.push(warning)),
        }
    }
}

/// Whether one of the attributes is the normal.
pub open spec fn has_normal(attributes: Seq<(AttributeView, Values)>) -> bool {
    exists|i: int|
        0 <= i < attributes.len() && (#[trigger] attributes[i]).0.id
            == BuiltIn::Normal.attribute().id
}

/// Where the tangent attribute stands among the attributes of a primitive, or their
/// number where there is none.
pub open spec fn tangents_at(attributes: Seq<(Semantic, usize)>, from: int) -> int
    decreases attributes.len() - from,
{
    if from < 0 || from >= attributes.len() {
        attributes.len() as int
    } else if attributes[from].0 is Tangents {
        from
    } else {
        tangents_at(attributes, from + 1)
    }
}

/// The tangents that a primitive declares, read as four 32-bit components each,
/// whatever the accessor says of its elements. None where the primitive has no
/// tangent attribute or its accessor does not exist or decode.
pub open spec fn declared_tangents(
    attributes: Seq<(Semantic, usize)>,
    accessors: Seq<Accessor>,
    views: Seq<BufferView>,
    buffers: Seq<Vec<u8>>,
) -> Option<Values> {
    let at = tangents_at(attributes, 0);
    if at < attributes.len() && attributes[at].1 < accessors.len() {
        match accessed(accessors[attributes[at].1 as int], views, buffers, 16) {
            Ok(items) => Some(
                Values { format: VertexFormat::Float32x4, rows: rows(items, DataType::F32, 4) },
            ),
            Err(_) => None,
        }
    } else {
        None
    }
}

/// Whether the material of the primitive has a normal map.
pub open spec fn has_normal_map(material: Option<usize>, materials: Seq<Material>) -> bool {
    match material {
        Some(index) => index < materials.len() && materials[index as int].normal_texture is Some,
        None => false,
    }
}

/// The mesh of a primitive whose topology is `topology`.
///
/// Its attributes are those that load, in their order. Flat normals are to be
/// computed for a triangle list without normals. The declared tangents come on top.
/// Tangents are to be generated where none are declared, the mesh has or gets
/// normals, and the material has a normal map.
pub open spec fn primitive_mesh(
    primitive: Primitive,
    topology: PrimitiveTopology,
    accessors: Seq<Accessor>,
    views: Seq<BufferView>,
    buffers: Seq<Vec<u8>>,
    materials: Seq<Material>,
    custom: Registrations,
) -> PrimitiveMeshView {
    let loaded = loaded_attributes(
        primitive.attributes@,
        accessors,
        views,
        buffers,
        custom,
        primitive.attributes@.len() as int,
    );
    let tangents = declared_tangents(primitive.attributes@, accessors, views, buffers);
    let flat_normals = !has_normal(loaded.0) && topology == PrimitiveTopology::TriangleList;
    PrimitiveMeshView {
        topology,
        attributes: loaded.0,
        indices: primitive_indices(primitive.indices, accessors, views, buffers),
        flat_normals,
        tangents,
        generate_tangents: tangents is None && (has_normal(loaded.0) || flat_normals)
            && has_normal_map(primitive.material, materials),
        warnings: loaded.1,
    }
}

/// Finds the tangent attribute among the attributes of a primitive.
fn find_tangents(attributes: &Vec<(Semantic, usize)>) -> (at: usize)
    ensures
        at == tangents_at(attributes@, 0),
        at <= attributes@.len(),
{
    let mut at: usize = 0;
    while at < attributes.len()
        invariant
            at <= attributes.len(),
            tangents_at(attributes@, 0) == tangents_at(attributes@, at as int),
        decreases attributes.len() - at,
    {
        if let Semantic::Tangents = attributes[at].0 {
            return at;
        }
        at = at + 1;
    }
    at
}

/// Reads the tangents that a primitive declares.
fn read_tangents(
    attributes: &Vec<(Semantic, usize)>,
    accessors: &Vec<Accessor>,
    views: &Vec<BufferView>,
    buffer_data: &Vec<Vec<u8>>,
) -> (r: Option<VertexAttributeValues>)
    ensures
        match declared_tangents(attributes@, accessors@, views@, buffer_data@) {
            Some(values) => r matches Some(found) && found@ == values,
            None => r is None,
        },
{
    let at = find_tangents(attributes);
    if at >= attributes.len() {
        return None;
    }
    let accessor = attributes[at].1;
    if accessor >= accessors.len() {
        return None;
    }
    let declared = &accessors[accessor];
    let acc = BufferAccessor {
        accessor: declared,
        views,
        buffer_data,
        normalization: Normalization(declared.normalized),
    };
    match acc.iter::<16>() {
        Ok(it) => {
            let values = it.read_u32::<4>();
            proof {
                assert(rows(it@, DataType::F32, 4) =~~= rows(it@, DataType::U32, 4));
            }
            Some(VertexAttributeValues::Float32x4(values))
        },
        Err(_) => None,
    }
}

/// Loads the mesh of a primitive. Fails on a topology that the renderer does not
/// have.
pub fn load_primitive(
    primitive: &Primitive,
    accessors: &Vec<Accessor>,
    views: &Vec<BufferView>,
    buffer_data: &Vec<Vec<u8>>,
    materials: &Vec<Material>,
    custom_vertex_attributes: &AttributeMap,
) -> (r: Result<PrimitiveMesh, GltfError>)
    ensures
        match topology(primitive.mode) {
            Some(found) => r matches Ok(mesh) && mesh@ == primitive_mesh(
                *primitive,
                found,
                accessors@,
                views@,
                buffer_data@,
                materials@,
                registered(*custom_vertex_attributes),
            ),
            None => r == Err::<PrimitiveMesh, GltfError>(
                GltfError::UnsupportedPrimitive { mode: primitive.mode },
            ),
        },
{
    let primitive_topology = match get_primitive_topology(primitive.mode) {
        Ok(found) => found,
        Err(e) => {
            return Err(e);
        },
    };
    let mut attributes: Vec<(MeshVertexAttribute, VertexAttributeValues)> = Vec::new();
    let mut warnings: Vec<MeshWarning> = Vec::new();
    let mut normal_found = false;
    let mut i: usize = 0;
    while i < primitive.attributes.len()
        invariant
            i <= primitive.attributes.len(),
            (attributes_view(attributes@), warnings@) == loaded_attributes(
                primitive.attributes@,
                accessors@,
                views@,
                buffer_data@,
                registered(*custom_vertex_attributes),
                i as int,
            ),
            normal_found == has_normal(attributes_view(attributes@)),
        decreases primitive.attributes.len() - i,
    {
        let ghost before = attributes_view(attributes@);
        match load_attribute(
            i,
            &primitive.attributes[i].0,
            primitive.attributes[i].1,
            accessors,
            views,
            buffer_data,
            custom_vertex_attributes,
        ) {
            Ok((attribute, values)) => {
                if attribute.id == NORMAL_ID {
                    normal_found = true;
                }
                attributes.push((attribute, values));
                proof {
                    let after = attributes_view(attributes@);
                    assert(after =~= before.push((attribute@, values@)));
                    if has_normal(before) {
                        let k = choose|k: int|
                            0 <= k < before.len() && (#[trigger] before[k]).0.id
                                == BuiltIn::Normal.attribute().id;
                        assert(after[k].0.id == BuiltIn::Normal.attribute().id);
                    }
                    if attribute.id == NORMAL_ID {
                        assert(after[before.len() as int].0.id == BuiltIn::Normal.attribute().id);
                    }
                    if has_normal(after) {
                        let k = choose|k: int|
                            0 <= k < after.len() && (#[trigger] after[k]).0.id
                                == BuiltIn::Normal.attribute().id;
                        if k < before.len() {
                            assert(before[k].0.id == BuiltIn::Normal.attribute().id);
                        }
                    }
                }
            },
            Err(warning) => {
                warnings.push(warning);
                proof {
                    assert(attributes_view(attributes@) =~= before);
                }
            },
        }
        i = i + 1;
    }
    let indices = read_indices(primitive.indices, accessors, views, buffer_data);
    let flat_normals = !normal_found && matches!(
        primitive_topology,
        PrimitiveTopology::TriangleList
    );
    let tangents = read_tangents(&primitive.attributes, accessors, views, buffer_data);
    let generate_tangents = tangents.is_none() && (normal_found || flat_normals)
        && match primitive.material {
        Some(index) => index < materials.len() && materials[index].normal_texture.is_some(),
        None => false,
    };
    Ok(
        PrimitiveMesh {
            topology: primitive_topology,
            attributes,
            indices,
            flat_normals,
            tangents,
            generate_tangents,
            warnings,
        },
    )
}

} // verus!
