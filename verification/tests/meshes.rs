use gltf_loader::accessor::{Accessor, BufferView, DataType, Dimensions};
use gltf_loader::attribute::{VertexAttributeValues, VertexFormat};
use gltf_loader::document::{Material, MaterialAlphaMode, Primitive, Semantic};
use gltf_loader::loader::{GltfError, Mode};
use gltf_loader::maps::AttributeMap;
use gltf_loader::mesh::{
    find_attribute_target, get_primitive_topology, load_attribute, load_primitive, read_indices,
    BuiltIn, Indices, MeshVertexAttribute, MeshWarning, PrimitiveTopology,
    VertexAttributeConversion,
};
use gltf_loader::ONE_BITS;

struct Scratch {
    buffer: Vec<u8>,
    views: Vec<BufferView>,
    accessors: Vec<Accessor>,
}

impl Scratch {
    fn new() -> Scratch {
        Scratch { buffer: Vec::new(), views: Vec::new(), accessors: Vec::new() }
    }

    fn add(&mut self, bytes: &[u8], data_type: DataType, dimensions: Dimensions, count: usize, normalized: bool) -> usize {
        let offset = self.buffer.len();
        self.buffer.extend_from_slice(bytes);
        self.views.push(BufferView { buffer: 0, offset, length: bytes.len(), stride: None });
        self.accessors.push(Accessor {
            view: Some(self.views.len() - 1),
            offset: 0,
            count,
            data_type,
            dimensions,
            normalized,
            sparse: false,
        });
        self.accessors.len() - 1
    }

    fn add_floats(&mut self, values: &[f32], dimensions: Dimensions, count: usize) -> usize {
        let bytes: Vec<u8> = values.iter().flat_map(|v| v.to_le_bytes()).collect();
        self.add(&bytes, DataType::F32, dimensions, count, false)
    }

    fn buffers(&self) -> Vec<Vec<u8>> {
        vec![self.buffer.clone()]
    }
}

fn primitive_of(attributes: Vec<(Semantic, usize)>, mode: Mode) -> Primitive {
    Primitive {
        attributes,
        indices: None,
        mode,
        material: None,
    }
}

fn material_with_normal_map(normal_texture: Option<usize>) -> Material {
    Material {
        index: Some(0),
        name: None,
        base_color_factor: [ONE_BITS; 4],
        base_color_texture: None,
        roughness_factor: ONE_BITS,
        metallic_factor: ONE_BITS,
        metallic_roughness_texture: None,
        normal_texture,
        occlusion_texture: None,
        emissive_factor: [0; 3],
        emissive_texture: None,
        double_sided: false,
        unlit: false,
        alpha_mode: MaterialAlphaMode::Opaque,
        alpha_cutoff: None,
    }
}

fn bits(values: &[f32]) -> Vec<u32> {
    values.iter().map(|v| v.to_bits()).collect()
}

const TRIANGLE: [f32; 9] = [0.0, 0.0, 0.0, 1.0, 0.0, 0.0, 0.0, 1.0, 0.0];

#[test]
fn topologies_are_mapped_by_a_fixed_table() {
    assert_eq!(get_primitive_topology(Mode::Points), Ok(PrimitiveTopology::PointList));
    assert_eq!(get_primitive_topology(Mode::Lines), Ok(PrimitiveTopology::LineList));
    assert_eq!(get_primitive_topology(Mode::LineStrip), Ok(PrimitiveTopology::LineStrip));
    assert_eq!(get_primitive_topology(Mode::Triangles), Ok(PrimitiveTopology::TriangleList));
    assert_eq!(get_primitive_topology(Mode::TriangleStrip), Ok(PrimitiveTopology::TriangleStrip));
    assert_eq!(
        get_primitive_topology(Mode::LineLoop),
        Err(GltfError::UnsupportedPrimitive { mode: Mode::LineLoop })
    );
    assert_eq!(
        get_primitive_topology(Mode::TriangleFan),
        Err(GltfError::UnsupportedPrimitive { mode: Mode::TriangleFan })
    );
}

#[test]
fn built_in_attributes_have_their_names_ids_and_formats() {
    let table = [
        (BuiltIn::Position, "Vertex_Position", 0, VertexFormat::Float32x3),
        (BuiltIn::Normal, "Vertex_Normal", 1, VertexFormat::Float32x3),
        (BuiltIn::Uv0, "Vertex_Uv", 2, VertexFormat::Float32x2),
        (BuiltIn::Tangent, "Vertex_Tangent", 3, VertexFormat::Float32x4),
        (BuiltIn::Color, "Vertex_Color", 4, VertexFormat::Float32x4),
        (BuiltIn::JointWeight, "Vertex_JointWeight", 5, VertexFormat::Float32x4),
        (BuiltIn::JointIndex, "Vertex_JointIndex", 6, VertexFormat::Uint16x4),
    ];
    for (which, name, id, format) in table {
        assert_eq!(
            MeshVertexAttribute::built_in(which),
            MeshVertexAttribute { name: name.to_string(), id, format }
        );
    }
}

#[test]
fn semantics_find_their_targets() {
    let mut custom = AttributeMap::new();
    let old = MeshVertexAttribute { name: "Old".to_string(), id: 100, format: VertexFormat::Float32 };
    assert_eq!(custom.insert("_BARY".to_string(), old.clone()), None);
    custom.insert(
        "_OTHER".to_string(),
        MeshVertexAttribute { name: "Other".to_string(), id: 101, format: VertexFormat::Uint32 },
    );
    let replaced = custom.insert(
        "_BARY".to_string(),
        MeshVertexAttribute { name: "Barycentric".to_string(), id: 102, format: VertexFormat::Float32x3 },
    );
    assert_eq!(replaced, Some(old));
    let found = |semantic: Semantic| find_attribute_target(&semantic, &custom).map(|(a, c)| (a.id, c));
    assert_eq!(found(Semantic::Positions), Some((0, VertexAttributeConversion::Any)));
    assert_eq!(found(Semantic::Normals), Some((1, VertexAttributeConversion::Any)));
    assert_eq!(found(Semantic::Tangents), Some((3, VertexAttributeConversion::Any)));
    assert_eq!(found(Semantic::Colors(0)), Some((4, VertexAttributeConversion::Rgba)));
    assert_eq!(found(Semantic::TexCoords(0)), Some((2, VertexAttributeConversion::TexCoord)));
    assert_eq!(found(Semantic::Joints(0)), Some((6, VertexAttributeConversion::JointIndex)));
    assert_eq!(found(Semantic::Weights(0)), Some((5, VertexAttributeConversion::Any)));
    assert_eq!(found(Semantic::Colors(1)), None);
    assert_eq!(found(Semantic::TexCoords(1)), None);
    assert_eq!(found(Semantic::Joints(2)), None);
    assert_eq!(found(Semantic::Weights(1)), None);
    assert_eq!(found(Semantic::Extras("_BARY".to_string())), Some((102, VertexAttributeConversion::Any)));
    assert_eq!(found(Semantic::Extras("_OTHER".to_string())), Some((101, VertexAttributeConversion::Any)));
    assert_eq!(found(Semantic::Extras("_bary".to_string())), None);
    assert_eq!(find_attribute_target(&Semantic::Extras("_BARY".to_string()), &AttributeMap::new()), None);
}

#[test]
fn attribute_that_cannot_be_loaded_gives_a_warning() {
    let mut s = Scratch::new();
    let positions = s.add_floats(&TRIANGLE, Dimensions::Vec3, 3);
    let wide = s.add_floats(&[0.0; 12], Dimensions::Vec4, 3);
    let matrix = s.add_floats(&[0.0; 16], Dimensions::Mat4, 1);
    let short = s.add_floats(&TRIANGLE, Dimensions::Vec3, 4);
    let buffers = s.buffers();
    let load = |place: usize, semantic: Semantic, accessor: usize| {
        load_attribute(place, &semantic, accessor, &s.accessors, &s.views, &buffers, &AttributeMap::new())
    };
    let (attribute, values) = load(0, Semantic::Positions, positions).unwrap();
    assert_eq!(attribute, MeshVertexAttribute::built_in(BuiltIn::Position));
    assert_eq!(values.len(), 3);
    assert_eq!(
        load(1, Semantic::Positions, wide),
        Err(MeshWarning::FormatMismatch {
            attribute: 1,
            loaded: VertexFormat::Float32x4,
            expected: VertexFormat::Float32x3,
        })
    );
    assert_eq!(
        load(2, Semantic::Normals, matrix),
        Err(MeshWarning::UnsupportedFormat {
            attribute: 2,
            data_type: DataType::F32,
            dimensions: Dimensions::Mat4,
            normalized: false,
            accessor: matrix,
        })
    );
    assert_eq!(load(3, Semantic::Normals, short), Err(MeshWarning::MalformedData { attribute: 3, accessor: short }));
    assert_eq!(load(4, Semantic::Normals, 77), Err(MeshWarning::MalformedData { attribute: 4, accessor: 77 }));
    assert_eq!(
        load(5, Semantic::TexCoords(1), positions),
        Err(MeshWarning::UnrecognisedAttribute { attribute: 5 })
    );
    assert_eq!(
        load(6, Semantic::Extras("_X".to_string()), positions),
        Err(MeshWarning::UnrecognisedAttribute { attribute: 6 })
    );
}

#[test]
fn normalized_joint_indices_do_not_fit_the_joint_attribute() {
    let mut s = Scratch::new();
    let normalized = s.add(&[0, 1, 2, 3], DataType::U8, Dimensions::Vec4, 1, true);
    let plain = s.add(&[0, 1, 2, 3], DataType::U8, Dimensions::Vec4, 1, false);
    let buffers = s.buffers();
    assert_eq!(
        load_attribute(0, &Semantic::Joints(0), normalized, &s.accessors, &s.views, &buffers, &AttributeMap::new()),
        Err(MeshWarning::FormatMismatch {
            attribute: 0,
            loaded: VertexFormat::Unorm8x4,
            expected: VertexFormat::Uint16x4,
        })
    );
    let (_, values) =
        load_attribute(0, &Semantic::Joints(0), plain, &s.accessors, &s.views, &buffers, &AttributeMap::new())
            .unwrap();
    assert_eq!(values, VertexAttributeValues::Uint16x4(vec![[0, 1, 2, 3]]));
}

#[test]
fn indices_of_8_bits_are_widened() {
    let mut s = Scratch::new();
    let narrow = s.add(&[0, 1, 255], DataType::U8, Dimensions::Scalar, 3, false);
    let medium = s.add(&[0, 0, 1, 0, 0xff, 0xff], DataType::U16, Dimensions::Scalar, 3, false);
    let wide = s.add(&[0, 0, 0, 0, 0xff, 0xff, 0xff, 0xff], DataType::U32, Dimensions::Scalar, 2, false);
    let floats = s.add_floats(&[1.0], Dimensions::Scalar, 1);
    let signed = s.add(&[0, 1], DataType::I8, Dimensions::Scalar, 2, false);
    let buffers = s.buffers();
    let read = |indices: Option<usize>| read_indices(indices, &s.accessors, &s.views, &buffers);
    assert_eq!(read(Some(narrow)), Some(Indices::U16(vec![0, 1, 255])));
    assert_eq!(read(Some(medium)), Some(Indices::U16(vec![0, 1, 0xffff])));
    assert_eq!(read(Some(wide)), Some(Indices::U32(vec![0, 0xffff_ffff])));
    assert_eq!(read(Some(floats)), None);
    assert_eq!(read(Some(signed)), None);
    assert_eq!(read(Some(99)), None);
    assert_eq!(read(None), None);
}

#[test]
fn triangle_list_without_normals_gets_flat_normals() {
    let mut s = Scratch::new();
    let positions = s.add_floats(&TRIANGLE, Dimensions::Vec3, 3);
    let indices = s.add(&[0, 1, 2], DataType::U8, Dimensions::Scalar, 3, false);
    let buffers = s.buffers();
    let mut primitive = primitive_of(vec![(Semantic::Positions, positions)], Mode::Triangles);
    primitive.indices = Some(indices);
    let mesh = load_primitive(&primitive, &s.accessors, &s.views, &buffers, &vec![], &AttributeMap::new()).unwrap();
    assert_eq!(mesh.topology, PrimitiveTopology::TriangleList);
    assert!(mesh.flat_normals);
    assert!(!mesh.generate_tangents);
    assert_eq!(mesh.indices, Some(Indices::U16(vec![0, 1, 2])));
    assert!(mesh.warnings.is_empty());
    assert_eq!(mesh.attributes.len(), 1);
    assert_eq!(mesh.attributes[0].0, MeshVertexAttribute::built_in(BuiltIn::Position));
    let expected: Vec<[u32; 3]> = bits(&TRIANGLE).chunks(3).map(|c| [c[0], c[1], c[2]]).collect();
    assert_eq!(mesh.attributes[0].1, VertexAttributeValues::Float32x3(expected));
}

#[test]
fn flat_normals_are_only_for_triangle_lists_without_normals() {
    let mut s = Scratch::new();
    let positions = s.add_floats(&TRIANGLE, Dimensions::Vec3, 3);
    let normals = s.add_floats(&[0.0, 0.0, 1.0, 0.0, 0.0, 1.0, 0.0, 0.0, 1.0], Dimensions::Vec3, 3);
    let buffers = s.buffers();
    let with_normals = primitive_of(
        vec![(Semantic::Positions, positions), (Semantic::Normals, normals)],
        Mode::Triangles,
    );
    let mesh =
        load_primitive(&with_normals, &s.accessors, &s.views, &buffers, &vec![], &AttributeMap::new()).unwrap();
    assert!(!mesh.flat_normals);
    assert_eq!(mesh.attributes.len(), 2);
    for mode in [Mode::Points, Mode::Lines, Mode::LineStrip, Mode::TriangleStrip] {
        let primitive = primitive_of(vec![(Semantic::Positions, positions)], mode);
        let mesh =
            load_primitive(&primitive, &s.accessors, &s.views, &buffers, &vec![], &AttributeMap::new()).unwrap();
        assert!(!mesh.flat_normals);
    }
    let broken_normals = primitive_of(
        vec![(Semantic::Positions, positions), (Semantic::Normals, 50)],
        Mode::Triangles,
    );
    let mesh =
        load_primitive(&broken_normals, &s.accessors, &s.views, &buffers, &vec![], &AttributeMap::new()).unwrap();
    assert!(mesh.flat_normals);
    assert_eq!(mesh.warnings, vec![MeshWarning::MalformedData { attribute: 1, accessor: 50 }]);
}

#[test]
fn unsupported_topology_fails_the_primitive() {
    let mut s = Scratch::new();
    let positions = s.add_floats(&TRIANGLE, Dimensions::Vec3, 3);
    let buffers = s.buffers();
    for mode in [Mode::LineLoop, Mode::TriangleFan] {
        let primitive = primitive_of(vec![(Semantic::Positions, positions)], mode);
        assert_eq!(
            load_primitive(&primitive, &s.accessors, &s.views, &buffers, &vec![], &AttributeMap::new()),
            Err(GltfError::UnsupportedPrimitive { mode })
        );
    }
}

#[test]
fn tangents_are_generated_for_a_normal_map_only() {
    let mut s = Scratch::new();
    let positions = s.add_floats(&TRIANGLE, Dimensions::Vec3, 3);
    let normals = s.add_floats(&[0.0, 0.0, 1.0, 0.0, 0.0, 1.0, 0.0, 0.0, 1.0], Dimensions::Vec3, 3);
    let tangents = s.add_floats(&[1.0, 0.0, 0.0, 1.0, 1.0, 0.0, 0.0, 1.0, 1.0, 0.0, 0.0, 1.0], Dimensions::Vec4, 3);
    let buffers = s.buffers();
    let materials = vec![material_with_normal_map(Some(0)), material_with_normal_map(None)];
    let load = |attributes: Vec<(Semantic, usize)>, mode: Mode, material: Option<usize>| {
        let mut primitive = primitive_of(attributes, mode);
        primitive.material = material;
        load_primitive(&primitive, &s.accessors, &s.views, &buffers, &materials, &AttributeMap::new()).unwrap()
    };
    let both = vec![(Semantic::Positions, positions), (Semantic::Normals, normals)];
    assert!(load(both.clone(), Mode::Triangles, Some(0)).generate_tangents);
    assert!(!load(both.clone(), Mode::Triangles, Some(1)).generate_tangents);
    assert!(!load(both.clone(), Mode::Triangles, None).generate_tangents);
    assert!(!load(both.clone(), Mode::Triangles, Some(2)).generate_tangents);
    let flat = load(vec![(Semantic::Positions, positions)], Mode::Triangles, Some(0));
    assert!(flat.flat_normals);
    assert!(flat.generate_tangents);
    let strip = load(vec![(Semantic::Positions, positions)], Mode::TriangleStrip, Some(0));
    assert!(!strip.flat_normals);
    assert!(!strip.generate_tangents);
    let mut with_tangents = both.clone();
    with_tangents.push((Semantic::Tangents, tangents));
    let declared = load(with_tangents, Mode::Triangles, Some(0));
    assert!(!declared.generate_tangents);
    assert_eq!(declared.attributes.len(), 3);
    assert_eq!(declared.attributes[2].0, MeshVertexAttribute::built_in(BuiltIn::Tangent));
    assert_eq!(declared.tangents.as_ref(), Some(&declared.attributes[2].1));
    assert_eq!(flat.tangents, None);
    let odd = load(vec![(Semantic::Tangents, normals)], Mode::Points, Some(0));
    assert_eq!(odd.attributes.len(), 0);
    assert_eq!(odd.tangents, None);
    let raw = load(vec![(Semantic::Tangents, positions), (Semantic::Tangents, tangents)], Mode::Points, None);
    assert_eq!(raw.attributes.len(), 1);
    assert_eq!(raw.tangents, None);
}

#[test]
fn primitive_loads_in_spite_of_attributes_that_do_not() {
    let mut s = Scratch::new();
    let positions = s.add_floats(&TRIANGLE, Dimensions::Vec3, 3);
    let colors = s.add(&[255, 0, 0, 0, 255, 0, 0, 0, 255], DataType::U8, Dimensions::Vec3, 3, true);
    let odd = s.add(&[0; 6], DataType::I8, Dimensions::Vec3, 2, false);
    let custom_values = s.add_floats(&[0.5, 0.25, 0.125], Dimensions::Scalar, 3);
    let buffers = s.buffers();
    let mut custom = AttributeMap::new();
    custom.insert(
        "_WEIGHT".to_string(),
        MeshVertexAttribute { name: "Weight".to_string(), id: 900, format: VertexFormat::Float32 },
    );
    let primitive = primitive_of(
        vec![
            (Semantic::Positions, positions),
            (Semantic::Colors(0), colors),
            (Semantic::Colors(1), colors),
            (Semantic::Normals, odd),
            (Semantic::Extras("_WEIGHT".to_string()), custom_values),
            (Semantic::Extras("_UNKNOWN".to_string()), custom_values),
        ],
        Mode::LineStrip,
    );
    let mesh = load_primitive(&primitive, &s.accessors, &s.views, &buffers, &vec![], &custom).unwrap();
    let ids: Vec<usize> = mesh.attributes.iter().map(|a| a.0.id).collect();
    assert_eq!(ids, vec![0, 4, 900]);
    assert_eq!(
        mesh.warnings,
        vec![
            MeshWarning::UnrecognisedAttribute { attribute: 2 },
            MeshWarning::UnsupportedFormat {
                attribute: 3,
                data_type: DataType::I8,
                dimensions: Dimensions::Vec3,
                normalized: false,
                accessor: odd,
            },
            MeshWarning::UnrecognisedAttribute { attribute: 5 },
        ]
    );
    match &mesh.attributes[1].1 {
        VertexAttributeValues::Float32x4(rows) => {
            assert_eq!(rows.len(), 3);
            assert!(rows.iter().all(|row| row[3] == ONE_BITS));
        }
        other => panic!("unexpected values {:?}", other),
    }
    assert_eq!(mesh.attributes[2].1, VertexAttributeValues::Float32(bits(&[0.5, 0.25, 0.125])));
    assert_eq!(mesh.indices, None);
}
