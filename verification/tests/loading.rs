use gltf_loader::accessor::{Accessor, BufferView, DataType, Dimensions};
use gltf_loader::animation::AnimationWarning;
use gltf_loader::buffer::BufferSource;
use gltf_loader::index_set::IndexSet;
use gltf_loader::maps::{AttributeMap, NameMap};
use gltf_loader::document::{
    Animation, Channel, Document, Interpolation, Material, MaterialAlphaMode, Mesh, Node, Primitive,
    Property, Scene, Semantic, Skin,
};
use gltf_loader::hierarchy::StructuralWarning;
use gltf_loader::loader::{
    flags_of, load_gltf, load_meshes, load_scenes, load_skin, named, named_nodes, node_entries,
    ErrorKind, GltfError, GltfLoader, Mode,
};
use gltf_loader::material::Face;
use gltf_loader::mesh::{MeshVertexAttribute, PrimitiveTopology};
use gltf_loader::attribute::VertexFormat;
use gltf_loader::scene::{load_node, SceneNode, Walk};
use gltf_loader::{GltfPlugin, Transform, ONE_BITS};

fn node(name: Option<&str>, children: Vec<usize>) -> Node {
    Node {
        name: name.map(|n| n.to_string()),
        mesh: None,
        has_camera: false,
        transform: Transform::identity(),
        children,
    }
}

fn material(index: usize, name: Option<&str>) -> Material {
    Material {
        index: Some(index),
        name: name.map(|n| n.to_string()),
        base_color_factor: [ONE_BITS; 4],
        base_color_texture: None,
        roughness_factor: ONE_BITS,
        metallic_factor: ONE_BITS,
        metallic_roughness_texture: None,
        normal_texture: None,
        occlusion_texture: None,
        emissive_factor: [0; 3],
        emissive_texture: None,
        double_sided: false,
        unlit: false,
        alpha_mode: MaterialAlphaMode::Opaque,
        alpha_cutoff: None,
    }
}

fn primitive(attributes: Vec<(Semantic, usize)>, mode: Mode, material: Option<usize>) -> Primitive {
    Primitive {
        attributes,
        indices: None,
        mode,
        material,
    }
}

fn empty_document() -> Document {
    Document {
        buffers: vec![],
        views: vec![],
        accessors: vec![],
        materials: vec![],
        textures: vec![],
        meshes: vec![],
        nodes: vec![],
        skins: vec![],
        animations: vec![],
        scenes: vec![],
        default_scene: None,
        blob: None,
    }
}

fn plain_loader() -> GltfLoader {
    GltfLoader { supported_compressed_formats: 0, custom_vertex_attributes: AttributeMap::new() }
}

fn floats(values: &[f32]) -> Vec<u8> {
    values.iter().flat_map(|v| v.to_le_bytes()).collect()
}

fn places(names: &[(&str, usize)]) -> NameMap {
    let mut map = NameMap::new();
    for (name, place) in names {
        map.insert(name.to_string(), *place);
    }
    map
}

fn leaf(n: usize, active_camera: bool) -> SceneNode {
    SceneNode { node: n, active_camera, children: vec![] }
}

/// A triangle below a named root, with a clip that moves the root.
fn small_document() -> (Document, Vec<Vec<u8>>) {
    let positions = floats(&[0.0, 0.0, 0.0, 1.0, 0.0, 0.0, 0.0, 1.0, 0.0]);
    let times = floats(&[0.0, 1.0]);
    let moves = floats(&[0.0, 0.0, 0.0, 0.0, 2.0, 0.0]);
    let matrices = floats(&[1.0; 32]);
    let mut buffer = Vec::new();
    let mut views = Vec::new();
    for part in [&positions, &times, &moves, &matrices] {
        views.push(BufferView { buffer: 0, offset: buffer.len(), length: part.len(), stride: None });
        buffer.extend_from_slice(part);
    }
    let accessor = |view: usize, dimensions: Dimensions, count: usize| Accessor {
        view: Some(view),
        offset: 0,
        count,
        data_type: DataType::F32,
        dimensions,
        normalized: false,
        sparse: false,
    };
    let mut mesh_node = node(Some("body"), vec![]);
    mesh_node.mesh = Some(0);
    let mut eye = node(None, vec![]);
    eye.has_camera = true;
    let document = Document {
        buffers: vec![BufferSource::Bin],
        views,
        accessors: vec![
            accessor(0, Dimensions::Vec3, 3),
            accessor(1, Dimensions::Scalar, 2),
            accessor(2, Dimensions::Vec3, 2),
            accessor(3, Dimensions::Mat4, 2),
        ],
        materials: vec![material(0, Some("skin")), material(1, None)],
        textures: vec![],
        meshes: vec![Mesh {
            name: Some("triangle".to_string()),
            primitives: vec![
                primitive(vec![(Semantic::Positions, 0)], Mode::Triangles, Some(1)),
                primitive(vec![(Semantic::Positions, 0)], Mode::Points, None),
            ],
        }],
        nodes: vec![node(Some("root"), vec![1, 2]), mesh_node, eye, node(Some("lonely"), vec![])],
        skins: vec![Skin { inverse_bind_matrices: Some(3) }],
        animations: vec![Animation {
            name: Some("rise".to_string()),
            channels: vec![Channel {
                node: 1,
                property: Property::Translation,
                interpolation: Interpolation::Step,
                input: 1,
                output: 2,
            }],
        }],
        scenes: vec![
            Scene { name: Some("main".to_string()), nodes: vec![0] },
            Scene { name: None, nodes: vec![3, 2] },
        ],
        default_scene: Some(0),
        blob: Some(buffer.clone()),
    };
    (document, vec![buffer])
}

#[test]
fn small_document_loads_whole() {
    let (document, buffers) = small_document();
    let loaded = load_gltf(&document, &buffers, &plain_loader()).unwrap();
    let gltf = &loaded.gltf;

    assert_eq!(gltf.materials.len(), 2);
    assert_eq!(gltf.materials[0].cull_mode, Some(Face::Back));
    assert_eq!(gltf.named_materials, places(&[("skin", 0)]));
    assert_eq!(gltf.named_materials.get("skin"), Some(0));
    assert_eq!(gltf.named_materials.get("bone"), None);

    assert_eq!(gltf.meshes.len(), 1);
    assert_eq!(gltf.named_meshes, places(&[("triangle", 0)]));
    let primitives = &gltf.meshes[0].primitives;
    assert_eq!(primitives.len(), 2);
    assert_eq!(primitives[0].material, Some(1));
    assert_eq!(primitives[1].material, None);
    assert_eq!(primitives[0].mesh.topology, PrimitiveTopology::TriangleList);
    assert!(primitives[0].mesh.flat_normals);
    assert_eq!(primitives[0].mesh.attributes[0].1.len(), 3);
    assert_eq!(primitives[1].mesh.topology, PrimitiveTopology::PointList);
    assert!(!primitives[1].mesh.flat_normals);

    assert!(loaded.is_tree);
    let labels: Vec<&str> = gltf.nodes.iter().map(|n| n.0.as_str()).collect();
    assert_eq!(labels, vec!["Node0", "Node1", "Node2", "Node3"]);
    assert_eq!(gltf.nodes[0].1.children.len(), 2);
    assert_eq!(gltf.nodes[1].1.mesh, Some(0));
    assert_eq!(gltf.named_nodes, places(&[("root", 0), ("body", 1), ("lonely", 3)]));

    assert_eq!(gltf.animations.len(), 1);
    assert_eq!(gltf.named_animations, places(&[("rise", 0)]));
    assert_eq!(gltf.animations[0].curves.len(), 1);
    assert_eq!(gltf.animations[0].curves[0].0, vec!["root".to_string(), "body".to_string()]);
    assert_eq!(
        loaded.animation_warnings,
        vec![vec![AnimationWarning::UnsupportedInterpolation {
            channel: 0,
            interpolation: Interpolation::Step
        }]]
    );

    assert_eq!(gltf.scenes.len(), 2);
    assert_eq!(gltf.named_scenes, places(&[("main", 0)]));
    assert_eq!(gltf.default_scene, Some(0));
    assert_eq!(
        gltf.scenes[0].roots,
        vec![SceneNode { node: 0, active_camera: false, children: vec![leaf(1, false), leaf(2, true)] }]
    );
    assert_eq!(gltf.scenes[0].animated, vec![true]);
    assert_eq!(gltf.scenes[1].roots, vec![leaf(3, false), leaf(2, false)]);
    assert_eq!(gltf.scenes[1].animated, vec![false, false]);

    assert_eq!(loaded.skins.len(), 1);
    assert_eq!(loaded.skins[0], Some(vec![[ONE_BITS; 16], [ONE_BITS; 16]]));
    assert!(loaded.linear_textures.is_empty());
    assert!(loaded.default_material_needed);
}

#[test]
fn empty_document_loads_empty() {
    let loaded = load_gltf(&empty_document(), &vec![], &plain_loader()).unwrap();
    assert!(loaded.gltf.scenes.is_empty());
    assert!(loaded.gltf.nodes.is_empty());
    assert!(loaded.gltf.meshes.is_empty());
    assert_eq!(loaded.gltf.default_scene, None);
    assert!(loaded.is_tree);
    assert!(!loaded.default_material_needed);
}

#[test]
fn document_with_an_index_that_names_no_node_is_invalid() {
    let (mut document, buffers) = small_document();
    document.nodes[3].children.push(4);
    let failed = load_gltf(&document, &buffers, &plain_loader()).unwrap_err();
    assert_eq!(failed.error_kind(), ErrorKind::Gltf);
    assert!(!document.validate());

    let (mut document, buffers) = small_document();
    document.scenes[1].nodes.push(10);
    assert!(!document.validate());
    let failed = load_gltf(&document, &buffers, &plain_loader()).unwrap_err();
    assert_eq!(failed.error_kind(), ErrorKind::Gltf);
    assert!(small_document().0.validate());
}

#[test]
fn cycle_fails_nothing_and_its_nodes_are_dropped() {
    let (mut document, buffers) = small_document();
    document.nodes[2].children.push(0);
    let loaded = load_gltf(&document, &buffers, &plain_loader()).unwrap();
    assert!(!loaded.is_tree);
    assert_eq!(loaded.structural_warning, None);
    let labels: Vec<&str> = loaded.gltf.nodes.iter().map(|n| n.0.as_str()).collect();
    assert_eq!(labels, vec!["Node1", "Node3"]);
    assert_eq!(loaded.gltf.named_nodes, places(&[("body", 0), ("lonely", 1)]));
    assert_eq!(loaded.gltf.scenes.len(), 2);
    assert_eq!(loaded.gltf.scenes[0].roots, vec![]);
    assert_eq!(loaded.gltf.scenes[0].animated, Vec::<bool>::new());
    assert_eq!(loaded.gltf.scenes[1].roots, vec![leaf(3, false)]);
    assert_eq!(loaded.gltf.scenes[1].animated, vec![false]);
    assert_eq!(loaded.gltf.animations.len(), 1);
    assert!(loaded.gltf.animations[0].curves.is_empty());
    assert_eq!(
        loaded.animation_warnings[0].last(),
        Some(&AnimationWarning::MissingPath { channel: 0, node: 1 })
    );

    let (mut document, buffers) = small_document();
    document.nodes.push(node(Some("a"), vec![5]));
    document.nodes.push(node(Some("b"), vec![4]));
    let loaded = load_gltf(&document, &buffers, &plain_loader()).unwrap();
    assert!(!loaded.is_tree);
    assert_eq!(loaded.gltf.nodes.len(), 4);
    assert_eq!(loaded.gltf.named_nodes, places(&[("root", 0), ("body", 1), ("lonely", 3)]));
    assert_eq!(loaded.gltf.named_nodes.get("a"), None);
    assert_eq!(loaded.gltf.scenes[0].roots.len(), 1);
}

#[test]
fn node_with_two_parents_is_reported_once() {
    let (mut document, buffers) = small_document();
    document.nodes[3].children.push(1);
    let loaded = load_gltf(&document, &buffers, &plain_loader()).unwrap();
    assert_eq!(
        loaded.structural_warning,
        Some(StructuralWarning::SecondParent { child: 1, parent: 3 })
    );
    assert!(!loaded.is_tree);
    let labels: Vec<&str> = loaded.gltf.nodes.iter().map(|n| n.0.as_str()).collect();
    assert_eq!(labels, vec!["Node1", "Node2", "Node3"]);
    assert_eq!(loaded.gltf.scenes[0].roots, vec![]);
}

#[test]
fn name_of_a_dropped_node_names_nothing() {
    let mut document = empty_document();
    document.nodes = vec![
        node(Some("a"), vec![1]),
        node(Some("b"), vec![0]),
        node(Some("kept"), vec![]),
    ];
    let loaded = load_gltf(&document, &vec![], &plain_loader()).unwrap();
    assert_eq!(loaded.gltf.nodes.len(), 1);
    assert_eq!(loaded.gltf.nodes[0].0, "Node2");
    assert_eq!(loaded.gltf.named_nodes, places(&[("kept", 0)]));
}

#[test]
fn missing_animation_sampler_comes_before_an_unsupported_primitive() {
    let (mut document, buffers) = small_document();
    document.meshes[0].primitives[1].mode = Mode::TriangleFan;
    assert_eq!(
        load_gltf(&document, &buffers, &plain_loader()),
        Err(GltfError::UnsupportedPrimitive { mode: Mode::TriangleFan })
    );
    document.animations.push(Animation {
        name: None,
        channels: vec![Channel {
            node: 0,
            property: Property::Scale,
            interpolation: Interpolation::Linear,
            input: 1,
            output: 3,
        }],
    });
    document.accessors[3].count = 1000;
    assert_eq!(
        load_gltf(&document, &buffers, &plain_loader()),
        Err(GltfError::MissingAnimationSampler(1))
    );
}

#[test]
fn first_unsupported_primitive_is_reported() {
    let (mut document, buffers) = small_document();
    document.meshes.push(Mesh {
        name: None,
        primitives: vec![
            primitive(vec![], Mode::LineLoop, None),
            primitive(vec![], Mode::TriangleFan, None),
        ],
    });
    assert_eq!(
        load_meshes(&document, &buffers, &AttributeMap::new()),
        Err(GltfError::UnsupportedPrimitive { mode: Mode::LineLoop })
    );
}

#[test]
fn default_scene_that_does_not_exist_is_none() {
    let (mut document, buffers) = small_document();
    document.default_scene = Some(2);
    let loaded = load_gltf(&document, &buffers, &plain_loader()).unwrap();
    assert_eq!(loaded.gltf.default_scene, None);
    document.default_scene = Some(1);
    let loaded = load_gltf(&document, &buffers, &plain_loader()).unwrap();
    assert_eq!(loaded.gltf.default_scene, Some(1));
}

#[test]
fn skin_without_matrices_has_none() {
    let (document, buffers) = small_document();
    let load = |skin: Skin| load_skin(&skin, &document.accessors, &document.views, &buffers);
    assert_eq!(load(Skin { inverse_bind_matrices: None }), None);
    assert_eq!(load(Skin { inverse_bind_matrices: Some(9) }), None);
    assert_eq!(load(Skin { inverse_bind_matrices: Some(0) }), None);
    assert_eq!(
        load(Skin { inverse_bind_matrices: Some(3) }),
        Some(vec![[ONE_BITS; 16], [ONE_BITS; 16]])
    );
}

#[test]
fn names_are_listed_with_their_places() {
    let materials = vec![
        material(0, Some("twice")),
        material(1, None),
        material(2, Some("once")),
        material(3, Some("twice")),
    ];
    let names = named(&materials);
    assert_eq!(names.get("twice"), Some(3));
    assert_eq!(names.get("once"), Some(2));
    assert_eq!(names.get(""), None);
    assert_eq!(names, places(&[("once", 2), ("twice", 3)]));
    let nodes = vec![node(Some("a"), vec![]), node(None, vec![]), node(Some("c"), vec![])];
    assert_eq!(named_nodes(&nodes, &vec![1, 2]), places(&[("c", 1)]));
    assert_eq!(named_nodes(&nodes, &vec![0, 2, 7]), places(&[("a", 0), ("c", 1)]));
}

#[test]
fn node_entries_carry_labels_meshes_and_children() {
    let (mut document, _) = small_document();
    document.nodes[3].mesh = Some(5);
    let entries = node_entries(&document);
    assert_eq!(entries.len(), 4);
    assert_eq!(entries[0].0, "Node0");
    assert_eq!(entries[0].2, vec![1, 2]);
    assert_eq!(entries[1].1.mesh, Some(0));
    assert_eq!(entries[3].1.mesh, None);
    assert!(entries.iter().all(|e| e.1.children.is_empty()));
}

#[test]
fn first_camera_in_walking_order_is_the_active_one() {
    let mut first = node(None, vec![1, 3]);
    let mut second = node(None, vec![2]);
    second.has_camera = true;
    let mut third = node(None, vec![]);
    third.has_camera = true;
    let mut fourth = node(None, vec![]);
    fourth.has_camera = true;
    let nodes = vec![first, second, third, fourth];
    let mut walk = Walk { active_camera_found: false, default_material_needed: false };
    let plan = load_node(&nodes, &vec![], 0, &mut walk, 4).unwrap();
    assert_eq!(
        plan,
        SceneNode {
            node: 0,
            active_camera: false,
            children: vec![
                SceneNode { node: 1, active_camera: true, children: vec![leaf(2, false)] },
                leaf(3, false),
            ],
        }
    );
    assert!(walk.active_camera_found);
    assert!(!walk.default_material_needed);
    let again = load_node(&nodes, &vec![], 1, &mut walk, 4).unwrap();
    assert!(!again.active_camera);
    let mut fresh = Walk { active_camera_found: false, default_material_needed: false };
    let cut = load_node(&nodes, &vec![], 0, &mut fresh, 2).unwrap();
    assert_eq!(
        cut,
        SceneNode { node: 0, active_camera: false, children: vec![leaf(1, true), leaf(3, false)] }
    );
    assert_eq!(load_node(&nodes, &vec![], 0, &mut fresh, 0), None);
    assert_eq!(load_node(&nodes, &vec![], 4, &mut fresh, 4), None);
}

#[test]
fn default_material_is_needed_for_a_primitive_without_material() {
    let meshes = vec![
        Mesh { name: None, primitives: vec![primitive(vec![], Mode::Points, Some(0))] },
        Mesh {
            name: None,
            primitives: vec![
                primitive(vec![], Mode::Points, Some(0)),
                primitive(vec![], Mode::Points, None),
            ],
        },
    ];
    let mut with_material = node(None, vec![]);
    with_material.mesh = Some(0);
    let mut without = node(None, vec![]);
    without.mesh = Some(1);
    let mut missing = node(None, vec![]);
    missing.mesh = Some(2);
    let mut document = empty_document();
    document.meshes = meshes;
    document.nodes = vec![with_material, without, missing];
    document.scenes = vec![Scene { name: None, nodes: vec![0, 2] }];
    let mut walk = Walk { active_camera_found: false, default_material_needed: false };
    let resolved = vec![true; 3];
    load_scenes(&document, &IndexSet::new(), &resolved, &mut walk);
    assert!(!walk.default_material_needed);
    document.scenes.push(Scene { name: None, nodes: vec![1] });
    let plans = load_scenes(&document, &IndexSet::from_indices(&vec![1, 2]), &resolved, &mut walk);
    assert!(walk.default_material_needed);
    assert_eq!(plans[0].animated, vec![false, true]);
    assert_eq!(plans[1].animated, vec![true]);
    let mut walk = Walk { active_camera_found: false, default_material_needed: false };
    let plans = load_scenes(
        &document,
        &IndexSet::from_indices(&vec![1, 2]),
        &vec![true, false, true],
        &mut walk,
    );
    assert!(!walk.default_material_needed);
    assert_eq!(plans[0].roots, vec![leaf(0, false), leaf(2, false)]);
    assert_eq!(plans[0].animated, vec![false, true]);
    assert_eq!(plans[1].roots, vec![]);
    assert_eq!(plans[1].animated, Vec::<bool>::new());
}

#[test]
fn flags_say_which_indices_are_held() {
    assert_eq!(flags_of(&vec![1, 3], 5), vec![false, true, false, true, false]);
    assert_eq!(flags_of(&vec![7, 0], 2), vec![true, false]);
    assert_eq!(flags_of(&vec![], 0), Vec::<bool>::new());
}

#[test]
fn plugin_hands_its_attributes_to_the_loader() {
    let bary = MeshVertexAttribute { name: "Bary".to_string(), id: 77, format: VertexFormat::Float32x3 };
    let other = MeshVertexAttribute { name: "Other".to_string(), id: 78, format: VertexFormat::Uint32 };
    let plugin = GltfPlugin::default()
        .add_custom_vertex_attribute("_BARY", bary.clone())
        .add_custom_vertex_attribute("_OTHER", other.clone());
    let loader = plugin.build(0b101);
    assert_eq!(loader.supported_compressed_formats, 0b101);
    assert_eq!(loader.custom_vertex_attributes.get("_BARY"), Some(&bary));
    assert_eq!(loader.custom_vertex_attributes.get("_OTHER"), Some(&other));
    assert_eq!(loader.custom_vertex_attributes.get("_ANY"), None);
    assert_eq!(loader.extensions(), vec!["gltf", "glb"]);
    assert_eq!(GltfPlugin::new().build(0).custom_vertex_attributes, AttributeMap::new());
}

#[test]
fn custom_attribute_is_loaded_through_the_loader() {
    let (mut document, buffers) = small_document();
    document.meshes[0].primitives[0].attributes.push((Semantic::Extras("_BARY".to_string()), 0));
    let without = load_gltf(&document, &buffers, &plain_loader()).unwrap();
    assert_eq!(without.gltf.meshes[0].primitives[0].mesh.attributes.len(), 1);
    assert_eq!(without.gltf.meshes[0].primitives[0].mesh.warnings.len(), 1);
    let bary = MeshVertexAttribute { name: "Bary".to_string(), id: 77, format: VertexFormat::Float32x3 };
    let loader = GltfPlugin::new().add_custom_vertex_attribute("_BARY", bary).build(0);
    let with = load_gltf(&document, &buffers, &loader).unwrap();
    assert_eq!(with.gltf.meshes[0].primitives[0].mesh.attributes.len(), 2);
    assert!(with.gltf.meshes[0].primitives[0].mesh.warnings.is_empty());
}
