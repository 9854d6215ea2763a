use gltf_loader::accessor::{Accessor, BufferView, DataType, Dimensions};
use gltf_loader::animation::{
    find_node_paths, load_animation, load_channel, paths_recur, read_outputs, AnimationWarning,
    Keyframes, OutputFailure, VariableCurve,
};
use gltf_loader::document::{Animation, Channel, Interpolation, Node, Property, Scene};
use gltf_loader::loader::GltfError;
use gltf_loader::maps::PathMap;
use gltf_loader::Transform;

fn node(name: Option<&str>, children: Vec<usize>) -> Node {
    Node {
        name: name.map(|n| n.to_string()),
        mesh: None,
        has_camera: false,
        transform: Transform::identity(),
        children,
    }
}

fn scene(nodes: Vec<usize>) -> Scene {
    Scene { name: None, nodes }
}

fn names(path: &[&str]) -> Vec<String> {
    path.iter().map(|n| n.to_string()).collect()
}

fn ways(known: Vec<Option<(usize, Vec<String>)>>) -> PathMap {
    let mut map = PathMap::new();
    for (node, way) in known.into_iter().enumerate() {
        if let Some(way) = way {
            map.insert(node, way);
        }
    }
    map
}

struct Data {
    buffer: Vec<u8>,
    views: Vec<BufferView>,
    accessors: Vec<Accessor>,
}

impl Data {
    fn new() -> Data {
        Data { buffer: Vec::new(), views: Vec::new(), accessors: Vec::new() }
    }

    fn push(&mut self, bytes: &[u8], data_type: DataType, dimensions: Dimensions, count: usize) -> usize {
        let offset = self.buffer.len();
        self.buffer.extend_from_slice(bytes);
        self.views.push(BufferView { buffer: 0, offset, length: bytes.len(), stride: None });
        self.accessors.push(Accessor {
            view: Some(self.views.len() - 1),
            offset: 0,
            count,
            data_type,
            dimensions,
            normalized: data_type != DataType::F32,
            sparse: false,
        });
        self.accessors.len() - 1
    }

    fn push_floats(&mut self, values: &[f32], dimensions: Dimensions, count: usize) -> usize {
        let bytes: Vec<u8> = values.iter().flat_map(|v| v.to_le_bytes()).collect();
        self.push(&bytes, DataType::F32, dimensions, count)
    }

    fn buffers(&self) -> Vec<Vec<u8>> {
        vec![self.buffer.clone()]
    }
}

fn channel(node: usize, property: Property, input: usize, output: usize) -> Channel {
    Channel { node, property, interpolation: Interpolation::Linear, input, output }
}

fn as_floats(keyframes: &Keyframes) -> Vec<Vec<f32>> {
    match keyframes {
        Keyframes::Rotation(rows) => rows.iter().map(|r| r.iter().map(|b| f32::from_bits(*b)).collect()).collect(),
        Keyframes::Translation(rows) | Keyframes::Scale(rows) => {
            rows.iter().map(|r| r.iter().map(|b| f32::from_bits(*b)).collect()).collect()
        }
    }
}

fn close(a: f32, b: f32) -> bool {
    (a - b).abs() <= 2.0 * f32::EPSILON
}

#[test]
fn paths_lead_from_the_scene_roots_to_every_node_below() {
    let nodes = vec![
        node(Some("root"), vec![1, 2]),
        node(None, vec![3]),
        node(Some("arm"), vec![]),
        node(Some("hand"), vec![]),
        node(Some("elsewhere"), vec![]),
        node(Some("second root"), vec![]),
    ];
    let paths = find_node_paths(&nodes, &vec![scene(vec![0]), scene(vec![5])], &vec![true; 6]);
    assert_eq!(paths.get(0), Some(&(0, names(&["root"]))));
    assert_eq!(paths.get(1), Some(&(0, names(&["root", "GltfNode1"]))));
    assert_eq!(paths.get(2), Some(&(0, names(&["root", "arm"]))));
    assert_eq!(paths.get(3), Some(&(0, names(&["root", "GltfNode1", "hand"]))));
    assert_eq!(paths.get(4), None);
    assert_eq!(paths.get(5), Some(&(5, names(&["second root"]))));
    assert_eq!(paths.get(6), None);
}

#[test]
fn way_that_is_found_last_replaces_the_one_before() {
    let nodes = vec![
        node(Some("a"), vec![2]),
        node(Some("b"), vec![2]),
        node(Some("shared"), vec![]),
    ];
    let paths = find_node_paths(&nodes, &vec![scene(vec![0, 1])], &vec![true; 3]);
    assert_eq!(paths.get(2), Some(&(1, names(&["b", "shared"]))));
    let paths = find_node_paths(&nodes, &vec![scene(vec![1]), scene(vec![0])], &vec![true; 3]);
    assert_eq!(paths.get(2), Some(&(0, names(&["a", "shared"]))));
}

#[test]
fn paths_do_not_run_around_a_cycle() {
    let nodes = vec![node(Some("a"), vec![1]), node(Some("b"), vec![0]), node(Some("c"), vec![])];
    let resolved = vec![false, false, true];
    let paths = find_node_paths(&nodes, &vec![scene(vec![2]), scene(vec![0])], &resolved);
    assert_eq!(paths, ways(vec![None, None, Some((2, names(&["c"])))]));
    let paths = find_node_paths(&nodes, &vec![scene(vec![2])], &resolved);
    assert_eq!(paths, ways(vec![None, None, Some((2, names(&["c"])))]));
    assert_eq!(find_node_paths(&nodes, &vec![], &resolved), PathMap::new());
}

#[test]
fn no_way_leads_below_a_root_that_did_not_resolve() {
    let nodes = vec![node(Some("a"), vec![1]), node(Some("b"), vec![]), node(Some("c"), vec![])];
    let paths = find_node_paths(&nodes, &vec![scene(vec![0, 2])], &vec![false, true, true]);
    assert_eq!(paths, ways(vec![None, None, Some((2, names(&["c"])))]));
    let paths = find_node_paths(&nodes, &vec![scene(vec![0, 2])], &vec![true]);
    assert_eq!(paths.get(0), Some(&(0, names(&["a"]))));
    assert_eq!(paths.get(1), Some(&(0, names(&["a", "b"]))));
    assert_eq!(paths.get(2), None);
}

#[test]
fn walk_stops_at_its_depth() {
    let nodes = vec![node(Some("a"), vec![1]), node(Some("b"), vec![2]), node(Some("c"), vec![])];
    let mut paths = PathMap::new();
    paths_recur(&nodes, 0, &vec![], &mut paths, 0, 2);
    assert_eq!(paths.get(0), Some(&(0, names(&["a"]))));
    assert_eq!(paths.get(1), Some(&(0, names(&["a", "b"]))));
    assert_eq!(paths.get(2), None);
    let mut paths = PathMap::new();
    paths_recur(&nodes, 0, &names(&["above"]), &mut paths, 7, 3);
    assert_eq!(paths.get(2), Some(&(7, names(&["above", "a", "b", "c"]))));
    assert_eq!(paths.get(0), Some(&(7, names(&["above", "a"]))));
    let mut paths = PathMap::new();
    paths_recur(&nodes, 2, &vec![], &mut paths, 2, 0);
    assert_eq!(paths, PathMap::new());
    paths_recur(&nodes, 3, &vec![], &mut paths, 3, 4);
    assert_eq!(paths, PathMap::new());
}

#[test]
fn translations_and_scales_are_three_floats() {
    let mut d = Data::new();
    let values = [1.0f32, 2.0, 3.0, -4.0, 5.5, 0.0];
    let output = d.push_floats(&values, Dimensions::Vec3, 2);
    let buffers = d.buffers();
    let read = read_outputs(Property::Translation, &d.accessors[output], &d.views, &buffers).unwrap();
    assert_eq!(
        read,
        Keyframes::Translation(vec![
            [values[0].to_bits(), values[1].to_bits(), values[2].to_bits()],
            [values[3].to_bits(), values[4].to_bits(), values[5].to_bits()],
        ])
    );
    let read = read_outputs(Property::Scale, &d.accessors[output], &d.views, &buffers).unwrap();
    assert!(matches!(read, Keyframes::Scale(_)));
    assert_eq!(as_floats(&read), vec![vec![1.0, 2.0, 3.0], vec![-4.0, 5.5, 0.0]]);
}

#[test]
fn rotations_of_normalized_integers_become_floats() {
    let mut d = Data::new();
    let signed8 = d.push(&[127, 0x81, 0x80, 0], DataType::I8, Dimensions::Vec4, 1);
    let unsigned8 = d.push(&[255, 0, 51, 204], DataType::U8, Dimensions::Vec4, 1);
    let signed16 = d.push(&[0xff, 0x7f, 0x01, 0x80, 0x00, 0x80, 0, 0], DataType::I16, Dimensions::Vec4, 1);
    let unsigned16 = d.push(&[0xff, 0xff, 0, 0, 0x33, 0x33, 0xcc, 0xcc], DataType::U16, Dimensions::Vec4, 1);
    let floats = d.push_floats(&[0.0, 0.0, 0.0, 1.0], Dimensions::Vec4, 1);
    let buffers = d.buffers();
    let read = |accessor: usize| {
        as_floats(&read_outputs(Property::Rotation, &d.accessors[accessor], &d.views, &buffers).unwrap())
    };
    let expect = |found: Vec<Vec<f32>>, expected: [f32; 4]| {
        assert_eq!(found.len(), 1);
        for k in 0..4 {
            assert!(close(found[0][k], expected[k]), "{:?} is not {:?}", found, expected);
        }
    };
    expect(read(signed8), [1.0, -1.0, -1.0, 0.0]);
    expect(read(unsigned8), [1.0, 0.0, 0.2, 0.8]);
    expect(read(signed16), [1.0, -1.0, -1.0, 0.0]);
    expect(read(unsigned16), [1.0, 0.0, 0.2, 0.8]);
    assert_eq!(read(floats), vec![vec![0.0, 0.0, 0.0, 1.0]]);
}

#[test]
fn outputs_that_cannot_be_read_say_why() {
    let mut d = Data::new();
    let weights = d.push_floats(&[0.5, 0.25], Dimensions::Scalar, 2);
    let words = d.push(&[0; 16], DataType::U32, Dimensions::Vec4, 1);
    let short = d.push(&[0; 8], DataType::F32, Dimensions::Vec3, 1);
    let sparse = d.push_floats(&[0.0; 3], Dimensions::Vec3, 1);
    d.accessors[sparse].sparse = true;
    let buffers = d.buffers();
    let read = |property: Property, accessor: usize| {
        read_outputs(property, &d.accessors[accessor], &d.views, &buffers)
    };
    assert!(matches!(read(Property::MorphTargetWeights, weights), Err(OutputFailure::MorphTargets)));
    assert!(matches!(read(Property::MorphTargetWeights, words), Err(OutputFailure::Unsupported)));
    assert!(matches!(read(Property::Rotation, words), Err(OutputFailure::Unsupported)));
    assert!(matches!(read(Property::Translation, short), Err(OutputFailure::Missing)));
    assert!(matches!(read(Property::Rotation, short), Err(OutputFailure::Missing)));
    assert!(matches!(read(Property::MorphTargetWeights, short), Ok(_) | Err(OutputFailure::MorphTargets)));
    assert!(matches!(read(Property::Scale, sparse), Err(OutputFailure::Sparse)));
    assert!(matches!(read(Property::MorphTargetWeights, sparse), Err(OutputFailure::Sparse)));
}

#[test]
fn channel_is_linked_to_the_path_of_its_node() {
    let mut d = Data::new();
    let times = d.push_floats(&[0.0, 0.5], Dimensions::Scalar, 2);
    let values = d.push_floats(&[0.0, 0.0, 0.0, 1.0, 1.0, 1.0], Dimensions::Vec3, 2);
    let buffers = d.buffers();
    let paths = ways(vec![None, Some((0, names(&["root", "arm"])))]);
    let loaded = load_channel(4, &channel(1, Property::Translation, times, values), &d.accessors, &d.views, &buffers, &paths);
    let (root, path, curve) = loaded.unwrap().unwrap();
    assert_eq!(root, 0);
    assert_eq!(path, names(&["root", "arm"]));
    assert_eq!(curve.keyframe_timestamps, vec![0.0f32.to_bits(), 0.5f32.to_bits()]);
    assert_eq!(as_floats(&curve.keyframes), vec![vec![0.0, 0.0, 0.0], vec![1.0, 1.0, 1.0]]);

    let skipped = load_channel(4, &channel(0, Property::Translation, times, values), &d.accessors, &d.views, &buffers, &paths);
    assert_eq!(skipped, Ok(Err(AnimationWarning::MissingPath { channel: 4, node: 0 })));
    let skipped = load_channel(5, &channel(9, Property::Translation, times, values), &d.accessors, &d.views, &buffers, &paths);
    assert_eq!(skipped, Ok(Err(AnimationWarning::MissingPath { channel: 5, node: 9 })));
}

#[test]
fn channel_without_keyframes_is_fatal() {
    let mut d = Data::new();
    let times = d.push_floats(&[0.0, 0.5], Dimensions::Scalar, 2);
    let values = d.push_floats(&[0.0; 6], Dimensions::Vec3, 2);
    let broken = d.push_floats(&[0.0; 2], Dimensions::Vec3, 3);
    let sparse = d.push_floats(&[0.0; 6], Dimensions::Vec3, 2);
    d.accessors[sparse].sparse = true;
    let sparse_times = d.push_floats(&[0.0, 0.5], Dimensions::Scalar, 2);
    d.accessors[sparse_times].sparse = true;
    let weights = d.push_floats(&[0.0, 0.5], Dimensions::Scalar, 2);
    let buffers = d.buffers();
    let paths = ways(vec![Some((0, names(&["root"])))]);
    let load = |c: Channel| load_channel(2, &c, &d.accessors, &d.views, &buffers, &paths);
    assert_eq!(load(channel(0, Property::Translation, broken, values)), Err(()));
    assert_eq!(load(channel(0, Property::Translation, times, broken)), Err(()));
    assert_eq!(load(channel(0, Property::Translation, 100, values)), Err(()));
    assert_eq!(load(channel(0, Property::Translation, times, 100)), Err(()));
    assert_eq!(load(channel(5, Property::Translation, times, broken)), Err(()));
    assert_eq!(
        load(channel(0, Property::Translation, sparse_times, broken)),
        Ok(Err(AnimationWarning::SparseInput { channel: 2 }))
    );
    assert_eq!(
        load(channel(0, Property::Translation, times, sparse)),
        Ok(Err(AnimationWarning::SparseOutput { channel: 2 }))
    );
    assert_eq!(
        load(channel(0, Property::MorphTargetWeights, times, weights)),
        Ok(Err(AnimationWarning::MorphTargets { channel: 2 }))
    );
}

#[test]
fn animation_collects_curves_roots_and_warnings() {
    let mut d = Data::new();
    let times = d.push_floats(&[0.0, 1.0], Dimensions::Scalar, 2);
    let moves = d.push_floats(&[0.0, 0.0, 0.0, 1.0, 2.0, 3.0], Dimensions::Vec3, 2);
    let turns = d.push_floats(&[0.0, 0.0, 0.0, 1.0, 0.0, 1.0, 0.0, 0.0], Dimensions::Vec4, 2);
    let weights = d.push_floats(&[0.0, 1.0], Dimensions::Scalar, 2);
    let buffers = d.buffers();
    let paths = ways(vec![
        Some((0, names(&["root"]))),
        Some((0, names(&["root", "arm"]))),
        None,
        Some((3, names(&["other"]))),
    ]);
    let mut stepped = channel(1, Property::Rotation, times, turns);
    stepped.interpolation = Interpolation::Step;
    let mut spline = channel(2, Property::Scale, times, moves);
    spline.interpolation = Interpolation::CubicSpline;
    let animation = Animation {
        name: Some("wave".to_string()),
        channels: vec![
            channel(0, Property::Translation, times, moves),
            stepped,
            channel(1, Property::MorphTargetWeights, times, weights),
            spline,
            channel(3, Property::Scale, times, moves),
        ],
    };
    let loaded = load_animation(&animation, 6, &d.accessors, &d.views, &buffers, &paths).unwrap();
    assert_eq!(loaded.roots, vec![0, 0, 3]);
    assert_eq!(
        loaded.warnings,
        vec![
            AnimationWarning::UnsupportedInterpolation { channel: 1, interpolation: Interpolation::Step },
            AnimationWarning::MorphTargets { channel: 2 },
            AnimationWarning::UnsupportedInterpolation { channel: 3, interpolation: Interpolation::CubicSpline },
            AnimationWarning::MissingPath { channel: 3, node: 2 },
        ]
    );
    let curves = &loaded.clip.curves;
    assert_eq!(curves.len(), 3);
    assert_eq!(curves[0].0, names(&["root"]));
    assert_eq!(curves[1].0, names(&["root", "arm"]));
    assert_eq!(curves[2].0, names(&["other"]));
    assert!(matches!(curves[0].1.keyframes, Keyframes::Translation(_)));
    assert!(matches!(curves[1].1.keyframes, Keyframes::Rotation(_)));
    assert!(matches!(curves[2].1.keyframes, Keyframes::Scale(_)));
    assert_eq!(
        curves[0].1,
        VariableCurve {
            keyframe_timestamps: vec![0.0f32.to_bits(), 1.0f32.to_bits()],
            keyframes: Keyframes::Translation(vec![
                [0, 0, 0],
                [1.0f32.to_bits(), 2.0f32.to_bits(), 3.0f32.to_bits()]
            ]),
        }
    );
}

#[test]
fn animation_with_a_missing_sampler_fails_with_its_index() {
    let mut d = Data::new();
    let times = d.push_floats(&[0.0, 1.0], Dimensions::Scalar, 2);
    let moves = d.push_floats(&[0.0; 6], Dimensions::Vec3, 2);
    let buffers = d.buffers();
    let paths = ways(vec![Some((0, names(&["root"])))]);
    let animation = Animation {
        name: None,
        channels: vec![
            channel(0, Property::Translation, times, moves),
            channel(0, Property::Translation, times, 40),
            channel(0, Property::Translation, times, moves),
        ],
    };
    assert_eq!(
        load_animation(&animation, 6, &d.accessors, &d.views, &buffers, &paths),
        Err(GltfError::MissingAnimationSampler(6))
    );
    let empty = Animation { name: None, channels: vec![] };
    let loaded = load_animation(&empty, 0, &d.accessors, &d.views, &buffers, &paths).unwrap();
    assert!(loaded.clip.curves.is_empty() && loaded.roots.is_empty() && loaded.warnings.is_empty());
}
