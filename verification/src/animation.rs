//! Animations: the paths of names that lead to animated nodes, and the keyframe
//! curves of the channels.
use crate::accessor::{
    accessed, rows, rows_scalar, rows_u32, AccessFailed, Accessor, BufferAccessor, BufferView,
    DataType, ItemIter, ItemsView, Normalization, component,
};
use crate::attribute::{unorm16_bits, unorm8_bits};
use crate::document::{Animation, Channel, Interpolation, Node, Property, Scene};
use crate::label::{node_name, spec_node_name};
use crate::maps::{known_ways, names_of, PathMap, Ways};
use crate::loader::GltfError;
use vstd::prelude::*;

verus! {

/// Every child of every node is a node.
pub open spec fn children_exist(nodes: Seq<Node>) -> bool {
    forall|i: int, k: int|
        0 <= i < nodes.len() && 0 <= k < nodes[i].children@.len() ==> (
        #[trigger] nodes[i].children@[k]) < nodes.len()
}

/// The ways known after the subtree of `node` has been walked coming along
/// `current_path` from the root `root_index`: first those into the subtrees of the
/// children, in their order, then the way to the node itself. A way found later
/// replaces one found earlier to the same node. The walk goes no deeper than `depth`
/// nodes, and passes over what is no node.
pub open spec fn walked(
    nodes: Seq<Node>,
    node: usize,
    current_path: Seq<Seq<char>>,
    paths: Ways,
    root_index: usize,
    depth: nat,
) -> Ways
    decreases depth, 1nat, 0nat,
{
    if depth == 0 || node >= nodes.len() {
        paths
    } else {
        let path = current_path.push(spec_node_name(nodes[node as int].name, node));
        walked_children(nodes, node, 0, path, paths, root_index, depth).insert(
            node,
            (root_index, path),
        )
    }
}

/// The ways known after the subtrees of the children of `node` from the one at
/// `from` on have been walked.
pub open spec fn walked_children(
    nodes: Seq<Node>,
    node: usize,
    from: int,
    path: Seq<Seq<char>>,
    paths: Ways,
    root_index: usize,
    depth: nat,
) -> Ways
    decreases depth, 0nat, nodes[node as int].children@.len() - from,
{
    if depth == 0 || node >= nodes.len() || from < 0 || from >= nodes[node as int].children@.len() {
        paths
    } else {
        walked_children(
            nodes,
            node,
            from + 1,
            path,
            walked(
                nodes,
                nodes[node as int].children@[from],
                path,
                paths,
                root_index,
                (depth - 1) as nat,
            ),
            root_index,
            depth,
        )
    }
}

/// Walks the subtree of `node`, no deeper than `depth` nodes, and records the way to
/// every node that it comes to.
#[verifier::loop_isolation(false)]
pub fn paths_recur(
    nodes: &Vec<Node>,
    node: usize,
    current_path: &Vec<String>,
    paths: &mut PathMap,
    root_index: usize,
    depth: usize,
)
    ensures
        known_ways(*final(paths)) == walked(
            nodes@,
            node,
            names_of(current_path@),
            known_ways(*old(paths)),
            root_index,
            depth as nat,
        ),
    decreases depth,
{
    if depth == 0 || node >= nodes.len() {
        return ;
    }
    let mut path: Vec<String> = Vec::new();
    let mut i: usize = 0;
    while i < current_path.len()
        invariant
            i <= current_path.len(),
            path@.len() == i,
            forall|j: int| 0 <= j < i ==> (#[trigger] path@[j])@ == current_path@[j]@,
        decreases current_path.len() - i,
    {
        path.push(current_path[i].clone());
        i = i + 1;
    }
    path.push(node_name(&nodes[node].name, node));
    let ghost spec_path = names_of(current_path@).push(
        spec_node_name(nodes@[node as int].name, node),
    );
    assert(names_of(path@) =~= spec_path);
    let children = &nodes[node].children;
    let mut k: usize = 0;
    while k < children.len()
        invariant
            k <= children.len(),
            node < nodes@.len(),
            children == &nodes@[node as int].children,
            depth > 0,
            names_of(path@) == spec_path,
            walked_children(
                nodes@,
                node,
                0,
                spec_path,
                known_ways(*old(paths)),
                root_index,
                depth as nat,
            ) == walked_children(
                nodes@,
                node,
                k as int,
                spec_path,
                known_ways(*paths),
                root_index,
                depth as nat,
            ),
        decreases children.len() - k,
    {
        paths_recur(nodes, children[k], &path, paths, root_index, depth - 1);
        k = k + 1;
    }
    paths.insert(node, (root_index, path));
}

/// The root is a node that resolved.
pub open spec fn is_resolved(resolved: Seq<bool>, root: usize) -> bool {
    root < resolved.len() && resolved[root as int]
}

/// Walks the subtrees of the roots from the one at `from` on, each from an empty
/// path. A root that did not resolve is passed over.
pub open spec fn walked_roots(
    nodes: Seq<Node>,
    roots: Seq<usize>,
    resolved: Seq<bool>,
    from: int,
    paths: Ways,
) -> Ways
    decreases roots.len() - from,
{
    if from < 0 || from >= roots.len() {
        paths
    } else if is_resolved(resolved, roots[from]) {
        walked_roots(
            nodes,
            roots,
            resolved,
            from + 1,
            walked(nodes, roots[from], Seq::empty(), paths, roots[from], nodes.len()),
        )
    } else {
        walked_roots(nodes, roots, resolved, from + 1, paths)
    }
}

/// Walks the scenes from the one at `from` on.
pub open spec fn walked_scenes(
    nodes: Seq<Node>,
    scenes: Seq<Scene>,
    resolved: Seq<bool>,
    from: int,
    paths: Ways,
) -> Ways
    decreases scenes.len() - from,
{
    if from < 0 || from >= scenes.len() {
        paths
    } else {
        walked_scenes(
            nodes,
            scenes,
            resolved,
            from + 1,
            walked_roots(nodes, scenes[from].nodes@, resolved, 0, paths),
        )
    }
}

/// Every root of every scene is a node.
pub open spec fn roots_exist(nodes: Seq<Node>, scenes: Seq<Scene>) -> bool {
    forall|i: int, k: int|
        0 <= i < scenes.len() && 0 <= k < scenes[i].nodes@.len() ==> (
        #[trigger] scenes[i].nodes@[k]) < nodes.len()
}

/// The way to every node below a scene root that resolved: all scenes are walked in
/// their order, each root in its order, no deeper than there are nodes. Below a root
/// that did not resolve no way is known.
pub open spec fn node_paths(nodes: Seq<Node>, scenes: Seq<Scene>, resolved: Seq<bool>) -> Ways {
    walked_scenes(nodes, scenes, resolved, 0, Map::empty())
}

/// Finds the way to every node below a scene root that resolved. `resolved` says of
/// each node whether it did.
#[verifier::loop_isolation(false)]
pub fn find_node_paths(nodes: &Vec<Node>, scenes: &Vec<Scene>, resolved: &Vec<bool>) -> (r: PathMap)
    ensures
        known_ways(r) == node_paths(nodes@, scenes@, resolved@),
{
    let mut paths = PathMap::new();
    let empty: Vec<String> = Vec::new();
    assert(names_of(empty@) =~= Seq::<Seq<char>>::empty());
    let mut s: usize = 0;
    while s < scenes.len()
        invariant
            s <= scenes.len(),
            node_paths(nodes@, scenes@, resolved@) == walked_scenes(
                nodes@,
                scenes@,
                resolved@,
                s as int,
                known_ways(paths),
            ),
        decreases scenes.len() - s,
    {
        let roots = &scenes[s].nodes;
        let ghost at_scene = known_ways(paths);
        let mut k: usize = 0;
        while k < roots.len()
            invariant
                k <= roots.len(),
                walked_roots(nodes@, roots@, resolved@, 0, at_scene) == walked_roots(
                    nodes@,
                    roots@,
                    resolved@,
                    k as int,
                    known_ways(paths),
                ),
            decreases roots.len() - k,
        {
            let root_index = roots[k];
            if root_index < resolved.len() && resolved[root_index] {
                paths_recur(nodes, root_index, &empty, &mut paths, root_index, nodes.len());
            }
            k = k + 1;
        }
        s = s + 1;
    }
    paths
}

/// The keyframes of a curve, by what they animate.
#[derive(Clone, Debug, PartialEq, Eq)]
pub enum Keyframes {
    /// Quaternions (x, y, z, w).
    Rotation(Vec<[u32; 4]>),
    Translation(Vec<[u32; 3]>),
    Scale(Vec<[u32; 3]>),
}

/// A curve: keyframe times and the value at each of them.
#[derive(Clone, Debug, PartialEq, Eq)]
pub struct VariableCurve {
    pub keyframe_timestamps: Vec<u32>,
    pub keyframes: Keyframes,
}

/// A curve, as mathematics.
pub struct CurveView {
    pub timestamps: Seq<Seq<int>>,
    pub property: Property,
    pub rows: Seq<Seq<int>>,
}

impl View for VariableCurve {
    type V = CurveView;

    open spec fn view(&self) -> CurveView {
        match self.keyframes {
            Keyframes::Rotation(v) => CurveView {
                timestamps: rows_scalar(self.keyframe_timestamps@),
                property: Property::Rotation,
                rows: rows_u32(v@),
            },
            Keyframes::Translation(v) => CurveView {
                timestamps: rows_scalar(self.keyframe_timestamps@),
                property: Property::Translation,
                rows: rows_u32(v@),
            },
            Keyframes::Scale(v) => CurveView {
                timestamps: rows_scalar(self.keyframe_timestamps@),
                property: Property::Scale,
                rows: rows_u32(v@),
            },
        }
    }
}

/// Why a channel gives no curve, or not the one it asks for. A channel is named by
/// its place among the channels of its animation.
#[derive(Clone, Copy, Debug, PartialEq, Eq, Structural)]
pub enum AnimationWarning {
    /// The interpolation is not supported. Linear interpolation is used.
    UnsupportedInterpolation { channel: usize, interpolation: Interpolation },
    /// The keyframe times are in a sparse accessor.
    SparseInput { channel: usize },
    /// The keyframe values are in a sparse accessor.
    SparseOutput { channel: usize },
    /// The channel animates morph target weights.
    MorphTargets { channel: usize },
    /// The keyframe values have a component type that the property does not take.
    UnsupportedOutput { channel: usize },
    /// There is no way of names from a scene root to the animated node.
    MissingPath { channel: usize, node: usize },
}

/// Why a channel has no keyframe values.
#[derive(Clone, Copy, Debug, PartialEq, Eq, Structural)]
pub enum OutputFailure {
    /// The accessor cannot be located. This fails the load.
    Missing,
    Sparse,
    MorphTargets,
    Unsupported,
}

/// The bit pattern of the single-precision fraction that the normalization of the gltf
/// crate makes of a signed 8-bit number.
pub uninterp spec fn snorm8_bits(value: i8) -> u32;

/// The bit pattern of the single-precision fraction that the normalization of the gltf
/// crate makes of a signed 16-bit number.
pub uninterp spec fn snorm16_bits(value: i16) -> u32;

/// Component `k` of quaternion `i` as a single-precision number: a normalized integer
/// becomes a fraction.
pub open spec fn rotation_component(items: ItemsView, data_type: DataType, i: int, k: int) -> int {
    match data_type {
        DataType::I8 => snorm8_bits(component(items, data_type, i, k) as i8) as int,
        DataType::U8 => unorm8_bits(component(items, data_type, i, k) as u8) as int,
        DataType::I16 => snorm16_bits(component(items, data_type, i, k) as i16) as int,
        DataType::U16 => unorm16_bits(component(items, data_type, i, k) as u16) as int,
        _ => component(items, data_type, i, k),
    }
}

/// The quaternions as rows of four single-precision numbers.
pub open spec fn rotation_rows(items: ItemsView, data_type: DataType) -> Seq<Seq<int>> {
    Seq::new(items.count, |i: int| Seq::new(4, |k: int| rotation_component(items, data_type, i, k)))
}

/// What locating an accessor of keyframe values gave.
pub open spec fn output_items(found: Result<ItemsView, AccessFailed>) -> Result<
    ItemsView,
    OutputFailure,
> {
    match found {
        Ok(items) => Ok(items),
        Err(AccessFailed::MalformedData) => Err(OutputFailure::Missing),
        Err(AccessFailed::UnsupportedFormat) => Err(OutputFailure::Sparse),
    }
}

/// The keyframe values of a channel that animates `property`, read from `output`.
/// Translations and scales are three single-precision numbers each. Rotations are
/// four numbers each, single-precision or normalized integers of 8 or 16 bits.
/// Morph target weights are located and then left aside.
pub open spec fn channel_output(
    property: Property,
    output: Accessor,
    views: Seq<BufferView>,
    buffers: Seq<Vec<u8>>,
) -> Result<Seq<Seq<int>>, OutputFailure> {
    match property {
        Property::Translation | Property::Scale => match output_items(
            accessed(output, views, buffers, 12),
        ) {
            Ok(items) => Ok(rows(items, DataType::F32, 3)),
            Err(e) => Err(e),
        },
        Property::Rotation => match output.data_type {
            DataType::I8 | DataType::U8 => match output_items(accessed(output, views, buffers, 4)) {
                Ok(items) => Ok(rotation_rows(items, output.data_type)),
                Err(e) => Err(e),
            },
            DataType::I16 | DataType::U16 => match output_items(
                accessed(output, views, buffers, 8),
            ) {
                Ok(items) => Ok(rotation_rows(items, output.data_type)),
                Err(e) => Err(e),
            },
            DataType::F32 => match output_items(accessed(output, views, buffers, 16)) {
                Ok(items) => Ok(rotation_rows(items, output.data_type)),
                Err(e) => Err(e),
            },
            DataType::U32 => Err(OutputFailure::Unsupported),
        },
        Property::MorphTargetWeights => match output.data_type {
            DataType::I8 | DataType::U8 => match output_items(accessed(output, views, buffers, 1)) {
                Ok(_) => Err(OutputFailure::MorphTargets),
                Err(e) => Err(e),
            },
            DataType::I16 | DataType::U16 => match output_items(
                accessed(output, views, buffers, 2),
            ) {
                Ok(_) => Err(OutputFailure::MorphTargets),
                Err(e) => Err(e),
            },
            DataType::F32 => match output_items(accessed(output, views, buffers, 4)) {
                Ok(_) => Err(OutputFailure::MorphTargets),
                Err(e) => Err(e),
            },
            DataType::U32 => Err(OutputFailure::Unsupported),
        },
    }
}

/// Calls `Rotations::into_f32` of the gltf crate on four signed 8-bit components:
/// one quaternion for each element, each component the fraction that the crate's
/// normalization makes of it.
#[verifier::external_body]
fn rotations_from_snorm8(it: &ItemIter<'_, 4>) -> (r: Vec<[u32; 4]>)
    ensures
        r@.len() == it@.count,
        forall|i: int, k: int|
            0 <= i < r@.len() && 0 <= k < 4 ==> (#[trigger] r@[i][k]) == snorm8_bits(
                component(it@, DataType::I8, i, k) as i8,
            ),
{
    let items = gltf::accessor::util::ItemIter::new(it.bytes(), it.stride());
    let read = gltf::animation::util::Rotations::I8(gltf::accessor::Iter::Standard(items));
    read.into_f32().map(|q| q.map(|x| x.to_bits())).collect()
}

/// Calls `Rotations::into_f32` of the gltf crate on four unsigned 8-bit components:
/// one quaternion for each element, each component the fraction that the crate's
/// normalization makes of it.
#[verifier::external_body]
fn rotations_from_unorm8(it: &ItemIter<'_, 4>) -> (r: Vec<[u32; 4]>)
    ensures
        r@.len() == it@.count,
        forall|i: int, k: int|
            0 <= i < r@.len() && 0 <= k < 4 ==> (#[trigger] r@[i][k]) == unorm8_bits(
                component(it@, DataType::U8, i, k) as u8,
            ),
{
    let items = gltf::accessor::util::ItemIter::new(it.bytes(), it.stride());
    let read = gltf::animation::util::Rotations::U8(gltf::accessor::Iter::Standard(items));
    read.into_f32().map(|q| q.map(|x| x.to_bits())).collect()
}

/// Calls `Rotations::into_f32` of the gltf crate on four signed 16-bit components:
/// one quaternion for each element, each component the fraction that the crate's
/// normalization makes of it.
#[verifier::external_body]
fn rotations_from_snorm16(it: &ItemIter<'_, 8>) -> (r: Vec<[u32; 4]>)
    ensures
        r@.len() == it@.count,
        forall|i: int, k: int|
            0 <= i < r@.len() && 0 <= k < 4 ==> (#[trigger] r@[i][k]) == snorm16_bits(
                component(it@, DataType::I16, i, k) as i16,
            ),
{
    let items = gltf::accessor::util::ItemIter::new(it.bytes(), it.stride());
    let read = gltf::animation::util::Rotations::I16(gltf::accessor::Iter::Standard(items));
    read.into_f32().map(|q| q.map(|x| x.to_bits())).collect()
}

/// Calls `Rotations::into_f32` of the gltf crate on four unsigned 16-bit components:
/// one quaternion for each element, each component the fraction that the crate's
/// normalization makes of it.
#[verifier::external_body]
fn rotations_from_unorm16(it: &ItemIter<'_, 8>) -> (r: Vec<[u32; 4]>)
    ensures
        r@.len() == it@.count,
        forall|i: int, k: int|
            0 <= i < r@.len() && 0 <= k < 4 ==> (#[trigger] r@[i][k]) == unorm16_bits(
                component(it@, DataType::U16, i, k) as u16,
            ),
{
    let items = gltf::accessor::util::ItemIter::new(it.bytes(), it.stride());
    let read = gltf::animation::util::Rotations::U16(gltf::accessor::Iter::Standard(items));
    read.into_f32().map(|q| q.map(|x| x.to_bits())).collect()
}

/// What reading keyframe values returned, as mathematics.
pub open spec fn output_of(r: Result<Keyframes, OutputFailure>) -> Result<
    (Property, Seq<Seq<int>>),
    OutputFailure,
> {
    match r {
        Ok(Keyframes::Rotation(v)) => Ok((Property::Rotation, rows_u32(v@))),
        Ok(Keyframes::Translation(v)) => Ok((Property::Translation, rows_u32(v@))),
        Ok(Keyframes::Scale(v)) => Ok((Property::Scale, rows_u32(v@))),
        Err(e) => Err(e),
    }
}

/// What `channel_output` gives, in the shape of `output_of`.
pub open spec fn output_for(property: Property, rows: Result<Seq<Seq<int>>, OutputFailure>) -> Result<
    (Property, Seq<Seq<int>>),
    OutputFailure,
> {
    match rows {
        Ok(rows) => Ok((property, rows)),
        Err(e) => Err(e),
    }
}

/// Locates the keyframe values of a channel.
fn locate_output<'a, const SIZE: usize>(acc: BufferAccessor<'a>) -> (r: Result<
    ItemIter<'a, SIZE>,
    OutputFailure,
>)
    ensures
        match output_items(accessed(*acc.accessor, acc.views@, acc.buffer_data@, SIZE as nat)) {
            Ok(items) => r matches Ok(it) && it@ == items,
            Err(e) => r matches Err(f) && f == e,
        },
{
    match acc.iter() {
        Ok(it) => Ok(it),
        Err(AccessFailed::MalformedData) => Err(OutputFailure::Missing),
        Err(AccessFailed::UnsupportedFormat) => Err(OutputFailure::Sparse),
    }
}

/// Reads the keyframe values of a channel that animates `property`.
pub fn read_outputs(
    property: Property,
    output: &Accessor,
    views: &Vec<BufferView>,
    buffer_data: &Vec<Vec<u8>>,
) -> (r: Result<Keyframes, OutputFailure>)
    ensures
        output_of(r) == output_for(property, channel_output(property, *output, views@, buffer_data@)),
{
    let acc = BufferAccessor {
        accessor: output,
        views,
        buffer_data,
        normalization: Normalization(output.normalized),
    };
    match property {
        Property::Translation => match locate_output::<12>(acc) {
            Ok(it) => {
                let v = it.read_u32::<3>();
                proof {
                    assert(rows(it@, DataType::F32, 3) =~~= rows(it@, DataType::U32, 3));
                }
                Ok(Keyframes::Translation(v))
            },
            Err(e) => Err(e),
        },
        Property::Scale => match locate_output::<12>(acc) {
            Ok(it) => {
                let v = it.read_u32::<3>();
                proof {
                    assert(rows(it@, DataType::F32, 3) =~~= rows(it@, DataType::U32, 3));
                }
                Ok(Keyframes::Scale(v))
            },
            Err(e) => Err(e),
        },
        Property::Rotation => match output.data_type {
            DataType::I8 => match locate_output::<4>(acc) {
                Ok(it) => {
                    let v = rotations_from_snorm8(&it);
                    proof {
                        assert(rows_u32(v@) =~~= rotation_rows(it@, DataType::I8));
                    }
                    Ok(Keyframes::Rotation(v))
                },
                Err(e) => Err(e),
            },
            DataType::U8 => match locate_output::<4>(acc) {
                Ok(it) => {
                    let v = rotations_from_unorm8(&it);
                    proof {
                        assert(rows_u32(v@) =~~= rotation_rows(it@, DataType::U8));
                    }
                    Ok(Keyframes::Rotation(v))
                },
                Err(e) => Err(e),
            },
            DataType::I16 => match locate_output::<8>(acc) {
                Ok(it) => {
                    let v = rotations_from_snorm16(&it);
                    proof {
                        assert(rows_u32(v@) =~~= rotation_rows(it@, DataType::I16));
                    }
                    Ok(Keyframes::Rotation(v))
                },
                Err(e) => Err(e),
            },
            DataType::U16 => match locate_output::<8>(acc) {
                Ok(it) => {
                    let v = rotations_from_unorm16(&it);
                    proof {
                        assert(rows_u32(v@) =~~= rotation_rows(it@, DataType::U16));
                    }
                    Ok(Keyframes::Rotation(v))
                },
                Err(e) => Err(e),
            },
            DataType::F32 => match locate_output::<16>(acc) {
                Ok(it) => {
                    let v = it.read_u32::<4>();
                    proof {
                        assert(rows(it@, DataType::U32, 4) =~~= rotation_rows(it@, DataType::F32));
                    }
                    Ok(Keyframes::Rotation(v))
                },
                Err(e) => Err(e),
            },
            DataType::U32 => Err(OutputFailure::Unsupported),
        },
        Property::MorphTargetWeights => match output.data_type {
            DataType::I8 | DataType::U8 => match locate_output::<1>(acc) {
                Ok(_) => Err(OutputFailure::MorphTargets),
                Err(e) => Err(e),
            },
            DataType::I16 | DataType::U16 => match locate_output::<2>(acc) {
                Ok(_) => Err(OutputFailure::MorphTargets),
                Err(e) => Err(e),
            },
            DataType::F32 => match locate_output::<4>(acc) {
                Ok(_) => Err(OutputFailure::MorphTargets),
                Err(e) => Err(e),
            },
            DataType::U32 => Err(OutputFailure::Unsupported),
        },
    }
}


/// A set of curves, each for the node at the end of a path of names.
#[derive(Clone, Debug, PartialEq, Eq)]
pub struct AnimationClip {
    /// The curves in the order of their channels, each with its path.
    pub curves: Vec<(Vec<String>, VariableCurve)>,
}

/// The curves of a clip, as mathematics.
pub open spec fn curves_view(curves: Seq<(Vec<String>, VariableCurve)>) -> Seq<
    (Seq<Seq<char>>, CurveView),
> {
    Seq::new(curves.len(), |i: int| (names_of(curves[i].0@), curves[i].1@))
}

/// What becomes of a channel.
pub enum ChannelOutcome {
    /// A curve for the node at the end of the path, below the root of this index.
    Curve(usize, Seq<Seq<char>>, CurveView),
    /// Nothing, for the reason given.
    Skipped(AnimationWarning),
    /// The keyframe times or values cannot be located: the load fails.
    Fatal,
}

/// The way to `node`, where one is known.
pub open spec fn way_to(paths: Ways, node: usize) -> Option<
    (usize, Seq<Seq<char>>),
> {
    if paths.contains_key(node) {
        Some(paths[node])
    } else {
        None
    }
}

/// What becomes of the channel at place `place` of an animation. Its keyframe times
/// are read first, as one single-precision number each, then its values, and last
/// the way to its node is looked up.
pub open spec fn channel_outcome(
    place: usize,
    channel: Channel,
    accessors: Seq<Accessor>,
    views: Seq<BufferView>,
    buffers: Seq<Vec<u8>>,
    paths: Ways,
) -> ChannelOutcome {
    if channel.input >= accessors.len() || channel.output >= accessors.len() {
        ChannelOutcome::Fatal
    } else {
        match accessed(accessors[channel.input as int], views, buffers, 4) {
            Err(AccessFailed::UnsupportedFormat) => ChannelOutcome::Skipped(
                AnimationWarning::SparseInput { channel: place },
            ),
            Err(AccessFailed::MalformedData) => ChannelOutcome::Fatal,
            Ok(times) => match channel_output(
                channel.property,
                accessors[channel.output as int],
                views,
                buffers,
            ) {
                Err(OutputFailure::Missing) => ChannelOutcome::Fatal,
                Err(OutputFailure::Sparse) => ChannelOutcome::Skipped(
                    AnimationWarning::SparseOutput { channel: place },
                ),
                Err(OutputFailure::MorphTargets) => ChannelOutcome::Skipped(
                    AnimationWarning::MorphTargets { channel: place },
                ),
                Err(OutputFailure::Unsupported) => ChannelOutcome::Skipped(
                    AnimationWarning::UnsupportedOutput { channel: place },
                ),
                Ok(values) => match way_to(paths, channel.node) {
                    Some((root, path)) => ChannelOutcome::Curve(
                        root,
                        path,
                        CurveView {
                            timestamps: rows(times, DataType::F32, 1),
                            property: channel.property,
                            rows: values,
                        },
                    ),
                    None => ChannelOutcome::Skipped(
                        AnimationWarning::MissingPath { channel: place, node: channel.node },
                    ),
                },
            },
        }
    }
}

/// What loading a channel returned, as mathematics.
pub open spec fn channel_of(
    r: Result<Result<(usize, Vec<String>, VariableCurve), AnimationWarning>, ()>,
) -> ChannelOutcome {
    match r {
        Ok(Ok((root, path, curve))) => ChannelOutcome::Curve(root, names_of(path@), curve@),
        Ok(Err(warning)) => ChannelOutcome::Skipped(warning),
        Err(_) => ChannelOutcome::Fatal,
    }
}

/// Loads the channel at place `place` of an animation.
pub fn load_channel(
    place: usize,
    channel: &Channel,
    accessors: &Vec<Accessor>,
    views: &Vec<BufferView>,
    buffer_data: &Vec<Vec<u8>>,
    paths: &PathMap,
) -> (r: Result<Result<(usize, Vec<String>, VariableCurve), AnimationWarning>, ()>)
    ensures
        channel_of(r) == channel_outcome(
            place,
            *channel,
            accessors@,
            views@,
            buffer_data@,
            known_ways(*paths),
        ),
{
    if channel.input >= accessors.len() || channel.output >= accessors.len() {
        return Err(());
    }
    let input = &accessors[channel.input];
    let inputs = BufferAccessor {
        accessor: input,
        views,
        buffer_data,
        normalization: Normalization(input.normalized),
    };
    let keyframe_timestamps = match inputs.iter::<4>() {
        Ok(times) => {
            let v = times.read_scalar();
            proof {
                assert(rows(times@, DataType::F32, 1) =~~= rows(times@, DataType::U32, 1));
            }
            v
        },
        Err(AccessFailed::UnsupportedFormat) => {
            return Ok(Err(AnimationWarning::SparseInput { channel: place }));
        },
        Err(AccessFailed::MalformedData) => {
            return Err(());
        },
    };
    let keyframes = match read_outputs(
        channel.property,
        &accessors[channel.output],
        views,
        buffer_data,
    ) {
        Ok(keyframes) => keyframes,
        Err(OutputFailure::Missing) => {
            return Err(());
        },
        Err(OutputFailure::Sparse) => {
            return Ok(Err(AnimationWarning::SparseOutput { channel: place }));
        },
        Err(OutputFailure::MorphTargets) => {
            return Ok(Err(AnimationWarning::MorphTargets { channel: place }));
        },
        Err(OutputFailure::Unsupported) => {
            return Ok(Err(AnimationWarning::UnsupportedOutput { channel: place }));
        },
    };
    {
        if let Some((root_index, path)) = paths.get(channel.node) {
            let mut parts: Vec<String> = Vec::new();
            let mut i: usize = 0;
            while i < path.len()
                invariant
                    i <= path.len(),
                    parts@.len() == i,
                    forall|j: int| 0 <= j < i ==> (#[trigger] parts@[j])@ == path@[j]@,
                decreases path.len() - i,
            {
                parts.push(path[i].clone());
                i = i + 1;
            }
            assert(names_of(parts@) =~= names_of(path@));
            return Ok(Ok((*root_index, parts, VariableCurve { keyframe_timestamps, keyframes })));
        }
    }
    Ok(Err(AnimationWarning::MissingPath { channel: place, node: channel.node }))
}

/// What loading an animation gives.
#[derive(Debug, PartialEq, Eq)]
pub struct LoadedAnimation {
    pub clip: AnimationClip,
    /// The roots below which a curve animates a node. A root may occur more than
    /// once.
    pub roots: Vec<usize>,
    /// What was found wrong with the channels, in their order.
    pub warnings: Vec<AnimationWarning>,
}

/// What loading an animation gives, as mathematics.
pub struct LoadedAnimationView {
    pub curves: Seq<(Seq<Seq<char>>, CurveView)>,
    pub roots: Seq<usize>,
    pub warnings: Seq<AnimationWarning>,
}

impl View for LoadedAnimation {
    type V = LoadedAnimationView;

    open spec fn view(&self) -> LoadedAnimationView {
        LoadedAnimationView {
            curves: curves_view(self.clip.curves@),
            roots: self.roots@,
            warnings: self.warnings@,
        }
    }
}

/// What loading the first `upto` channels of an animation gives, or nothing where one
/// of them is fatal. A channel whose interpolation is not linear is warned of first
/// and then loaded like any other.
pub open spec fn loaded_channels(
    channels: Seq<Channel>,
    accessors: Seq<Accessor>,
    views: Seq<BufferView>,
    buffers: Seq<Vec<u8>>,
    paths: Ways,
    upto: int,
) -> Option<LoadedAnimationView>
    decreases upto,
{
    if upto <= 0 {
        Some(
            LoadedAnimationView {
                curves: Seq::empty(),
                roots: Seq::empty(),
                warnings: Seq::empty(),
            },
        )
    } else {
        match loaded_channels(channels, accessors, views, buffers, paths, upto - 1) {
            None => None,
            Some(before) => {
                let channel = channels[upto - 1];
                let warnings = if channel.interpolation == Interpolation::Linear {
                    before.warnings
                } else {
                    before.warnings.push(
                        AnimationWarning::UnsupportedInterpolation {
                            channel: (upto - 1) as usize,
                            interpolation: channel.interpolation,
                        },
                    )
                };
                match channel_outcome(
                    (upto - 1) as usize,
                    channel,
                    accessors,
                    views,
                    buffers,
                    paths,
                ) {
                    ChannelOutcome::Fatal => None,
                    ChannelOutcome::Skipped(warning) => Some(
                        LoadedAnimationView {
                            curves: before.curves,
                            roots: before.roots,
                            warnings: warnings.push(warning),
                        },
                    ),
                    ChannelOutcome::Curve(root, path, curve) => Some(
                        LoadedAnimationView {
                            curves: before.curves.push((path, curve)),
                            roots: before.roots.push(root),
                            warnings,
                        },
                    ),
                }
            },
        }
    }
}

/// Once a channel is fatal, the channels behind it do not matter.
proof fn lemma_fatal_stays(
    channels: Seq<Channel>,
    accessors: Seq<Accessor>,
    views: Seq<BufferView>,
    buffers: Seq<Vec<u8>>,
    paths: Ways,
    at: int,
    upto: int,
)
    requires
        0 < at <= upto,
        loaded_channels(channels, accessors, views, buffers, paths, at) is None,
    ensures
        loaded_channels(channels, accessors, views, buffers, paths, upto) is None,
    decreases upto - at,
{
    if at < upto {
        lemma_fatal_stays(channels, accessors, views, buffers, paths, at, upto - 1);
    }
}

/// Loads the animation of index `index`. Fails where the keyframe times or values of
/// a channel cannot be located.
pub fn load_animation(
    animation: &Animation,
    index: usize,
    accessors: &Vec<Accessor>,
    views: &Vec<BufferView>,
    buffer_data: &Vec<Vec<u8>>,
    paths: &PathMap,
) -> (r: Result<LoadedAnimation, GltfError>)
    ensures
        match loaded_channels(
            animation.channels@,
            accessors@,
            views@,
            buffer_data@,
            known_ways(*paths),
            animation.channels@.len() as int,
        ) {
            Some(loaded) => r matches Ok(found) && found@ == loaded,
            None => r == Err::<LoadedAnimation, GltfError>(
                GltfError::MissingAnimationSampler(index),
            ),
        },
{
    let mut curves: Vec<(Vec<String>, VariableCurve)> = Vec::new();
    let mut roots: Vec<usize> = Vec::new();
    let mut warnings: Vec<AnimationWarning> = Vec::new();
    let mut i: usize = 0;
    assert(curves_view(curves@) =~= Seq::empty());
    while i < animation.channels.len()
        invariant
            i <= animation.channels.len(),
            loaded_channels(
                animation.channels@,
                accessors@,
                views@,
                buffer_data@,
                known_ways(*paths),
                i as int,
            ) == Some(
                LoadedAnimationView { curves: curves_view(curves@), roots: roots@, warnings: warnings@ },
            ),
        decreases animation.channels.len() - i,
    {
        let channel = &animation.channels[i];
        let ghost before = curves_view(curves@);
        match channel.interpolation {
            Interpolation::Linear => {},
            other => {
                warnings.push(
                    AnimationWarning::UnsupportedInterpolation { channel: i, interpolation: other },
                );
            },
        }
        match load_channel(i, channel, accessors, views, buffer_data, paths) {
            Ok(Ok((root_index, path, curve))) => {
                roots.push(root_index);
                curves.push((path, curve));
                assert(curves_view(curves@) =~= before.push((names_of(path@), curve@)));
            },
            Ok(Err(warning)) => {
                warnings.push(warning);
                assert(curves_view(curves@) =~= before);
            },
            Err(_) => {
                proof {
                    lemma_fatal_stays(
                        animation.channels@,
                        accessors@,
                        views@,
                        buffer_data@,
                        known_ways(*paths),
                        i + 1,
                        animation.channels@.len() as int,
                    );
                }
                return Err(GltfError::MissingAnimationSampler(index));
            },
        }
        i = i + 1;
    }
    Ok(LoadedAnimation { clip: AnimationClip { curves }, roots, warnings })
}

} // verus!
