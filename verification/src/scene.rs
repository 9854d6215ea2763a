//! Scenes: what is to be spawned for the nodes below the roots of a scene.
//!
//! The plan holds what is decided while the nodes are walked. Everything else about a
//! node is in the document, under the index that the plan carries.
use crate::document::{Mesh, Node};
use vstd::prelude::*;

verus! {

/// What is to be spawned for a node and for the nodes below it.
#[derive(Debug, PartialEq, Eq)]
pub struct SceneNode {
    /// The index of the node in the document.
    pub node: usize,
    /// Whether the camera of the node, if it has one, is the active one.
    pub active_camera: bool,
    pub children: Vec<SceneNode>,
}

/// What is to be spawned for a node and for the nodes below it, as mathematics.
pub struct SceneTree {
    pub node: usize,
    pub active_camera: bool,
    pub children: Seq<SceneTree>,
}

impl SceneNode {
    /// The tree that the plan is.
    pub open spec fn tree(self) -> SceneTree
        decreases self,
    {
        SceneTree {
            node: self.node,
            active_camera: self.active_camera,
            children: Seq::new(
                self.children@.len(),
                |i: int|
                    if 0 <= i < self.children@.len() {
                        self.children@[i].tree()
                    } else {
                        arbitrary()
                    },
            ),
        }
    }
}

impl View for SceneNode {
    type V = SceneTree;

    open spec fn view(&self) -> SceneTree {
        self.tree()
    }
}

/// The plans of several nodes, as mathematics.
pub open spec fn trees_view(nodes: Seq<SceneNode>) -> Seq<SceneTree> {
    Seq::new(nodes.len(), |i: int| nodes[i]@)
}

/// What is known while nodes are walked.
#[derive(Clone, Copy, Debug, PartialEq, Eq, Structural)]
pub struct Walk {
    /// Whether a camera has been met. The first camera is the active one.
    pub active_camera_found: bool,
    /// Whether a primitive without a material has been met. Such a primitive takes
    /// the default material, which is then to be loaded.
    pub default_material_needed: bool,
}

/// Whether the mesh of the node has a primitive without a material.
pub open spec fn lacks_material(node: Node, meshes: Seq<Mesh>) -> bool {
    match node.mesh {
        Some(mesh) => mesh < meshes.len() && exists|k: int|
            0 <= k < meshes[mesh as int].primitives@.len() && (
            #[trigger] meshes[mesh as int].primitives@[k]).material is None,
        None => false,
    }
}

/// What is known once `declared` has been met, where `walk` was known before.
pub open spec fn met(declared: Node, meshes: Seq<Mesh>, walk: Walk) -> Walk {
    Walk {
        active_camera_found: walk.active_camera_found || declared.has_camera,
        default_material_needed: walk.default_material_needed || lacks_material(declared, meshes),
    }
}

/// What is known after `node` and the nodes below it have been walked, where `walk`
/// was known before. The walk goes no deeper than `depth` nodes, and passes over what
/// is no node.
pub open spec fn walk_after(
    nodes: Seq<Node>,
    meshes: Seq<Mesh>,
    node: usize,
    walk: Walk,
    depth: nat,
) -> Walk
    decreases depth, 1nat, 0nat,
{
    if depth == 0 || node >= nodes.len() {
        walk
    } else {
        walk_after_children(nodes, meshes, node, 0, met(nodes[node as int], meshes, walk), depth)
    }
}

/// What is known after the children of `node` from the one at `from` on have been
/// walked.
pub open spec fn walk_after_children(
    nodes: Seq<Node>,
    meshes: Seq<Mesh>,
    node: usize,
    from: int,
    walk: Walk,
    depth: nat,
) -> Walk
    decreases depth, 0nat, nodes[node as int].children@.len() - from,
{
    if depth == 0 || node >= nodes.len() || from < 0 || from >= nodes[node as int].children@.len() {
        walk
    } else {
        walk_after_children(
            nodes,
            meshes,
            node,
            from + 1,
            walk_after(nodes, meshes, nodes[node as int].children@[from], walk, (depth - 1) as nat),
            depth,
        )
    }
}

/// The plan for `node`, where `walk` is known before it. The node comes before its
/// children, and the children in their order. Nothing where `depth` is used up or
/// `node` is no node.
pub open spec fn planned(
    nodes: Seq<Node>,
    meshes: Seq<Mesh>,
    node: usize,
    walk: Walk,
    depth: nat,
) -> Option<SceneTree>
    decreases depth, 1nat, 0nat,
{
    if depth == 0 || node >= nodes.len() {
        None
    } else {
        let declared = nodes[node as int];
        Some(
            SceneTree {
                node,
                active_camera: declared.has_camera && !walk.active_camera_found,
                children: planned_children(
                    nodes,
                    meshes,
                    node,
                    0,
                    met(declared, meshes, walk),
                    depth,
                ),
            },
        )
    }
}

/// The plans for the children of `node` from the one at `from` on. A child for which
/// there is no plan is left out.
pub open spec fn planned_children(
    nodes: Seq<Node>,
    meshes: Seq<Mesh>,
    node: usize,
    from: int,
    walk: Walk,
    depth: nat,
) -> Seq<SceneTree>
    decreases depth, 0nat, nodes[node as int].children@.len() - from,
{
    if depth == 0 || node >= nodes.len() || from < 0 || from >= nodes[node as int].children@.len() {
        Seq::empty()
    } else {
        let child = nodes[node as int].children@[from];
        let rest = planned_children(
            nodes,
            meshes,
            node,
            from + 1,
            walk_after(nodes, meshes, child, walk, (depth - 1) as nat),
            depth,
        );
        match planned(nodes, meshes, child, walk, (depth - 1) as nat) {
            Some(first) => seq![first] + rest,
            None => rest,
        }
    }
}

/// Whether the mesh of the node has a primitive without a material.
#[verifier::loop_isolation(false)]
fn node_lacks_material(node: &Node, meshes: &Vec<Mesh>) -> (r: bool)
    ensures
        r == lacks_material(*node, meshes@),
{
    match node.mesh {
        Some(mesh) => {
            if mesh >= meshes.len() {
                return false;
            }
            let primitives = &meshes[mesh].primitives;
            let mut k: usize = 0;
            while k < primitives.len()
                invariant
                    k <= primitives.len(),
                    forall|j: int| 0 <= j < k ==> (#[trigger] primitives@[j]).material is Some,
                decreases primitives.len() - k,
            {
                if primitives[k].material.is_none() {
                    assert(meshes@[mesh as int].primitives@[k as int].material is None);
                    return true;
                }
                k = k + 1;
            }
            false
        },
        None => false,
    }
}

/// What loading a node returned, as mathematics.
pub open spec fn planned_of(r: Option<SceneNode>) -> Option<SceneTree> {
    match r {
        Some(plan) => Some(plan@),
        None => None,
    }
}

/// Loads a glTF node: plans what is to be spawned for it and for the nodes below it,
/// no deeper than `depth` nodes.
#[verifier::loop_isolation(false)]
pub fn load_node(
    nodes: &Vec<Node>,
    meshes: &Vec<Mesh>,
    gltf_node: usize,
    walk: &mut Walk,
    depth: usize,
) -> (r: Option<SceneNode>)
    ensures
        planned_of(r) == planned(nodes@, meshes@, gltf_node, *old(walk), depth as nat),
        *final(walk) == walk_after(nodes@, meshes@, gltf_node, *old(walk), depth as nat),
    decreases depth,
{
    if depth == 0 || gltf_node >= nodes.len() {
        return None;
    }
    let declared = &nodes[gltf_node];
    let active_camera = declared.has_camera && !walk.active_camera_found;
    if declared.has_camera {
        walk.active_camera_found = true;
    }
    if node_lacks_material(declared, meshes) {
        walk.default_material_needed = true;
    }
    let ghost here = *walk;
    let mut children: Vec<SceneNode> = Vec::new();
    let mut k: usize = 0;
    assert(trees_view(children@) =~= Seq::<SceneTree>::empty());
    while k < declared.children.len()
        invariant
            k <= declared.children.len(),
            depth > 0,
            here == met(nodes@[gltf_node as int], meshes@, *old(walk)),
            planned_children(nodes@, meshes@, gltf_node, 0, here, depth as nat) == trees_view(
                children@,
            ) + planned_children(nodes@, meshes@, gltf_node, k as int, *walk, depth as nat),
            walk_after_children(nodes@, meshes@, gltf_node, 0, here, depth as nat)
                == walk_after_children(nodes@, meshes@, gltf_node, k as int, *walk, depth as nat),
        decreases declared.children.len() - k,
    {
        let ghost planned_so_far = trees_view(children@);
        let ghost rest = planned_children(
            nodes@,
            meshes@,
            gltf_node,
            k + 1,
            walk_after(nodes@, meshes@, declared.children@[k as int], *walk, (depth - 1) as nat),
            depth as nat,
        );
        match load_node(nodes, meshes, declared.children[k], walk, depth - 1) {
            Some(plan) => {
                children.push(plan);
                proof {
                    assert(trees_view(children@) =~= planned_so_far.push(plan@));
                    assert(planned_so_far + (seq![plan@] + rest) =~= trees_view(children@) + rest);
                }
            },
            None => {},
        }
        k = k + 1;
    }
    let plan = SceneNode { node: gltf_node, active_camera, children };
    proof {
        assert(trees_view(children@) + Seq::<SceneTree>::empty() =~= trees_view(children@));
        assert(plan@.children =~= trees_view(children@));
    }
    Some(plan)
}

/// What is to be spawned for a scene.
#[derive(Debug, PartialEq, Eq)]
pub struct ScenePlan {
    /// The plans for the roots of the scene that resolved, in their order.
    pub roots: Vec<SceneNode>,
    /// For each of these roots, whether a curve of an animation animates a node below
    /// it. Such a root gets an animation player.
    pub animated: Vec<bool>,
}

/// What is to be spawned for a scene, as mathematics.
pub struct ScenePlanView {
    pub roots: Seq<SceneTree>,
    pub animated: Seq<bool>,
}

impl View for ScenePlan {
    type V = ScenePlanView;

    open spec fn view(&self) -> ScenePlanView {
        ScenePlanView { roots: trees_view(self.roots@), animated: self.animated@ }
    }
}

} // verus!
