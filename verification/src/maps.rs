//! Maps that are kept in hash maps of the engine.
use crate::mesh::{AttributeView, MeshVertexAttribute};
use vstd::prelude::*;

verus! {

/// The way from a scene root to a node: the index of the root, and the names of the
/// nodes on the way, from the root to the node itself.
pub type NodePath = (usize, Vec<String>);

/// A way, as mathematics.
pub type Way = (usize, Seq<Seq<char>>);

/// Places by name.
pub type Places = Map<Seq<char>, usize>;

/// Ways by node.
pub type Ways = Map<usize, Way>;

/// Attributes by name.
pub type Registrations = Map<Seq<char>, AttributeView>;

/// A sequence of names, as mathematics.
pub open spec fn names_of(names: Seq<String>) -> Seq<Seq<char>> {
    Seq::new(names.len(), |i: int| names[i]@)
}

/// A way, as mathematics.
pub open spec fn way_of(path: NodePath) -> Way {
    (path.0, names_of(path.1@))
}

/// What has a name, by name. Each name leads to the place of what it names.
#[verifier::external_body]
#[derive(Debug, PartialEq, Eq)]
pub struct NameMap {
    places: bevy::utils::HashMap<String, usize>,
}

/// The place that each name leads to.
pub uninterp spec fn named_places(map: NameMap) -> Places;

/// Calls `HashMap::default` of bevy's utilities: a map without names.
#[verifier::external_body]
fn names_new() -> (r: NameMap)
    ensures
        named_places(r) == Places::empty(),
{
    NameMap { places: bevy::utils::HashMap::default() }
}

/// Calls `HashMap::insert`: the name leads to the place afterwards, and the other
/// names lead where they led. The result is the place that the name led to before.
#[verifier::external_body]
fn names_insert(map: &mut NameMap, name: String, place: usize) -> (r: Option<usize>)
    ensures
        named_places(*final(map)) == named_places(*old(map)).insert(name@, place),
        r == if named_places(*old(map)).contains_key(name@) {
            Some(named_places(*old(map))[name@])
        } else {
            None
        },
{
    map.places.insert(name, place)
}

/// Calls `HashMap::get`: the place that the name leads to, if it leads anywhere.
#[verifier::external_body]
fn names_get(map: &NameMap, name: &str) -> (r: Option<usize>)
    ensures
        r == if named_places(*map).contains_key(name@) {
            Some(named_places(*map)[name@])
        } else {
            None
        },
{
    map.places.get(name).copied()
}

impl NameMap {
    /// A map without names.
    pub fn new() -> (r: NameMap)
        ensures
            named_places(r) == Places::empty(),
    {
        names_new()
    }

    /// Lets the name lead to the place. Returns the place that it led to before.
    pub fn insert(&mut self, name: String, place: usize) -> (r: Option<usize>)
        ensures
            named_places(*final(self)) == named_places(*old(self)).insert(name@, place),
            r == if named_places(*old(self)).contains_key(name@) {
                Some(named_places(*old(self))[name@])
            } else {
                None
            },
    {
        names_insert(self, name, place)
    }

    /// The place that the name leads to.
    pub fn get(&self, name: &str) -> (r: Option<usize>)
        ensures
            r == if named_places(*self).contains_key(name@) {
                Some(named_places(*self)[name@])
            } else {
                None
            },
    {
        names_get(self, name)
    }
}

/// The ways to nodes, by the index of the node.
#[verifier::external_body]
#[derive(Debug, PartialEq, Eq)]
pub struct PathMap {
    ways: bevy::utils::HashMap<usize, NodePath>,
}

/// The way to each node that has one.
pub uninterp spec fn known_ways(map: PathMap) -> Ways;

/// Calls `HashMap::default` of bevy's utilities: a map without ways.
#[verifier::external_body]
fn ways_new() -> (r: PathMap)
    ensures
        known_ways(r) == Ways::empty(),
{
    PathMap { ways: bevy::utils::HashMap::default() }
}

/// Calls `HashMap::insert`: the way to the node is the given one afterwards, and the
/// ways to the other nodes are what they were. The result is the way that was known
/// before.
#[verifier::external_body]
fn ways_insert(map: &mut PathMap, node: usize, path: NodePath) -> (r: Option<NodePath>)
    ensures
        known_ways(*final(map)) == known_ways(*old(map)).insert(node, way_of(path)),
        match r {
            Some(before) => known_ways(*old(map)).contains_key(node) && known_ways(
                *old(map),
            )[node] == way_of(before),
            None => !known_ways(*old(map)).contains_key(node),
        },
{
    map.ways.insert(node, path)
}

/// Calls `HashMap::get`: the way to the node, if there is one.
#[verifier::external_body]
fn ways_get(map: &PathMap, node: usize) -> (r: Option<&NodePath>)
    ensures
        match r {
            Some(path) => known_ways(*map).contains_key(node) && known_ways(*map)[node] == way_of(
                *path,
            ),
            None => !known_ways(*map).contains_key(node),
        },
{
    map.ways.get(&node)
}

impl PathMap {
    /// A map without ways.
    pub fn new() -> (r: PathMap)
        ensures
            known_ways(r) == Ways::empty(),
    {
        ways_new()
    }

    /// Records the way to the node. Returns the way that was known before.
    pub fn insert(&mut self, node: usize, path: NodePath) -> (r: Option<NodePath>)
        ensures
            known_ways(*final(self)) == known_ways(*old(self)).insert(node, way_of(path)),
            match r {
                Some(before) => known_ways(*old(self)).contains_key(node) && known_ways(
                    *old(self),
                )[node] == way_of(before),
                None => !known_ways(*old(self)).contains_key(node),
            },
    {
        ways_insert(self, node, path)
    }

    /// The way to the node.
    pub fn get(&self, node: usize) -> (r: Option<&NodePath>)
        ensures
            match r {
                Some(path) => known_ways(*self).contains_key(node) && known_ways(*self)[node]
                    == way_of(*path),
                None => !known_ways(*self).contains_key(node),
            },
    {
        ways_get(self, node)
    }
}

/// The custom vertex attributes, by the name that the document calls them.
#[verifier::external_body]
#[derive(Debug, PartialEq, Eq)]
pub struct AttributeMap {
    attributes: bevy::utils::HashMap<String, MeshVertexAttribute>,
}

/// The attribute that is registered under each name.
pub uninterp spec fn registered(map: AttributeMap) -> Registrations;

/// Calls `HashMap::default` of bevy's utilities: a map without attributes.
#[verifier::external_body]
fn attributes_new() -> (r: AttributeMap)
    ensures
        registered(r) == Registrations::empty(),
{
    AttributeMap { attributes: bevy::utils::HashMap::default() }
}

/// Calls `HashMap::insert`: the attribute is registered under the name afterwards, and
/// the other names keep their attributes. The result is the attribute that was
/// registered under the name before.
#[verifier::external_body]
fn attributes_insert(map: &mut AttributeMap, name: String, attribute: MeshVertexAttribute) -> (r:
    Option<MeshVertexAttribute>)
    ensures
        registered(*final(map)) == registered(*old(map)).insert(name@, attribute@),
        match r {
            Some(before) => registered(*old(map)).contains_key(name@) && registered(
                *old(map),
            )[name@] == before@,
            None => !registered(*old(map)).contains_key(name@),
        },
{
    map.attributes.insert(name, attribute)
}

/// Calls `HashMap::get`: the attribute that is registered under the name, if there is
/// one.
#[verifier::external_body]
fn attributes_get<'a>(map: &'a AttributeMap, name: &str) -> (r: Option<&'a MeshVertexAttribute>)
    ensures
        match r {
            Some(attribute) => registered(*map).contains_key(name@) && registered(*map)[name@]
                == attribute@,
            None => !registered(*map).contains_key(name@),
        },
{
    map.attributes.get(name)
}

/// Calls `HashMap::clone`: a map that holds the same.
#[verifier::external_body]
fn attributes_clone(map: &AttributeMap) -> (r: AttributeMap)
    ensures
        registered(r) == registered(*map),
{
    AttributeMap { attributes: map.attributes.clone() }
}

impl AttributeMap {
    /// A map without attributes.
    pub fn new() -> (r: AttributeMap)
        ensures
            registered(r) == Registrations::empty(),
    {
        attributes_new()
    }

    /// Registers the attribute under the name. Returns the attribute that was
    /// registered under it before.
    pub fn insert(&mut self, name: String, attribute: MeshVertexAttribute) -> (r: Option<
        MeshVertexAttribute,
    >)
        ensures
            registered(*final(self)) == registered(*old(self)).insert(name@, attribute@),
            match r {
                Some(before) => registered(*old(self)).contains_key(name@) && registered(
                    *old(self),
                )[name@] == before@,
                None => !registered(*old(self)).contains_key(name@),
            },
    {
        attributes_insert(self, name, attribute)
    }

    /// The attribute that is registered under the name.
    pub fn get<'a>(&'a self, name: &str) -> (r: Option<&'a MeshVertexAttribute>)
        ensures
            match r {
                Some(attribute) => registered(*self).contains_key(name@) && registered(
                    *self,
                )[name@] == attribute@,
                None => !registered(*self).contains_key(name@),
            },
    {
        attributes_get(self, name)
    }

    /// A map that holds the same.
    pub fn duplicate(&self) -> (r: AttributeMap)
        ensures
            registered(r) == registered(*self),
    {
        attributes_clone(self)
    }
}

} // verus!
