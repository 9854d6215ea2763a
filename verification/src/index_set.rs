//! Sets of indices.
use vstd::prelude::*;

verus! {

/// A set of indices, kept in a hash set of the engine.
#[verifier::external_body]
#[derive(Debug, PartialEq, Eq)]
pub struct IndexSet {
    items: bevy::utils::HashSet<usize>,
}

/// The indices that the set holds.
pub uninterp spec fn held(set: IndexSet) -> Set<usize>;

/// Calls `HashSet::default` of bevy's utilities: a set that holds nothing.
#[verifier::external_body]
fn set_new() -> (r: IndexSet)
    ensures
        held(r) == Set::<usize>::empty(),
{
    IndexSet { items: bevy::utils::HashSet::default() }
}

/// Calls `HashSet::insert`: the set holds the index afterwards, and the result says
/// whether it is new to the set.
#[verifier::external_body]
fn set_insert(set: &mut IndexSet, index: usize) -> (r: bool)
    ensures
        held(*final(set)) == held(*old(set)).insert(index),
        r == !held(*old(set)).contains(index),
{
    set.items.insert(index)
}

/// Calls `HashSet::remove`: the set does not hold the index afterwards, and the
/// result says whether it held it.
#[verifier::external_body]
fn set_remove(set: &mut IndexSet, index: usize) -> (r: bool)
    ensures
        held(*final(set)) == held(*old(set)).remove(index),
        r == held(*old(set)).contains(index),
{
    set.items.remove(&index)
}

/// Calls `HashSet::contains`: whether the set holds the index.
#[verifier::external_body]
fn set_contains(set: &IndexSet, index: usize) -> (r: bool)
    ensures
        r == held(*set).contains(index),
{
    set.items.contains(&index)
}

/// Calls `HashSet::is_empty`: whether the set holds nothing.
#[verifier::external_body]
fn set_is_empty(set: &IndexSet) -> (r: bool)
    ensures
        r == (held(*set) == Set::<usize>::empty()),
{
    set.items.is_empty()
}

impl IndexSet {
    /// A set that holds nothing.
    pub fn new() -> (r: IndexSet)
        ensures
            held(r) == Set::<usize>::empty(),
    {
        set_new()
    }

    /// Puts the index into the set. Says whether it is new to the set.
    pub fn insert(&mut self, index: usize) -> (r: bool)
        ensures
            held(*final(self)) == held(*old(self)).insert(index),
            r == !held(*old(self)).contains(index),
    {
        set_insert(self, index)
    }

    /// Takes the index out of the set. Says whether the set held it.
    pub fn remove(&mut self, index: usize) -> (r: bool)
        ensures
            held(*final(self)) == held(*old(self)).remove(index),
            r == held(*old(self)).contains(index),
    {
        set_remove(self, index)
    }

    /// Whether the set holds the index.
    pub fn contains(&self, index: usize) -> (r: bool)
        ensures
            r == held(*self).contains(index),
    {
        set_contains(self, index)
    }

    /// Whether the set holds nothing.
    pub fn is_empty(&self) -> (r: bool)
        ensures
            r == (held(*self) == Set::<usize>::empty()),
    {
        set_is_empty(self)
    }

    /// The set of the given indices.
    pub fn from_indices(indices: &Vec<usize>) -> (r: IndexSet)
        ensures
            held(r) == indices@.to_set(),
    {
        let mut r = IndexSet::new();
        let mut i: usize = 0;
        while i < indices.len()
            invariant
                i <= indices.len(),
                held(r) == indices@.subrange(0, i as int).to_set(),
            decreases indices.len() - i,
        {
            r.insert(indices[i]);
            proof {
                let shorter = indices@.subrange(0, i as int);
                let longer = indices@.subrange(0, i + 1);
                assert(longer == shorter.push(indices@[i as int]));
                assert forall|x: usize| longer.to_set().contains(x) <==> shorter.to_set().insert(
                    indices@[i as int],
                ).contains(x) by {
                    if shorter.contains(x) {
                        let w = choose|w: int| 0 <= w < shorter.len() && shorter[w] == x;
                        assert(longer[w] == x);
                    }
                    if x == indices@[i as int] {
                        assert(longer[i as int] == x);
                    }
                    if longer.contains(x) {
                        let w = choose|w: int| 0 <= w < longer.len() && longer[w] == x;
                        if w < i {
                            assert(shorter[w] == x);
                        }
                    }
                }
                assert(longer.to_set() =~= shorter.to_set().insert(indices@[i as int]));
            }
            i = i + 1;
        }
        assert(indices@.subrange(0, indices@.len() as int) == indices@);
        assert(indices@.subrange(0, 0).to_set() =~= Set::<usize>::empty()) by {
            assert(indices@.subrange(0, 0).len() == 0);
        }
        r
    }
}

} // verus!
