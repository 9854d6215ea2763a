//! Turns the flat node list of a document into trees.
//!
//! Every node of a document names its children by index. Resolution peels the list from
//! the leaves: a node resolves once all of its children have, and takes a copy of each
//! of them into its own child sequence, in the order in which they resolved. What
//! cannot be peeled (a cycle, a child that no node of the list is, a child that another
//! node claims as well) never resolves and is left out of the result.
use crate::index_set::{held, IndexSet};
use crate::{GltfNode, NodeTree};
use std::collections::VecDeque;
use vstd::prelude::*;

verus! {

/// One entry of the flat node list: the label, the node as read, and the indices of its
/// declared children.
pub type NodeEntry = (String, GltfNode, Vec<usize>);

/// What resolution returns.
#[derive(Debug)]
pub struct ResolvedHierarchy {
    /// The nodes that resolved, in ascending order of their index in the list, each
    /// carrying its linked children.
    pub nodes: Vec<(String, GltfNode)>,
    /// For each of these nodes, its index in the list.
    pub indices: Vec<usize>,
    /// The first fault in the structure of the list, when there is one.
    pub warning: Option<StructuralWarning>,
    /// Whether every node of the list resolved.
    pub is_tree: bool,
}

/// A fault in the structure of a node list.
#[derive(Clone, Copy, Debug, PartialEq, Eq, Structural)]
pub enum StructuralWarning {
    /// A declared child is no index into the list.
    UnexpectedChild { child: usize },
    /// A node declares a child that an earlier node has declared already.
    SecondParent { child: usize, parent: usize },
}

/// One entry of the flat node list, as mathematics.
pub struct Entry {
    pub label: Seq<char>,
    /// The node as read, with the children that it came with.
    pub node: NodeTree,
    /// The indices of the declared children.
    pub children: Seq<usize>,
}

/// The flat node list, as mathematics.
pub open spec fn entries(nodes: Seq<NodeEntry>) -> Seq<Entry> {
    Seq::new(
        nodes.len(),
        |i: int| Entry { label: nodes[i].0@, node: nodes[i].1@, children: nodes[i].2@ },
    )
}

/// Node `p` declares `c` as one of its children.
pub open spec fn declares(nodes: Seq<Entry>, p: int, c: usize) -> bool {
    0 <= p < nodes.len() && nodes[p].children.contains(c)
}

/// Node `p` is the parent of `c`: where several nodes declare `c`, the last of them is.
pub open spec fn owns(nodes: Seq<Entry>, p: int, c: usize) -> bool {
    &&& declares(nodes, p, c)
    &&& forall|q: int| p < q < nodes.len() ==> !declares(nodes, q, c)
}

/// Node `i` can be peeled within `fuel` rounds: each declared child is a node of the
/// list, has `i` as its parent, and can be peeled in fewer rounds.
pub open spec fn resolvable(nodes: Seq<Entry>, i: int, fuel: nat) -> bool
    decreases fuel,
{
    &&& fuel > 0
    &&& 0 <= i < nodes.len()
    &&& forall|k: int|
        0 <= k < nodes[i].children.len() ==> {
            let c = #[trigger] nodes[i].children[k];
            &&& c < nodes.len()
            &&& owns(nodes, i, c)
            &&& resolvable(nodes, c as int, (fuel - 1) as nat)
        }
}

/// Node `i` resolves. A list of `n` nodes needs no more than `n` rounds.
pub open spec fn resolves(nodes: Seq<Entry>, i: int) -> bool {
    resolvable(nodes, i, nodes.len())
}

/// The indices below `upto` of the nodes that resolve, ascending.
pub open spec fn kept(nodes: Seq<Entry>, upto: int) -> Seq<int>
    decreases upto,
{
    if upto <= 0 {
        Seq::empty()
    } else if resolves(nodes, upto - 1) {
        kept(nodes, upto - 1).push(upto - 1)
    } else {
        kept(nodes, upto - 1)
    }
}

/// The kept indices are indices into the list, and each is larger than the one before.
pub proof fn lemma_kept_ascending(nodes: Seq<Entry>, upto: int)
    requires
        upto <= nodes.len(),
    ensures
        forall|j: int|
            0 <= j < kept(nodes, upto).len() ==> 0 <= #[trigger] kept(nodes, upto)[j] < upto,
        forall|j: int, k: int|
            0 <= j < k < kept(nodes, upto).len() ==> kept(nodes, upto)[j] < kept(nodes, upto)[k],
        forall|j: int|
            0 <= j < kept(nodes, upto).len() ==> resolves(nodes, #[trigger] kept(nodes, upto)[j]),
        forall|i: int| 0 <= i < upto && resolves(nodes, i) ==> kept(nodes, upto).contains(i),
    decreases upto,
{
    if upto > 0 {
        lemma_kept_ascending(nodes, upto - 1);
        let before = kept(nodes, upto - 1);
        assert forall|i: int| 0 <= i < upto && resolves(nodes, i) implies kept(
            nodes,
            upto,
        ).contains(i) by {
            if i < upto - 1 {
                let w = choose|w: int| 0 <= w < before.len() && before[w] == i;
                assert(kept(nodes, upto)[w] == i);
            } else {
                assert(kept(nodes, upto)[before.len() as int] == i);
            }
        }
    }
}

/// `order` holds each declared child once.
pub open spec fn arranges(declared: Seq<usize>, order: Seq<usize>) -> bool {
    &&& order.no_duplicates()
    &&& forall|c: usize| order.contains(c) <==> declared.contains(c)
}

/// The latest time at which one of the first `upto` declared children of node `i`
/// finishes, looking no deeper than `fuel` nodes. A child without children finishes at
/// its own index, and one with children a whole list later than the last of them.
pub open spec fn latest(nodes: Seq<Entry>, i: int, upto: int, fuel: nat) -> int
    decreases fuel, upto,
{
    if fuel == 0 || upto <= 0 || !(0 <= i < nodes.len()) || upto > nodes[i].children.len() {
        0
    } else {
        let c = nodes[i].children[upto - 1] as int;
        let of_last = if 0 <= c < nodes.len() && nodes[c].children.len() > 0 {
            nodes.len() + latest(nodes, c, nodes[c].children.len() as int, (fuel - 1) as nat)
        } else {
            c
        };
        let of_rest = latest(nodes, i, upto - 1, fuel);
        if of_last >= of_rest {
            of_last
        } else {
            of_rest
        }
    }
}

/// The time at which node `i` finishes: the nodes without children finish first, in
/// the order of their indices, and a node with children finishes a whole list later
/// than the last of its children.
pub open spec fn finish(nodes: Seq<Entry>, i: int, fuel: nat) -> int {
    if 0 <= i < nodes.len() && nodes[i].children.len() > 0 {
        nodes.len() + latest(nodes, i, nodes[i].children.len() as int, fuel)
    } else {
        i
    }
}

/// The time at which node `i` finishes, where it resolves.
pub open spec fn finishes(nodes: Seq<Entry>, i: int) -> int {
    finish(nodes, i, nodes.len())
}

/// The nodes stand in the order in which they finish.
pub open spec fn in_finishing_order(nodes: Seq<Entry>, order: Seq<usize>) -> bool {
    forall|a: int, b: int|
        0 <= a < b < order.len() ==> finishes(nodes, #[trigger] order[a] as int) < finishes(
            nodes,
            #[trigger] order[b] as int,
        )
}

/// `tree` is node `i` with its children linked: it keeps the mesh, the transform and
/// the children that the node came with, followed by one linked tree for each declared
/// child, in the order in which the children finish.
pub open spec fn linked(nodes: Seq<Entry>, i: int, tree: NodeTree) -> bool
    decreases tree,
{
    let own = nodes[i].node;
    let base = own.children.len() as int;
    &&& tree.mesh == own.mesh
    &&& tree.transform == own.transform
    &&& exists|order: Seq<usize>|
        {
            &&& #[trigger] arranges(nodes[i].children, order)
            &&& in_finishing_order(nodes, order)
            &&& tree.children.len() == base + order.len()
            &&& tree.children.subrange(0, base) == own.children
            &&& forall|k: int|
                0 <= k < order.len() ==> linked(
                    nodes,
                    #[trigger] order[k] as int,
                    tree.children[base + k],
                )
        }
}

/// The child at position `(i, k)` is at fault: it is no index into the list, or a node
/// before `i` declares it as well.
pub open spec fn at_fault(nodes: Seq<Entry>, i: int, k: int) -> bool {
    let c = nodes[i].children[k];
    c >= nodes.len() || exists|j: int| 0 <= j < i && declares(nodes, j, c)
}

/// Position `(i, k)` is the first, in reading order, whose child is at fault.
pub open spec fn first_fault_at(nodes: Seq<Entry>, i: int, k: int) -> bool {
    &&& 0 <= i < nodes.len()
    &&& 0 <= k < nodes[i].children.len()
    &&& at_fault(nodes, i, k)
    &&& forall|j: int, l: int|
        0 <= j < nodes.len() && 0 <= l < nodes[j].children.len() && (j < i || (j == i && l < k))
            ==> !#[trigger] at_fault(nodes, j, l)
}

/// What is reported of the fault at position `(i, k)`.
pub open spec fn fault_at(nodes: Seq<Entry>, i: int, k: int) -> StructuralWarning {
    let child = nodes[i].children[k];
    if child >= nodes.len() {
        StructuralWarning::UnexpectedChild { child }
    } else {
        StructuralWarning::SecondParent { child, parent: i as usize }
    }
}

/// No declared child is at fault.
pub open spec fn faultless(nodes: Seq<Entry>) -> bool {
    forall|j: int, l: int|
        0 <= j < nodes.len() && 0 <= l < nodes[j].children.len() ==> !#[trigger] at_fault(nodes, j, l)
}

/// Every declared child is an index into the list.
pub open spec fn all_children_exist(nodes: Seq<Entry>) -> bool {
    forall|j: int, l: int|
        0 <= j < nodes.len() && 0 <= l < nodes[j].children.len() ==> #[trigger] nodes[j].children[l]
            < nodes.len()
}


/// What has been read once the nodes before `i` and the first `k` children of node `i`
/// are done: `recorded` is the last node among them that declares `c`.
spec fn parent_so_far(nodes: Seq<Entry>, recorded: Option<usize>, c: usize, i: int, k: int) -> bool {
    let here = 0 <= i < nodes.len() && nodes[i].children.subrange(0, k).contains(c);
    match recorded {
        Some(p) => if here {
            p == i
        } else {
            &&& p < i
            &&& declares(nodes, p as int, c)
            &&& forall|q: int| p < q < i ==> !declares(nodes, q, c)
        },
        None => !here && forall|q: int| 0 <= q < i ==> !declares(nodes, q, c),
    }
}

/// `recorded` is the parent of `c`, or nothing where no node declares `c`.
spec fn is_parent(nodes: Seq<Entry>, recorded: Option<usize>, c: usize) -> bool {
    match recorded {
        Some(p) => owns(nodes, p as int, c),
        None => forall|q: int| !declares(nodes, q, c),
    }
}

/// `rank` gives every node a number above those of its declared children.
pub open spec fn ranks(nodes: Seq<Entry>, rank: Seq<nat>) -> bool {
    &&& rank.len() == nodes.len()
    &&& forall|p: int, k: int|
        0 <= p < nodes.len() && 0 <= k < nodes[p].children.len() && nodes[p].children[k] < nodes.len()
            ==> rank[(#[trigger] nodes[p].children[k]) as int] < rank[p]
}

/// The list is a forest: every declared child is a node of the list, no node is
/// declared twice, whether by one node or by two, and no node is its own descendant
/// (the nodes can be ranked so that every child stands below its parent).
pub open spec fn is_forest(nodes: Seq<Entry>) -> bool {
    &&& all_children_exist(nodes)
    &&& forall|p: int, k: int, q: int, l: int|
        0 <= p < nodes.len() && 0 <= k < nodes[p].children.len() && 0 <= q < nodes.len() && 0 <= l
            < nodes[q].children.len() && #[trigger] nodes[p].children[k] == #[trigger] nodes[q].children[l] ==> p
            == q && k == l
    &&& exists|rank: Seq<nat>| ranks(nodes, rank)
}

/// No position before `(i, k)`, in reading order, holds a child at fault.
spec fn faultless_before(nodes: Seq<Entry>, i: int, k: int) -> bool {
    forall|j: int, l: int|
        0 <= j < nodes.len() && 0 <= l < nodes[j].children.len() && (j < i || (j == i && l < k))
            ==> !#[trigger] at_fault(nodes, j, l)
}

/// `found` reports the first fault, or nothing where no position before `(i, k)` holds
/// a child at fault.
spec fn fault_so_far(nodes: Seq<Entry>, found: Option<StructuralWarning>, i: int, k: int) -> bool {
    match found {
        Some(warning) => exists|j: int, l: int|
            #[trigger] first_fault_at(nodes, j, l) && warning == fault_at(nodes, j, l),
        None => faultless_before(nodes, i, k),
    }
}

/// `found` reports the first fault in the list, or nothing where the list has none.
pub open spec fn is_first_fault(nodes: Seq<Entry>, found: Option<StructuralWarning>) -> bool {
    match found {
        Some(warning) => exists|i: int, k: int|
            #[trigger] first_fault_at(nodes, i, k) && warning == fault_at(nodes, i, k),
        None => faultless(nodes),
    }
}

/// A node that can be peeled within some rounds can be peeled within more.
proof fn lemma_resolvable_more(nodes: Seq<Entry>, i: int, fuel: nat, more: nat)
    requires
        resolvable(nodes, i, fuel),
        fuel <= more,
    ensures
        resolvable(nodes, i, more),
    decreases fuel,
{
    assert forall|k: int| 0 <= k < nodes[i].children.len() implies resolvable(
        nodes,
        (#[trigger] nodes[i].children[k]) as int,
        (more - 1) as nat,
    ) by {
        lemma_resolvable_more(nodes, nodes[i].children[k] as int, (fuel - 1) as nat, (more - 1) as nat);
    }
}

/// No time is negative.
proof fn lemma_latest_not_negative(nodes: Seq<Entry>, i: int, upto: int, fuel: nat)
    ensures
        latest(nodes, i, upto, fuel) >= 0,
    decreases fuel, upto,
{
    if !(fuel == 0 || upto <= 0 || !(0 <= i < nodes.len()) || upto > nodes[i].children.len()) {
        let c = nodes[i].children[upto - 1] as int;
        lemma_latest_not_negative(nodes, i, upto - 1, fuel);
    }
}

/// A node that can be peeled finishes at the same time, however deep one looks beyond
/// what peeling it takes.
proof fn lemma_latest_stable(nodes: Seq<Entry>, i: int, upto: int, fuel: nat, more: nat)
    requires
        resolvable(nodes, i, (fuel + 1) as nat),
        fuel <= more,
        0 <= upto <= nodes[i].children.len(),
    ensures
        latest(nodes, i, upto, fuel) == latest(nodes, i, upto, more),
    decreases fuel, upto,
{
    if upto > 0 {
        let c = nodes[i].children[upto - 1];
        assert(resolvable(nodes, c as int, fuel));
        lemma_latest_stable(nodes, i, upto - 1, fuel, more);
        if nodes[c as int].children.len() > 0 {
            assert(nodes[c as int].children[0] < nodes.len());
            assert(resolvable(nodes, nodes[c as int].children[0] as int, (fuel - 1) as nat));
            lemma_latest_stable(
                nodes,
                c as int,
                nodes[c as int].children.len() as int,
                (fuel - 1) as nat,
                (more - 1) as nat,
            );
        }
    }
}

/// The latest time among the children is the time of a child that no other child
/// finishes after.
proof fn lemma_latest_is(nodes: Seq<Entry>, i: int, upto: int, fuel: nat, last: usize)
    requires
        fuel > 0,
        0 <= i < nodes.len(),
        0 < upto <= nodes[i].children.len(),
        nodes[i].children.subrange(0, upto).contains(last),
        forall|k: int|
            0 <= k < upto ==> finish(nodes, #[trigger] nodes[i].children[k] as int, (fuel - 1) as nat)
                <= finish(nodes, last as int, (fuel - 1) as nat),
    ensures
        latest(nodes, i, upto, fuel) == finish(nodes, last as int, (fuel - 1) as nat),
    decreases upto,
{
    let children = nodes[i].children;
    let c = children[upto - 1];
    let prefix = children.subrange(0, upto);
    let shorter = children.subrange(0, upto - 1);
    lemma_latest_not_negative(nodes, i, upto - 1, fuel);
    lemma_latest_not_negative(
        nodes,
        last as int,
        nodes[last as int].children.len() as int,
        (fuel - 1) as nat,
    );
    if shorter.contains(last) {
        let w = choose|w: int| 0 <= w < shorter.len() && shorter[w] == last;
        assert(children[w] == last);
        lemma_latest_is(nodes, i, upto - 1, fuel, last);
    } else {
        let w = choose|w: int| 0 <= w < prefix.len() && prefix[w] == last;
        if w < upto - 1 {
            assert(shorter[w] == last);
        }
        assert(c == last);
        if upto - 1 > 0 {
            lemma_latest_at_most(nodes, i, upto - 1, fuel, last);
        }
    }
}

/// The latest time among the children is no later than the time of a child that no
/// other child finishes after.
proof fn lemma_latest_at_most(nodes: Seq<Entry>, i: int, upto: int, fuel: nat, last: usize)
    requires
        fuel > 0,
        0 <= i < nodes.len(),
        0 <= upto <= nodes[i].children.len(),
        finish(nodes, last as int, (fuel - 1) as nat) >= 0,
        forall|k: int|
            0 <= k < upto ==> finish(nodes, #[trigger] nodes[i].children[k] as int, (fuel - 1) as nat)
                <= finish(nodes, last as int, (fuel - 1) as nat),
    ensures
        latest(nodes, i, upto, fuel) <= finish(nodes, last as int, (fuel - 1) as nat),
    decreases upto,
{
    if upto > 0 {
        let c = nodes[i].children[upto - 1];
        assert(finish(nodes, c as int, (fuel - 1) as nat) <= finish(
            nodes,
            last as int,
            (fuel - 1) as nat,
        ));
        lemma_latest_at_most(nodes, i, upto - 1, fuel, last);
    }
}

/// Of two sequences without repetition, one that holds nothing but items of the other
/// is no longer than it, and of the same length only if it holds them all.
proof fn lemma_part_of(a: Seq<usize>, b: Seq<usize>)
    requires
        a.no_duplicates(),
        b.no_duplicates(),
        forall|x: usize| a.contains(x) ==> b.contains(x),
    ensures
        a.len() <= b.len(),
        a.len() == b.len() ==> forall|x: usize| b.contains(x) ==> a.contains(x),
{
    a.unique_seq_to_set();
    b.unique_seq_to_set();
    vstd::seq_lib::seq_to_set_is_finite(a);
    vstd::seq_lib::seq_to_set_is_finite(b);
    assert(a.to_set().subset_of(b.to_set()));
    vstd::set_lib::lemma_len_subset(a.to_set(), b.to_set());
    if a.len() == b.len() {
        vstd::set_lib::lemma_subset_equality(a.to_set(), b.to_set());
        assert forall|x: usize| b.contains(x) implies a.contains(x) by {
            assert(b.to_set().contains(x));
            assert(a.to_set().contains(x));
        }
    }
}

/// A sequence of indices below `n` without repetition has at most `n` items.
proof fn lemma_at_most(a: Seq<usize>, n: usize)
    requires
        a.no_duplicates(),
        forall|k: int| 0 <= k < a.len() ==> a[k] < n,
    ensures
        a.len() <= n,
{
    let b = Seq::new(n as nat, |i: int| i as usize);
    assert forall|x: usize| a.contains(x) implies b.contains(x) by {
        assert(b[x as int] == x);
    }
    lemma_part_of(a, b);
}

/// Whether a node before `i` has been recorded as the parent.
fn claimed_by_another(recorded: &Option<usize>, i: usize) -> (r: bool)
    ensures
        r == (recorded matches Some(p) && p != i),
{
    match recorded {
        Some(p) => *p != i,
        None => false,
    }
}

/// Reads the child lists in order and records the parent of each node, and the first
/// fault met on the way.
#[verifier::loop_isolation(false)]
fn find_parents(nodes: &Vec<NodeEntry>) -> (r: (Vec<Option<usize>>, Option<StructuralWarning>))
    ensures
        r.0@.len() == nodes@.len(),
        forall|c: int| 0 <= c < nodes@.len() ==> is_parent(entries(nodes@), #[trigger] r.0@[c], c as usize),
        is_first_fault(entries(nodes@), r.1),
{
    let n = nodes.len();
    let mut parents: Vec<Option<usize>> = Vec::new();
    let mut i: usize = 0;
    while i < n
        invariant
            i <= n,
            parents@.len() == i,
            forall|c: int| 0 <= c < i ==> #[trigger] parents@[c] is None,
        decreases n - i,
    {
        parents.push(None);
        i = i + 1;
    }
    let mut warning: Option<StructuralWarning> = None;
    let mut i: usize = 0;
    assert forall|c: int| 0 <= c < n implies parent_so_far(
        entries(nodes@),
        #[trigger] parents@[c],
        c as usize,
        0,
        0,
    ) by {
        assert(entries(nodes@)[0].children.subrange(0, 0).len() == 0);
    }
    while i < n
        invariant
            i <= n,
            parents@.len() == n,
            forall|c: int|
                0 <= c < n ==> parent_so_far(entries(nodes@), #[trigger] parents@[c], c as usize, i as int, 0),
            fault_so_far(entries(nodes@), warning, i as int, 0),
        decreases n - i,
    {
        let children = &nodes[i].2;
        let mut k: usize = 0;
        while k < children.len()
            invariant
                k <= children.len(),
                parents@.len() == n,
                forall|c: int|
                    0 <= c < n ==> parent_so_far(
                        entries(nodes@),
                        #[trigger] parents@[c],
                        c as usize,
                        i as int,
                        k as int,
                    ),
                fault_so_far(entries(nodes@), warning, i as int, k as int),
            decreases children.len() - k,
        {
            let child = children[k];
            let ghost before = parents@;
            let ghost shorter = children@.subrange(0, k as int);
            let ghost longer = children@.subrange(0, k + 1);
            let ghost was = warning;
            if child < n {
                let claimed = claimed_by_another(&parents[child], i);
                proof {
                    assert(parent_so_far(entries(nodes@), before[child as int], child, i as int, k as int));
                    if claimed {
                        assert(at_fault(entries(nodes@), i as int, k as int));
                    } else if before[child as int] is Some {
                        let w = choose|w: int| 0 <= w < shorter.len() && shorter[w] == child;
                        assert(children@[w] == child);
                        if was is None {
                            assert(!at_fault(entries(nodes@), i as int, w));
                        }
                    }
                }
                if claimed && warning.is_none() {
                    warning = Some(StructuralWarning::SecondParent { child, parent: i });
                    assert(first_fault_at(entries(nodes@), i as int, k as int));
                }
                parents[child] = Some(i);
            } else if warning.is_none() {
                warning = Some(StructuralWarning::UnexpectedChild { child });
                assert(first_fault_at(entries(nodes@), i as int, k as int));
            }
            proof {
                assert(longer == shorter.push(child));
                assert(was is None && warning is None ==> !at_fault(entries(nodes@), i as int, k as int));
                assert forall|c: int| 0 <= c < n implies parent_so_far(
                    entries(nodes@),
                    #[trigger] parents@[c],
                    c as usize,
                    i as int,
                    k + 1,
                ) by {
                    assert(parent_so_far(entries(nodes@), before[c], c as usize, i as int, k as int));
                    if c == child {
                        assert(longer[k as int] == child);
                    } else {
                        if shorter.contains(c as usize) {
                            let w = choose|w: int| 0 <= w < shorter.len() && shorter[w] == c as usize;
                            assert(longer[w] == c as usize);
                        }
                        if longer.contains(c as usize) {
                            let w = choose|w: int| 0 <= w < longer.len() && longer[w] == c as usize;
                            assert(shorter[w] == c as usize);
                        }
                    }
                }
            }
            k = k + 1;
        }
        proof {
            assert(children@.subrange(0, k as int) == children@);
            assert(entries(nodes@)[i + 1].children.subrange(0, 0).len() == 0);
            assert forall|c: int| 0 <= c < n implies parent_so_far(
                entries(nodes@),
                #[trigger] parents@[c],
                c as usize,
                i + 1,
                0,
            ) by {
                assert(parent_so_far(entries(nodes@), parents@[c], c as usize, i as int, k as int));
            }
        }
        i = i + 1;
    }
    (parents, warning)
}


/// In a forest every node can be peeled, in as many rounds as its rank says.
proof fn lemma_forest_peels(nodes: Seq<Entry>, rank: Seq<nat>, i: int)
    requires
        is_forest(nodes),
        ranks(nodes, rank),
        0 <= i < nodes.len(),
    ensures
        resolvable(nodes, i, rank[i] + 1),
    decreases rank[i],
{
    assert forall|k: int| 0 <= k < nodes[i].children.len() implies {
        let c = #[trigger] nodes[i].children[k];
        &&& c < nodes.len()
        &&& owns(nodes, i, c)
        &&& resolvable(nodes, c as int, rank[i])
    } by {
        let c = nodes[i].children[k];
        assert(nodes[i].children.contains(c));
        assert forall|q: int| i < q < nodes.len() implies !declares(nodes, q, c) by {
            if declares(nodes, q, c) {
                let l = choose|l: int| 0 <= l < nodes[q].children.len() && nodes[q].children[l] == c;
                assert(nodes[i].children[k] == nodes[q].children[l]);
            }
        }
        lemma_forest_peels(nodes, rank, c as int);
        lemma_resolvable_more(nodes, c as int, rank[c as int] + 1, rank[i]);
    }
}

/// Where every node resolves, every index is kept.
proof fn lemma_kept_whole(nodes: Seq<Entry>, upto: int)
    requires
        0 <= upto <= nodes.len(),
        forall|i: int| 0 <= i < nodes.len() ==> resolves(nodes, i),
    ensures
        kept(nodes, upto).len() == upto,
        forall|i: int| 0 <= i < upto ==> kept(nodes, upto)[i] == i,
    decreases upto,
{
    if upto > 0 {
        lemma_kept_whole(nodes, upto - 1);
    }
}

/// In a forest, the linked tree of a node has one child for each declared child,
/// behind the children that the node came with.
proof fn lemma_forest_child_count(nodes: Seq<Entry>, i: int, tree: NodeTree)
    requires
        is_forest(nodes),
        0 <= i < nodes.len(),
        linked(nodes, i, tree),
    ensures
        tree.children.len() == nodes[i].node.children.len() + nodes[i].children.len(),
{
    let declared = nodes[i].children;
    let order = choose|order: Seq<usize>|
        {
            &&& #[trigger] arranges(declared, order)
            &&& tree.children.len() == nodes[i].node.children.len() + order.len()
        };
    assert(declared.no_duplicates()) by {
        assert forall|k: int, l: int|
            0 <= k < declared.len() && 0 <= l < declared.len() && k != l implies declared[k]
            != declared[l] by {
            if declared[k] == declared[l] {
                assert(nodes[i].children[k] == nodes[i].children[l]);
            }
        }
    }
    lemma_part_of(order, declared);
    lemma_part_of(declared, order);
}

/// The state of a peeling, as the proof sees it.
struct Peel {
    /// The parent of each node.
    parents: Seq<Option<usize>>,
    /// The declared children of each node that are still out.
    pending: Seq<Set<usize>>,
    /// Which nodes have been peeled.
    done: Seq<bool>,
    /// The children that each node has taken in, in the order of their arrival.
    order: Seq<Seq<usize>>,
    /// The tree of each node as it stands.
    trees: Seq<NodeTree>,
    /// The nodes peeled, in the order of their peeling.
    peeled: Seq<usize>,
}

/// The trees as mathematics.
spec fn trees_of(trees: Seq<GltfNode>) -> Seq<NodeTree> {
    Seq::new(trees.len(), |i: int| trees[i]@)
}

/// What the sets hold.
spec fn sets_of(sets: Seq<IndexSet>) -> Seq<Set<usize>> {
    Seq::new(sets.len(), |i: int| held(sets[i]))
}

/// The state of a peeling, from the variables that hold it.
spec fn peel_of(
    parents: Seq<Option<usize>>,
    pending: Seq<IndexSet>,
    done: Seq<bool>,
    order: Seq<Seq<usize>>,
    trees: Seq<GltfNode>,
    peeled: Seq<usize>,
) -> Peel {
    Peel { parents, pending: sets_of(pending), done, order, trees: trees_of(trees), peeled }
}

/// What holds of node `i` between two rounds.
spec fn node_ok(nodes: Seq<Entry>, s: Peel, i: int) -> bool {
    let own = nodes[i].node;
    let order = s.order[i];
    let tree = s.trees[i];
    let base = own.children.len() as int;
    &&& is_parent(nodes, s.parents[i], i as usize)
    &&& order.no_duplicates()
    &&& forall|k: int|
        0 <= k < order.len() ==> {
            let c = #[trigger] order[k];
            &&& c < nodes.len()
            &&& s.done[c as int]
            &&& s.parents[c as int] == Some(i as usize)
            &&& tree.children[base + k] == s.trees[c as int]
        }
    &&& forall|c: usize| #[trigger]
        s.pending[i].contains(c) ==> nodes[i].children.contains(c) && !order.contains(c)
    &&& forall|c: usize| #[trigger]
        nodes[i].children.contains(c) ==> order.contains(c) || s.pending[i].contains(c)
    &&& tree.mesh == own.mesh
    &&& tree.transform == own.transform
    &&& tree.children.len() == base + order.len()
    &&& tree.children.subrange(0, base) == own.children
    &&& s.done[i] <==> s.peeled.contains(i as usize)
    &&& s.done[i] ==> {
        &&& s.pending[i] == Set::<usize>::empty()
        &&& resolvable(nodes, i, s.peeled.len())
        &&& linked(nodes, i, tree)
        &&& match s.parents[i] {
            Some(p) => p < nodes.len() && s.order[p as int].contains(i as usize),
            None => true,
        }
    }
}

/// What holds of the whole state between two rounds.
spec fn peel_ok(nodes: Seq<Entry>, s: Peel) -> bool {
    let n = nodes.len();
    &&& n <= usize::MAX
    &&& s.parents.len() == n
    &&& s.pending.len() == n
    &&& s.done.len() == n
    &&& s.order.len() == n
    &&& s.trees.len() == n
    &&& s.peeled.no_duplicates()
    &&& forall|k: int| 0 <= k < s.peeled.len() ==> #[trigger] s.peeled[k] < n
    &&& forall|i: int| 0 <= i < n ==> #[trigger] node_ok(nodes, s, i)
}

/// The nodes that wait in the queue are those that are ready and not peeled yet.
spec fn queue_ok(nodes: Seq<Entry>, s: Peel, queue: Seq<usize>) -> bool {
    &&& queue.no_duplicates()
    &&& forall|k: int| 0 <= k < queue.len() ==> #[trigger] queue[k] < nodes.len()
    &&& forall|i: usize|
        i < nodes.len() ==> (#[trigger] queue.contains(i) <==> !s.done[i as int]
            && s.pending[i as int] == Set::<usize>::empty())
}

/// A node whose declared children have all arrived resolves in one more round, and its
/// tree links it.
proof fn lemma_ready(nodes: Seq<Entry>, s: Peel, c: int)
    requires
        peel_ok(nodes, s),
        0 <= c < nodes.len(),
        s.pending[c] == Set::<usize>::empty(),
        in_finishing_order(nodes, s.order[c]),
    ensures
        resolvable(nodes, c, s.peeled.len() + 1),
        linked(nodes, c, s.trees[c]),
        !s.done[c] ==> !nodes[c].children.contains(c as usize),
{
    assert(node_ok(nodes, s, c));
    let order = s.order[c];
    let declared = nodes[c].children;
    let base = nodes[c].node.children.len() as int;
    assert forall|x: usize| order.contains(x) implies declared.contains(x) by {
        let k = choose|k: int| 0 <= k < order.len() && order[k] == x;
        assert(node_ok(nodes, s, x as int));
        assert(is_parent(nodes, s.parents[x as int], x));
    }
    assert forall|x: usize| declared.contains(x) implies order.contains(x) by {
        assert(!s.pending[c].contains(x));
    }
    assert(arranges(declared, order));
    assert forall|k: int| 0 <= k < declared.len() implies {
        let x = #[trigger] declared[k];
        &&& x < nodes.len()
        &&& owns(nodes, c, x)
        &&& resolvable(nodes, x as int, s.peeled.len())
        &&& s.done[x as int]
    } by {
        let x = declared[k];
        assert(declared.contains(x));
        assert(order.contains(x));
        let w = choose|w: int| 0 <= w < order.len() && order[w] == x;
        assert(node_ok(nodes, s, x as int));
    }
    assert forall|k: int| 0 <= k < order.len() implies linked(
        nodes,
        #[trigger] order[k] as int,
        s.trees[c].children[base + k],
    ) by {
        let x = order[k];
        assert(node_ok(nodes, s, x as int));
    }
    if !s.done[c] && declared.contains(c as usize) {
        let k = choose|k: int| 0 <= k < declared.len() && declared[k] == c as usize;
        assert(s.done[declared[k] as int]);
    }
}

/// A node with a declared child that has not arrived is not ready.
proof fn lemma_waiting(nodes: Seq<Entry>, s: Peel, p: int, c: usize)
    requires
        peel_ok(nodes, s),
        0 <= p < nodes.len(),
        c < nodes.len(),
        owns(nodes, p, c),
        !s.done[c as int],
    ensures
        s.pending[p].contains(c),
        !s.done[p],
        !s.order[p].contains(c),
{
    assert(node_ok(nodes, s, p));
    let order = s.order[p];
    if order.contains(c) {
        let k = choose|k: int| 0 <= k < order.len() && order[k] == c;
        assert(s.done[order[k] as int]);
    }
}


/// One round of peeling: node `c` leaves the queue and, where it has a parent `p`,
/// arrives there.
proof fn lemma_round(
    nodes: Seq<Entry>,
    s: Peel,
    t: Peel,
    queue: Seq<usize>,
    after: Seq<usize>,
    c: usize,
)
    requires
        peel_ok(nodes, s),
        queue_ok(nodes, s, queue),
        queue.len() > 0,
        c == queue[0],
        in_finishing_order(nodes, s.order[c as int]),
        t.parents == s.parents,
        t.done == s.done.update(c as int, true),
        t.peeled == s.peeled.push(c),
        t.pending.len() == s.pending.len(),
        t.order.len() == s.order.len(),
        t.trees.len() == s.trees.len(),
        match s.parents[c as int] {
            Some(p) => {
                &&& p < nodes.len()
                &&& p != c
                &&& forall|i: int|
                    0 <= i < nodes.len() && i != p ==> {
                        &&& #[trigger] t.pending[i] == s.pending[i]
                        &&& t.order[i] == s.order[i]
                        &&& t.trees[i] == s.trees[i]
                    }
                &&& t.pending[p as int] == s.pending[p as int].remove(c)
                &&& t.order[p as int] == s.order[p as int].push(c)
                &&& t.trees[p as int].children == s.trees[p as int].children.push(
                    s.trees[c as int],
                )
                &&& t.trees[p as int].mesh == s.trees[p as int].mesh
                &&& t.trees[p as int].transform == s.trees[p as int].transform
                &&& after == if t.pending[p as int] == Set::<usize>::empty() {
                    queue.drop_first().push(p)
                } else {
                    queue.drop_first()
                }
            },
            None => {
                &&& t.pending == s.pending
                &&& t.order == s.order
                &&& t.trees == s.trees
                &&& after == queue.drop_first()
            },
        },
    ensures
        peel_ok(nodes, t),
        queue_ok(nodes, t, after),
{
    let n = nodes.len();
    assert(queue.contains(c));
    assert(node_ok(nodes, s, c as int));
    lemma_ready(nodes, s, c as int);
    assert(t.peeled.no_duplicates()) by {
        assert(!s.peeled.contains(c));
    }
    assert forall|i: int| 0 <= i < n implies #[trigger] node_ok(nodes, t, i) by {
        assert(node_ok(nodes, s, i));
        let order = t.order[i];
        let base = nodes[i].node.children.len() as int;
        assert(t.done[i] <==> t.peeled.contains(i as usize)) by {
            if s.peeled.contains(i as usize) {
                let w = choose|w: int| 0 <= w < s.peeled.len() && s.peeled[w] == i as usize;
                assert(t.peeled[w] == i as usize);
            }
            if i == c {
                assert(t.peeled[s.peeled.len() as int] == c);
            }
            if t.peeled.contains(i as usize) && i != c {
                let w = choose|w: int| 0 <= w < t.peeled.len() && t.peeled[w] == i as usize;
                assert(s.peeled[w] == i as usize);
            }
        }
        if s.done[i] {
            lemma_resolvable_more(nodes, i, s.peeled.len(), t.peeled.len());
        }
        match s.parents[c as int] {
            Some(p) => {
                lemma_waiting(nodes, s, p as int, c);
                if i != p {
                    assert(t.pending[i] == s.pending[i]);
                }
                assert forall|x: usize|
                    (t.pending[i].contains(x) ==> nodes[i].children.contains(x) && !order.contains(
                        x,
                    )) && (nodes[i].children.contains(x) ==> order.contains(x)
                        || t.pending[i].contains(x)) by {
                    assert(s.pending[i].contains(x) ==> nodes[i].children.contains(x)
                        && !s.order[i].contains(x));
                    assert(nodes[i].children.contains(x) ==> s.order[i].contains(x)
                        || s.pending[i].contains(x));
                    if i == p {
                        let before = s.order[i];
                        if before.contains(x) {
                            let w = choose|w: int| 0 <= w < before.len() && before[w] == x;
                            assert(order[w] == x);
                        }
                        if x == c {
                            assert(order[before.len() as int] == c);
                        }
                        if order.contains(x) && x != c {
                            let w = choose|w: int| 0 <= w < order.len() && order[w] == x;
                            assert(before[w] == x);
                        }
                    }
                }
                assert forall|k: int| 0 <= k < order.len() implies {
                    let x = #[trigger] order[k];
                    &&& x < n
                    &&& t.done[x as int]
                    &&& t.parents[x as int] == Some(i as usize)
                    &&& t.trees[i].children[base + k] == t.trees[x as int]
                } by {
                    if i == p && k == s.order[i].len() {
                        assert(t.pending[c as int] == s.pending[c as int]);
                    } else {
                        let x = s.order[i][k];
                        assert(s.done[x as int]);
                        assert(x != p);
                        assert(t.pending[x as int] == s.pending[x as int]);
                    }
                }
                if i == p {
                    assert(t.trees[i].children.subrange(0, base) =~= s.trees[i].children.subrange(
                        0,
                        base,
                    ));
                }
                if t.done[i] {
                    match t.parents[i] {
                        Some(q) => {
                            if i == c {
                                assert(t.order[p as int][s.order[p as int].len() as int] == c);
                            } else {
                                let w = choose|w: int|
                                    0 <= w < s.order[q as int].len() && s.order[q as int][w]
                                        == i as usize;
                                if q != p {
                                    assert(t.pending[q as int] == s.pending[q as int]);
                                }
                                assert(t.order[q as int][w] == i as usize);
                            }
                        },
                        None => {},
                    }
                }
            },
            None => {},
        }
    }
    assert(after.no_duplicates() && forall|k: int| 0 <= k < after.len() ==> #[trigger] after[k] < n)
        by {
        assert(queue.drop_first().no_duplicates());
        assert forall|k: int| 0 <= k < queue.drop_first().len() implies queue.drop_first()[k]
            < n by {
            assert(queue[k + 1] < n);
        }
        match s.parents[c as int] {
            Some(p) => {
                lemma_waiting(nodes, s, p as int, c);
                assert(!queue.contains(p));
                if queue.drop_first().contains(p) {
                    let w = choose|w: int|
                        0 <= w < queue.drop_first().len() && queue.drop_first()[w] == p;
                    assert(queue[w + 1] == p);
                }
                assert(!queue.drop_first().contains(p));
            },
            None => {},
        }
    }
    assert forall|i: usize| i < n implies (#[trigger] after.contains(i) <==> !t.done[i as int]
        && t.pending[i as int] == Set::<usize>::empty()) by {
        let rest = queue.drop_first();
        assert(rest.contains(i) <==> queue.contains(i) && i != c) by {
            if rest.contains(i) {
                let w = choose|w: int| 0 <= w < rest.len() && rest[w] == i;
                assert(queue[w + 1] == i);
            }
            if queue.contains(i) && i != c {
                let w = choose|w: int| 0 <= w < queue.len() && queue[w] == i;
                assert(rest[w - 1] == i);
            }
        }
        match s.parents[c as int] {
            Some(p) => {
                lemma_waiting(nodes, s, p as int, c);
                if i != p {
                    assert(t.pending[i as int] == s.pending[i as int]);
                }
                if t.pending[p as int] == Set::<usize>::empty() {
                    if rest.contains(i) {
                        let w = choose|w: int| 0 <= w < rest.len() && rest[w] == i;
                        assert(after[w] == i);
                    }
                    if i == p {
                        assert(after[rest.len() as int] == p);
                    }
                    if after.contains(i) && i != p {
                        let w = choose|w: int| 0 <= w < after.len() && after[w] == i;
                        assert(rest[w] == i);
                    }
                }
            },
            None => {},
        }
    }
}

/// What holds of the finishing times at node `i` between two rounds.
spec fn node_times_ok(nodes: Seq<Entry>, s: Peel, i: int) -> bool {
    &&& in_finishing_order(nodes, s.order[i])
    &&& s.pending[i] == Set::<usize>::empty() && nodes[i].children.len() > 0 ==> s.order[i].len()
        > 0 && finishes(nodes, i) == nodes.len() + finishes(nodes, s.order[i].last() as int)
}

/// What holds of the finishing times between two rounds: the nodes are peeled in the
/// order in which they finish, and those in the queue finish after them, in the order
/// of the queue.
spec fn times_ok(nodes: Seq<Entry>, s: Peel, queue: Seq<usize>) -> bool {
    &&& in_finishing_order(nodes, s.peeled)
    &&& in_finishing_order(nodes, queue)
    &&& forall|k: int, j: int|
        0 <= k < s.peeled.len() && 0 <= j < queue.len() ==> finishes(
            nodes,
            #[trigger] s.peeled[k] as int,
        ) < finishes(nodes, #[trigger] queue[j] as int)
    &&& forall|i: int| 0 <= i < nodes.len() ==> #[trigger] node_times_ok(nodes, s, i)
}

/// A node that has been peeled finishes before the node at the head of the queue.
proof fn lemma_done_is_earlier(nodes: Seq<Entry>, s: Peel, queue: Seq<usize>, x: usize)
    requires
        peel_ok(nodes, s),
        times_ok(nodes, s, queue),
        queue.len() > 0,
        x < nodes.len(),
        s.done[x as int],
    ensures
        finishes(nodes, x as int) < finishes(nodes, queue[0] as int),
{
    assert(node_ok(nodes, s, x as int));
    let k = choose|k: int| 0 <= k < s.peeled.len() && s.peeled[k] == x;
    assert(finishes(nodes, s.peeled[k] as int) < finishes(nodes, queue[0] as int));
}

/// A node that has been peeled finishes at the same time, whether one looks as deep
/// as the list is long or one node less.
proof fn lemma_done_is_stable(nodes: Seq<Entry>, s: Peel, x: usize)
    requires
        peel_ok(nodes, s),
        x < nodes.len(),
        s.done[x as int],
        s.peeled.len() <= nodes.len(),
    ensures
        finish(nodes, x as int, (nodes.len() - 1) as nat) == finishes(nodes, x as int),
{
    assert(node_ok(nodes, s, x as int));
    lemma_resolvable_more(nodes, x as int, s.peeled.len(), nodes.len());
    lemma_latest_stable(
        nodes,
        x as int,
        nodes[x as int].children.len() as int,
        (nodes.len() - 1) as nat,
        nodes.len(),
    );
}

/// No node finishes at a negative time.
proof fn lemma_finish_not_negative(nodes: Seq<Entry>, i: int, fuel: nat)
    requires
        0 <= i,
    ensures
        finish(nodes, i, fuel) >= 0,
{
    if 0 <= i < nodes.len() {
        lemma_latest_not_negative(nodes, i, nodes[i].children.len() as int, fuel);
    }
}

/// One round of peeling keeps the finishing times in order.
proof fn lemma_round_times(
    nodes: Seq<Entry>,
    s: Peel,
    t: Peel,
    queue: Seq<usize>,
    after: Seq<usize>,
    c: usize,
)
    requires
        peel_ok(nodes, s),
        queue_ok(nodes, s, queue),
        times_ok(nodes, s, queue),
        queue.len() > 0,
        c == queue[0],
        s.peeled.len() < nodes.len(),
        t.parents == s.parents,
        t.done == s.done.update(c as int, true),
        t.peeled == s.peeled.push(c),
        t.pending.len() == s.pending.len(),
        t.order.len() == s.order.len(),
        match s.parents[c as int] {
            Some(p) => {
                &&& p < nodes.len()
                &&& p != c
                &&& forall|i: int|
                    0 <= i < nodes.len() && i != p ==> {
                        &&& #[trigger] t.pending[i] == s.pending[i]
                        &&& t.order[i] == s.order[i]
                    }
                &&& t.pending[p as int] == s.pending[p as int].remove(c)
                &&& t.order[p as int] == s.order[p as int].push(c)
                &&& after == if t.pending[p as int] == Set::<usize>::empty() {
                    queue.drop_first().push(p)
                } else {
                    queue.drop_first()
                }
            },
            None => {
                &&& t.pending == s.pending
                &&& t.order == s.order
                &&& after == queue.drop_first()
            },
        },
    ensures
        times_ok(nodes, t, after),
{
    let n = nodes.len();
    let rest = queue.drop_first();
    assert(queue.contains(c));
    assert(node_ok(nodes, s, c as int));
    assert(in_finishing_order(nodes, t.peeled)) by {
        assert forall|a: int, b: int| 0 <= a < b < t.peeled.len() implies finishes(
            nodes,
            #[trigger] t.peeled[a] as int,
        ) < finishes(nodes, #[trigger] t.peeled[b] as int) by {
            if b == s.peeled.len() {
                assert(finishes(nodes, s.peeled[a] as int) < finishes(nodes, queue[0] as int));
            } else {
                assert(finishes(nodes, s.peeled[a] as int) < finishes(nodes, s.peeled[b] as int));
            }
        }
    }
    assert(in_finishing_order(nodes, rest)) by {
        assert forall|a: int, b: int| 0 <= a < b < rest.len() implies finishes(
            nodes,
            #[trigger] rest[a] as int,
        ) < finishes(nodes, #[trigger] rest[b] as int) by {
            assert(finishes(nodes, queue[a + 1] as int) < finishes(nodes, queue[b + 1] as int));
        }
    }
    assert forall|k: int, j: int| 0 <= k < t.peeled.len() && 0 <= j < rest.len() implies finishes(
        nodes,
        #[trigger] t.peeled[k] as int,
    ) < finishes(nodes, #[trigger] rest[j] as int) by {
        if k == s.peeled.len() {
            assert(finishes(nodes, queue[0] as int) < finishes(nodes, queue[j + 1] as int));
        } else {
            assert(finishes(nodes, s.peeled[k] as int) < finishes(nodes, queue[j + 1] as int));
        }
    }
    match s.parents[c as int] {
        Some(p) => {
            lemma_waiting(nodes, s, p as int, c);
            assert(node_ok(nodes, s, p as int));
            assert(node_times_ok(nodes, s, p as int));
            let longer = t.order[p as int];
            let before = s.order[p as int];
            assert(in_finishing_order(nodes, longer)) by {
                assert forall|a: int, b: int| 0 <= a < b < longer.len() implies finishes(
                    nodes,
                    #[trigger] longer[a] as int,
                ) < finishes(nodes, #[trigger] longer[b] as int) by {
                    if b == before.len() {
                        let x = before[a];
                        assert(s.done[x as int]);
                        lemma_done_is_earlier(nodes, s, queue, x);
                    } else {
                        assert(finishes(nodes, before[a] as int) < finishes(
                            nodes,
                            before[b] as int,
                        ));
                    }
                }
            }
            assert forall|i: int| 0 <= i < n implies #[trigger] node_times_ok(nodes, t, i) by {
                assert(node_times_ok(nodes, s, i));
                if i != p {
                    assert(t.pending[i] == s.pending[i]);
                } else if t.pending[i] == Set::<usize>::empty() && nodes[i].children.len() > 0 {
                    let children = nodes[i].children;
                    assert(children.subrange(0, children.len() as int) == children);
                    assert(children.contains(c));
                    assert(node_times_ok(nodes, s, c as int));
                    lemma_ready_is_stable(nodes, s, c);
                    assert forall|k: int| 0 <= k < children.len() implies finish(
                        nodes,
                        #[trigger] children[k] as int,
                        (n - 1) as nat,
                    ) <= finish(nodes, c as int, (n - 1) as nat) by {
                        let x = children[k];
                        assert(children.contains(x));
                        assert(!t.pending[i].contains(x));
                        assert(s.pending[i].contains(x) || before.contains(x));
                        if x != c {
                            assert(before.contains(x));
                            let w = choose|w: int| 0 <= w < before.len() && before[w] == x;
                            assert(s.done[before[w] as int]);
                            lemma_done_is_earlier(nodes, s, queue, x);
                            lemma_done_is_stable(nodes, s, x);
                        }
                    }
                    lemma_latest_is(nodes, i, children.len() as int, n, c);
                    assert(longer.last() == c);
                }
            }
            if t.pending[p as int] == Set::<usize>::empty() {
                lemma_finish_not_negative(nodes, c as int, n);
                assert(node_times_ok(nodes, t, p as int));
                if nodes[p as int].children.len() == 0 {
                    assert(nodes[p as int].children.contains(c));
                }
                assert(finishes(nodes, p as int) == n + finishes(nodes, c as int));
                assert(in_finishing_order(nodes, after)) by {
                    assert forall|a: int, b: int| 0 <= a < b < after.len() implies finishes(
                        nodes,
                        #[trigger] after[a] as int,
                    ) < finishes(nodes, #[trigger] after[b] as int) by {
                        if b == rest.len() {
                            let q = rest[a];
                            assert(queue[a + 1] == q);
                            assert(queue.contains(q));
                            assert(node_ok(nodes, s, q as int));
                            assert(node_times_ok(nodes, s, q as int));
                            if nodes[q as int].children.len() > 0 {
                                let last = s.order[q as int].last();
                                assert(s.done[last as int]);
                                lemma_done_is_earlier(nodes, s, queue, last);
                            }
                        } else {
                            assert(finishes(nodes, rest[a] as int) < finishes(nodes, rest[b] as int));
                        }
                    }
                }
                assert forall|k: int, j: int|
                    0 <= k < t.peeled.len() && 0 <= j < after.len() implies finishes(
                    nodes,
                    #[trigger] t.peeled[k] as int,
                ) < finishes(nodes, #[trigger] after[j] as int) by {
                    if j == rest.len() {
                        if k < s.peeled.len() {
                            assert(finishes(nodes, s.peeled[k] as int) < finishes(
                                nodes,
                                queue[0] as int,
                            ));
                        }
                    } else {
                        assert(finishes(nodes, t.peeled[k] as int) < finishes(nodes, rest[j] as int));
                    }
                }
            }
        },
        None => {
            assert forall|i: int| 0 <= i < n implies #[trigger] node_times_ok(nodes, t, i) by {
                assert(node_times_ok(nodes, s, i));
            }
        },
    }
}

/// The node that is peeled in this round finishes at the same time, whether one looks
/// as deep as the list is long or one node less.
proof fn lemma_ready_is_stable(nodes: Seq<Entry>, s: Peel, c: usize)
    requires
        peel_ok(nodes, s),
        c < nodes.len(),
        s.pending[c as int] == Set::<usize>::empty(),
        s.peeled.len() < nodes.len(),
        in_finishing_order(nodes, s.order[c as int]),
    ensures
        finish(nodes, c as int, (nodes.len() - 1) as nat) == finishes(nodes, c as int),
{
    lemma_ready(nodes, s, c as int);
    lemma_resolvable_more(nodes, c as int, s.peeled.len() + 1, nodes.len());
    lemma_latest_stable(
        nodes,
        c as int,
        nodes[c as int].children.len() as int,
        (nodes.len() - 1) as nat,
        nodes.len(),
    );
}

/// Once the queue has run dry, a node that can be peeled at all has been peeled.
proof fn lemma_stuck(nodes: Seq<Entry>, s: Peel, i: int, fuel: nat)
    requires
        peel_ok(nodes, s),
        forall|j: int|
            0 <= j < nodes.len() && !(#[trigger] s.done[j]) ==> s.pending[j] != Set::<usize>::empty(),
        resolvable(nodes, i, fuel),
    ensures
        s.done[i],
    decreases fuel,
{
    assert(node_ok(nodes, s, i));
    let declared = nodes[i].children;
    let order = s.order[i];
    assert forall|x: usize| declared.contains(x) implies order.contains(x) by {
        let k = choose|k: int| 0 <= k < declared.len() && declared[k] == x;
        lemma_stuck(nodes, s, declared[k] as int, (fuel - 1) as nat);
        assert(node_ok(nodes, s, x as int));
        assert(owns(nodes, i, x));
        assert(is_parent(nodes, s.parents[x as int], x));
    }
    assert forall|x: usize| !s.pending[i].contains(x) by {
        if s.pending[i].contains(x) {
            assert(declared.contains(x));
            assert(order.contains(x));
        }
    }
    assert(s.pending[i] =~= Set::<usize>::empty());
}


/// Resolves the flat node list into trees.
///
/// A node resolves when each of its declared children is a node of the list, has it as
/// parent, and resolves itself. The nodes that resolve are returned in the order of
/// the list, each with a copy of every declared child behind the children it came
/// with, the children in the order in which they finish. The others are left out, and
/// `is_tree` says whether there were any.
pub fn resolve_node_hierarchy(nodes_intermediate: Vec<NodeEntry>) -> (r: ResolvedHierarchy)
    ensures
        r.nodes@.len() == kept(entries(nodes_intermediate@), nodes_intermediate@.len() as int).len(),
        r.indices@.len() == r.nodes@.len(),
        forall|j: int|
            0 <= j < r.indices@.len() ==> (#[trigger] r.indices@[j]) == kept(
                entries(nodes_intermediate@),
                nodes_intermediate@.len() as int,
            )[j],
        forall|j: int|
            0 <= j < r.nodes@.len() ==> {
                let i = kept(entries(nodes_intermediate@), nodes_intermediate@.len() as int)[j];
                &&& (#[trigger] r.nodes@[j]).0@ == entries(nodes_intermediate@)[i].label
                &&& linked(entries(nodes_intermediate@), i, r.nodes@[j].1@)
            },
        is_first_fault(entries(nodes_intermediate@), r.warning),
        r.is_tree <==> forall|i: int|
            0 <= i < nodes_intermediate@.len() ==> resolves(entries(nodes_intermediate@), i),
        forall|i: int, fuel: nat|
            resolvable(entries(nodes_intermediate@), i, fuel) ==> resolves(entries(nodes_intermediate@), i),
        is_forest(entries(nodes_intermediate@)) ==> {
            &&& r.is_tree
            &&& r.nodes@.len() == nodes_intermediate@.len()
            &&& forall|i: int|
                0 <= i < r.nodes@.len() ==> {
                    &&& (#[trigger] r.nodes@[i]).0@ == entries(nodes_intermediate@)[i].label
                    &&& r.nodes@[i].1@.children.len() == entries(nodes_intermediate@)[i].node.children.len()
                        + entries(nodes_intermediate@)[i].children.len()
                }
        },
{
    let n = nodes_intermediate.len();
    let ghost nodes = entries(nodes_intermediate@);
    let (parents, warning) = find_parents(&nodes_intermediate);
    let mut pending: Vec<IndexSet> = Vec::new();
    let mut done: Vec<bool> = Vec::new();
    let mut trees: Vec<GltfNode> = Vec::new();
    let mut queue: VecDeque<usize> = VecDeque::new();
    let mut i: usize = 0;
    while i < n
        invariant
            i <= n,
            n == nodes.len(),
            nodes == entries(nodes_intermediate@),
            pending@.len() == i,
            done@.len() == i,
            trees@.len() == i,
            forall|j: int|
                0 <= j < i ==> held(#[trigger] pending@[j]) == nodes[j].children.to_set(),
            forall|j: int| 0 <= j < i ==> !(#[trigger] done@[j]),
            forall|j: int| 0 <= j < i ==> (#[trigger] trees@[j])@ == nodes[j].node,
            queue@.no_duplicates(),
            forall|k: int| 0 <= k < queue@.len() ==> #[trigger] queue@[k] < i,
            forall|a: int, b: int|
                0 <= a < b < queue@.len() ==> #[trigger] queue@[a] < #[trigger] queue@[b],
            forall|j: usize|
                j < i ==> (#[trigger] queue@.contains(j) <==> held(pending@[j as int])
                    == Set::<usize>::empty()),
        decreases n - i,
    {
        let children = IndexSet::from_indices(&nodes_intermediate[i].2);
        let ghost waiting = queue@;
        if children.is_empty() {
            queue.push_back(i);
        }
        let ghost pending_before = pending@;
        let ghost done_before = done@;
        let ghost trees_before = trees@;
        pending.push(children);
        done.push(false);
        trees.push(nodes_intermediate[i].1.duplicate());
        proof {
            assert forall|j: int| 0 <= j < i + 1 implies held(#[trigger] pending@[j])
                == nodes[j].children.to_set() by {
                if j < i {
                    assert(pending@[j] == pending_before[j]);
                } else {
                    assert(nodes[j].children == nodes_intermediate@[j].2@);
                }
            }
            assert forall|j: int| 0 <= j < i + 1 implies !(#[trigger] done@[j]) by {
                if j < i {
                    assert(done@[j] == done_before[j]);
                }
            }
            assert forall|j: int| 0 <= j < i + 1 implies (#[trigger] trees@[j])@
                == nodes[j].node by {
                if j < i {
                    assert(trees@[j] == trees_before[j]);
                } else {
                    assert(nodes[j].node == nodes_intermediate@[j].1@);
                }
            }
            assert forall|j: usize| j < i + 1 implies (#[trigger] queue@.contains(j) <==> held(
                pending@[j as int],
            ) == Set::<usize>::empty()) by {
                if j < i {
                    assert(pending@[j as int] == pending_before[j as int]);
                }
                if waiting.contains(j) {
                    let w = choose|w: int| 0 <= w < waiting.len() && waiting[w] == j;
                    assert(queue@[w] == j);
                }
                if queue@.contains(j) && j != i {
                    let w = choose|w: int| 0 <= w < queue@.len() && queue@[w] == j;
                    assert(waiting[w] == j);
                }
                if held(children) == Set::<usize>::empty() && j == i {
                    assert(queue@[waiting.len() as int] == i);
                }
            }
        }
        i = i + 1;
    }
    let ghost mut order: Seq<Seq<usize>> = Seq::new(n as nat, |i: int| Seq::<usize>::empty());
    let ghost mut peeled: Seq<usize> = Seq::empty();
    proof {
        let s = peel_of(parents@, pending@, done@, order, trees@, peeled);
        assert forall|i: int| 0 <= i < n implies #[trigger] node_ok(nodes, s, i) by {
            assert(held(pending@[i]) == nodes[i].children.to_set());
            assert(s.trees[i] == nodes[i].node);
            assert(s.trees[i].children.subrange(0, nodes[i].node.children.len() as int)
                =~= nodes[i].node.children);
        }
        assert forall|i: usize| i < n implies (#[trigger] queue@.contains(i) <==> !s.done[i as int]
            && s.pending[i as int] == Set::<usize>::empty()) by {
            assert(held(pending@[i as int]) == nodes[i as int].children.to_set());
        }
        assert forall|i: int| 0 <= i < n implies #[trigger] node_times_ok(nodes, s, i) by {
            assert(held(pending@[i]) == nodes[i].children.to_set());
            if nodes[i].children.len() > 0 {
                assert(nodes[i].children.to_set().contains(nodes[i].children[0]));
            }
        }
        assert(in_finishing_order(nodes, queue@)) by {
            assert forall|a: int, b: int| 0 <= a < b < queue@.len() implies finishes(
                nodes,
                #[trigger] queue@[a] as int,
            ) < finishes(nodes, #[trigger] queue@[b] as int) by {
                let x = queue@[a];
                let y = queue@[b];
                assert(queue@.contains(x) && queue@.contains(y));
                assert(held(pending@[x as int]) == nodes[x as int].children.to_set());
                assert(held(pending@[y as int]) == nodes[y as int].children.to_set());
                if nodes[x as int].children.len() > 0 {
                    assert(nodes[x as int].children.to_set().contains(nodes[x as int].children[0]));
                }
                if nodes[y as int].children.len() > 0 {
                    assert(nodes[y as int].children.to_set().contains(nodes[y as int].children[0]));
                }
            }
        }
    }
    while queue.len() > 0
        invariant
            n == nodes.len(),
            nodes == entries(nodes_intermediate@),
            parents@.len() == n,
            pending@.len() == n,
            done@.len() == n,
            trees@.len() == n,
            peel_ok(nodes, peel_of(parents@, pending@, done@, order, trees@, peeled)),
            queue_ok(nodes, peel_of(parents@, pending@, done@, order, trees@, peeled), queue@),
            times_ok(nodes, peel_of(parents@, pending@, done@, order, trees@, peeled), queue@),
            peeled.len() <= n,
        decreases n - peeled.len(),
    {
        let ghost s = peel_of(parents@, pending@, done@, order, trees@, peeled);
        let ghost waiting = queue@;
        let index = queue.pop_front().unwrap();
        proof {
            assert(waiting.contains(index));
            assert(node_ok(nodes, s, index as int));
            assert(node_times_ok(nodes, s, index as int));
            lemma_ready(nodes, s, index as int);
            assert(!peeled.contains(index));
            lemma_at_most(peeled.push(index), n);
        }
        done[index] = true;
        proof {
            peeled = peeled.push(index);
        }
        match parents[index] {
            Some(parent_index) => {
                proof {
                    lemma_waiting(nodes, s, parent_index as int, index);
                }
                let child = trees[index].duplicate();
                trees[parent_index].children.push(child);
                pending[parent_index].remove(index);
                proof {
                    order = order.update(
                        parent_index as int,
                        order[parent_index as int].push(index),
                    );
                }
                if pending[parent_index].is_empty() {
                    queue.push_back(parent_index);
                }
            },
            None => {},
        }
        proof {
            let t = peel_of(parents@, pending@, done@, order, trees@, peeled);
            match parents@[index as int] {
                Some(p) => {
                    assert(t.trees[p as int].children =~= s.trees[p as int].children.push(
                        s.trees[index as int],
                    ));
                },
                None => {
                    assert(t.trees =~= s.trees);
                    assert(t.pending =~= s.pending);
                },
            }
            assert(waiting.drop_first() =~= waiting.subrange(1, waiting.len() as int));
            lemma_round(nodes, s, t, waiting, queue@, index);
            lemma_round_times(nodes, s, t, waiting, queue@, index);
            lemma_at_most(peeled, n);
        }
    }
    let ghost last = peel_of(parents@, pending@, done@, order, trees@, peeled);
    proof {
        assert forall|j: int| 0 <= j < n && !(#[trigger] last.done[j]) implies last.pending[j]
            != Set::<usize>::empty() by {
            assert(!queue@.contains(j as usize));
        }
        assert forall|i: int, fuel: nat| resolvable(nodes, i, fuel) implies resolves(nodes, i) by {
            lemma_stuck(nodes, last, i, fuel);
            assert(node_ok(nodes, last, i));
            lemma_resolvable_more(nodes, i, peeled.len(), n as nat);
        }
        assert forall|i: int| 0 <= i < n implies (#[trigger] done@[i] <==> resolves(nodes, i)) by {
            assert(node_ok(nodes, last, i));
            if done@[i] {
                lemma_resolvable_more(nodes, i, peeled.len(), n as nat);
            }
            if resolves(nodes, i) {
                lemma_stuck(nodes, last, i, n as nat);
            }
        }
        assert forall|j: int| 0 <= j < n && done@[j] implies linked(
            nodes,
            j,
            #[trigger] trees@[j]@,
        ) by {
            assert(node_ok(nodes, last, j));
        }
    }
    let mut resolved: Vec<(String, GltfNode)> = Vec::new();
    let mut indices: Vec<usize> = Vec::new();
    let mut is_tree = true;
    let mut i: usize = 0;
    while i < n
        invariant
            i <= n,
            n == nodes.len(),
            nodes == entries(nodes_intermediate@),
            done@.len() == n,
            trees@.len() == n,
            forall|j: int| 0 <= j < n ==> (#[trigger] done@[j] <==> resolves(nodes, j)),
            forall|j: int| 0 <= j < n && done@[j] ==> linked(nodes, j, #[trigger] trees@[j]@),
            resolved@.len() == kept(nodes, i as int).len(),
            indices@.len() == resolved@.len(),
            forall|j: int|
                0 <= j < indices@.len() ==> (#[trigger] indices@[j]) == kept(nodes, i as int)[j],
            forall|j: int|
                0 <= j < resolved@.len() ==> {
                    let at = kept(nodes, i as int)[j];
                    &&& (#[trigger] resolved@[j]).0@ == nodes[at].label
                    &&& linked(nodes, at, resolved@[j].1@)
                },
            is_tree <==> forall|j: int| 0 <= j < i ==> resolves(nodes, j),
        decreases n - i,
    {
        proof {
            lemma_kept_ascending(nodes, i as int);
        }
        if done[i] {
            resolved.push((nodes_intermediate[i].0.clone(), trees[i].duplicate()));
            indices.push(i);
        } else {
            is_tree = false;
        }
        i = i + 1;
    }
    proof {
        if is_forest(nodes) {
            let rank = choose|rank: Seq<nat>| ranks(nodes, rank);
            assert forall|i: int| 0 <= i < n implies resolves(nodes, i) by {
                lemma_forest_peels(nodes, rank, i);
            }
            lemma_kept_whole(nodes, n as int);
            assert forall|i: int| 0 <= i < resolved@.len() implies (#[trigger] resolved@[i]).1@.children.len()
                == nodes[i].node.children.len() + nodes[i].children.len() by {
                lemma_forest_child_count(nodes, i, resolved@[i].1@);
            }
        }
    }
    ResolvedHierarchy { nodes: resolved, indices, warning, is_tree }
}

} // verus!
