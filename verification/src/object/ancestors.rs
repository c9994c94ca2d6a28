//! Depth and ancestors
use vstd::prelude::*;

use crate::object::depth::Depth;
use crate::object::children;
use crate::object::types::{ChildKind, ObjectType};
use crate::object::{self, TopologyObject};
use crate::topology::tree;
use crate::topology::Topology;

verus! {

/// Truth that object `a` is an ancestor of object `i`
pub open spec fn is_ancestor(objects: Seq<TopologyObject>, a: int, i: int) -> bool {
    tree::ancestor_ids(objects, i).contains(a)
}

/// Truth that object `a` is the deepest of the objects that are an ancestor of
/// both `i` and `j`
pub open spec fn lowest_common(objects: Seq<TopologyObject>, i: int, j: int, a: int) -> bool {
    &&& is_ancestor(objects, a, i)
    &&& is_ancestor(objects, a, j)
    &&& forall|c: int|
        #![trigger is_ancestor(objects, c, i), is_ancestor(objects, c, j)]
        is_ancestor(objects, c, i) && is_ancestor(objects, c, j) ==> c == a || is_ancestor(
            objects,
            c,
            a,
        )
}

/// Truth that object `i` is in the subtree that begins with object `root`
///
/// An object that has CPUs is in the subtree that begins with itself, unlike I/O and
/// Misc objects.
pub open spec fn in_subtree(objects: Seq<TopologyObject>, i: int, root: int) -> bool {
    is_ancestor(objects, root, i) || (i == root && objects[i].cpuset is Some)
}

/// Depth and ancestors
impl TopologyObject {
    /// Vertical index in the hierarchy
    ///
    /// For normal objects, this is the depth of the horizontal level that
    /// contains this object and its cousins of the same type. If the topology
    /// is symmetric, this is equal to the parent depth plus one, and also equal
    /// to the number of parent/child links from the root object to here.
    ///
    /// For special objects (NUMA nodes, I/O and Misc) that are not in the main
    /// tree, this is a special value that is unique to their type.
    pub fn depth(&self) -> (depth: Depth)
        requires
            Depth::of_raw(self.depth) is Some,
        ensures
            Depth::of_raw(self.depth) == Some(depth),
            depth == self.at_depth(),
            depth.raw() == self.depth,
    {
        Depth::from_raw(self.depth).unwrap()
    }

    /// Parent object
    pub fn parent<'a>(&self, topology: &'a Topology) -> (parent: Option<&'a TopologyObject>)
        requires
            topology.wf(),
            topology.has(*self),
        ensures
            object::designates(topology@, parent, self.parent),
            parent is None <==> self.id == 0,
            parent matches Some(p) ==> {
                &&& topology.has(*p)
                &&& self.parent == Some(p.id)
                &&& p.id < self.id
            },
    {
        proof {
            assert(tree::object_wf(topology@, self.id as int));
            assert(forall|k: int| 0 <= k < topology@.len() ==> #[trigger] topology@[k].id == k);
        }
        match self.parent {
            Some(id) => Some(topology.at(id)),
            None => None,
        }
    }

    /// Chain of parent objects up to the topology root
    pub fn ancestors<'a>(&self, topology: &'a Topology) -> (ancestors: Vec<&'a TopologyObject>)
        requires
            topology.wf(),
            topology.has(*self),
        ensures
            object::lists(
                topology@,
                ancestors@,
                tree::ancestor_ids(topology@, self.id as int),
            ),
    {
        let ghost chain = tree::ancestor_ids(topology@, self.id as int);
        let mut ancestors: Vec<&'a TopologyObject> = Vec::new();
        let mut current: &TopologyObject = self;
        assert(chain.skip(0) =~= chain);
        loop
            invariant
                topology.wf(),
                topology.has(*current),
                ancestors@.len() <= chain.len(),
                object::lists(topology@, ancestors@, chain.take(ancestors@.len() as int)),
                chain.skip(ancestors@.len() as int) == tree::ancestor_ids(
                    topology@,
                    current.id as int,
                ),
            ensures
                object::lists(topology@, ancestors@, chain),
            decreases current.id,
        {
            let ghost n = ancestors@.len() as int;
            assert(tree::object_wf(topology@, current.id as int));
            match current.parent(topology) {
                Some(parent) => {
                    proof {
                        let rest = chain.skip(n);
                        assert(rest =~= seq![parent.id as int] + tree::ancestor_ids(
                            topology@,
                            parent.id as int,
                        ));
                        assert(rest[0] == chain[n]);
                        assert(chain.skip(n + 1) =~= rest.drop_first());
                        assert(rest.drop_first() =~= tree::ancestor_ids(
                            topology@,
                            parent.id as int,
                        ));
                        assert(chain.take(n + 1) =~= chain.take(n).push(parent.id as int));
                        object::lemma_lists_push(
                            topology@,
                            ancestors@,
                            chain.take(n),
                            parent,
                            parent.id as int,
                        );
                    }
                    ancestors.push(parent);
                    current = parent;
                },
                None => {
                    assert(chain.take(n) =~= chain) by {
                        assert(chain.skip(n).len() == 0);
                    }
                    break ;
                },
            }
        }
        ancestors
    }

    /// Search for an ancestor at a certain depth
    ///
    /// Will return `None` if the requested depth is deeper than the depth of
    /// the current object.
    pub fn ancestor_at_depth<'a>(&self, topology: &'a Topology, depth: Depth) -> (ancestor: Option<
        &'a TopologyObject,
    >)
        requires
            topology.wf(),
            topology.has(*self),
        ensures
            object::finds_first(
                topology@,
                ancestor,
                tree::ancestor_ids(topology@, self.id as int),
                |candidate: TopologyObject| candidate.at_depth() == depth,
            ),
    {
        let ghost chain = tree::ancestor_ids(topology@, self.id as int);
        proof {
            assert(topology@[self.id as int].identified());
            lemma_ancestors_are_above(topology@, self.id as int);
        }
        // Fast failure path when depth is comparable
        let self_depth = self.depth();
        if let (Some(self_levels), Some(levels)) = (self_depth.normal(), depth.normal()) {
            if self_levels <= levels {
                proof {
                    lemma_ancestors_are_shallower(topology@, self.id as int);
                    assert forall|k: int| 0 <= k < chain.len() implies topology@[#[trigger] chain[k]].at_depth()
                        != depth by {
                        assert(topology@[chain[k]].depth < self.depth);
                        assert(topology@[chain[k]].identified());
                    }
                }
                return None;
            }
        }
        // Otherwise, walk parents looking for the right depth

        let ancestors = self.ancestors(topology);
        let mut k: usize = 0;
        while k < ancestors.len()
            invariant
                topology.wf(),
                chain == tree::ancestor_ids(topology@, self.id as int),
                k <= ancestors@.len(),
                object::lists(topology@, ancestors@, chain),
                forall|j: int|
                    0 <= j < k ==> topology@[#[trigger] chain[j]].at_depth() != depth,
            decreases ancestors@.len() - k,
        {
            assert(*ancestors@[k as int] == topology@[chain[k as int]]);
            assert(topology@[chain[k as int]].identified());
            if ancestors[k].depth() == depth {
                return Some(ancestors[k]);
            }
            k += 1;
        }
        None
    }

    /// Search for the first ancestor with a certain type in ascending order
    ///
    /// Will return `None` if the requested type appears deeper than the
    /// current object (e.g. `PU`) or doesn't appear in the topology.
    pub fn first_ancestor_with_type<'a>(
        &self,
        topology: &'a Topology,
        ty: ObjectType,
    ) -> (ancestor: Option<&'a TopologyObject>)
        requires
            topology.wf(),
            topology.has(*self),
        ensures
            object::finds_first(
                topology@,
                ancestor,
                tree::ancestor_ids(topology@, self.id as int),
                |candidate: TopologyObject| candidate.ty() == ty,
            ),
    {
        let ghost chain = tree::ancestor_ids(topology@, self.id as int);
        let ancestors = self.ancestors(topology);
        let mut k: usize = 0;
        while k < ancestors.len()
            invariant
                topology.wf(),
                chain == tree::ancestor_ids(topology@, self.id as int),
                k <= ancestors@.len(),
                object::lists(topology@, ancestors@, chain),
                forall|j: int| 0 <= j < k ==> topology@[#[trigger] chain[j]].ty() != ty,
            decreases ancestors@.len() - k,
        {
            assert(*ancestors@[k as int] == topology@[chain[k as int]]);
            assert(topology@[chain[k as int]].identified());
            if ancestors[k].object_type() == ty {
                return Some(ancestors[k]);
            }
            k += 1;
        }
        None
    }

    /// Number of levels above an object of the main tree
    fn levels(&self) -> (levels: u32)
        requires
            self.depth >= 0,
        ensures
            levels == self.depth,
    {
        self.depth().normal().unwrap()
    }

    /// Search for an ancestor that is shared with another object
    ///
    /// Both objects must have a normal depth, unlike memory or I/O objects.
    pub fn common_ancestor<'a>(
        &self,
        topology: &'a Topology,
        other: &TopologyObject,
    ) -> (ancestor: Option<&'a TopologyObject>)
        requires
            topology.wf(),
            topology.has(*self),
            topology.has(*other),
            self.at_depth() is Normal,
            other.at_depth() is Normal,
        ensures
            ancestor is None <==> self.id == 0 || other.id == 0,
            ancestor matches Some(a) ==> {
                &&& topology.has(*a)
                &&& lowest_common(topology@, self.id as int, other.id as int, a.id as int)
            },
    {
        let ghost objects = topology@;
        let ghost i = self.id as int;
        let ghost j = other.id as int;
        proof {
            lemma_ancestors_of_child(objects, i);
            lemma_ancestors_of_child(objects, j);
        }
        // Handle degenerate case
        if self.id == other.id {
            return self.parent(topology);
        }
        let mut parent1 = match self.parent(topology) {
            Some(parent) => parent,
            None => return None,
        };
        let mut parent2 = match other.parent(topology) {
            Some(parent) => parent,
            None => return None,
        };
        loop
            invariant
                objects == topology@,
                topology.wf(),
                i == self.id > 0,
                j == other.id > 0,
                topology.has(*self),
                topology.has(*other),
                topology.has(*parent1),
                topology.has(*parent2),
                parent1.depth >= 0,
                parent2.depth >= 0,
                narrowed(objects, i, j, parent1.id as int, parent2.id as int),
            decreases parent1.id + parent2.id,
        {
            // Walk up parent1 and parent2 ancestors, try to reach the same depth
            let depth2 = parent2.levels();
            let ghost start = parent1.id + parent2.id;
            while parent1.levels() > depth2
                invariant
                    objects == topology@,
                    topology.wf(),
                    i == self.id > 0,
                    j == other.id > 0,
                    topology.has(*self),
                    topology.has(*other),
                    topology.has(*parent1),
                    topology.has(*parent2),
                    parent1.depth >= 0,
                    parent2.depth == depth2,
                    narrowed(objects, i, j, parent1.id as int, parent2.id as int),
                    parent1.id + parent2.id <= start,
                decreases parent1.id,
            {
                proof {
                    lemma_narrow(objects, i, j, parent1.id as int, parent2.id as int);
                }
                parent1 = match parent1.parent(topology) {
                    Some(parent) => parent,
                    None => return None,
                };
            }
            let depth1 = parent1.levels();
            while parent2.levels() > depth1
                invariant
                    objects == topology@,
                    topology.wf(),
                    i == self.id > 0,
                    j == other.id > 0,
                    topology.has(*self),
                    topology.has(*other),
                    topology.has(*parent1),
                    topology.has(*parent2),
                    parent1.depth == depth1,
                    parent2.depth >= 0,
                    narrowed(objects, i, j, parent1.id as int, parent2.id as int),
                    parent1.id + parent2.id <= start,
                    parent1.id + parent2.id == start ==> depth1 <= depth2 == parent2.depth,
                decreases parent2.id,
            {
                proof {
                    lemma_narrow(objects, j, i, parent2.id as int, parent1.id as int);
                }
                parent2 = match parent2.parent(topology) {
                    Some(parent) => parent,
                    None => return None,
                };
            }
            // If we reached the same parent, we're done
            if parent1.id == parent2.id {
                return Some(parent1);
            }
            // Otherwise, either parent2 jumped above parent1 (which can happen
            // as a topology may "skip" depths on hybrid platforms or in the
            // presence of complicated allowed cpusets), or we reached cousin
            // objects and must go up one level.

            if parent1.depth == parent2.depth {
                proof {
                    lemma_narrow(objects, i, j, parent1.id as int, parent2.id as int);
                }
                parent1 = match parent1.parent(topology) {
                    Some(parent) => parent,
                    None => return None,
                };
                proof {
                    lemma_narrow(objects, j, i, parent2.id as int, parent1.id as int);
                }
                parent2 = match parent2.parent(topology) {
                    Some(parent) => parent,
                    None => return None,
                };
            }
        }
    }
}

/// Subtrees
impl TopologyObject {
    /// Truth that this object is in the subtree beginning with ancestor object
    /// `subtree_root`
    ///
    /// An object that has CPUs is in the subtree that begins with itself, unlike I/O
    /// and Misc objects.
    pub fn is_in_subtree(&self, topology: &Topology, subtree_root: &TopologyObject) -> (truth: bool)
        requires
            topology.wf(),
            topology.has(*self),
            topology.has(*subtree_root),
        ensures
            truth == in_subtree(topology@, self.id as int, subtree_root.id as int),
    {
        proof {
            lemma_ancestors_are_above(topology@, self.id as int);
        }
        if self.id == subtree_root.id {
            return self.cpuset().is_some();
        }
        // Fast failure path when there are CPUs to compare

        if let (Some(self_cpuset), Some(subtree_cpuset)) = (self.cpuset(), subtree_root.cpuset()) {
            if !subtree_cpuset.includes(self_cpuset) {
                proof {
                    if is_ancestor(topology@, subtree_root.id as int, self.id as int) {
                        lemma_cpus_of_ancestor(topology@, subtree_root.id as int, self.id as int);
                    }
                }
                return false;
            }
        }
        // Otherwise, walk the ancestor chain

        let ghost chain = tree::ancestor_ids(topology@, self.id as int);
        let ancestors = self.ancestors(topology);
        let mut k: usize = 0;
        while k < ancestors.len()
            invariant
                topology.wf(),
                k <= ancestors@.len(),
                object::lists(topology@, ancestors@, chain),
                forall|j: int| 0 <= j < k ==> #[trigger] chain[j] != subtree_root.id,
            ensures
                k < ancestors@.len() ==> chain.contains(subtree_root.id as int),
                k == ancestors@.len() ==> !chain.contains(subtree_root.id as int),
            decreases ancestors@.len() - k,
        {
            assert(*ancestors@[k as int] == topology@[chain[k as int]]);
            if ancestors[k].id == subtree_root.id {
                assert(chain[k as int] == subtree_root.id);
                break ;
            }
            k += 1;
        }
        k < ancestors.len()
    }
}

/// There is no more than one deepest common ancestor
pub proof fn law_common_ancestor_unique(
    objects: Seq<TopologyObject>,
    i: int,
    j: int,
    a: int,
    b: int,
)
    requires
        tree::tree_wf(objects),
        0 <= i < objects.len(),
        0 <= j < objects.len(),
        lowest_common(objects, i, j, a),
        lowest_common(objects, i, j, b),
    ensures
        a == b,
{
    lemma_ancestors_are_above(objects, i);
    lemma_ancestors_are_above(objects, a);
    lemma_ancestors_are_above(objects, b);
    assert(is_ancestor(objects, a, i) && is_ancestor(objects, b, i));
}

/// The common ancestor of two objects does not depend on their order
pub proof fn law_common_ancestor_symmetric(objects: Seq<TopologyObject>, i: int, j: int, a: int)
    ensures
        lowest_common(objects, i, j, a) <==> lowest_common(objects, j, i, a),
{
}

/// The chain of parents of an object ends with the root, unless the object is
/// the root, which has no parent
pub proof fn law_ancestors_end_with_root(objects: Seq<TopologyObject>, i: int)
    requires
        tree::tree_wf(objects),
        0 <= i < objects.len(),
    ensures
        i == 0 <==> tree::ancestor_ids(objects, i).len() == 0,
        i > 0 ==> tree::ancestor_ids(objects, i).last() == 0,
    decreases i,
{
    lemma_ancestors_of_child(objects, i);
    if i > 0 {
        law_ancestors_end_with_root(objects, (objects[i].parent->0) as int);
    }
}

/// No ancestor of an object of the main tree is found at the depth of this
/// object, or deeper
pub proof fn law_no_ancestor_below(objects: Seq<TopologyObject>, i: int, a: int, levels: u32)
    requires
        tree::tree_wf(objects),
        0 <= i < objects.len(),
        objects[i].at_depth() matches Depth::Normal(own) && own <= levels,
        is_ancestor(objects, a, i),
    ensures
        objects[a].at_depth() != Depth::Normal(levels),
{
    let chain = tree::ancestor_ids(objects, i);
    lemma_ancestors_are_shallower(objects, i);
    lemma_ancestors_are_above(objects, i);
    assert(objects[chain[chain.index_of(a)]].identified());
}

/// No ancestor of an object of the main tree has a type that is only found
/// deeper than this object, or not found at all
pub proof fn law_no_ancestor_of_deeper_type(
    objects: Seq<TopologyObject>,
    i: int,
    a: int,
    ty: ObjectType,
)
    requires
        tree::tree_wf(objects),
        0 <= i < objects.len(),
        objects[i].at_depth() is Normal,
        forall|k: int|
            0 <= k < objects.len() && (#[trigger] objects[k]).ty() == ty ==> objects[k].depth
                > objects[i].depth,
        is_ancestor(objects, a, i),
    ensures
        objects[a].ty() != ty,
{
    let chain = tree::ancestor_ids(objects, i);
    assert(objects[i].identified());
    lemma_ancestors_are_shallower(objects, i);
    lemma_ancestors_are_above(objects, i);
    assert(objects[chain[chain.index_of(a)]].depth < objects[i].depth);
}

/// An object of the main tree has no more ancestors than there are levels above
/// it
pub proof fn law_depth_bounds_ancestors(objects: Seq<TopologyObject>, i: int)
    requires
        tree::tree_wf(objects),
        0 <= i < objects.len(),
        objects[i].at_depth() is Normal,
    ensures
        tree::ancestor_ids(objects, i).len() <= objects[i].at_depth()->Normal_0,
    decreases i,
{
    assert(objects[i].identified());
    lemma_ancestors_of_child(objects, i);
    if i > 0 {
        let p = (objects[i].parent->0) as int;
        assert(objects[p].identified());
        law_depth_bounds_ancestors(objects, p);
    }
}

/// In a symmetric topology, an object of the main tree is one level deeper than
/// its parent, and there are as many parent/child links from the root to it as
/// there are levels above it
pub proof fn law_symmetric_depth(objects: Seq<TopologyObject>, i: int)
    requires
        tree::tree_wf(objects),
        0 <= i < objects.len(),
        objects[0].symmetric_subtree != 0,
        objects[i].at_depth() is Normal,
    ensures
        objects[i].parent matches Some(p) ==> {
            &&& objects[p as int].at_depth() is Normal
            &&& objects[i].at_depth()->Normal_0 == objects[p as int].at_depth()->Normal_0 + 1
        },
        tree::ancestor_ids(objects, i).len() == objects[i].at_depth()->Normal_0,
    decreases i,
{
    assert(objects[i].identified());
    assert(tree::object_wf(objects, i));
    lemma_ancestors_of_child(objects, i);
    if i > 0 {
        let p = (objects[i].parent->0) as int;
        assert(objects[p].identified());
        law_symmetric_depth(objects, p);
    }
}

/// The CPUs of an object are among those of each of its ancestors
proof fn lemma_cpus_of_ancestor(objects: Seq<TopologyObject>, a: int, i: int)
    requires
        tree::tree_wf(objects),
        0 <= i < objects.len(),
        is_ancestor(objects, a, i),
        objects[i].cpuset is Some,
    ensures
        objects[a].cpuset is Some,
        (objects[i].cpuset->0)@.subset_of((objects[a].cpuset->0)@),
    decreases i,
{
    lemma_ancestors_of_child(objects, i);
    assert(tree::object_wf(objects, i));
    let p = (objects[i].parent->0) as int;
    if a != p {
        lemma_cpus_of_ancestor(objects, a, p);
    }
}

/// The ancestors of an ancestor are ancestors
pub proof fn lemma_ancestor_of_ancestor(objects: Seq<TopologyObject>, a: int, b: int, i: int)
    requires
        tree::tree_wf(objects),
        0 <= i < objects.len(),
        is_ancestor(objects, b, i),
        is_ancestor(objects, a, b),
    ensures
        is_ancestor(objects, a, i),
    decreases i,
{
    lemma_ancestors_of_child(objects, i);
    let p = (objects[i].parent->0) as int;
    if b != p {
        lemma_ancestor_of_ancestor(objects, a, b, p);
    }
}

/// All objects are in the subtree of the root, subtrees nest, and two objects are
/// in each other's subtree only if they are the same
pub proof fn law_subtrees_nest(objects: Seq<TopologyObject>, i: int, j: int, k: int)
    requires
        tree::tree_wf(objects),
        0 <= i < objects.len(),
        0 <= j < objects.len(),
        0 <= k < objects.len(),
    ensures
        in_subtree(objects, i, 0),
        in_subtree(objects, i, j) && in_subtree(objects, j, k) ==> in_subtree(objects, i, k),
        in_subtree(objects, i, j) && in_subtree(objects, j, i) ==> i == j,
{
    assert(tree::object_wf(objects, 0));
    assert(objects[0].identified());
    if i > 0 {
        lemma_root_is_ancestor(objects, i);
    }
    if is_ancestor(objects, j, i) && is_ancestor(objects, k, j) {
        lemma_ancestor_of_ancestor(objects, k, j, i);
    }
    lemma_ancestors_are_above(objects, i);
    lemma_ancestors_are_above(objects, j);
}

/// The CPUs of an object are among those of each subtree that it is in
pub proof fn law_subtree_has_cpus(objects: Seq<TopologyObject>, i: int, root: int)
    requires
        tree::tree_wf(objects),
        0 <= i < objects.len(),
        in_subtree(objects, i, root),
        objects[i].cpuset is Some,
    ensures
        objects[root].cpuset is Some,
        (objects[i].cpuset->0)@.subset_of((objects[root].cpuset->0)@),
{
    if i != root {
        lemma_cpus_of_ancestor(objects, root, i);
    }
}

/// Truth that object `p` is a PU in the subtree that begins with object `i`, and
/// that a CPU is the one that it stands for
pub open spec fn is_pu_below(objects: Seq<TopologyObject>, i: int, p: int, cpu: nat) -> bool {
    &&& 0 <= p < objects.len()
    &&& in_subtree(objects, p, i)
    &&& objects[p].ty() is PU
    &&& objects[p].os_index == cpu
}

/// A CPU of an object of the main tree is that of a PU below it
proof fn lemma_cpu_has_pu(objects: Seq<TopologyObject>, i: int, cpu: nat) -> (p: int)
    requires
        tree::tree_wf(objects),
        0 <= i < objects.len(),
        objects[i].ty().normal(),
        objects[i].has_cpu(cpu),
    ensures
        is_pu_below(objects, i, p, cpu),
    decreases objects.len() - i,
{
    assert(tree::object_wf(objects, i));
    if objects[i].ty() is PU {
        i
    } else {
        children::law_child_list(objects, i, ChildKind::Normal);
        let ids = tree::child_ids(objects, i, ChildKind::Normal);
        let k = choose|k: int| 0 <= k < ids.len() && objects[#[trigger] ids[k]].has_cpu(cpu);
        let c = ids[k];
        let p = lemma_cpu_has_pu(objects, c, cpu);
        lemma_ancestors_of_child(objects, c);
        assert(objects[i].id == i);
        assert(is_ancestor(objects, i, c));
        law_subtrees_nest(objects, p, c, i);
        p
    }
}

/// The CPUs of an object of the main tree are those for which there are PUs in
/// the topology under this object
pub proof fn law_cpus_are_those_of_pus(objects: Seq<TopologyObject>, i: int, cpu: nat)
    requires
        tree::tree_wf(objects),
        0 <= i < objects.len(),
        objects[i].ty().normal(),
    ensures
        objects[i].has_cpu(cpu) <==> exists|p: int| #[trigger] is_pu_below(objects, i, p, cpu),
{
    if objects[i].has_cpu(cpu) {
        let p = lemma_cpu_has_pu(objects, i, cpu);
        assert(is_pu_below(objects, i, p, cpu));
    }
    if exists|p: int| #[trigger] is_pu_below(objects, i, p, cpu) {
        let p = choose|p: int| #[trigger] is_pu_below(objects, i, p, cpu);
        assert(tree::object_wf(objects, p));
        law_subtree_has_cpus(objects, p, i);
    }
}

/// The ancestors of an object are its parent and the ancestors of its parent
pub proof fn lemma_ancestors_of_child(objects: Seq<TopologyObject>, i: int)
    requires
        tree::tree_wf(objects),
        0 <= i < objects.len(),
    ensures
        objects[i].parent is None <==> i == 0,
        objects[i].parent is None ==> tree::ancestor_ids(objects, i) == Seq::<int>::empty(),
        objects[i].parent matches Some(p) ==> {
            &&& 0 <= p < i
            &&& objects[i].depth >= 0 ==> 0 <= objects[p as int].depth < objects[i].depth
            &&& tree::ancestor_ids(objects, i) == seq![p as int] + tree::ancestor_ids(
                objects,
                p as int,
            )
            &&& forall|c: int| #[trigger]
                is_ancestor(objects, c, i) <==> c == p || is_ancestor(objects, c, p as int)
        },
{
    assert(tree::object_wf(objects, i));
    assert(objects[i].identified());
    if let Some(p) = objects[i].parent {
        let chain = tree::ancestor_ids(objects, i);
        let above = tree::ancestor_ids(objects, p as int);
        assert forall|c: int| #[trigger]
            is_ancestor(objects, c, i) <==> c == p || is_ancestor(objects, c, p as int) by {
            assert(chain[0] == p);
            if chain.contains(c) && c != p {
                let k = chain.index_of(c);
                assert(above[k - 1] == c);
            }
            if above.contains(c) {
                let k = above.index_of(c);
                assert(chain[k + 1] == c);
            }
        }
    }
}

/// The ancestors of an object come before it
pub proof fn lemma_ancestors_are_above(objects: Seq<TopologyObject>, i: int)
    requires
        tree::tree_wf(objects),
        0 <= i < objects.len(),
    ensures
        forall|k: int|
            0 <= k < tree::ancestor_ids(objects, i).len() ==> 0 <= #[trigger] tree::ancestor_ids(
                objects,
                i,
            )[k] < i,
        forall|c: int| #[trigger] is_ancestor(objects, c, i) ==> 0 <= c < i,
    decreases i,
{
    lemma_ancestors_of_child(objects, i);
    if let Some(p) = objects[i].parent {
        lemma_ancestors_are_above(objects, p as int);
        let above = tree::ancestor_ids(objects, p as int);
        assert forall|k: int| 0 <= k < tree::ancestor_ids(objects, i).len() implies 0
            <= #[trigger] tree::ancestor_ids(objects, i)[k] < i by {
            if k > 0 {
                assert(tree::ancestor_ids(objects, i)[k] == above[k - 1]);
            }
        }
    }
}

/// The ancestors of an object of the main tree are in the main tree, and not as
/// deep as this object
pub proof fn lemma_ancestors_are_shallower(objects: Seq<TopologyObject>, i: int)
    requires
        tree::tree_wf(objects),
        0 <= i < objects.len(),
        objects[i].depth >= 0,
    ensures
        forall|k: int|
            0 <= k < tree::ancestor_ids(objects, i).len() ==> 0 <= objects[#[trigger] tree::ancestor_ids(
                objects,
                i,
            )[k]].depth < objects[i].depth,
    decreases i,
{
    lemma_ancestors_of_child(objects, i);
    if let Some(p) = objects[i].parent {
        lemma_ancestors_are_shallower(objects, p as int);
        let above = tree::ancestor_ids(objects, p as int);
        assert forall|k: int| 0 <= k < tree::ancestor_ids(objects, i).len() implies 0
            <= objects[#[trigger] tree::ancestor_ids(objects, i)[k]].depth < objects[i].depth by {
            if k > 0 {
                assert(tree::ancestor_ids(objects, i)[k] == above[k - 1]);
            }
        }
    }
}

/// The root is an ancestor of every other object
pub proof fn lemma_root_is_ancestor(objects: Seq<TopologyObject>, i: int)
    requires
        tree::tree_wf(objects),
        0 < i < objects.len(),
    ensures
        is_ancestor(objects, 0, i),
    decreases i,
{
    lemma_ancestors_of_child(objects, i);
    let p = (objects[i].parent->0) as int;
    if p > 0 {
        lemma_root_is_ancestor(objects, p);
    }
}

/// The parent of an ancestor is an ancestor
proof fn lemma_parent_of_ancestor(objects: Seq<TopologyObject>, a: int, i: int)
    requires
        tree::tree_wf(objects),
        0 <= i < objects.len(),
        is_ancestor(objects, a, i),
        objects[a].parent is Some,
    ensures
        is_ancestor(objects, (objects[a].parent->0) as int, i),
    decreases i,
{
    lemma_ancestors_of_child(objects, i);
    lemma_ancestors_are_above(objects, i);
    lemma_ancestors_of_child(objects, a);
    let p = (objects[i].parent->0) as int;
    if a != p {
        lemma_parent_of_ancestor(objects, a, p);
    }
}

/// Truth that the search for the deepest common ancestor of `i` and `j` may go
/// on from objects `a` and `b`, which are ancestors of one of them each
///
/// No common ancestor has been left behind.
spec fn narrowed(objects: Seq<TopologyObject>, i: int, j: int, a: int, b: int) -> bool {
    &&& is_ancestor(objects, a, i)
    &&& is_ancestor(objects, b, j)
    &&& forall|c: int|
        #![trigger is_ancestor(objects, c, i), is_ancestor(objects, c, j)]
        is_ancestor(objects, c, i) && is_ancestor(objects, c, j) ==> {
            &&& c == a || is_ancestor(objects, c, a)
            &&& c == b || is_ancestor(objects, c, b)
        }
}

/// Unless `b` is deeper than `a`, or the same object, `a` is no ancestor of
/// `j`, and the search goes on from the parent of `a`
proof fn lemma_narrow(objects: Seq<TopologyObject>, i: int, j: int, a: int, b: int)
    requires
        tree::tree_wf(objects),
        0 < i < objects.len(),
        0 < j < objects.len(),
        0 <= a < objects.len(),
        0 <= b < objects.len(),
        objects[a].depth >= objects[b].depth >= 0,
        a != b,
        narrowed(objects, i, j, a, b),
    ensures
        objects[a].parent is Some,
        0 <= objects[(objects[a].parent->0) as int].depth < objects[a].depth,
        narrowed(objects, i, j, (objects[a].parent->0) as int, b),
{
    let p = (objects[a].parent->0) as int;
    lemma_ancestors_are_shallower(objects, b);
    lemma_ancestors_of_child(objects, a);
    assert(!is_ancestor(objects, a, b)) by {
        let chain = tree::ancestor_ids(objects, b);
        if chain.contains(a) {
            let k = chain.index_of(a);
            assert(objects[chain[k]].depth < objects[b].depth);
        }
    }
    lemma_root_is_ancestor(objects, i);
    lemma_root_is_ancestor(objects, j);
    assert(is_ancestor(objects, 0, i) && is_ancestor(objects, 0, j));
    assert(a != 0);
    lemma_parent_of_ancestor(objects, a, i);
}

/// The ancestors of an object are its parent and those of its parent, and the root has none
pub proof fn law_ancestor_steps(objects: Seq<TopologyObject>, i: int, a: int)
    requires
        tree::tree_wf(objects),
        0 <= i < objects.len(),
    ensures
        objects[i].parent is None ==> !is_ancestor(objects, a, i),
        objects[i].parent matches Some(parent) ==> (is_ancestor(objects, a, i) <==> a == parent
            || is_ancestor(objects, a, parent as int)),
{
    lemma_ancestors_of_child(objects, i);
}

/// The first ancestor in a list is the parent, each next one is the parent of the one
/// before, and the last one has no parent
pub proof fn law_listed_ancestors(
    objects: Seq<TopologyObject>,
    list: Seq<&TopologyObject>,
    i: int,
    k: int,
)
    requires
        tree::tree_wf(objects),
        0 <= i < objects.len(),
        object::lists(objects, list, tree::ancestor_ids(objects, i)),
        0 <= k < list.len(),
    ensures
        Some(list[0].id) == objects[i].parent,
        k + 1 < list.len() ==> list[k].parent == Some(list[k + 1].id),
        k + 1 == list.len() ==> list[k].parent is None,
    decreases k,
{
    let ids = tree::ancestor_ids(objects, i);
    lemma_ancestors_of_child(objects, i);
    let p = (objects[i].parent->0) as int;
    let above = tree::ancestor_ids(objects, p);
    assert(objects[p].id == p);
    assert(ids[0] == p);
    assert(*list[0] == objects[ids[0]]);
    assert(*list[k] == objects[ids[k]]);
    lemma_chain_step(objects, i, k);
    if k + 1 < list.len() {
        assert(*list[k + 1] == objects[ids[k + 1]]);
        assert(objects[ids[k + 1]].id == ids[k + 1]);
    }
}

/// Each ancestor but the last one has the next one as its parent
proof fn lemma_chain_step(objects: Seq<TopologyObject>, i: int, k: int)
    requires
        tree::tree_wf(objects),
        0 <= i < objects.len(),
        0 <= k < tree::ancestor_ids(objects, i).len(),
    ensures
        ({
            let ids = tree::ancestor_ids(objects, i);
            objects[ids[k]].parent == if k + 1 < ids.len() {
                Some(ids[k + 1] as usize)
            } else {
                None
            }
        }),
    decreases k,
{
    lemma_ancestors_of_child(objects, i);
    let p = (objects[i].parent->0) as int;
    lemma_ancestors_of_child(objects, p);
    let ids = tree::ancestor_ids(objects, i);
    let above = tree::ancestor_ids(objects, p);
    if k > 0 {
        lemma_chain_step(objects, p, k - 1);
        assert(ids[k] == above[k - 1]);
        if k + 1 < ids.len() {
            assert(ids[k + 1] == above[k]);
        }
    } else if ids.len() > 1 {
        assert(ids[1] == above[0]);
    }
}

/// An object that is not the beginning of a subtree is in this subtree if and only if its
/// parent is the beginning, or is in the subtree itself
pub proof fn law_subtree_steps(objects: Seq<TopologyObject>, i: int, root: int)
    requires
        tree::tree_wf(objects),
        0 <= i < objects.len(),
        0 <= root < objects.len(),
        i != root,
    ensures
        in_subtree(objects, i, root) <==> (objects[i].parent matches Some(parent) && (parent == root
            || in_subtree(objects, parent as int, root))),
{
    lemma_ancestors_of_child(objects, i);
}

/// An object is in its own subtree if and only if it has a cpuset, which it lacks only if
/// it is an I/O or Misc object
pub proof fn law_own_subtree(objects: Seq<TopologyObject>, i: int)
    requires
        tree::tree_wf(objects),
        0 <= i < objects.len(),
    ensures
        in_subtree(objects, i, i) <==> objects[i].cpuset is Some,
        in_subtree(objects, i, i) <==> !(objects[i].ty().io() || objects[i].ty() is Misc),
{
    lemma_ancestors_are_above(objects, i);
    assert(tree::object_wf(objects, i));
}

/// The common ancestor of two objects of the main tree is an ancestor of both, and any
/// other such object is above it
pub proof fn law_common_ancestor_is_deepest(
    objects: Seq<TopologyObject>,
    i: int,
    j: int,
    a: int,
    other: int,
)
    requires
        tree::tree_wf(objects),
        0 <= i < objects.len(),
        0 <= j < objects.len(),
        objects[i].at_depth() is Normal,
        lowest_common(objects, i, j, a),
        is_ancestor(objects, other, i),
        is_ancestor(objects, other, j),
        other != a,
    ensures
        is_ancestor(objects, a, i),
        is_ancestor(objects, a, j),
        is_ancestor(objects, other, a),
        objects[other].depth < objects[a].depth,
{
    lemma_ancestors_are_above(objects, i);
    assert(objects[i].identified());
    lemma_ancestors_are_shallower(objects, i);
    let chain = tree::ancestor_ids(objects, i);
    assert(objects[chain[chain.index_of(a)]].depth >= 0);
    lemma_ancestors_are_shallower(objects, a);
    let above = tree::ancestor_ids(objects, a);
    assert(is_ancestor(objects, other, a));
    assert(objects[above[above.index_of(other)]].depth < objects[a].depth);
}

/// The common ancestor of an object and one of its ancestors is the parent of the latter,
/// and that of two siblings, or of an object and itself, is their parent
pub proof fn law_common_ancestor_of_relatives(objects: Seq<TopologyObject>, i: int, j: int, a: int)
    requires
        tree::tree_wf(objects),
        0 < i < objects.len(),
        0 < j < objects.len(),
        lowest_common(objects, i, j, a),
    ensures
        objects[i].parent == objects[j].parent ==> objects[i].parent == Some(a as usize),
        is_ancestor(objects, j, i) ==> objects[j].parent == Some(a as usize),
{
    lemma_ancestors_of_child(objects, i);
    lemma_ancestors_of_child(objects, j);
    lemma_ancestors_are_above(objects, i);
    lemma_ancestors_are_above(objects, j);
    let p = (objects[i].parent->0) as int;
    let q = (objects[j].parent->0) as int;
    assert(objects[a].id == a);
    if p == q {
        assert(is_ancestor(objects, p, i) && is_ancestor(objects, p, j));
        lemma_ancestors_are_above(objects, p);
        lemma_ancestors_are_above(objects, a);
    }
    if is_ancestor(objects, j, i) {
        lemma_ancestor_of_ancestor(objects, q, j, i);
        assert(is_ancestor(objects, q, i) && is_ancestor(objects, q, j));
        lemma_ancestors_are_above(objects, q);
        lemma_ancestors_are_above(objects, a);
    }
}

/// An ancestor that a search finds satisfies what is searched for, and so does no ancestor
/// that is below it
pub proof fn law_nearest_ancestor(
    objects: Seq<TopologyObject>,
    i: int,
    found: &TopologyObject,
    wanted: spec_fn(TopologyObject) -> bool,
    other: int,
)
    requires
        tree::tree_wf(objects),
        0 <= i < objects.len(),
        object::finds_first(objects, Some(found), tree::ancestor_ids(objects, i), wanted),
        is_ancestor(objects, other, i),
        wanted(objects[other]),
    ensures
        wanted(*found),
        is_ancestor(objects, found.id as int, i),
        other == found.id || is_ancestor(objects, other, found.id as int),
{
    let ids = tree::ancestor_ids(objects, i);
    let k = ids.index_of(other);
    object::law_search(objects, Some(found), ids, wanted, k);
    let first = choose|first: int| 0 <= first <= k && *found == objects[#[trigger] ids[first]];
    lemma_ancestors_are_above(objects, i);
    assert(objects[ids[first]].id == ids[first]);
    assert(ids.contains(ids[first]));
    if first < k {
        lemma_later_is_above(objects, i, first, k);
    }
}

/// Ancestors that come later in the chain are ancestors of those that come before
proof fn lemma_later_is_above(objects: Seq<TopologyObject>, i: int, k: int, l: int)
    requires
        tree::tree_wf(objects),
        0 <= i < objects.len(),
        0 <= k < l < tree::ancestor_ids(objects, i).len(),
    ensures
        is_ancestor(
            objects,
            tree::ancestor_ids(objects, i)[l],
            tree::ancestor_ids(objects, i)[k],
        ),
    decreases k,
{
    lemma_ancestors_of_child(objects, i);
    let p = (objects[i].parent->0) as int;
    let ids = tree::ancestor_ids(objects, i);
    let above = tree::ancestor_ids(objects, p);
    assert(ids[l] == above[l - 1]);
    if k > 0 {
        lemma_later_is_above(objects, p, k - 1, l - 1);
        assert(ids[k] == above[k - 1]);
    } else {
        assert(above.contains(above[l - 1]));
    }
}

} // verus!
