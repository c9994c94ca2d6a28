//! Cousins, siblings and children
use vstd::prelude::*;

use crate::bitmap::CpuSet;
use crate::object::types::ChildKind;
use crate::object::{self, TopologyObject, HWLOC_UNKNOWN_INDEX};
use crate::topology::tree;
use crate::topology::Topology;

verus! {

/// Cousins and siblings
impl TopologyObject {
    /// Horizontal index in the whole list of similar objects, hence guaranteed
    /// unique across the entire machine.
    ///
    /// Could be a "cousin_rank" since it's the rank within the "cousin" list
    /// below.
    ///
    /// Note that this index may change when restricting the topology or when
    /// inserting a group.
    pub fn logical_index(&self) -> (index: u32)
        ensures
            index == self.logical_index,
    {
        self.logical_index
    }

    /// Next object of same type and depth
    pub fn next_cousin<'a>(&self, topology: &'a Topology) -> (cousin: Option<&'a TopologyObject>)
        requires
            topology.wf(),
            topology.has(*self),
        ensures
            object::designates(topology@, cousin, self.next_cousin),
            cousin is None ==> forall|j: int|
                0 <= j < topology@.len() && (#[trigger] topology@[j]).depth == self.depth
                    ==> topology@[j].logical_index <= self.logical_index,
            cousin matches Some(c) ==> {
                &&& topology.has(*c)
                &&& c.ty() == self.ty()
                &&& c.at_depth() == self.at_depth()
                &&& c.logical_index == self.logical_index + 1
                &&& c.prev_cousin == Some(self.id)
            },
    {
        assert(tree::object_wf(topology@, self.id as int));
        match self.next_cousin {
            Some(id) => Some(topology.at(id)),
            None => None,
        }
    }

    /// Previous object of same type and depth
    pub fn prev_cousin<'a>(&self, topology: &'a Topology) -> (cousin: Option<&'a TopologyObject>)
        requires
            topology.wf(),
            topology.has(*self),
        ensures
            object::designates(topology@, cousin, self.prev_cousin),
            cousin is None ==> forall|j: int|
                0 <= j < topology@.len() && (#[trigger] topology@[j]).depth == self.depth
                    ==> topology@[j].logical_index >= self.logical_index,
            cousin matches Some(c) ==> {
                &&& topology.has(*c)
                &&& c.ty() == self.ty()
                &&& c.at_depth() == self.at_depth()
                &&& c.logical_index + 1 == self.logical_index
                &&& c.next_cousin == Some(self.id)
            },
    {
        assert(tree::object_wf(topology@, self.id as int));
        match self.prev_cousin {
            Some(id) => {
                assert(tree::object_wf(topology@, id as int));
                Some(topology.at(id))
            },
            None => None,
        }
    }

    /// Index in the parent's appropriate child list
    pub fn sibling_rank(&self) -> (rank: u32)
        ensures
            rank == self.sibling_rank,
    {
        self.sibling_rank
    }

    /// Next object below the same parent in the same child list
    pub fn next_sibling<'a>(&self, topology: &'a Topology) -> (sibling: Option<&'a TopologyObject>)
        requires
            topology.wf(),
            topology.has(*self),
        ensures
            object::designates(topology@, sibling, self.next_sibling),
            sibling matches Some(s) ==> {
                &&& topology.has(*s)
                &&& s.parent == self.parent
                &&& s.ty().kind() == self.ty().kind()
                &&& s.sibling_rank == self.sibling_rank + 1
                &&& s.prev_sibling == Some(self.id)
            },
    {
        assert(tree::object_wf(topology@, self.id as int));
        match self.next_sibling {
            Some(id) => Some(topology.at(id)),
            None => None,
        }
    }

    /// Previous object below the same parent in the same child list
    pub fn prev_sibling<'a>(&self, topology: &'a Topology) -> (sibling: Option<&'a TopologyObject>)
        requires
            topology.wf(),
            topology.has(*self),
        ensures
            object::designates(topology@, sibling, self.prev_sibling),
            sibling matches Some(s) ==> {
                &&& topology.has(*s)
                &&& s.parent == self.parent
                &&& s.ty().kind() == self.ty().kind()
                &&& s.sibling_rank + 1 == self.sibling_rank
                &&& s.next_sibling == Some(self.id)
            },
    {
        assert(tree::object_wf(topology@, self.id as int));
        match self.prev_sibling {
            Some(id) => {
                assert(tree::object_wf(topology@, id as int));
                Some(topology.at(id))
            },
            None => None,
        }
    }
}

/// Children
impl TopologyObject {
    /// Number of normal children (excluding Memory, Misc and I/O)
    pub fn normal_arity(&self) -> (arity: u32)
        ensures
            arity == tree::child_count(*self, ChildKind::Normal),
    {
        self.arity
    }

    /// Normal children of this object (excluding Memory, Misc and I/O)
    pub fn normal_children<'a>(&self, topology: &'a Topology) -> (children: Vec<&'a TopologyObject>)
        requires
            topology.wf(),
            topology.has(*self),
        ensures
            object::lists(
                topology@,
                children@,
                tree::child_ids(topology@, self.id as int, ChildKind::Normal),
            ),
            children@.len() == self.arity,
    {
        let ghost ids = tree::child_ids(topology@, self.id as int, ChildKind::Normal);
        proof {
            assert(tree::object_wf(topology@, self.id as int));
            law_child_list(topology@, self.id as int, ChildKind::Normal);
        }
        let mut children: Vec<&'a TopologyObject> = Vec::new();
        let mut k: usize = 0;
        while k < self.children.len()
            invariant
                k <= self.children@.len(),
                self.children@.map_values(|id: usize| id as int) == ids,
                forall|j: int| 0 <= j < ids.len() ==> 0 <= #[trigger] ids[j] < topology@.len(),
                object::lists(topology@, children@, ids.take(k as int)),
            decreases self.children@.len() - k,
        {
            let id = self.children[k];
            assert(ids[k as int] == id);
            let child = topology.at(id);
            proof {
                assert(ids.take(k + 1) =~= ids.take(k as int).push(id as int));
                object::lemma_lists_push(
                    topology@,
                    children@,
                    ids.take(k as int),
                    child,
                    id as int,
                );
            }
            children.push(child);
            k += 1;
        }
        assert(ids.take(ids.len() as int) =~= ids);
        children
    }

    /// First normal child
    pub fn first_normal_child<'a>(&self, topology: &'a Topology) -> (child: Option<
        &'a TopologyObject,
    >)
        requires
            topology.wf(),
            topology.has(*self),
        ensures
            ({
                let ids = tree::child_ids(topology@, self.id as int, ChildKind::Normal);
                match child {
                    Some(c) => ids.len() > 0 && *c == topology@[ids.first()],
                    None => ids.len() == 0,
                }
            }),
    {
        assert(tree::object_wf(topology@, self.id as int));
        match self.first_child {
            Some(id) => Some(topology.at(id)),
            None => None,
        }
    }

    /// Last normal child
    pub fn last_normal_child<'a>(&self, topology: &'a Topology) -> (child: Option<
        &'a TopologyObject,
    >)
        requires
            topology.wf(),
            topology.has(*self),
        ensures
            ({
                let ids = tree::child_ids(topology@, self.id as int, ChildKind::Normal);
                match child {
                    Some(c) => ids.len() > 0 && *c == topology@[ids.last()],
                    None => ids.len() == 0,
                }
            }),
    {
        proof {
            assert(tree::object_wf(topology@, self.id as int));
            law_child_list(topology@, self.id as int, ChildKind::Normal);
        }
        match self.last_child {
            Some(id) => Some(topology.at(id)),
            None => None,
        }
    }

    /// Truth that this object is symmetric, which means all normal children and
    /// their children have identical subtrees.
    ///
    /// Memory, I/O and Misc children are ignored.
    pub fn symmetric_subtree(&self) -> (symmetric: bool)
        ensures
            symmetric == (self.symmetric_subtree != 0),
    {
        self.symmetric_subtree != 0
    }

    /// Get the child covering at least the given cpuset `set`
    ///
    /// This function will always return `None` if the given set is empty or
    /// this TopologyObject doesn't have a cpuset (I/O or Misc objects).
    pub fn normal_child_covering_cpuset<'a>(
        &self,
        topology: &'a Topology,
        set: &CpuSet,
    ) -> (child: Option<&'a TopologyObject>)
        requires
            topology.wf(),
            topology.has(*self),
        ensures
            object::finds_first(
                topology@,
                child,
                tree::child_ids(topology@, self.id as int, ChildKind::Normal),
                |candidate: TopologyObject| candidate.covers(set@),
            ),
            set@ == Set::<nat>::empty() || self.cpuset is None ==> child is None,
    {
        let ghost ids = tree::child_ids(topology@, self.id as int, ChildKind::Normal);
        proof {
            law_child_list(topology@, self.id as int, ChildKind::Normal);
        }
        let children = self.normal_children(topology);
        let mut k: usize = 0;
        while k < children.len()
            invariant
                topology.wf(),
                topology.has(*self),
                ids == tree::child_ids(topology@, self.id as int, ChildKind::Normal),
                forall|j: int|
                    0 <= j < ids.len() ==> topology@[#[trigger] ids[j]].parent == Some(self.id),
                k <= children@.len(),
                object::lists(topology@, children@, ids),
                forall|j: int| 0 <= j < k ==> !topology@[#[trigger] ids[j]].covers(set@),
            decreases children@.len() - k,
        {
            assert(*children@[k as int] == topology@[ids[k as int]]);
            if children[k].covers_cpuset(set) {
                assert(tree::object_wf(topology@, ids[k as int]));
                return Some(children[k]);
            }
            k += 1;
        }
        None
    }

    /// Number of memory children
    pub fn memory_arity(&self) -> (arity: u32)
        ensures
            arity == tree::child_count(*self, ChildKind::Memory),
    {
        self.memory_arity
    }

    /// Memory children of this object
    ///
    /// NUMA nodes and Memory-side caches are listed here instead of in the
    /// [`TopologyObject::normal_children()`] list.
    ///
    /// A memory hierarchy starts from a normal CPU-side object (e.g. Package)
    /// and ends with NUMA nodes as leaves. There might exist some memory-side
    /// caches between them in the middle of the memory subtree.
    pub fn memory_children<'a>(&self, topology: &'a Topology) -> (children: Vec<&'a TopologyObject>)
        requires
            topology.wf(),
            topology.has(*self),
        ensures
            object::lists(
                topology@,
                children@,
                tree::child_ids(topology@, self.id as int, ChildKind::Memory),
            ),
            children@.len() == self.memory_arity,
    {
        assert(tree::object_wf(topology@, self.id as int));
        Self::iter_linked_children(topology, self.memory_first_child)
    }

    /// Total memory (in bytes) in NUMA nodes below this object
    pub fn total_memory(&self) -> (memory: u64)
        ensures
            memory == self.total_memory,
    {
        self.total_memory
    }

    /// Number of I/O children.
    pub fn io_arity(&self) -> (arity: u32)
        ensures
            arity == tree::child_count(*self, ChildKind::Io),
    {
        self.io_arity
    }

    /// I/O children of this object
    ///
    /// Bridges, PCI and OS devices are listed here instead of in the
    /// [`TopologyObject::normal_children()`] list.
    pub fn io_children<'a>(&self, topology: &'a Topology) -> (children: Vec<&'a TopologyObject>)
        requires
            topology.wf(),
            topology.has(*self),
        ensures
            object::lists(
                topology@,
                children@,
                tree::child_ids(topology@, self.id as int, ChildKind::Io),
            ),
            children@.len() == self.io_arity,
    {
        assert(tree::object_wf(topology@, self.id as int));
        Self::iter_linked_children(topology, self.io_first_child)
    }

    /// Number of Misc children.
    pub fn misc_arity(&self) -> (arity: u32)
        ensures
            arity == tree::child_count(*self, ChildKind::Misc),
    {
        self.misc_arity
    }

    /// Misc children of this object
    ///
    /// Misc objects are listed here instead of in the
    /// [`TopologyObject::normal_children()`] list.
    pub fn misc_children<'a>(&self, topology: &'a Topology) -> (children: Vec<&'a TopologyObject>)
        requires
            topology.wf(),
            topology.has(*self),
        ensures
            object::lists(
                topology@,
                children@,
                tree::child_ids(topology@, self.id as int, ChildKind::Misc),
            ),
            children@.len() == self.misc_arity,
    {
        assert(tree::object_wf(topology@, self.id as int));
        Self::iter_linked_children(topology, self.misc_first_child)
    }

    /// Full list of children (normal, then memory, then I/O, then Misc)
    pub fn all_children<'a>(&self, topology: &'a Topology) -> (children: Vec<&'a TopologyObject>)
        requires
            topology.wf(),
            topology.has(*self),
        ensures
            object::lists(topology@, children@, all_child_ids(topology@, self.id as int)),
    {
        let mut children = self.normal_children(topology);
        let mut memory = self.memory_children(topology);
        let mut io = self.io_children(topology);
        let mut misc = self.misc_children(topology);
        children.append(&mut memory);
        children.append(&mut io);
        children.append(&mut misc);
        children
    }

    /// Walk over a linked list of child objects
    fn iter_linked_children<'a>(topology: &'a Topology, start: Option<usize>) -> (children: Vec<
        &'a TopologyObject,
    >)
        requires
            topology.wf(),
            start matches Some(first) ==> first < topology@.len(),
        ensures
            object::lists(topology@, children@, tree::sibling_ids(topology@, start)),
    {
        let ghost ids = tree::sibling_ids(topology@, start);
        let mut children: Vec<&'a TopologyObject> = Vec::new();
        let mut current = start;
        assert(ids.skip(0) =~= ids);
        loop
            invariant
                topology.wf(),
                current matches Some(id) ==> id < topology@.len(),
                children@.len() <= ids.len(),
                object::lists(topology@, children@, ids.take(children@.len() as int)),
                ids.skip(children@.len() as int) == tree::sibling_ids(topology@, current),
            ensures
                object::lists(topology@, children@, ids),
            decreases
                    match current {
                        Some(id) => topology@.len() - id,
                        None => 0,
                    },
        {
            let ghost n = children@.len() as int;
            match current {
                Some(id) => {
                    let child = topology.at(id);
                    proof {
                        let rest = ids.skip(n);
                        assert(tree::object_wf(topology@, id as int));
                        assert(rest =~= seq![id as int] + tree::sibling_ids(
                            topology@,
                            child.next_sibling,
                        ));
                        assert(rest[0] == ids[n]);
                        assert(ids.skip(n + 1) =~= rest.drop_first());
                        assert(rest.drop_first() =~= tree::sibling_ids(
                            topology@,
                            child.next_sibling,
                        ));
                        assert(ids.take(n + 1) =~= ids.take(n).push(id as int));
                        object::lemma_lists_push(
                            topology@,
                            children@,
                            ids.take(n),
                            child,
                            id as int,
                        );
                    }
                    children.push(child);
                    current = child.next_sibling;
                },
                None => {
                    assert(ids.take(n) =~= ids) by {
                        assert(ids.skip(n).len() == 0);
                    }
                    break ;
                },
            }
        }
        children
    }
}

/// The logical index of an object is unique among the objects of its type and
/// depth
pub proof fn law_logical_index_unique(objects: Seq<TopologyObject>, i: int, j: int)
    requires
        tree::tree_wf(objects),
        0 <= i < objects.len(),
        0 <= j < objects.len(),
        objects[i].at_depth() == objects[j].at_depth(),
        objects[i].logical_index == objects[j].logical_index,
    ensures
        i == j,
{
    assert(objects[i].identified() && objects[j].identified());
    assert(tree::object_wf(objects, i));
    assert(tree::object_wf(objects, j));
}

/// The next cousin of an object is the object of the same depth that has the next
/// logical index, if there is one, and the previous cousin is the one before
pub proof fn law_cousins_follow(objects: Seq<TopologyObject>, i: int, j: int)
    requires
        tree::tree_wf(objects),
        0 <= i < objects.len(),
        0 <= j < objects.len(),
        objects[i].at_depth() == objects[j].at_depth(),
    ensures
        objects[i].next_cousin == Some(j as usize) <==> objects[j].logical_index
            == objects[i].logical_index + 1,
        objects[j].prev_cousin == Some(i as usize) <==> objects[j].logical_index
            == objects[i].logical_index + 1,
        objects[i].logical_index < objects[j].logical_index ==> objects[i].next_cousin is Some
            && objects[j].prev_cousin is Some,
{
    assert(objects[i].identified() && objects[j].identified());
    assert(objects[i].id == i && objects[j].id == j);
    assert(tree::object_wf(objects, i));
    assert(tree::object_wf(objects, j));
    if objects[j].logical_index == objects[i].logical_index + 1 {
        let next = (objects[i].next_cousin->0) as int;
        assert(objects[next].identified() && objects[next].id == next);
        law_logical_index_unique(objects, next, j);
        let prev = (objects[j].prev_cousin->0) as int;
        assert(objects[prev].identified() && objects[prev].id == prev);
        assert(tree::object_wf(objects, prev));
        law_logical_index_unique(objects, prev, i);
    }
    if objects[j].prev_cousin == Some(i as usize) {
        assert(objects[i].next_cousin == Some(j as usize));
    }
}

/// The objects of one depth have one type
pub proof fn law_level_has_one_type(objects: Seq<TopologyObject>, i: int, j: int)
    requires
        tree::tree_wf(objects),
        0 <= i < objects.len(),
        0 <= j < objects.len(),
        objects[i].at_depth() == objects[j].at_depth(),
    ensures
        objects[i].ty() == objects[j].ty(),
    decreases
            if objects[i].logical_index <= objects[j].logical_index {
                objects[j].logical_index - objects[i].logical_index
            } else {
                objects[i].logical_index - objects[j].logical_index
            },
{
    assert(objects[i].identified() && objects[j].identified());
    assert(tree::object_wf(objects, i));
    assert(tree::object_wf(objects, j));
    if objects[i].logical_index == objects[j].logical_index {
        law_logical_index_unique(objects, i, j);
    } else if objects[i].logical_index < objects[j].logical_index {
        let next = (objects[i].next_cousin->0) as int;
        assert(objects[next].identified());
        law_level_has_one_type(objects, next, j);
    } else {
        let next = (objects[j].next_cousin->0) as int;
        assert(objects[next].identified());
        law_level_has_one_type(objects, i, next);
    }
}

/// The OS index of a PU is known and unique among PUs, and that of a NUMA node is known
/// and unique among NUMA nodes
pub proof fn law_os_index_unique(objects: Seq<TopologyObject>, i: int, j: int)
    requires
        tree::tree_wf(objects),
        0 <= i < objects.len(),
        0 <= j < objects.len(),
        objects[i].ty() is PU || objects[i].ty() is NUMANode,
        objects[i].ty() == objects[j].ty(),
    ensures
        objects[i].os_index != HWLOC_UNKNOWN_INDEX,
        objects[i].os_index == objects[j].os_index ==> i == j,
{
    assert(tree::object_wf(objects, i));
    assert(tree::object_wf(objects, j));
}

/// Children of object `i`: normal, then memory, then I/O, then Misc
pub open spec fn all_child_ids(objects: Seq<TopologyObject>, i: int) -> Seq<int> {
    tree::child_ids(objects, i, ChildKind::Normal) + tree::child_ids(objects, i, ChildKind::Memory)
        + tree::child_ids(objects, i, ChildKind::Io) + tree::child_ids(objects, i, ChildKind::Misc)
}

/// The siblings that follow a child of object `i` are children of `i` in the
/// same list, with the ranks that follow
proof fn lemma_sibling_list(objects: Seq<TopologyObject>, i: usize, kind: ChildKind, start: usize)
    requires
        tree::tree_wf(objects),
        start < objects.len(),
        objects[start as int].parent == Some(i),
        objects[start as int].ty().kind() == kind,
    ensures
        forall|k: int|
            #![trigger tree::sibling_ids(objects, Some(start))[k]]
            0 <= k < tree::sibling_ids(objects, Some(start)).len() ==> {
                let id = tree::sibling_ids(objects, Some(start))[k];
                &&& 0 <= id < objects.len()
                &&& objects[id].parent == Some(i)
                &&& objects[id].ty().kind() == kind
                &&& objects[id].sibling_rank == objects[start as int].sibling_rank + k
            },
    decreases objects.len() - start,
{
    assert(tree::object_wf(objects, start as int));
    let ids = tree::sibling_ids(objects, Some(start));
    if let Some(next) = objects[start as int].next_sibling {
        lemma_sibling_list(objects, i, kind, next);
        let rest = tree::sibling_ids(objects, Some(next));
        assert(ids =~= seq![start as int] + rest);
        assert forall|k: int| 0 <= k < ids.len() implies {
            let id = #[trigger] ids[k];
            &&& 0 <= id < objects.len()
            &&& objects[id].parent == Some(i)
            &&& objects[id].ty().kind() == kind
            &&& objects[id].sibling_rank == objects[start as int].sibling_rank + k
        } by {
            if k > 0 {
                assert(ids[k] == rest[k - 1]);
            }
        }
    } else {
        assert(ids =~= seq![start as int]);
    }
}

/// A child list of object `i` has as many elements as the object says, which
/// are children of `i` of the right kind, in the order of their rank
pub proof fn law_child_list(objects: Seq<TopologyObject>, i: int, kind: ChildKind)
    requires
        tree::tree_wf(objects),
        0 <= i < objects.len(),
    ensures
        tree::child_ids(objects, i, kind).len() == tree::child_count(objects[i], kind),
        forall|k: int|
            #![trigger tree::child_ids(objects, i, kind)[k]]
            0 <= k < tree::child_ids(objects, i, kind).len() ==> {
                let id = tree::child_ids(objects, i, kind)[k];
                &&& i < id < objects.len()
                &&& objects[id].parent == Some(i as usize)
                &&& objects[id].ty().kind() == kind
                &&& objects[id].sibling_rank == k
            },
{
    assert(tree::object_wf(objects, i));
    assert(objects[i].id == i);
    if let Some(first) = tree::first_child_id(objects[i], kind) {
        lemma_sibling_list(objects, i as usize, kind, first);
        let ids = tree::child_ids(objects, i, kind);
        assert forall|k: int| 0 <= k < ids.len() implies i < #[trigger] ids[k] by {
            assert(tree::object_wf(objects, ids[k]));
        }
    }
}

/// An object is found at its rank in the child list of its parent that suits
/// its type, and in no other child list
pub proof fn law_child_placement(objects: Seq<TopologyObject>, i: int, p: int, kind: ChildKind)
    requires
        tree::tree_wf(objects),
        0 <= i < objects.len(),
        0 <= p < objects.len(),
    ensures
        tree::child_ids(objects, p, kind).contains(i) <==> objects[i].parent == Some(p as usize)
            && objects[i].ty().kind() == kind,
        objects[i].parent == Some(p as usize) ==> {
            let ids = tree::child_ids(objects, p, objects[i].ty().kind());
            &&& objects[i].sibling_rank < ids.len()
            &&& ids[objects[i].sibling_rank as int] == i
        },
{
    law_child_list(objects, p, kind);
    assert(tree::object_wf(objects, i));
    assert(objects[p].id == p);
    let ids = tree::child_ids(objects, p, kind);
    if ids.contains(i) {
        assert(ids[ids.index_of(i)] == i);
    }
    if objects[i].parent == Some(p as usize) && objects[i].ty().kind() == kind {
        assert(ids[objects[i].sibling_rank as int] == i);
    }
}

/// The child that follows another one in a child list is its next sibling, and
/// the last one has none
pub proof fn law_next_sibling_follows(
    objects: Seq<TopologyObject>,
    i: int,
    kind: ChildKind,
    k: int,
)
    requires
        tree::tree_wf(objects),
        0 <= i < objects.len(),
        0 <= k < tree::child_ids(objects, i, kind).len(),
    ensures
        ({
            let ids = tree::child_ids(objects, i, kind);
            objects[ids[k]].next_sibling == if k + 1 < ids.len() {
                Some(ids[k + 1] as usize)
            } else {
                None
            }
        }),
{
    law_child_list(objects, i, kind);
    let ids = tree::child_ids(objects, i, kind);
    let id = ids[k];
    assert(tree::object_wf(objects, id));
    match objects[id].next_sibling {
        Some(next) => {
            law_child_placement(objects, next as int, i, kind);
            assert(objects[ids[k]].sibling_rank == k);
            assert(ids[k + 1] == next);
        },
        None => {
            if k + 1 < ids.len() {
                let after = ids[k + 1];
                assert(objects[after].sibling_rank == k + 1);
                assert(tree::object_wf(objects, after));
                lemma_previous_in_list(objects, tree::first_child_id(objects[i], kind), k + 1);
            }
        },
    }
}

/// An element of a list of siblings, but for the first, is the next sibling of
/// the element before it
proof fn lemma_previous_in_list(objects: Seq<TopologyObject>, start: Option<usize>, k: int)
    requires
        tree::tree_wf(objects),
        0 < k < tree::sibling_ids(objects, start).len(),
    ensures
        0 <= tree::sibling_ids(objects, start)[k - 1] < objects.len(),
        objects[tree::sibling_ids(objects, start)[k - 1]].next_sibling == Some(
            tree::sibling_ids(objects, start)[k] as usize,
        ),
    decreases k,
{
    let ids = tree::sibling_ids(objects, start);
    let first = start->0;
    assert(tree::object_wf(objects, first as int));
    let next = objects[first as int].next_sibling;
    let rest = tree::sibling_ids(objects, next);
    assert(ids =~= seq![first as int] + rest);
    if k > 1 {
        lemma_previous_in_list(objects, next, k - 1);
        assert(ids[k - 1] == rest[k - 2] && ids[k] == rest[k - 1]);
    } else {
        assert(ids[1] == rest[0] && rest[0] == next->0);
    }
}

/// The full list of children of an object holds the objects whose parent it is,
/// each of them once
pub proof fn law_all_children(objects: Seq<TopologyObject>, i: int)
    requires
        tree::tree_wf(objects),
        0 <= i < objects.len(),
    ensures
        all_child_ids(objects, i).no_duplicates(),
        all_child_ids(objects, i).len() == objects[i].arity + objects[i].memory_arity
            + objects[i].io_arity + objects[i].misc_arity,
        forall|c: int|
            0 <= c < objects.len() ==> (#[trigger] all_child_ids(objects, i).contains(c)
                <==> objects[c].parent == Some(i as usize)),
{
    let normal = tree::child_ids(objects, i, ChildKind::Normal);
    let memory = tree::child_ids(objects, i, ChildKind::Memory);
    let io = tree::child_ids(objects, i, ChildKind::Io);
    let misc = tree::child_ids(objects, i, ChildKind::Misc);
    let all = all_child_ids(objects, i);
    law_child_list(objects, i, ChildKind::Normal);
    law_child_list(objects, i, ChildKind::Memory);
    law_child_list(objects, i, ChildKind::Io);
    law_child_list(objects, i, ChildKind::Misc);
    let a = normal.len();
    let b = a + memory.len();
    let c = b + io.len();
    assert forall|k: int| 0 <= k < all.len() implies {
        let id = #[trigger] all[k];
        &&& 0 <= id < objects.len()
        &&& objects[id].parent == Some(i as usize)
        &&& match objects[id].ty().kind() {
            ChildKind::Normal => k < a && objects[id].sibling_rank == k,
            ChildKind::Memory => a <= k < b && objects[id].sibling_rank == k - a,
            ChildKind::Io => b <= k < c && objects[id].sibling_rank == k - b,
            ChildKind::Misc => c <= k && objects[id].sibling_rank == k - c,
        }
    } by {
        if k < a {
            assert(all[k] == normal[k]);
        } else if k < b {
            assert(all[k] == memory[k - a]);
        } else if k < c {
            assert(all[k] == io[k - b]);
        } else {
            assert(all[k] == misc[k - c]);
        }
    }
    assert forall|child: int| 0 <= child < objects.len() implies (#[trigger] all.contains(child)
        <==> objects[child].parent == Some(i as usize)) by {
        if objects[child].parent == Some(i as usize) {
            let kind = objects[child].ty().kind();
            let rank = objects[child].sibling_rank as int;
            law_child_placement(objects, child, i, kind);
            let k = match kind {
                ChildKind::Normal => rank,
                ChildKind::Memory => a + rank,
                ChildKind::Io => b + rank,
                ChildKind::Misc => c + rank,
            };
            assert(all[k] == child);
        }
        if all.contains(child) {
            assert(all[all.index_of(child)] == child);
        }
    }
}

/// Listed children are as many as the object says, and the child at a rank is the one that
/// has this rank below this object, in the list that suits its type
pub proof fn law_listed_children(
    objects: Seq<TopologyObject>,
    list: Seq<&TopologyObject>,
    i: int,
    kind: ChildKind,
    k: int,
)
    requires
        tree::tree_wf(objects),
        0 <= i < objects.len(),
        object::lists(objects, list, tree::child_ids(objects, i, kind)),
    ensures
        kind == ChildKind::Normal ==> list.len() == objects[i].arity,
        kind == ChildKind::Memory ==> list.len() == objects[i].memory_arity,
        kind == ChildKind::Io ==> list.len() == objects[i].io_arity,
        kind == ChildKind::Misc ==> list.len() == objects[i].misc_arity,
        0 <= k < list.len() ==> {
            &&& list[k].parent == Some(i as usize)
            &&& list[k].sibling_rank == k
            &&& kind == ChildKind::Normal ==> list[k].ty().normal()
            &&& kind == ChildKind::Memory ==> list[k].ty().memory()
            &&& kind == ChildKind::Io ==> list[k].ty().io()
            &&& kind == ChildKind::Misc ==> list[k].ty() is Misc
            &&& k == 0 ==> list[k].prev_sibling is None
            &&& k > 0 ==> list[k].prev_sibling == Some(list[k - 1].id)
            &&& k + 1 == list.len() ==> list[k].next_sibling is None
            &&& k + 1 < list.len() ==> list[k].next_sibling == Some(list[k + 1].id)
        },
{
    let ids = tree::child_ids(objects, i, kind);
    law_child_list(objects, i, kind);
    if 0 <= k < list.len() {
        assert(*list[k] == objects[ids[k]]);
        assert(objects[ids[k]].id == ids[k]);
        law_next_sibling_follows(objects, i, kind, k);
        assert(tree::object_wf(objects, ids[k]));
        if k + 1 < list.len() {
            assert(*list[k + 1] == objects[ids[k + 1]]);
            assert(objects[ids[k + 1]].id == ids[k + 1]);
        }
        if k > 0 {
            law_next_sibling_follows(objects, i, kind, k - 1);
            assert(*list[k - 1] == objects[ids[k - 1]]);
            assert(objects[ids[k - 1]].id == ids[k - 1]);
            assert(tree::object_wf(objects, ids[k - 1]));
        } else {
            assert(tree::object_wf(objects, i));
        }
    }
}

/// In the full list of children, normal children come first, then memory children, then I/O
/// children, then Misc children, each in the order of their rank
pub proof fn law_all_children_in_order(objects: Seq<TopologyObject>, i: int, k: int, l: int)
    requires
        tree::tree_wf(objects),
        0 <= i < objects.len(),
        0 <= k < l < all_child_ids(objects, i).len(),
    ensures
        ({
            let a = objects[all_child_ids(objects, i)[k]];
            let b = objects[all_child_ids(objects, i)[l]];
            &&& b.ty().normal() ==> a.ty().normal()
            &&& b.ty().memory() ==> a.ty().normal() || a.ty().memory()
            &&& b.ty().io() ==> !(a.ty() is Misc)
            &&& a.ty().kind() == b.ty().kind() ==> a.sibling_rank < b.sibling_rank
        }),
{
    let normal = tree::child_ids(objects, i, ChildKind::Normal);
    let memory = tree::child_ids(objects, i, ChildKind::Memory);
    let io = tree::child_ids(objects, i, ChildKind::Io);
    let misc = tree::child_ids(objects, i, ChildKind::Misc);
    let all = all_child_ids(objects, i);
    law_child_list(objects, i, ChildKind::Normal);
    law_child_list(objects, i, ChildKind::Memory);
    law_child_list(objects, i, ChildKind::Io);
    law_child_list(objects, i, ChildKind::Misc);
    let x = normal.len();
    let y = x + memory.len();
    let z = y + io.len();
    assert forall|n: int| 0 <= n < all.len() implies match objects[#[trigger] all[n]].ty().kind() {
        ChildKind::Normal => n < x && objects[all[n]].sibling_rank == n,
        ChildKind::Memory => x <= n < y && objects[all[n]].sibling_rank == n - x,
        ChildKind::Io => y <= n < z && objects[all[n]].sibling_rank == n - y,
        ChildKind::Misc => z <= n && objects[all[n]].sibling_rank == n - z,
    } by {
        if n < x {
            assert(all[n] == normal[n]);
        } else if n < y {
            assert(all[n] == memory[n - x]);
        } else if n < z {
            assert(all[n] == io[n - y]);
        } else {
            assert(all[n] == misc[n - z]);
        }
    }
    assert(objects[all[k]].ty().kind() == objects[all[k]].ty().kind());
    assert(objects[all[l]].ty().kind() == objects[all[l]].ty().kind());
}

/// All objects have CPU and NUMA node sets except Misc and I/O objects, and complete sets
/// include the others
pub proof fn law_objects_have_sets(objects: Seq<TopologyObject>, i: int, index: nat)
    requires
        tree::tree_wf(objects),
        0 <= i < objects.len(),
    ensures
        ({
            let object = objects[i];
            let without = object.ty().io() || object.ty() is Misc;
            &&& object.cpuset is Some <==> !without
            &&& object.complete_cpuset is Some <==> !without
            &&& object.nodeset is Some <==> !without
            &&& object.complete_nodeset is Some <==> !without
            &&& !without && object.has_cpu(index) ==> (object.complete_cpuset->0)@.contains(index)
            &&& !without && object.has_node(index) ==> (object.complete_nodeset->0)@.contains(index)
        }),
{
    assert(tree::object_wf(objects, i));
}

} // verus!
