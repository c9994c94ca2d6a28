//! Shape of the tree that the objects of a topology form
use vstd::prelude::*;

use crate::object::types::ChildKind;
use crate::object::{TopologyObject, HWLOC_UNKNOWN_INDEX};

verus! {

/// Chain of the parents of object `i`, in ascending order up to the root
pub open spec fn ancestor_ids(objects: Seq<TopologyObject>, i: int) -> Seq<int>
    decreases i,
{
    match objects[i].parent {
        Some(parent) => if 0 <= parent < i {
            seq![parent as int] + ancestor_ids(objects, parent as int)
        } else {
            Seq::empty()
        },
        None => Seq::empty(),
    }
}

/// Object `start` and the siblings that come after it
pub open spec fn sibling_ids(objects: Seq<TopologyObject>, start: Option<usize>) -> Seq<int>
    decreases
            match start {
                Some(i) => objects.len() - i,
                None => 0,
            },
{
    match start {
        Some(i) => if i < objects.len() {
            match objects[i as int].next_sibling {
                Some(next) => if i < next < objects.len() {
                    seq![i as int] + sibling_ids(objects, Some(next))
                } else {
                    seq![i as int]
                },
                None => seq![i as int],
            }
        } else {
            Seq::empty()
        },
        None => Seq::empty(),
    }
}

/// First child of an object in one of its child lists
pub open spec fn first_child_id(object: TopologyObject, kind: ChildKind) -> Option<usize> {
    match kind {
        ChildKind::Normal => object.first_child,
        ChildKind::Memory => object.memory_first_child,
        ChildKind::Io => object.io_first_child,
        ChildKind::Misc => object.misc_first_child,
    }
}

/// Number of children of an object in one of its child lists
pub open spec fn child_count(object: TopologyObject, kind: ChildKind) -> u32 {
    match kind {
        ChildKind::Normal => object.arity,
        ChildKind::Memory => object.memory_arity,
        ChildKind::Io => object.io_arity,
        ChildKind::Misc => object.misc_arity,
    }
}

/// Children of object `i` in one of its child lists
pub open spec fn child_ids(objects: Seq<TopologyObject>, i: int, kind: ChildKind) -> Seq<int> {
    sibling_ids(objects, first_child_id(objects[i], kind))
}

/// Object `i` is the root, or has a parent that comes before it
///
/// An object of the main tree is deeper than its parent, which is in the main
/// tree too. It is one level deeper if the topology is symmetric.
pub open spec fn parent_wf(objects: Seq<TopologyObject>, i: int) -> bool {
    match objects[i].parent {
        None => i == 0 && objects[i].depth == 0,
        Some(parent) => {
            &&& parent < i
            &&& objects[i].ty().normal() ==> {
                &&& 0 <= objects[parent as int].depth < objects[i].depth
                &&& objects[0].symmetric_subtree != 0 ==> objects[i].depth
                    == objects[parent as int].depth + 1
            }
        },
    }
}

/// The cousins of object `i` have its type and depth, and come in the order of
/// their logical index
///
/// There is no next cousin only at the end of the level, and no previous one only at
/// its start.
pub open spec fn cousins_wf(objects: Seq<TopologyObject>, i: int) -> bool {
    &&& objects[i].next_cousin is None ==> forall|j: int|
        0 <= j < objects.len() && (#[trigger] objects[j]).depth == objects[i].depth
            ==> objects[j].logical_index <= objects[i].logical_index
    &&& objects[i].prev_cousin is None ==> forall|j: int|
        0 <= j < objects.len() && (#[trigger] objects[j]).depth == objects[i].depth
            ==> objects[j].logical_index >= objects[i].logical_index
    &&& objects[i].next_cousin matches Some(next) ==> {
        &&& next < objects.len()
        &&& objects[next as int].prev_cousin == Some(i as usize)
        &&& objects[next as int].object_type == objects[i].object_type
        &&& objects[next as int].depth == objects[i].depth
        &&& objects[next as int].logical_index == objects[i].logical_index + 1
    }
    &&& objects[i].prev_cousin matches Some(prev) ==> {
        &&& prev < objects.len()
        &&& objects[prev as int].next_cousin == Some(i as usize)
    }
}

/// No object before object `i` has the same depth and logical index
pub open spec fn index_wf(objects: Seq<TopologyObject>, i: int) -> bool {
    forall|j: int|
        0 <= j < i && (#[trigger] objects[j]).depth == objects[i].depth
            ==> objects[j].logical_index != objects[i].logical_index
}

/// If object `i` is a PU, its OS index is known, and no PU before it has the same one,
/// and likewise for NUMA nodes
pub open spec fn os_index_wf(objects: Seq<TopologyObject>, i: int) -> bool {
    objects[i].ty() is PU || objects[i].ty() is NUMANode ==> {
        &&& objects[i].os_index != HWLOC_UNKNOWN_INDEX
        &&& forall|j: int|
            0 <= j < i && (#[trigger] objects[j]).ty() == objects[i].ty() ==> objects[j].os_index
                != objects[i].os_index
    }
}

/// If object `i` is a memory object, it is found below a normal object or a
/// memory-side cache
///
/// Memory-side caches have memory children, unlike NUMA nodes.
pub open spec fn memory_wf(objects: Seq<TopologyObject>, i: int) -> bool {
    &&& objects[i].ty().memory() ==> {
        &&& objects[i].parent matches Some(parent)
        &&& objects[parent as int].ty().normal() || objects[parent as int].ty() is MemCache
    }
    &&& objects[i].ty() is NUMANode ==> objects[i].memory_arity == 0
    &&& objects[i].ty() is MemCache ==> objects[i].memory_arity > 0
}

/// First object of the main tree on the way from object `i` to the root
pub open spec fn attachment(objects: Seq<TopologyObject>, i: int) -> int
    decreases i,
{
    if objects[i].ty().normal() {
        i
    } else {
        match objects[i].parent {
            Some(parent) => if 0 <= parent < i {
                attachment(objects, parent as int)
            } else {
                i
            },
            None => i,
        }
    }
}

/// Truth that NUMA node `m` is object `i`, or under it, or belongs to an object of the
/// main tree that is above it, where object `i` is in the main tree too
pub open spec fn is_near(objects: Seq<TopologyObject>, i: int, m: int) -> bool {
    ||| m == i
    ||| ancestor_ids(objects, m).contains(i)
    ||| objects[i].ty().normal() && ancestor_ids(objects, i).contains(attachment(objects, m))
}

/// Truth that object `m` is a NUMA node near object `i`, with a certain OS index
pub open spec fn is_node_near(
    objects: Seq<TopologyObject>,
    i: int,
    m: int,
    node: nat,
) -> bool {
    &&& 0 <= m < objects.len()
    &&& objects[m].ty() is NUMANode
    &&& objects[m].os_index == node
    &&& is_near(objects, i, m)
}

/// Truth that there are NUMA nodes
pub open spec fn has_nodes(objects: Seq<TopologyObject>) -> bool {
    exists|m: int| 0 <= m < objects.len() && (#[trigger] objects[m]).ty() is NUMANode
}

/// NUMA nodes near object `i`, which are all if there are no NUMA nodes in the machine
pub open spec fn near_nodes(objects: Seq<TopologyObject>, i: int) -> Set<nat> {
    if has_nodes(objects) {
        Set::new(|node: nat| exists|m: int| #[trigger] is_node_near(objects, i, m, node))
    } else {
        Set::full()
    }
}

/// The NUMA nodes of object `i` are those near it, unless it is an I/O or Misc object
pub open spec fn nodes_wf(objects: Seq<TopologyObject>, i: int) -> bool {
    objects[i].ty().normal() || objects[i].ty().memory() ==> {
        &&& objects[i].nodeset matches Some(nodeset)
        &&& nodeset@ == near_nodes(objects, i)
    }
}

/// First normal child of object `i`, if there is one
pub open spec fn first_below(objects: Seq<TopologyObject>, i: usize) -> Option<usize> {
    match objects[i as int].first_child {
        Some(first) => if i < first < objects.len() {
            Some(first)
        } else {
            None
        },
        None => None,
    }
}

/// Next sibling of object `i`, if there is one
pub open spec fn next_after(objects: Seq<TopologyObject>, i: usize) -> Option<usize> {
    match objects[i as int].next_sibling {
        Some(next) => if i < next < objects.len() {
            Some(next)
        } else {
            None
        },
        None => None,
    }
}

/// Truth that the subtrees which begin with two objects are identical: these objects
/// have the same type and depth, and as many normal children, whose subtrees are
/// identical in turn
pub open spec fn same_shape(objects: Seq<TopologyObject>, a: usize, b: usize) -> bool
    decreases objects.len() - a, 0int,
{
    &&& a < objects.len()
    &&& b < objects.len()
    &&& objects[a as int].object_type == objects[b as int].object_type
    &&& objects[a as int].depth == objects[b as int].depth
    &&& same_shapes(objects, first_below(objects, a), first_below(objects, b))
}

/// Truth that the subtrees which begin with two objects are identical, and that so are
/// those which begin with the siblings that come after them
pub open spec fn same_shapes(
    objects: Seq<TopologyObject>,
    a: Option<usize>,
    b: Option<usize>,
) -> bool
    decreases
            (match a {
                Some(i) => objects.len() - i,
                None => 0,
            }),
            1int,
{
    match (a, b) {
        (Some(i), Some(j)) => {
            &&& i < objects.len()
            &&& j < objects.len()
            &&& same_shape(objects, i, j)
            &&& same_shapes(objects, next_after(objects, i), next_after(objects, j))
        },
        (None, None) => true,
        _ => false,
    }
}

/// If the subtree that begins with object `i` is symmetric, so are those of its normal
/// children, which are identical
pub open spec fn symmetric_wf(objects: Seq<TopologyObject>, i: int) -> bool {
    let ids = child_ids(objects, i, ChildKind::Normal);
    objects[i].symmetric_subtree != 0 ==> forall|k: int|
        0 <= k < ids.len() ==> objects[#[trigger] ids[k]].symmetric_subtree != 0 && same_shape(
            objects,
            ids[0] as usize,
            ids[k] as usize,
        )
}

/// The siblings of object `i` have its parent, and come in the order of their
/// rank
pub open spec fn siblings_wf(objects: Seq<TopologyObject>, i: int) -> bool {
    &&& objects[i].next_sibling matches Some(next) ==> {
        &&& i < next < objects.len()
        &&& objects[next as int].prev_sibling == Some(i as usize)
        &&& objects[next as int].parent == objects[i].parent
        &&& objects[next as int].ty().kind() == objects[i].ty().kind()
        &&& objects[next as int].sibling_rank == objects[i].sibling_rank + 1
    }
    &&& objects[i].prev_sibling matches Some(prev) ==> {
        &&& prev < i
        &&& objects[prev as int].next_sibling == Some(i as usize)
    }
}

/// Object `i` has sets of CPUs and NUMA nodes unless it is an I/O or Misc
/// object, in which case it has none
///
/// Complete sets include the matching set of the same object, and the CPUs of
/// an object are among those of its parent.
pub open spec fn sets_wf(objects: Seq<TopologyObject>, i: int) -> bool {
    let object = objects[i];
    if object.ty().io() || object.ty() is Misc {
        &&& object.cpuset is None
        &&& object.complete_cpuset is None
        &&& object.nodeset is None
        &&& object.complete_nodeset is None
    } else {
        &&& object.cpuset is Some
        &&& object.complete_cpuset is Some
        &&& object.nodeset is Some
        &&& object.complete_nodeset is Some
        &&& (object.cpuset->0)@.subset_of((object.complete_cpuset->0)@)
        &&& (object.nodeset->0)@.subset_of((object.complete_nodeset->0)@)
        &&& object.parent matches Some(parent) ==> {
            &&& objects[parent as int].cpuset is Some
            &&& (object.cpuset->0)@.subset_of((objects[parent as int].cpuset->0)@)
        }
    }
}

/// CPUs of the normal children of object `i`
pub open spec fn child_cpus(objects: Seq<TopologyObject>, i: int) -> Set<nat> {
    cpus_of(objects, child_ids(objects, i, ChildKind::Normal))
}

/// CPUs of the objects at positions `ids`
pub open spec fn cpus_of(objects: Seq<TopologyObject>, ids: Seq<int>) -> Set<nat> {
    Set::new(
        |cpu: nat|
            exists|k: int|
                {
                    &&& 0 <= k < ids.len()
                    &&& objects[#[trigger] ids[k]].has_cpu(cpu)
                },
    )
}

/// The only CPU of a PU is the one that its OS index designates, and the CPUs of
/// another object of the main tree are those of its normal children
pub open spec fn cpus_wf(objects: Seq<TopologyObject>, i: int) -> bool {
    objects[i].ty().normal() ==> {
        &&& objects[i].cpuset matches Some(cpuset)
        &&& cpuset@ == if objects[i].ty() is PU {
            set![objects[i].os_index as nat]
        } else {
            child_cpus(objects, i)
        }
    }
}

/// One of the child lists of object `i` starts with its first child, and has
/// as many elements as it should
pub open spec fn child_list_wf(objects: Seq<TopologyObject>, i: int, kind: ChildKind) -> bool {
    &&& first_child_id(objects[i], kind) matches Some(first) ==> {
        &&& first < objects.len()
        &&& objects[first as int].parent == Some(i as usize)
        &&& objects[first as int].ty().kind() == kind
        &&& objects[first as int].sibling_rank == 0
        &&& objects[first as int].prev_sibling is None
    }
    &&& child_ids(objects, i, kind).len() == child_count(objects[i], kind)
}

/// The array of normal children of object `i` agrees with its list of normal
/// children
pub open spec fn normal_children_wf(objects: Seq<TopologyObject>, i: int) -> bool {
    let ids = child_ids(objects, i, ChildKind::Normal);
    &&& objects[i].children@.map_values(|id: usize| id as int) == ids
    &&& objects[i].last_child == if ids.len() == 0 {
        None
    } else {
        Some(ids.last() as usize)
    }
}

/// Object `i` is found at its rank in the child list of its parent that suits
/// its type
pub open spec fn placement_wf(objects: Seq<TopologyObject>, i: int) -> bool {
    objects[i].parent matches Some(parent) ==> {
        let ids = child_ids(objects, parent as int, objects[i].ty().kind());
        &&& objects[i].sibling_rank < ids.len()
        &&& ids[objects[i].sibling_rank as int] == i
    }
}

/// Truth that object `i` fits in the tree
pub open spec fn object_wf(objects: Seq<TopologyObject>, i: int) -> bool {
    &&& parent_wf(objects, i)
    &&& cousins_wf(objects, i)
    &&& index_wf(objects, i)
    &&& os_index_wf(objects, i)
    &&& memory_wf(objects, i)
    &&& siblings_wf(objects, i)
    &&& sets_wf(objects, i)
    &&& child_list_wf(objects, i, ChildKind::Normal)
    &&& child_list_wf(objects, i, ChildKind::Memory)
    &&& child_list_wf(objects, i, ChildKind::Io)
    &&& child_list_wf(objects, i, ChildKind::Misc)
    &&& normal_children_wf(objects, i)
    &&& cpus_wf(objects, i)
    &&& symmetric_wf(objects, i)
    &&& placement_wf(objects, i)
}

/// Truth that a list of objects makes up the tree of a topology
pub open spec fn tree_wf(objects: Seq<TopologyObject>) -> bool {
    &&& objects.len() > 0
    &&& forall|i: int|
        #![trigger objects[i]]
        0 <= i < objects.len() ==> objects[i].id == i && objects[i].identified()
    &&& forall|i: int| 0 <= i < objects.len() ==> #[trigger] object_wf(objects, i)
    &&& forall|i: int| 0 <= i < objects.len() ==> #[trigger] nodes_wf(objects, i)
}

/// Truth that two objects differ in nothing but their name, subtype, attributes
/// and textual information
pub open spec fn same_links(a: TopologyObject, b: TopologyObject) -> bool {
    b == TopologyObject {
        subtype: b.subtype,
        name: b.name,
        attr: b.attr,
        infos: b.infos,
        ..a
    }
}

/// Lists of siblings do not depend on what annotates the objects
proof fn lemma_same_siblings(
    a: Seq<TopologyObject>,
    b: Seq<TopologyObject>,
    start: Option<usize>,
)
    requires
        a.len() == b.len(),
        forall|i: int| 0 <= i < a.len() ==> #[trigger] same_links(a[i], b[i]),
    ensures
        sibling_ids(a, start) == sibling_ids(b, start),
    decreases
            match start {
                Some(i) => a.len() - i,
                None => 0,
            },
{
    if let Some(i) = start {
        if i < a.len() {
            assert(same_links(a[i as int], b[i as int]));
            if let Some(next) = a[i as int].next_sibling {
                if i < next < a.len() {
                    lemma_same_siblings(a, b, Some(next));
                }
            }
        }
    }
}

/// CPUs do not depend on what annotates the objects
proof fn lemma_same_cpus(a: Seq<TopologyObject>, b: Seq<TopologyObject>, ids: Seq<int>)
    requires
        a.len() == b.len(),
        forall|i: int| 0 <= i < a.len() ==> #[trigger] same_links(a[i], b[i]),
        forall|k: int| 0 <= k < ids.len() ==> 0 <= #[trigger] ids[k] < a.len(),
    ensures
        cpus_of(a, ids) == cpus_of(b, ids),
{
    assert forall|cpu: nat| #[trigger]
        cpus_of(a, ids).contains(cpu) == cpus_of(b, ids).contains(cpu) by {
        assert forall|k: int| 0 <= k < ids.len() implies #[trigger] a[ids[k]].has_cpu(cpu)
            == b[ids[k]].has_cpu(cpu) by {
            assert(same_links(a[ids[k]], b[ids[k]]));
        }
        if cpus_of(a, ids).contains(cpu) {
            let k = choose|k: int| 0 <= k < ids.len() && a[#[trigger] ids[k]].has_cpu(cpu);
            assert(b[ids[k]].has_cpu(cpu));
        }
        if cpus_of(b, ids).contains(cpu) {
            let k = choose|k: int| 0 <= k < ids.len() && b[#[trigger] ids[k]].has_cpu(cpu);
            assert(a[ids[k]].has_cpu(cpu));
        }
    }
    assert(cpus_of(a, ids) =~= cpus_of(b, ids));
}

/// Lists of siblings are made of positions of objects
proof fn lemma_sibling_positions(objects: Seq<TopologyObject>, start: Option<usize>)
    ensures
        forall|k: int|
            0 <= k < sibling_ids(objects, start).len() ==> 0 <= #[trigger] sibling_ids(
                objects,
                start,
            )[k] < objects.len(),
    decreases
            match start {
                Some(i) => objects.len() - i,
                None => 0,
            },
{
    let ids = sibling_ids(objects, start);
    if let Some(i) = start {
        if i < objects.len() {
            if let Some(next) = objects[i as int].next_sibling {
                if i < next < objects.len() {
                    lemma_sibling_positions(objects, Some(next));
                    let rest = sibling_ids(objects, Some(next));
                    assert forall|k: int| 0 <= k < ids.len() implies 0 <= #[trigger] ids[k]
                        < objects.len() by {
                        if k > 0 {
                            assert(ids[k] == rest[k - 1]);
                        }
                    }
                }
            }
        }
    }
}

/// Ancestors do not depend on what annotates the objects
proof fn lemma_same_ancestors(a: Seq<TopologyObject>, b: Seq<TopologyObject>, i: int)
    requires
        a.len() == b.len(),
        forall|i: int| 0 <= i < a.len() ==> #[trigger] same_links(a[i], b[i]),
        0 <= i < a.len(),
    ensures
        ancestor_ids(a, i) == ancestor_ids(b, i),
        attachment(a, i) == attachment(b, i),
    decreases i,
{
    assert(same_links(a[i], b[i]));
    if let Some(parent) = a[i].parent {
        if parent < i {
            lemma_same_ancestors(a, b, parent as int);
        }
    }
}

/// The shape of subtrees does not depend on what annotates the objects
proof fn lemma_shape_kept(a: Seq<TopologyObject>, b: Seq<TopologyObject>, i: usize, j: usize)
    requires
        a.len() == b.len(),
        forall|i: int| 0 <= i < a.len() ==> #[trigger] same_links(a[i], b[i]),
        i < a.len(),
        j < a.len(),
    ensures
        same_shape(a, i, j) == same_shape(b, i, j),
    decreases a.len() - i, 0int,
{
    assert(same_links(a[i as int], b[i as int]));
    assert(same_links(a[j as int], b[j as int]));
    lemma_shapes_kept(a, b, first_below(a, i), first_below(a, j));
}

/// The shape of subtrees does not depend on what annotates the objects
proof fn lemma_shapes_kept(
    a: Seq<TopologyObject>,
    b: Seq<TopologyObject>,
    i: Option<usize>,
    j: Option<usize>,
)
    requires
        a.len() == b.len(),
        forall|i: int| 0 <= i < a.len() ==> #[trigger] same_links(a[i], b[i]),
    ensures
        same_shapes(a, i, j) == same_shapes(b, i, j),
    decreases
            (match i {
                Some(i) => a.len() - i,
                None => 0,
            }),
            1int,
{
    if let (Some(i), Some(j)) = (i, j) {
        if i < a.len() && j < a.len() {
            assert(same_links(a[i as int], b[i as int]));
            assert(same_links(a[j as int], b[j as int]));
            lemma_shape_kept(a, b, i, j);
            lemma_shapes_kept(a, b, next_after(a, i), next_after(a, j));
        }
    }
}

/// NUMA nodes do not depend on what annotates the objects
proof fn lemma_same_nodes(a: Seq<TopologyObject>, b: Seq<TopologyObject>, i: int)
    requires
        a.len() == b.len(),
        forall|i: int| 0 <= i < a.len() ==> #[trigger] same_links(a[i], b[i]),
        0 <= i < a.len(),
    ensures
        near_nodes(a, i) == near_nodes(b, i),
{
    lemma_same_ancestors(a, b, i);
    assert forall|m: int, node: nat| #[trigger]
        is_node_near(a, i, m, node) == is_node_near(b, i, m, node) by {
        if 0 <= m < a.len() {
            assert(same_links(a[m], b[m]));
            assert(same_links(a[i], b[i]));
            lemma_same_ancestors(a, b, m);
        }
    }
    assert(has_nodes(a) == has_nodes(b)) by {
        if has_nodes(a) {
            let m = choose|m: int| 0 <= m < a.len() && (#[trigger] a[m]).ty() is NUMANode;
            assert(same_links(a[m], b[m]));
            assert(b[m].ty() is NUMANode);
        }
        if has_nodes(b) {
            let m = choose|m: int| 0 <= m < b.len() && (#[trigger] b[m]).ty() is NUMANode;
            assert(same_links(a[m], b[m]));
            assert(a[m].ty() is NUMANode);
        }
    }
    assert forall|node: nat| #[trigger]
        near_nodes(a, i).contains(node) == near_nodes(b, i).contains(node) by {
        if exists|m: int| #[trigger] is_node_near(a, i, m, node) {
            let m = choose|m: int| #[trigger] is_node_near(a, i, m, node);
            assert(is_node_near(b, i, m, node));
        }
        if exists|m: int| #[trigger] is_node_near(b, i, m, node) {
            let m = choose|m: int| #[trigger] is_node_near(b, i, m, node);
            assert(is_node_near(a, i, m, node));
        }
    }
    assert(near_nodes(a, i) =~= near_nodes(b, i));
}

/// Changing the name, subtype, attributes and textual information of objects
/// leaves the tree alone
pub proof fn law_annotations_keep_tree(a: Seq<TopologyObject>, b: Seq<TopologyObject>)
    requires
        tree_wf(a),
        a.len() == b.len(),
        forall|i: int| 0 <= i < a.len() ==> #[trigger] same_links(a[i], b[i]),
    ensures
        tree_wf(b),
{
    assert forall|i: int| 0 <= i < b.len() implies (#[trigger] b[i]).id == i
        && b[i].identified() by {
        assert(same_links(a[i], b[i]));
    }
    assert forall|i: int| 0 <= i < b.len() implies #[trigger] object_wf(b, i) by {
        assert(object_wf(a, i));
        assert(forall|j: int|
            #![trigger a[j]]
            #![trigger b[j]]
            0 <= j < a.len() ==> same_links(a[j], b[j]));
        assert forall|start: Option<usize>| #[trigger]
            sibling_ids(b, start) == sibling_ids(a, start) by {
            lemma_same_siblings(a, b, start);
        }
        lemma_sibling_positions(a, first_child_id(a[i], ChildKind::Normal));
        let ids = child_ids(a, i, ChildKind::Normal);
        lemma_same_cpus(a, b, ids);
        if a[i].symmetric_subtree != 0 {
            assert forall|k: int| 0 <= k < ids.len() implies b[#[trigger] ids[k]].symmetric_subtree
                != 0 && same_shape(b, ids[0] as usize, ids[k] as usize) by {
                assert(0 <= ids[0] < a.len());
                lemma_shape_kept(a, b, ids[0] as usize, ids[k] as usize);
            }
        }
    }
    assert forall|i: int| 0 <= i < b.len() implies #[trigger] nodes_wf(b, i) by {
        assert(nodes_wf(a, i));
        assert(same_links(a[i], b[i]));
        lemma_same_nodes(a, b, i);
    }
}

/// Chains of parents and lists of siblings are what following the links leads to, as long
/// as parents come before their children and siblings come in order
pub proof fn law_links_are_followed(objects: Seq<TopologyObject>, i: usize)
    requires
        i < objects.len(),
    ensures
        objects[i as int].parent is None ==> ancestor_ids(objects, i as int).len() == 0,
        objects[i as int].parent matches Some(parent) && parent < i ==> ancestor_ids(
            objects,
            i as int,
        ) == seq![objects[i as int].parent->0 as int] + ancestor_ids(
            objects,
            objects[i as int].parent->0 as int,
        ),
        sibling_ids(objects, None).len() == 0,
        objects[i as int].next_sibling is None ==> sibling_ids(objects, Some(i)) == seq![i as int],
        objects[i as int].next_sibling matches Some(next) && i < next < objects.len()
            ==> sibling_ids(objects, Some(i)) == seq![i as int] + sibling_ids(
            objects,
            objects[i as int].next_sibling,
        ),
        child_ids(objects, i as int, ChildKind::Normal) == sibling_ids(
            objects,
            objects[i as int].first_child,
        ),
        child_ids(objects, i as int, ChildKind::Memory) == sibling_ids(
            objects,
            objects[i as int].memory_first_child,
        ),
        child_ids(objects, i as int, ChildKind::Io) == sibling_ids(
            objects,
            objects[i as int].io_first_child,
        ),
        child_ids(objects, i as int, ChildKind::Misc) == sibling_ids(
            objects,
            objects[i as int].misc_first_child,
        ),
        child_count(objects[i as int], ChildKind::Normal) == objects[i as int].arity,
        child_count(objects[i as int], ChildKind::Memory) == objects[i as int].memory_arity,
        child_count(objects[i as int], ChildKind::Io) == objects[i as int].io_arity,
        child_count(objects[i as int], ChildKind::Misc) == objects[i as int].misc_arity,
{
}

/// The first object of the main tree above an object is the object itself if it is in the
/// main tree, and that of its parent otherwise
pub proof fn law_attachment_steps(objects: Seq<TopologyObject>, i: int)
    requires
        0 <= i < objects.len(),
    ensures
        objects[i].ty().normal() ==> attachment(objects, i) == i,
        !objects[i].ty().normal() ==> (objects[i].parent matches Some(parent) && parent < i
            ==> attachment(objects, i) == attachment(objects, objects[i].parent->0 as int)),
{
}

/// Truth that the identity and the upward links of object `i` are in order
pub open spec fn has_place(objects: Seq<TopologyObject>, i: int) -> bool {
    &&& objects[i].id == i
    &&& objects[i].identified()
    &&& i == 0 ==> objects[i].parent is None && objects[i].depth == 0
    &&& i > 0 ==> objects[i].parent is Some && objects[i].parent->0 < i
    &&& objects[i].ty().normal() && i > 0 ==> {
        let parent = objects[objects[i].parent->0 as int];
        &&& 0 <= parent.depth < objects[i].depth
        &&& objects[0].symmetric_subtree != 0 ==> objects[i].depth == parent.depth + 1
    }
    &&& objects[i].ty().memory() && i > 0 ==> {
        let parent = objects[objects[i].parent->0 as int];
        parent.ty().normal() || parent.ty() is MemCache
    }
    &&& objects[i].ty() is NUMANode ==> objects[i].memory_arity == 0
    &&& objects[i].ty() is MemCache ==> objects[i].memory_arity > 0
    &&& objects[i].ty() is PU || objects[i].ty() is NUMANode ==> objects[i].os_index
        != HWLOC_UNKNOWN_INDEX
}

/// Truth that objects `i` and `j` do not contradict each other
pub open spec fn agree(objects: Seq<TopologyObject>, i: int, j: int) -> bool {
    let a = objects[i];
    let b = objects[j];
    &&& a.depth == b.depth ==> {
        &&& i != j ==> a.logical_index != b.logical_index
        &&& a.next_cousin == Some(j as usize) <==> b.logical_index == a.logical_index + 1
        &&& b.prev_cousin == Some(i as usize) <==> b.logical_index == a.logical_index + 1
        &&& a.logical_index < b.logical_index ==> a.next_cousin is Some && b.prev_cousin is Some
        &&& a.object_type == b.object_type
    }
    &&& a.ty() == b.ty() && (a.ty() is PU || a.ty() is NUMANode) && i != j ==> a.os_index
        != b.os_index
    &&& a.next_sibling == Some(j as usize) <==> b.prev_sibling == Some(i as usize)
    &&& a.next_sibling == Some(j as usize) ==> {
        &&& b.parent == a.parent
        &&& b.ty().kind() == a.ty().kind()
        &&& b.sibling_rank == a.sibling_rank + 1
    }
}

/// Truth that the sets of object `i` are in order
pub open spec fn has_right_sets(objects: Seq<TopologyObject>, i: int) -> bool {
    let object = objects[i];
    if object.ty().io() || object.ty() is Misc {
        object.cpuset is None && object.complete_cpuset is None && object.nodeset is None
            && object.complete_nodeset is None
    } else {
        &&& object.cpuset is Some && object.complete_cpuset is Some && object.nodeset is Some
            && object.complete_nodeset is Some
        &&& forall|cpu: nat| #[trigger]
            object.has_cpu(cpu) ==> (object.complete_cpuset->0)@.contains(cpu)
        &&& forall|node: nat| #[trigger]
            object.has_node(node) ==> (object.complete_nodeset->0)@.contains(node)
        &&& i > 0 ==> objects[object.parent->0 as int].cpuset is Some && forall|cpu: nat| #[trigger]
            object.has_cpu(cpu) ==> objects[object.parent->0 as int].has_cpu(cpu)
        &&& object.ty() is PU ==> forall|cpu: nat| #[trigger]
            object.has_cpu(cpu) <==> cpu == object.os_index
        &&& object.ty().normal() && !(object.ty() is PU) ==> forall|cpu: nat| #[trigger]
            object.has_cpu(cpu) <==> child_cpus(objects, i).contains(cpu)
        &&& forall|node: nat| #[trigger]
            object.has_node(node) <==> near_nodes(objects, i).contains(node)
    }
}

/// Truth that a list of children of object `i` starts with `first` and has `count` elements
pub open spec fn is_child_list(
    objects: Seq<TopologyObject>,
    i: int,
    first: Option<usize>,
    count: u32,
    kind: ChildKind,
) -> bool {
    &&& sibling_ids(objects, first).len() == count
    &&& first is Some ==> {
        let child = objects[first->0 as int];
        &&& first->0 < objects.len()
        &&& child.parent == Some(i as usize)
        &&& child.ty().kind() == kind
        &&& child.sibling_rank == 0
        &&& child.prev_sibling is None
    }
}

/// Truth that the children of object `i` are in order
pub open spec fn has_right_children(objects: Seq<TopologyObject>, i: int) -> bool {
    let object = objects[i];
    let ids = sibling_ids(objects, object.first_child);
    &&& is_child_list(objects, i, object.first_child, object.arity, ChildKind::Normal)
    &&& is_child_list(
        objects,
        i,
        object.memory_first_child,
        object.memory_arity,
        ChildKind::Memory,
    )
    &&& is_child_list(objects, i, object.io_first_child, object.io_arity, ChildKind::Io)
    &&& is_child_list(objects, i, object.misc_first_child, object.misc_arity, ChildKind::Misc)
    &&& object.children@.len() == ids.len()
    &&& forall|k: int| 0 <= k < ids.len() ==> #[trigger] object.children@[k] == ids[k]
    &&& ids.len() == 0 ==> object.last_child is None
    &&& ids.len() > 0 ==> object.last_child == Some(ids.last() as usize)
    &&& object.symmetric_subtree != 0 ==> forall|k: int|
        0 <= k < ids.len() ==> objects[#[trigger] ids[k]].symmetric_subtree != 0 && same_shape(
            objects,
            ids[0] as usize,
            ids[k] as usize,
        )
    &&& object.parent matches Some(parent) ==> {
        let siblings = child_ids(objects, parent as int, object.ty().kind());
        object.sibling_rank < siblings.len() && siblings[object.sibling_rank as int] == i
    }
}

/// Truth that the links of object `i` to its siblings and cousins are in range, and that
/// cousins are at the same depth
pub open spec fn has_links_in_range(objects: Seq<TopologyObject>, i: int) -> bool {
    &&& objects[i].next_cousin matches Some(next) ==> next < objects.len()
        && objects[next as int].depth == objects[i].depth
    &&& objects[i].prev_cousin matches Some(prev) ==> prev < objects.len()
        && objects[prev as int].depth == objects[i].depth
    &&& objects[i].next_sibling matches Some(next) ==> i < next < objects.len()
    &&& objects[i].prev_sibling matches Some(prev) ==> prev < i
}

/// Objects make up a tree as soon as they have a place each, agree with each other, and
/// hold what their children hold: no more is asked of them
pub proof fn law_no_more_is_asked_of_trees(objects: Seq<TopologyObject>)
    requires
        0 < objects.len() <= usize::MAX,
        forall|i: int| 0 <= i < objects.len() ==> #[trigger] has_place(objects, i),
        forall|i: int, j: int|
            0 <= i < objects.len() && 0 <= j < objects.len() ==> #[trigger] agree(objects, i, j),
        forall|i: int| 0 <= i < objects.len() ==> #[trigger] has_links_in_range(objects, i),
        forall|i: int| 0 <= i < objects.len() ==> #[trigger] has_right_sets(objects, i),
        forall|i: int| 0 <= i < objects.len() ==> #[trigger] has_right_children(objects, i),
    ensures
        tree_wf(objects),
{
    assert forall|i: int| 0 <= i < objects.len() implies (#[trigger] objects[i]).id == i
        && objects[i].identified() by {
        assert(has_place(objects, i));
    }
    assert forall|i: int| 0 <= i < objects.len() implies #[trigger] object_wf(objects, i) by {
        lemma_place_suffices(objects, i);
        lemma_agreement_suffices(objects, i);
        lemma_sets_suffice(objects, i);
        lemma_children_suffice(objects, i);
    }
    assert forall|i: int| 0 <= i < objects.len() implies #[trigger] nodes_wf(objects, i) by {
        lemma_place_suffices(objects, i);
        lemma_sets_suffice(objects, i);
    }
}

proof fn lemma_place_suffices(objects: Seq<TopologyObject>, i: int)
    requires
        0 <= i < objects.len(),
        has_place(objects, i),
    ensures
        parent_wf(objects, i),
        memory_wf(objects, i),
{
    if i == 0 {
        assert(objects[0].at_depth() is Normal);
    }
}

proof fn lemma_agreement_suffices(objects: Seq<TopologyObject>, i: int)
    requires
        objects.len() <= usize::MAX,
        0 <= i < objects.len(),
        has_place(objects, i),
        has_links_in_range(objects, i),
        forall|j: int, k: int|
            0 <= j < objects.len() && 0 <= k < objects.len() ==> #[trigger] agree(objects, j, k),
    ensures
        cousins_wf(objects, i),
        index_wf(objects, i),
        os_index_wf(objects, i),
        siblings_wf(objects, i),
{
    assert forall|j: int| #![trigger objects[j]] 0 <= j < objects.len() implies agree(
        objects,
        i,
        j,
    ) && agree(objects, j, i) by {
    }
    if let Some(next) = objects[i].next_cousin {
        assert(agree(objects, i, next as int));
    }
    if let Some(prev) = objects[i].prev_cousin {
        assert(agree(objects, prev as int, i));
    }
    if let Some(next) = objects[i].next_sibling {
        assert(agree(objects, i, next as int));
    }
    if let Some(prev) = objects[i].prev_sibling {
        assert(agree(objects, prev as int, i));
    }
}

proof fn lemma_sets_suffice(objects: Seq<TopologyObject>, i: int)
    requires
        0 <= i < objects.len(),
        has_place(objects, i),
        has_right_sets(objects, i),
    ensures
        sets_wf(objects, i),
        cpus_wf(objects, i),
        nodes_wf(objects, i),
{
    let object = objects[i];
    if !(object.ty().io() || object.ty() is Misc) {
        let cpus = (object.cpuset->0)@;
        let nodes = (object.nodeset->0)@;
        assert forall|cpu: nat| #[trigger] cpus.contains(cpu) <==> object.has_cpu(cpu) by {
        }
        assert forall|node: nat| #[trigger] nodes.contains(node) <==> object.has_node(node) by {
        }
        if i > 0 {
            let parent = objects[object.parent->0 as int];
            assert forall|cpu: nat| cpus.contains(cpu) implies (parent.cpuset->0)@.contains(cpu) by {
                assert(object.has_cpu(cpu));
                assert(parent.has_cpu(cpu));
            }
        }
        assert(nodes =~= near_nodes(objects, i));
        if object.ty() is PU {
            assert(cpus =~= set![object.os_index as nat]);
        } else if object.ty().normal() {
            assert(cpus =~= child_cpus(objects, i));
        }
    }
}

proof fn lemma_children_suffice(objects: Seq<TopologyObject>, i: int)
    requires
        0 <= i < objects.len(),
        has_place(objects, i),
        has_right_children(objects, i),
    ensures
        child_list_wf(objects, i, ChildKind::Normal),
        child_list_wf(objects, i, ChildKind::Memory),
        child_list_wf(objects, i, ChildKind::Io),
        child_list_wf(objects, i, ChildKind::Misc),
        normal_children_wf(objects, i),
        symmetric_wf(objects, i),
        placement_wf(objects, i),
{
    let ids = child_ids(objects, i, ChildKind::Normal);
    assert(objects[i].children@.map_values(|id: usize| id as int) =~= ids);
}

} // verus!
