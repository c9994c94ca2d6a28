//! Memory hierarchy and NUMA nodes
use vstd::prelude::*;

use crate::object::ancestors;
use crate::object::children;
use crate::object::types::ChildKind;
use crate::object::TopologyObject;
use crate::topology::tree;

verus! {

/// A memory hierarchy starts from an object of the main tree, below which there are
/// only memory-side caches on the way to a memory object
pub proof fn law_memory_starts_from_normal_object(objects: Seq<TopologyObject>, m: int)
    requires
        tree::tree_wf(objects),
        0 <= m < objects.len(),
        objects[m].ty().memory(),
    ensures
        objects[tree::attachment(objects, m)].ty().normal(),
        ancestors::is_ancestor(objects, tree::attachment(objects, m), m),
        forall|c: int| #[trigger]
            ancestors::is_ancestor(objects, c, m) ==> {
                ||| c == tree::attachment(objects, m)
                ||| ancestors::is_ancestor(objects, c, tree::attachment(objects, m))
                ||| objects[c].ty() is MemCache
            },
    decreases m,
{
    assert(tree::object_wf(objects, m));
    ancestors::lemma_ancestors_of_child(objects, m);
    let p = (objects[m].parent->0) as int;
    assert(tree::attachment(objects, m) == tree::attachment(objects, p));
    if objects[p].ty() is MemCache {
        law_memory_starts_from_normal_object(objects, p);
    } else {
        assert(tree::attachment(objects, p) == p);
    }
}

/// NUMA node at the end of the memory hierarchy that goes through memory object `m`
proof fn lemma_node_below(objects: Seq<TopologyObject>, m: int) -> (n: int)
    requires
        tree::tree_wf(objects),
        0 <= m < objects.len(),
        objects[m].ty().memory(),
    ensures
        0 <= n < objects.len(),
        objects[n].ty() is NUMANode,
        n == m || ancestors::is_ancestor(objects, m, n),
    decreases objects.len() - m,
{
    assert(tree::object_wf(objects, m));
    if objects[m].ty() is NUMANode {
        m
    } else {
        children::law_child_list(objects, m, ChildKind::Memory);
        let c = tree::child_ids(objects, m, ChildKind::Memory)[0];
        ancestors::lemma_ancestors_of_child(objects, c);
        assert(objects[m].id == m);
        assert(ancestors::is_ancestor(objects, m, c));
        let n = lemma_node_below(objects, c);
        if n != c {
            ancestors::lemma_ancestor_of_ancestor(objects, m, c, n);
        }
        n
    }
}

/// A memory hierarchy ends with NUMA nodes, which have no memory children, and there is
/// one below every memory-side cache
pub proof fn law_memory_ends_with_nodes(objects: Seq<TopologyObject>, m: int)
    requires
        tree::tree_wf(objects),
        0 <= m < objects.len(),
        objects[m].ty().memory(),
    ensures
        objects[m].ty() is NUMANode <==> tree::child_ids(
            objects,
            m,
            ChildKind::Memory,
        ).len() == 0,
        objects[m].ty() is MemCache ==> exists|n: int|
            {
                &&& 0 <= n < objects.len()
                &&& #[trigger] objects[n].ty() is NUMANode
                &&& ancestors::is_ancestor(objects, m, n)
            },
{
    assert(tree::object_wf(objects, m));
    let n = lemma_node_below(objects, m);
    assert(objects[n].ty() is NUMANode);
}

/// Truth that object `m` is a NUMA node with a certain OS index, which is under object
/// `i`, or belongs to an object of the main tree that is above it
pub open spec fn is_node_under_or_above(
    objects: Seq<TopologyObject>,
    i: int,
    m: int,
    node: nat,
) -> bool {
    &&& 0 <= m < objects.len()
    &&& objects[m].ty() is NUMANode
    &&& objects[m].os_index == node
    &&& ancestors::is_ancestor(objects, i, m) || ancestors::is_ancestor(
        objects,
        tree::attachment(objects, m),
        i,
    )
}

/// The NUMA nodes of an object of the main tree are those for which there are NUMA node
/// objects under or above it, and all if there are no NUMA nodes in the machine
pub proof fn law_nodes_under_or_above(objects: Seq<TopologyObject>, i: int, node: nat)
    requires
        tree::tree_wf(objects),
        0 <= i < objects.len(),
        objects[i].ty().normal(),
    ensures
        !tree::has_nodes(objects) ==> objects[i].has_node(node),
        tree::has_nodes(objects) ==> (objects[i].has_node(node) <==> exists|m: int| #[trigger]
            is_node_under_or_above(objects, i, m, node)),
{
    assert(tree::nodes_wf(objects, i));
    if exists|m: int| #[trigger] tree::is_node_near(objects, i, m, node) {
        let m = choose|m: int| #[trigger] tree::is_node_near(objects, i, m, node);
        assert(is_node_under_or_above(objects, i, m, node));
    }
    if exists|m: int| #[trigger] is_node_under_or_above(objects, i, m, node) {
        let m = choose|m: int| #[trigger] is_node_under_or_above(objects, i, m, node);
        assert(tree::is_node_near(objects, i, m, node));
    }
}

/// The only NUMA node of a NUMA node object is the one that its OS index designates, and
/// those of a memory-side cache are those below it
pub proof fn law_nodes_of_memory_objects(objects: Seq<TopologyObject>, i: int, node: nat)
    requires
        tree::tree_wf(objects),
        0 <= i < objects.len(),
        objects[i].ty().memory(),
    ensures
        objects[i].ty() is NUMANode ==> (objects[i].has_node(node) <==> objects[i].os_index
            == node),
        objects[i].ty() is MemCache ==> (objects[i].has_node(node) <==> exists|m: int|
            #![trigger objects[m].ty()]
            {
                &&& 0 <= m < objects.len()
                &&& objects[m].ty() is NUMANode
                &&& objects[m].os_index == node
                &&& ancestors::is_ancestor(objects, i, m)
            }),
{
    assert(tree::nodes_wf(objects, i));
    assert(tree::object_wf(objects, i));
    let n = lemma_node_below(objects, i);
    assert(objects[n].ty() is NUMANode);
    assert(tree::has_nodes(objects));
    assert forall|m: int|
        #![trigger ancestors::is_ancestor(objects, i, m)]
        0 <= m < objects.len() && objects[m].ty() is NUMANode && ancestors::is_ancestor(
            objects,
            i,
            m,
        ) implies objects[i].ty() is MemCache by {
        lemma_no_child_of_node(objects, i, m);
    }
    if objects[i].has_node(node) {
        let m = choose|m: int| #[trigger] tree::is_node_near(objects, i, m, node);
        assert(tree::is_node_near(objects, i, m, node));
        assert(objects[m].ty() is NUMANode);
        assert(m == i || ancestors::is_ancestor(objects, i, m));
    }
    if objects[i].ty() is NUMANode && objects[i].os_index == node {
        assert(tree::is_node_near(objects, i, i, node));
    }
    if exists|m: int|
        #![trigger objects[m].ty()]
        {
            &&& 0 <= m < objects.len()
            &&& objects[m].ty() is NUMANode
            &&& objects[m].os_index == node
            &&& ancestors::is_ancestor(objects, i, m)
        } {
        let m = choose|m: int|
            #![trigger objects[m].ty()]
            {
                &&& 0 <= m < objects.len()
                &&& objects[m].ty() is NUMANode
                &&& objects[m].os_index == node
                &&& ancestors::is_ancestor(objects, i, m)
            };
        assert(tree::is_node_near(objects, i, m, node));
    }
}

/// A memory object that is above a memory object is a memory-side cache
proof fn lemma_no_child_of_node(objects: Seq<TopologyObject>, i: int, m: int)
    requires
        tree::tree_wf(objects),
        0 <= i < objects.len(),
        0 <= m < objects.len(),
        objects[i].ty().memory(),
        objects[m].ty().memory(),
        ancestors::is_ancestor(objects, i, m),
    ensures
        objects[i].ty() is MemCache,
    decreases m,
{
    assert(tree::object_wf(objects, m));
    ancestors::lemma_ancestors_of_child(objects, m);
    let p = (objects[m].parent->0) as int;
    if i != p {
        if objects[p].ty().memory() {
            lemma_no_child_of_node(objects, i, p);
        } else {
            assert(objects[p].identified() && objects[i].identified());
            ancestors::lemma_ancestors_are_shallower(objects, p);
            let chain = tree::ancestor_ids(objects, p);
            assert(objects[chain[chain.index_of(i)]].depth >= 0);
        }
    }
}

} // verus!
